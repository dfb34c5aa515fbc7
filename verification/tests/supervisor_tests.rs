use stow_launcher::dispatch::dispatch;
use stow_launcher::dispatch::Action;
use stow_launcher::dispatch::Command;
use stow_launcher::envfile::parse_env_bytes;
use stow_launcher::envfile::EnvMap;
use stow_launcher::supervisor::child_env;
use stow_launcher::supervisor::default_overrides;
use stow_launcher::supervisor::Supervisor;
use stow_launcher::DEFAULT_PORT;

fn get_str(m: &EnvMap, key: &str) -> Option<String> {
    m.get(&key.as_bytes().to_vec()).map(|v| String::from_utf8(v.clone()).unwrap())
}

#[test]
fn stop_with_no_handle_is_a_noop() {
    let mut s = Supervisor::new();
    assert_eq!(s.current(), None);
    assert_eq!(s.stop(), None);
    assert_eq!(s.current(), None);
    assert_eq!(s.stop(), None);
}

#[test]
fn spawn_is_planned_only_with_every_piece_in_place() {
    let s = Supervisor::new();
    let dir = Some(b"/srv/standalone".to_vec());
    let node = Some(b"/usr/bin/node".to_vec());
    let env = EnvMap::new();
    assert!(s.plan_start(&dir, true, &node, &env, DEFAULT_PORT).is_some());
    assert!(s.plan_start(&None, true, &node, &env, DEFAULT_PORT).is_none());
    assert!(s.plan_start(&dir, false, &node, &env, DEFAULT_PORT).is_none());
    assert!(s.plan_start(&dir, true, &None, &env, DEFAULT_PORT).is_none());
}

#[test]
fn spawn_spec_runs_the_entry_artifact_in_the_resolved_directory() {
    let s = Supervisor::new();
    let dir = Some(b"/srv/standalone".to_vec());
    let node = Some(b"/usr/bin/node".to_vec());
    let env = EnvMap::new();
    let sp = s.plan_start(&dir, true, &node, &env, DEFAULT_PORT).unwrap();
    assert_eq!(sp.program, b"/usr/bin/node".to_vec());
    assert_eq!(sp.arg, b"server.js".to_vec());
    assert_eq!(sp.cwd, b"/srv/standalone".to_vec());
    assert_eq!(get_str(&sp.env, "PORT"), Some("3088".to_string()));
    assert_eq!(get_str(&sp.env, "HOSTNAME"), Some("localhost".to_string()));
}

#[test]
fn a_second_start_is_refused_while_a_child_is_owned() {
    let mut s = Supervisor::new();
    let dir = Some(b"/srv/standalone".to_vec());
    let node = Some(b"/usr/bin/node".to_vec());
    let env = EnvMap::new();
    assert!(s.plan_start(&dir, true, &node, &env, DEFAULT_PORT).is_some());
    s.note_spawned(4711);
    assert_eq!(s.current(), Some(4711));
    assert!(s.plan_start(&dir, true, &node, &env, DEFAULT_PORT).is_none());
    assert_eq!(s.stop(), Some(4711));
    assert!(s.plan_start(&dir, true, &node, &env, DEFAULT_PORT).is_some());
}

#[test]
fn failed_resolution_still_quits_cleanly() {
    // resolution found nothing: no spawn is planned, nothing is tracked,
    // and the quit path kills nothing yet still shuts down
    let mut s = Supervisor::new();
    let env = EnvMap::new();
    let planned = s.plan_start(&None, false, &None, &env, DEFAULT_PORT);
    assert!(planned.is_none());
    assert_eq!(s.current(), None);
    assert_eq!(dispatch(Command::Quit), Action::Shutdown);
    assert_eq!(s.stop(), None);
}

#[test]
fn default_overrides_hold_port_and_hostname() {
    let m = default_overrides(DEFAULT_PORT);
    assert_eq!(m.len(), 2);
    assert_eq!(get_str(&m, "PORT"), Some("3088".to_string()));
    assert_eq!(get_str(&m, "HOSTNAME"), Some("localhost".to_string()));
}

#[test]
fn environment_file_overrides_the_fixed_port() {
    let file_env = parse_env_bytes(&b"PORT=9999".to_vec());
    let merged = child_env(&file_env, DEFAULT_PORT);
    assert_eq!(get_str(&merged, "PORT"), Some("9999".to_string()));
    assert_eq!(get_str(&merged, "HOSTNAME"), Some("localhost".to_string()));
}

#[test]
fn environment_file_keys_join_the_fixed_overrides() {
    let file_env = parse_env_bytes(&b"DATABASE_URL=postgres://localhost/x\nHOSTNAME=0.0.0.0".to_vec());
    let merged = child_env(&file_env, DEFAULT_PORT);
    assert_eq!(merged.len(), 3);
    assert_eq!(get_str(&merged, "PORT"), Some("3088".to_string()));
    assert_eq!(get_str(&merged, "HOSTNAME"), Some("0.0.0.0".to_string()));
    assert_eq!(get_str(&merged, "DATABASE_URL"), Some("postgres://localhost/x".to_string()));
}
