use stow_launcher::envfile::parse_env_bytes;
use stow_launcher::envfile::EnvMap;

fn parse(s: &str) -> EnvMap {
    parse_env_bytes(&s.as_bytes().to_vec())
}

fn get_str(m: &EnvMap, key: &str) -> Option<String> {
    m.get(&key.as_bytes().to_vec()).map(|v| String::from_utf8(v.clone()).unwrap())
}

#[test]
fn valid_lines_one_key_per_distinct_name() {
    let m = parse("A=1\nB=2\nC=3");
    assert_eq!(m.len(), 3);
    assert_eq!(get_str(&m, "A"), Some("1".to_string()));
    assert_eq!(get_str(&m, "B"), Some("2".to_string()));
    assert_eq!(get_str(&m, "C"), Some("3".to_string()));
}

#[test]
fn duplicate_keys_resolve_to_last_occurrence() {
    let m = parse("A=1\nB=2\nA=3\nA=4\nB=5");
    assert_eq!(m.len(), 2);
    assert_eq!(get_str(&m, "A"), Some("4".to_string()));
    assert_eq!(get_str(&m, "B"), Some("5".to_string()));
}

#[test]
fn blank_and_comment_lines_do_not_change_the_map() {
    let with_noise = parse("\n# leading comment\nA=1\n\n   \n# B=9\nB=2\n\n");
    let data_only = parse("A=1\nB=2");
    assert_eq!(with_noise.len(), data_only.len());
    assert_eq!(get_str(&with_noise, "A"), get_str(&data_only, "A"));
    assert_eq!(get_str(&with_noise, "B"), get_str(&data_only, "B"));
}

#[test]
fn comment_after_leading_whitespace_is_ignored() {
    let m = parse("   # A=1\nB=2");
    assert_eq!(m.len(), 1);
    assert_eq!(get_str(&m, "A"), None);
    assert_eq!(get_str(&m, "B"), Some("2".to_string()));
}

#[test]
fn line_without_equals_is_ignored() {
    let m = parse("JUSTAWORD\nA=1");
    assert_eq!(m.len(), 1);
    assert_eq!(get_str(&m, "A"), Some("1".to_string()));
}

#[test]
fn sides_are_trimmed_and_split_at_first_equals() {
    let m = parse("  KEY  =  some value  \nURL=http://x?a=b");
    assert_eq!(get_str(&m, "KEY"), Some("some value".to_string()));
    assert_eq!(get_str(&m, "URL"), Some("http://x?a=b".to_string()));
}

#[test]
fn empty_value_and_empty_key_are_kept_as_written() {
    let m = parse("EMPTY=\n=orphan");
    assert_eq!(get_str(&m, "EMPTY"), Some("".to_string()));
    assert_eq!(get_str(&m, ""), Some("orphan".to_string()));
}

#[test]
fn crlf_endings_are_trimmed() {
    let m = parse("A=1\r\nB=2\r\n");
    assert_eq!(m.len(), 2);
    assert_eq!(get_str(&m, "A"), Some("1".to_string()));
    assert_eq!(get_str(&m, "B"), Some("2".to_string()));
}

#[test]
fn empty_content_yields_empty_map() {
    let m = parse("");
    assert_eq!(m.len(), 0);
    assert_eq!(get_str(&m, "A"), None);
}

#[test]
fn insert_overwrites_and_get_finds() {
    let mut m = EnvMap::new();
    m.insert(b"K".to_vec(), b"1".to_vec());
    m.insert(b"K".to_vec(), b"2".to_vec());
    m.insert(b"L".to_vec(), b"3".to_vec());
    assert_eq!(m.len(), 2);
    assert_eq!(m.get(&b"K".to_vec()), Some(&b"2".to_vec()));
    assert_eq!(m.get(&b"L".to_vec()), Some(&b"3".to_vec()));
    assert_eq!(m.get(&b"M".to_vec()), None);
}

#[test]
fn overlay_prefers_the_layered_map() {
    let mut base = EnvMap::new();
    base.insert(b"A".to_vec(), b"base".to_vec());
    base.insert(b"B".to_vec(), b"keep".to_vec());
    let mut over = EnvMap::new();
    over.insert(b"A".to_vec(), b"over".to_vec());
    over.insert(b"C".to_vec(), b"new".to_vec());
    base.overlay(&over);
    assert_eq!(base.len(), 3);
    assert_eq!(base.get(&b"A".to_vec()), Some(&b"over".to_vec()));
    assert_eq!(base.get(&b"B".to_vec()), Some(&b"keep".to_vec()));
    assert_eq!(base.get(&b"C".to_vec()), Some(&b"new".to_vec()));
}

#[test]
fn into_entries_holds_each_key_once() {
    let m = parse("A=1\nA=2\nB=3");
    let entries = m.into_entries();
    assert_eq!(entries.len(), 2);
    let mut seen: Vec<(String, String)> = entries
        .iter()
        .map(|e| {
            (
                String::from_utf8(e.key.clone()).unwrap(),
                String::from_utf8(e.value.clone()).unwrap(),
            )
        })
        .collect();
    seen.sort();
    assert_eq!(
        seen,
        vec![("A".to_string(), "2".to_string()), ("B".to_string(), "3".to_string())]
    );
}
