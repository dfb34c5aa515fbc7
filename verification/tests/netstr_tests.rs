use stow_launcher::netstr::probe_addr;
use stow_launcher::netstr::rescan_url;
use stow_launcher::netstr::root_url;
use stow_launcher::text::push_decimal;
use stow_launcher::DEFAULT_PORT;

#[test]
fn the_probe_address_names_localhost_and_the_port() {
    assert_eq!(probe_addr(DEFAULT_PORT), b"localhost:3088".to_vec());
    assert_eq!(probe_addr(80), b"localhost:80".to_vec());
}

#[test]
fn the_root_url_points_at_the_local_server() {
    assert_eq!(root_url(DEFAULT_PORT), b"http://localhost:3088".to_vec());
    assert_eq!(root_url(9999), b"http://localhost:9999".to_vec());
}

#[test]
fn the_rescan_endpoint_is_under_api_scan() {
    assert_eq!(rescan_url(DEFAULT_PORT), b"http://localhost:3088/api/scan".to_vec());
    assert_eq!(rescan_url(1), b"http://localhost:1/api/scan".to_vec());
}

#[test]
fn decimal_digits_have_no_leading_zeros() {
    let cases: [(u16, &[u8]); 7] = [
        (0, b"0"),
        (7, b"7"),
        (10, b"10"),
        (200, b"200"),
        (3088, b"3088"),
        (9999, b"9999"),
        (65535, b"65535"),
    ];
    for (n, expect) in cases {
        let mut out: Vec<u8> = Vec::new();
        push_decimal(&mut out, n);
        assert_eq!(out, expect.to_vec());
    }
}

#[test]
fn push_decimal_appends_after_existing_bytes() {
    let mut out = b"x=".to_vec();
    push_decimal(&mut out, 42);
    assert_eq!(out, b"x=42".to_vec());
}
