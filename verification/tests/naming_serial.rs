use nvmf_subsys::digest::make_subsystem_serial;
use nvmf_subsys::naming::{make_nqn, nvme_nqn_prefix, parse_nqn};

#[test]
fn nqn_has_prefix_and_uuid() {
    let nqn = make_nqn("f099e2ea-61a9-40ce-a1c3-2cb13956355a");
    assert_eq!(nqn, "nqn.2019-05.io.openebs:f099e2ea-61a9-40ce-a1c3-2cb13956355a");
}

#[test]
fn nqn_is_stable() {
    assert_eq!(make_nqn("abc"), make_nqn("abc"));
}

#[test]
fn nqn_round_trips() {
    let uuid = "55b66a8f-6b4e-4a02-98c5-fb7d01f1abe5";
    let nqn = make_nqn(uuid);
    assert_eq!(parse_nqn(nqn.as_str()), Some(uuid.to_string()));
}

#[test]
fn nqn_round_trips_empty_uuid() {
    let nqn = make_nqn("");
    assert_eq!(parse_nqn(nqn.as_str()), Some(String::new()));
}

#[test]
fn parse_rejects_foreign_prefix() {
    assert_eq!(parse_nqn("nqn.2014-08.org.nvmexpress:uuid:x"), None);
    assert_eq!(parse_nqn("malformed"), None);
    assert_eq!(parse_nqn(nvme_nqn_prefix()), None);
}

#[test]
fn serial_is_truncated_sha256_hex() {
    // SHA-256 of the empty input starts with e3b0c44298fc1c149afb...
    let s = make_subsystem_serial(b"");
    assert_eq!(s, "e3b0c44298fc1c149afb");
    // SHA-256 of "abc" starts with ba7816bf8f01cfea4141...
    let s = make_subsystem_serial(b"abc");
    assert_eq!(s, "ba7816bf8f01cfea4141");
}

#[test]
fn serial_is_stable_and_short() {
    let a = make_subsystem_serial(b"6e3c062c-293b-46e6-8ab3-ff13c1643437");
    let b = make_subsystem_serial(b"6e3c062c-293b-46e6-8ab3-ff13c1643437");
    assert_eq!(a, b);
    assert!(a.len() <= 20);
    let c = make_subsystem_serial(b"6b177ff6-0100-4456-af52-8875b1641079");
    assert_ne!(a, c);
}

#[test]
fn nqn_round_trips_with_colon_in_uuid() {
    let nqn = make_nqn("a:b");
    assert_eq!(parse_nqn(nqn.as_str()), Some("a:b".to_string()));
}
