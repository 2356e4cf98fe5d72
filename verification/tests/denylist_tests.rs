use nukedns::denylist::DenylistStore;
use nukedns::domain::{bytes_eq, normalize_name};

fn bytes(s: &str) -> Vec<u8> {
    s.as_bytes().to_vec()
}

#[test]
fn load_strips_adblock_wrappers() {
    let deny = DenylistStore::load(&bytes("||ads.example.com^\n||tracker.test^\nplain.example\n"));
    assert!(deny.contains(&bytes("ads.example.com")));
    assert!(deny.contains(&bytes("tracker.test")));
    assert!(deny.contains(&bytes("plain.example")));
    assert!(!deny.contains(&bytes("example.com")));
}

#[test]
fn match_is_exact_not_suffix() {
    let deny = DenylistStore::load(&bytes("||ads.example.com^\n"));
    assert!(!deny.contains(&bytes("example.com")));
    assert!(!deny.contains(&bytes("sub.ads.example.com")));
}

#[test]
fn load_normalizes_case_and_trailing_dot() {
    let deny = DenylistStore::load(&bytes("||AdS.ExAmPlE.CoM^\nother.test.\n"));
    assert!(deny.contains(&bytes("ads.example.com")));
    assert!(deny.contains(&bytes("other.test")));
}

#[test]
fn load_strips_repeated_wrappers() {
    let deny = DenylistStore::load(&bytes("||||doubled.example^^\n"));
    assert!(deny.contains(&bytes("doubled.example")));
    assert!(!deny.contains(&bytes("||doubled.example")));
}

#[test]
fn load_accepts_crlf_lines() {
    let deny = DenylistStore::load(&bytes("a.example\r\nb.example\r\n"));
    assert!(deny.contains(&bytes("a.example")));
    assert!(deny.contains(&bytes("b.example")));
}

#[test]
fn empty_lines_never_block_the_root_name() {
    let deny = DenylistStore::load(&bytes(""));
    assert!(!deny.contains(&bytes("example.com")));
    assert!(!deny.contains(&bytes("")));
    let deny = DenylistStore::load(&bytes("a.example\n\n^\n"));
    assert!(deny.contains(&bytes("a.example")));
    assert!(!deny.contains(&bytes("")));
    let deny = DenylistStore::new();
    assert!(!deny.contains(&bytes("")));
}

#[test]
fn normalize_name_folds_case_and_strips_dots() {
    let n = normalize_name(&bytes("ADS.Example.COM.."));
    assert!(bytes_eq(&n, &bytes("ads.example.com")));
    let already = normalize_name(&bytes("ads.example.com"));
    assert!(bytes_eq(&already, &bytes("ads.example.com")));
    assert!(!bytes_eq(&n, &bytes("ads.example.com.")));
}
