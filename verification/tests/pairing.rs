use punktfunk::native_pairing::store::{Access, GrantMasks, PairedClients, TrustStore};

const MASKS: GrantMasks = GrantMasks {
    all: 0xff,
    legacy_full: 0x1f,
};

fn keep(_: &PairedClients) -> bool {
    true
}

fn refuse(_: &PairedClients) -> bool {
    false
}

fn plainly(name: &str, _fp: &str) -> String {
    name.to_string()
}

#[test]
fn corrupt_store_files_open_empty() {
    let cases: [&[u8]; 3] = [b"", br#"{"clients":["#, b"not json"];

    for contents in cases {
        let read = serde_json::from_slice::<serde_json::Value>(contents)
            .ok()
            .map(|_| PairedClients { clients: vec![] });
        assert!(read.is_none());
        let store = TrustStore::open(read);

        assert_eq!(store.count(), 0);
        assert!(store.list().is_empty());
    }
}

#[test]
fn a_paired_client_is_found_in_any_case() {
    let mut s = TrustStore::open(None);
    assert!(s.add("laptop", "ABcd01", 100, plainly, keep));
    assert!(s.is_paired("abCD01"));
    assert!(!s.is_paired("abcd02"));
    assert_eq!(s.effective("abcd01", 100, &MASKS), Some(0xff));
    assert_eq!(s.get("abcd01").unwrap().name, "laptop");
    assert_eq!(s.get("abcd01").unwrap().grants, None);
    assert_eq!(s.count(), 1);
}

#[test]
fn pairing_again_keeps_the_access_it_had() {
    let mut s = TrustStore::open(None);
    let view_only = Access {
        grants: 1,
        expires_unix: Some(500),
        until_disconnect: false,
    };
    assert!(s.add_with_access("tv", "aa", Some(view_only), 100, plainly, keep));
    assert!(s.add("tv in the den", "AA", 200, plainly, keep));
    let c = s.get("aa").unwrap();
    assert_eq!(c.name, "tv in the den");
    assert_eq!(c.grants, Some(1));
    assert_eq!(c.granted_unix, Some(100));
    assert_eq!(s.effective("aa", 499, &MASKS), Some(1));
    assert_eq!(s.effective("aa", 500, &MASKS), None);
    assert!(s.is_paired("aa"), "an expired record is still there");
}

#[test]
fn grants_are_masked() {
    let mut s = TrustStore::open(None);
    let with = |grants| Access {
        grants,
        expires_unix: None,
        until_disconnect: true,
    };
    assert!(s.add_with_access("a", "aa", Some(with(0x1f)), 1, plainly, keep));
    assert_eq!(s.effective("aa", 1, &MASKS), Some(0xff));
    assert_eq!(s.set_access("aa", with(0xf00 | 3), 2, keep), Some(true));
    assert_eq!(s.effective("aa", 1, &MASKS), Some(3));
    assert_eq!(s.set_access("zz", with(1), 2, keep), Some(false));
    assert_eq!(s.set_pad_slot("aa", Some(2), keep), Some(true));
    assert_eq!(s.get("aa").unwrap().preferred_pad_slot, Some(2));
    assert_eq!(s.set_pad_slot("zz", None, keep), Some(false));
}

#[test]
fn what_cannot_be_written_does_not_happen() {
    let mut s = TrustStore::open(None);
    assert!(!s.add("a", "aa", 1, plainly, refuse));
    assert_eq!(s.count(), 0);
    assert!(s.add("a", "aa", 1, plainly, keep));
    assert_eq!(s.remove("aa", refuse), None);
    assert_eq!(s.remove_all(refuse), None);
    assert_eq!(s.set_pad_slot("aa", Some(1), refuse), None);
    assert!(s.is_paired("aa"));
    assert_eq!(s.get("aa").unwrap().preferred_pad_slot, None);
}

#[test]
fn a_removed_client_is_gone() {
    let mut s = TrustStore::open(None);
    assert!(s.add("a", "aa", 1, plainly, keep));
    assert!(s.add("b", "bb", 1, plainly, keep));
    assert_eq!(s.remove("AA", keep), Some(true));
    assert_eq!(s.remove("aa", keep), Some(false));
    assert!(!s.is_paired("aa"));
    assert_eq!(s.effective("aa", 1, &MASKS), None);
    assert!(s.is_paired("bb"));
    assert!(s.add("c", "cc", 1, plainly, keep));
    assert_eq!(
        s.remove_all(keep),
        Some(vec!["bb".to_string(), "cc".to_string()])
    );
    assert_eq!(s.remove_all(refuse), Some(vec![]), "nothing to write");
    assert_eq!(s.count(), 0);
}

#[test]
fn a_name_is_kept_as_it_is_cleaned() {
    let mut s = TrustStore::open(None);
    let clean = |n: &str, fp: &str| format!("{} ({})", n.trim(), &fp[..2]);
    assert!(s.add("  tv\u{7}  ", "abcd", 1, clean, keep));
    assert_eq!(s.get("abcd").unwrap().name, "tv\u{7} (ab)");
    assert!(s.add_cleaned("den", "abcd", None, 2, keep));
    assert_eq!(s.get("abcd").unwrap().name, "den");
}
