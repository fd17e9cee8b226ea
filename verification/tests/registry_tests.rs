use library::reg_stub;
use library::reg::{hex_decode_chars, hex_encode_bytes, RegistryStore, HKEY_CURRENT_USER, HKEY_LOCAL_MACHINE};

#[test]
fn registry_values_read_back() {
    let mut r = RegistryStore::new();
    r.write_string(HKEY_CURRENT_USER, "Software\\App", "Name", "cosmos");
    r.write_u32(HKEY_CURRENT_USER, "Software\\App", "Speed", 42);
    r.write_bool_str(HKEY_CURRENT_USER, "Software\\App", "Enabled", true);
    r.write_binary(HKEY_CURRENT_USER, "Software\\App", "Blob", &[0x00, 0xab, 0xff]);
    assert_eq!(r.read_string(HKEY_CURRENT_USER, "software\\app", "NAME"), Some("cosmos".to_string()));
    assert_eq!(r.read_u32(HKEY_CURRENT_USER, "Software\\App", "Speed"), Some(42));
    assert!(r.read_bool_str(HKEY_CURRENT_USER, "Software\\App", "Enabled"));
    assert_eq!(r.read_binary(HKEY_CURRENT_USER, "Software\\App", "Blob"), Some(vec![0x00, 0xab, 0xff]));
    assert_eq!(r.read_string(HKEY_LOCAL_MACHINE, "Software\\App", "Name"), None);
    assert_eq!(r.read_u32(HKEY_CURRENT_USER, "Software\\App", "Name"), None);
}

#[test]
fn registry_overwrite_delete_and_list() {
    let mut r = RegistryStore::new();
    r.write_string(HKEY_CURRENT_USER, "P", "a", "1");
    r.write_string(HKEY_CURRENT_USER, "P", "a", "2");
    r.write_string(HKEY_CURRENT_USER, "P", "b", "3");
    r.write_u32(HKEY_CURRENT_USER, "P", "n", 7);
    assert_eq!(r.read_string(HKEY_CURRENT_USER, "P", "a"), Some("2".to_string()));
    assert_eq!(
        r.list_values(HKEY_CURRENT_USER, "P"),
        vec![("a".to_string(), "2".to_string()), ("b".to_string(), "3".to_string())]
    );
    r.delete_value(HKEY_CURRENT_USER, "P", "a");
    assert_eq!(r.read_string(HKEY_CURRENT_USER, "P", "a"), None);
    assert_eq!(r.read_string(HKEY_CURRENT_USER, "P", "b"), Some("3".to_string()));
    assert!(!r.read_bool_str(HKEY_CURRENT_USER, "P", "b"));
}

#[test]
fn hex_encoding_round_trips() {
    let enc = hex_encode_bytes(&[0x01, 0x9f, 0xe0]);
    assert_eq!(enc.iter().collect::<String>(), "019fe0");
    assert_eq!(hex_decode_chars(&enc), vec![0x01, 0x9f, 0xe0]);
    assert_eq!(hex_decode_chars(&"0Gff1".chars().collect()), vec![0xff]);
}

#[test]
fn registry_stub_reports_nothing() {
    assert_eq!(reg_stub::read_string(HKEY_CURRENT_USER, "a", "b"), None);
    assert!(reg_stub::write_string(HKEY_CURRENT_USER, "a", "b", "c").is_ok());
    assert_eq!(reg_stub::read_u32(HKEY_CURRENT_USER, "a", "b"), None);
}

#[test]
fn registry_values_survive_other_writes_and_deletes() {
    let mut r = RegistryStore::new();
    r.write_binary(HKEY_CURRENT_USER, "Soft\\X", "Blob", &[0x00, 0xff, 0x10]);
    r.write_bool_str(HKEY_CURRENT_USER, "Soft\\X", "On", false);
    r.write_string(HKEY_CURRENT_USER, "Soft\\X", "Name", "v");
    r.write_string(HKEY_CURRENT_USER, "Soft\\X", "Blo", "other");
    r.write_string(HKEY_LOCAL_MACHINE, "Soft\\X", "Name", "w");
    r.delete_value(HKEY_CURRENT_USER, "Soft", "X");
    r.write_u32(HKEY_CURRENT_USER, "Soft\\X\\Y", "Name", 3);
    assert_eq!(r.read_binary(HKEY_CURRENT_USER, "soft\\x", "BLOB"), Some(vec![0, 255, 16]));
    assert!(!r.read_bool_str(HKEY_CURRENT_USER, "Soft\\X", "On"));
    assert_eq!(r.read_string(HKEY_CURRENT_USER, "SOFT\\x", "name"), Some("v".to_string()));
    assert!(!r.read_bool_str(HKEY_CURRENT_USER, "Soft\\X", "Missing"));
}

#[test]
fn registry_paths_may_hold_equals_signs() {
    let mut r = RegistryStore::new();
    r.write_string(HKEY_CURRENT_USER, "a=b", "k", "one");
    r.write_string(HKEY_CURRENT_USER, "a", "b::k", "two");
    r.write_bool_str(HKEY_CURRENT_USER, "A=B", "flag", true);
    r.delete_value(HKEY_CURRENT_USER, "a=b", "other");
    assert_eq!(r.read_string(HKEY_CURRENT_USER, "A=b", "K"), Some("one".to_string()));
    assert_eq!(r.read_string(HKEY_CURRENT_USER, "a", "b::k"), Some("two".to_string()));
    assert!(r.read_bool_str(HKEY_CURRENT_USER, "a=b", "FLAG"));
}
