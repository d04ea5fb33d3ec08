use onlyclimb_launcher::fingerprint::{
    fingerprint_from_ids, generate_fingerprint, read_registry_guid, run_wmic,
};

#[test]
fn wmic_value_is_the_second_line() {
    let out = b"UUID                                  \r\r\n4C4C4544-0042-3510  \r\r\n\r\r\n";
    assert_eq!(run_wmic(Some(&out[..])), "4C4C4544-0042-3510");
    assert_eq!(run_wmic(Some(&b"VolumeSerialNumber\n  ABCD1234\n"[..])), "ABCD1234");
}

#[test]
fn wmic_without_value_is_unknown() {
    assert_eq!(run_wmic(Some(&b"UUID\r\n"[..])), "UNKNOWN");
    assert_eq!(run_wmic(Some(&b""[..])), "UNKNOWN");
    assert_eq!(run_wmic(None), "UNKNOWN");
}

#[test]
fn wmic_tolerates_invalid_utf8() {
    let out = b"\xffHEADER\nVALUE\n";
    assert_eq!(run_wmic(Some(&out[..])), "VALUE");
    let bad_value = b"HEADER\n\xff\n";
    assert_eq!(run_wmic(Some(&bad_value[..])), "\u{fffd}");
}

#[test]
fn registry_guid_is_the_last_word() {
    let out = b"\r\nHKEY_LOCAL_MACHINE\\SOFTWARE\\Microsoft\\Cryptography\r\n    MachineGuid    REG_SZ    1111-2222-3333  \r\n\r\n";
    assert_eq!(read_registry_guid(Some(&out[..])), "1111-2222-3333");
}

#[test]
fn registry_without_guid_is_unknown() {
    assert_eq!(read_registry_guid(Some(&b"ERROR: not found\r\n"[..])), "UNKNOWN");
    assert_eq!(read_registry_guid(None), "UNKNOWN");
    assert_eq!(read_registry_guid(Some(&b"xMachineGuidx\n"[..])), "xMachineGuidx");
}

#[test]
fn fingerprint_of_known_ids() {
    assert_eq!(fingerprint_from_ids("a", "b", "c"), "A52DD81BFD5E4E66");
    assert_eq!(fingerprint_from_ids(" a ", "\tb", "c\n"), "A52DD81BFD5E4E66");
    assert_eq!(fingerprint_from_ids("UNKNOWN", "UNKNOWN", "UNKNOWN"), "691659E84797CD7D");
}

#[test]
fn fingerprint_shape() {
    for (u, v, g) in [("", "", ""), ("x", "y", "z"), ("é", "ü", "漢")] {
        let f = fingerprint_from_ids(u, v, g);
        assert_eq!(f.len(), 16);
        assert!(f.chars().all(|c| c.is_ascii_digit() || ('A'..='F').contains(&c)));
    }
}

#[test]
fn fingerprint_from_command_outputs() {
    let uuid = b"UUID\r\n4C4C4544\r\n";
    let vol = b"VolumeSerialNumber\r\nABCD1234\r\n";
    let reg = b"\r\nHKEY\r\n    MachineGuid    REG_SZ    1111-2222\r\n";
    assert_eq!(
        generate_fingerprint(Some(&uuid[..]), Some(&vol[..]), Some(&reg[..])),
        "AD5F645CADD192AA"
    );
    assert_eq!(generate_fingerprint(None, None, None), "691659E84797CD7D");
}

#[test]
fn fingerprint_is_sixteen_uppercase_hex_digits() {
    let outputs: [Option<&[u8]>; 3] = [None, Some(&b"x\n"[..]), Some(&b"UUID\r\nABC\r\n"[..])];
    for a in outputs.iter() {
        for b in outputs.iter() {
            let f = generate_fingerprint(*a, *b, None);
            assert_eq!(f.len(), 16);
            assert!(f.chars().all(|c| c.is_ascii_digit() || ('A'..='F').contains(&c)));
        }
    }
}
