use onlyclimb_launcher::license::{
    license_file_content, parse_license_content, read_license, StoredLicense,
};
use onlyclimb_launcher::paths::{app_data_dir, exe_dir, legacy_license_path, license_path};

#[test]
fn parses_a_saved_license() {
    let l = parse_license_content(
        "license_key=ABCDE-12345\nfingerprint=D3BC655F35674C56\ntiktok_username=@climber\n",
    )
    .unwrap();
    assert_eq!(l.license_key, "ABCDE-12345");
    assert_eq!(l.fingerprint, "D3BC655F35674C56");
    assert_eq!(l.tiktok_username, "@climber");
}

#[test]
fn values_are_trimmed_and_crlf_is_accepted() {
    let l = parse_license_content("license_key=  KEY \r\nfingerprint= FP\r\ntiktok_username=\tme \r\n")
        .unwrap();
    assert_eq!(l.license_key, "KEY");
    assert_eq!(l.fingerprint, "FP");
    assert_eq!(l.tiktok_username, "me");
}

#[test]
fn last_value_wins_and_other_lines_are_ignored() {
    let l = parse_license_content(
        "# comment\nlicense_key=old\nunknown=1\nlicense_key=new\n fingerprint=ignored\n",
    )
    .unwrap();
    assert_eq!(l.license_key, "new");
    assert_eq!(l.fingerprint, "");
    assert_eq!(l.tiktok_username, "");
}

#[test]
fn no_key_means_no_license() {
    assert!(parse_license_content("").is_none());
    assert!(parse_license_content("fingerprint=FP\ntiktok_username=me\n").is_none());
    assert!(parse_license_content("license_key=   \n").is_none());
    assert!(parse_license_content("license_key=KEY\nlicense_key=\n").is_none());
}

#[test]
fn written_license_reads_back() {
    let text = license_file_content("KEY-1", "0123456789ABCDEF", "@me");
    assert_eq!(text, "license_key=KEY-1\nfingerprint=0123456789ABCDEF\ntiktok_username=@me\n");
    let l = parse_license_content(&text).unwrap();
    assert_eq!(l.license_key, "KEY-1");
    assert_eq!(l.fingerprint, "0123456789ABCDEF");
    assert_eq!(l.tiktok_username, "@me");
}

#[test]
fn readable_file_decides() {
    let primary = Some(String::from("license_key=A\n"));
    let legacy = Some(String::from("license_key=B\n"));
    assert_eq!(read_license(primary, legacy.clone()).unwrap().license_key, "A");
    assert_eq!(read_license(None, legacy.clone()).unwrap().license_key, "B");
    assert!(read_license(Some(String::from("nothing here")), legacy).is_none());
    assert!(read_license(None, None).is_none());
}

#[test]
fn stored_license_is_plain_data() {
    let l = StoredLicense {
        license_key: String::from("k"),
        fingerprint: String::from("f"),
        tiktok_username: String::from("t"),
    };
    let c = l.clone();
    assert_eq!(c.license_key, "k");
}

fn one_of(s: &str, base: &str, name: &str) -> bool {
    s == format!("{}{}", base, name)
        || s == format!("{}/{}", base, name)
        || s == format!("{}\\{}", base, name)
}

#[test]
fn license_file_locations() {
    let dir = app_data_dir(Some(String::from("/data/local")));
    assert!(one_of(&dir, "/data/local", "OnlyClimb"));
    let dot = app_data_dir(None);
    assert!(one_of(&dot, ".", "OnlyClimb"));
    let p = license_path(Some(String::from("/data/local")));
    assert!(one_of(&p, &dir, "license.key"));
    assert!(p.ends_with("license.key"));
    assert!(p.starts_with("/data/local"));
    let legacy = legacy_license_path(Some(String::from("/opt/game/launcher")));
    assert!(one_of(&legacy, "/opt/game", "license.key"));
    assert!(one_of(&legacy_license_path(None), ".", "license.key"));
    assert_eq!(exe_dir(Some(String::from("/opt/game/launcher"))), "/opt/game");
    assert_eq!(exe_dir(None), ".");
}

#[test]
fn data_directory_gets_a_separator() {
    let dir = app_data_dir(Some(String::from("/data/local")));
    assert!(dir == "/data/local/OnlyClimb" || dir == "/data/local\\OnlyClimb");
    assert_ne!(dir, "/data/localOnlyClimb");
    let p = license_path(Some(String::from("/data/local/")));
    assert!(p == "/data/local/OnlyClimb/license.key" || p == "/data/local/OnlyClimb\\license.key");
    assert_eq!(legacy_license_path(Some(String::from("launcher"))), "license.key");
    assert_eq!(exe_dir(Some(String::from("launcher"))), "");
    assert_eq!(exe_dir(Some(String::from(""))), ".");
    assert_eq!(exe_dir(Some(String::from("/"))), ".");
}

#[test]
fn untrimmed_fields_read_back_trimmed() {
    let text = license_file_content(" KEY-2\r", "\t0123456789ABCDEF ", "@me  ");
    let l = parse_license_content(&text).unwrap();
    assert_eq!(l.license_key, "KEY-2");
    assert_eq!(l.fingerprint, "0123456789ABCDEF");
    assert_eq!(l.tiktok_username, "@me");
}
