use onlyclimb_launcher::json::JsonValue;
use onlyclimb_launcher::updater::{
    check_outcome, check_start, download_status_error, install_step, is_installed, is_newer,
    release_from_json, release_reply, release_status_error, short, InstallAction, InstallEvent,
    UpdateState,
};

#[test]
fn version_comparison() {
    assert!(is_newer("0.1.1", "0.1.0"));
    assert!(is_newer("0.2.0", "0.1.9"));
    assert!(is_newer("1.0.0", "0.9.9"));
    assert!(!is_newer("0.1.0", "0.1.0"));
    assert!(!is_newer("0.1.0", "0.1.1"));
    assert!(is_newer("0.1.10", "0.1.2")); // numeric, not lexicographic
}

#[test]
fn missing_fields_count_as_zero() {
    assert!(!is_newer("1.0", "1.0.0"));
    assert!(!is_newer("1.0.0", "1.0"));
    assert!(is_newer("1.0.1", "1.0"));
    assert!(!is_newer("1", "1.0.0.0"));
}

#[test]
fn unreadable_fields_count_as_zero() {
    assert!(!is_newer("1.x", "1.0"));
    assert!(!is_newer("", "0"));
    assert!(is_newer(" 2 .0", "1.9"));
    assert!(is_newer("+2.0", "1.9"));
    assert!(!is_newer("-2.0", "0.0"));
    assert!(!is_newer("18446744073709551616", "0"));
    assert!(is_newer("18446744073709551615", "18446744073709551614"));
}

#[test]
fn newer_is_a_strict_order() {
    let vs = ["0.1.0", "0.1.10", "0.2", "1.0.0", "1.0.0.1", "v2", "1.x"];
    for a in vs.iter() {
        assert!(!is_newer(a, a));
        for b in vs.iter() {
            assert!(!(is_newer(a, b) && is_newer(b, a)));
            for c in vs.iter() {
                if is_newer(a, b) && is_newer(b, c) {
                    assert!(is_newer(a, c));
                }
            }
        }
    }
}

#[test]
fn short_keeps_first_line() {
    assert_eq!(short("error sending request\ncaused by: timeout"), "error sending request");
    assert_eq!(short("abc\r\ndef"), "abc");
    assert_eq!(short("abc\r"), "abc\r");
    assert_eq!(short(""), "");
    assert_eq!(short("\nsecond"), "");
}

#[test]
fn short_cuts_to_160_characters() {
    let long: String = std::iter::repeat('é').take(200).collect();
    let s = short(&long);
    assert_eq!(s.chars().count(), 160);
    assert!(s.chars().all(|c| c == 'é'));
    let exact: String = std::iter::repeat('x').take(160).collect();
    assert_eq!(short(&exact), exact);
}

#[test]
fn check_outcome_states() {
    match check_outcome(Ok(String::from("0.3.0")), "0.2.9") {
        UpdateState::Available(v) => assert_eq!(v, "0.3.0"),
        other => panic!("unexpected {:?}", other),
    }
    assert!(matches!(check_outcome(Ok(String::from("0.2.9")), "0.2.9"), UpdateState::UpToDate));
    assert!(matches!(check_outcome(Ok(String::from("0.1.0")), "0.2.9"), UpdateState::UpToDate));
    match check_outcome(Err(String::from("dns error\ndetails")), "0.2.9") {
        UpdateState::Error(e) => assert_eq!(e, "dns error"),
        other => panic!("unexpected {:?}", other),
    }
}

#[test]
fn installed_unless_run_from_target() {
    assert!(!is_installed(None));
    assert!(!is_installed(Some(String::from(r"C:\dev\launcher\target\release\launcher.exe"))));
    assert!(!is_installed(Some(String::from(r"C:\DEV\LAUNCHER\TARGET\DEBUG\LAUNCHER.EXE"))));
    assert!(is_installed(Some(String::from(r"C:\Games\OnlyClimb\launcher.exe"))));
    assert!(is_installed(Some(String::from("/home/u/target/release/launcher"))));
}

fn s(x: &str) -> JsonValue {
    JsonValue::Str(String::from(x))
}

fn obj(members: Vec<(&str, JsonValue)>) -> JsonValue {
    JsonValue::Object(members.into_iter().map(|(k, v)| (String::from(k), v)).collect())
}

#[test]
fn release_with_exe_asset() {
    let release = obj(vec![
        ("tag_name", s("vv1.4.2")),
        (
            "assets",
            JsonValue::Array(vec![
                obj(vec![("name", s("notes.txt")), ("browser_download_url", s("https://x/notes"))]),
                obj(vec![("name", s("Launcher.EXE")), ("browser_download_url", s("https://x/l.exe"))]),
                obj(vec![("name", s("other.exe")), ("browser_download_url", s("https://x/o.exe"))]),
            ]),
        ),
    ]);
    let (version, url) = release_from_json(&release).unwrap();
    assert_eq!(version, "1.4.2");
    assert_eq!(url, "https://x/l.exe");
}

#[test]
fn release_errors() {
    let no_tag = obj(vec![("assets", JsonValue::Array(vec![]))]);
    assert_eq!(
        release_from_json(&no_tag).unwrap_err(),
        "réponse GitHub inattendue (tag_name absent)"
    );
    let numeric_tag = obj(vec![("tag_name", JsonValue::Int(3))]);
    assert_eq!(
        release_from_json(&numeric_tag).unwrap_err(),
        "réponse GitHub inattendue (tag_name absent)"
    );
    let no_exe = obj(vec![
        ("tag_name", s("v1.0.0")),
        ("assets", JsonValue::Array(vec![obj(vec![("name", s("a.zip"))])])),
    ]);
    assert_eq!(release_from_json(&no_exe).unwrap_err(), "aucun .exe dans la dernière release");
    let exe_without_url = obj(vec![
        ("tag_name", s("v1.0.0")),
        (
            "assets",
            JsonValue::Array(vec![
                obj(vec![("name", s("a.exe"))]),
                obj(vec![("name", s("b.exe")), ("browser_download_url", s("https://x/b"))]),
            ]),
        ),
    ]);
    assert_eq!(
        release_from_json(&exe_without_url).unwrap_err(),
        "aucun .exe dans la dernière release"
    );
    assert!(release_from_json(&JsonValue::Null).is_err());
}

#[test]
fn status_errors() {
    assert_eq!(release_status_error(200, "200 OK"), None);
    assert_eq!(
        release_status_error(403, "403 Forbidden"),
        Some(String::from("GitHub a renvoyé 403 Forbidden"))
    );
    assert_eq!(download_status_error(299, "299"), None);
    assert_eq!(
        download_status_error(404, "404 Not Found"),
        Some(String::from("téléchargement: 404 Not Found"))
    );
}

#[test]
fn install_steps_in_order() {
    assert!(matches!(
        install_step(InstallEvent::Start { installed: false }, true),
        InstallAction::Finish(UpdateState::Idle)
    ));
    assert!(matches!(
        install_step(InstallEvent::Start { installed: true }, true),
        InstallAction::FetchRelease
    ));
    match install_step(InstallEvent::Release(Ok(String::from("https://x/l.exe"))), true) {
        InstallAction::Download(u) => assert_eq!(u, "https://x/l.exe"),
        other => panic!("unexpected {:?}", other),
    }
    match install_step(InstallEvent::Downloaded(Ok(vec![1, 2, 3])), true) {
        InstallAction::WriteTemp(b) => assert_eq!(b, vec![1, 2, 3]),
        other => panic!("unexpected {:?}", other),
    }
    assert!(matches!(install_step(InstallEvent::TempWritten(Ok(())), true), InstallAction::Replace));
    assert!(matches!(install_step(InstallEvent::Replaced(Ok(())), true), InstallAction::RemoveTemp));
    assert!(matches!(install_step(InstallEvent::TempRemoved, true), InstallAction::Relaunch));
    assert!(matches!(
        install_step(InstallEvent::TempRemoved, false),
        InstallAction::Finish(UpdateState::ReadyToQuit)
    ));
    assert!(matches!(
        install_step(InstallEvent::Relaunched, true),
        InstallAction::Finish(UpdateState::ReadyToQuit)
    ));
}

#[test]
fn install_failures_end_in_short_errors() {
    let events = vec![
        InstallEvent::Release(Err(String::from("no release\nmore"))),
        InstallEvent::Downloaded(Err(String::from("no release\nmore"))),
        InstallEvent::TempWritten(Err(String::from("no release\nmore"))),
        InstallEvent::Replaced(Err(String::from("no release\nmore"))),
    ];
    for e in events {
        match install_step(e, true) {
            InstallAction::Finish(UpdateState::Error(m)) => assert_eq!(m, "no release"),
            other => panic!("unexpected {:?}", other),
        }
    }
}

#[test]
fn release_reply_body() {
    let (v, u) = release_reply(
        r#"{"tag_name":"v0.4.0","assets":[{"name":"Setup.EXE","browser_download_url":"https://x/s.exe"}]}"#,
    )
    .unwrap();
    assert_eq!(v, "0.4.0");
    assert_eq!(u, "https://x/s.exe");
    assert_eq!(release_reply("not json").unwrap_err(), "error decoding response body");
    assert_eq!(
        release_reply(r#"{"assets":[]}"#).unwrap_err(),
        "réponse GitHub inattendue (tag_name absent)"
    );
}

#[test]
fn trailing_zero_field_changes_nothing() {
    for (a, b) in [("1.2", "1.1"), ("1.2", "1.2"), ("1.2", "1.3"), ("0.9", "0.10"), ("2", "1.9.9")] {
        assert_eq!(is_newer(&format!("{a}.0"), b), is_newer(a, b));
        assert_eq!(is_newer(b, &format!("{a}.0")), is_newer(b, a));
    }
    assert!(!is_newer("1.2.0", "1.2"));
    assert!(is_newer("1.2.0", "1.1.9"));
}

#[test]
fn short_is_idempotent() {
    let long: String = std::iter::repeat('x').take(300).collect();
    let samples = [
        String::from(""),
        String::from("\nsecond line"),
        String::from("one\r\ntwo"),
        String::from("plain"),
        long.clone(),
        format!("{long}\nrest"),
    ];
    for s in samples.iter() {
        let once = short(s);
        assert_eq!(short(&once), once);
    }
    assert_eq!(short("\nsecond line"), "");
    assert_eq!(short(&long).chars().count(), 160);
}

#[test]
fn development_builds_skip_the_check() {
    assert!(matches!(check_start(None), Some(UpdateState::Idle)));
    assert!(matches!(
        check_start(Some(String::from("C:\\dev\\launcher\\TARGET\\release\\app.exe"))),
        Some(UpdateState::Idle)
    ));
    assert!(check_start(Some(String::from("C:\\Program Files\\OnlyClimb\\app.exe"))).is_none());
}
