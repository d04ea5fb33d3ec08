use onlyclimb_launcher::api::{License, LicenseResponse};
use onlyclimb_launcher::launcher::{Effect, Key, Launcher, Message};
use onlyclimb_launcher::license::StoredLicense;
use onlyclimb_launcher::updater::UpdateState;

fn fresh() -> Launcher {
    Launcher::new(String::from("0123456789ABCDEF"), None).0
}

fn ready(key: &str, tiktok: &str) -> Launcher {
    let mut l = fresh();
    l.update(Message::LicenseKeyChanged(String::from(key)));
    l.update(Message::TikTokUserChanged(String::from(tiktok)));
    l
}

fn response(valid: bool, reason: &str, message: &str, license: Option<License>) -> LicenseResponse {
    LicenseResponse {
        valid,
        reason: String::from(reason),
        message: String::from(message),
        license,
    }
}

#[test]
fn starts_with_saved_license() {
    let saved = StoredLicense {
        license_key: String::from("KEY"),
        fingerprint: String::from("OLD"),
        tiktok_username: String::from("@me"),
    };
    let (l, eff) = Launcher::new(String::from("FP"), Some(saved));
    assert!(matches!(eff, Effect::CheckUpdate));
    assert_eq!(l.license_key, "KEY");
    assert_eq!(l.tiktok_username, "@me");
    assert_eq!(l.fingerprint, "FP");
    assert_eq!(l.status, "Licence trouvée. Cliquez sur Activer pour vérifier.");
    assert!(l.status_ok && !l.license_valid && !l.is_checking);
    assert!(l.api_response.is_none());
    assert!(matches!(l.update, UpdateState::Idle));
    assert_eq!(l.title(), "Only Climb Together");
}

#[test]
fn starts_empty_without_license() {
    let (l, _) = Launcher::new(String::from("FP"), None);
    assert_eq!(l.license_key, "");
    assert_eq!(l.status, "Entrez votre clé de licence et votre TikTok pour activer.");
}

#[test]
fn check_needs_key_and_account() {
    let mut l = ready("  ", "@me");
    assert!(matches!(l.update(Message::CheckLicense), Effect::Nothing));
    assert_eq!(l.status, "Veuillez entrer une clé de licence.");
    assert!(!l.status_ok && !l.is_checking);
    let mut l = ready("KEY", " \t");
    assert!(matches!(l.update(Message::KeyPress(Key::Enter)), Effect::Nothing));
    assert_eq!(l.status, "Le nom d'utilisateur TikTok est obligatoire.");
    assert!(!l.status_ok);
}

#[test]
fn check_sends_trimmed_values_once() {
    let mut l = ready(" KEY-1 ", " @me\n");
    match l.update(Message::KeyPress(Key::Enter)) {
        Effect::ValidateLicense { license_key, fingerprint, tiktok_username } => {
            assert_eq!(license_key, "KEY-1");
            assert_eq!(fingerprint, "0123456789ABCDEF");
            assert_eq!(tiktok_username, "@me");
        },
        other => panic!("unexpected {:?}", other),
    }
    assert!(l.is_checking && l.status_ok);
    assert_eq!(l.status, "Vérification en cours...");
    assert!(matches!(l.update(Message::CheckLicense), Effect::Nothing));
    assert!(matches!(l.update(Message::KeyPress(Key::Enter)), Effect::Nothing));
    assert!(matches!(l.update(Message::KeyPress(Key::Other)), Effect::Nothing));
    assert_eq!(l.license_key, " KEY-1 ");
}

#[test]
fn accepted_license_unlocks_and_is_saved() {
    let mut l = ready(" KEY ", "@me");
    l.update(Message::CheckLicense);
    match l.update(Message::LicenseResult(Ok(response(true, "", "", None)))) {
        Effect::SaveLicense { license_key, fingerprint, tiktok_username } => {
            assert_eq!(license_key, " KEY ");
            assert_eq!(fingerprint, "0123456789ABCDEF");
            assert_eq!(tiktok_username, "@me");
        },
        other => panic!("unexpected {:?}", other),
    }
    assert!(l.license_valid && l.status_ok && !l.is_checking);
    assert_eq!(l.status, "Licence valide ! Vous pouvez lancer le jeu.");
    let info = l.api_response.as_ref().unwrap();
    assert_eq!(info.tiktok_username, "@me");
    assert_eq!(info.status, "");
    l.update(Message::LicenseSaveFailed(String::from("Erreur d'écriture license.key: denied")));
    assert_eq!(l.status, "Erreur d'écriture license.key: denied");
    assert!(!l.status_ok && l.license_valid);
    assert!(matches!(l.update(Message::LaunchGame), Effect::LaunchGame));
}

#[test]
fn accepted_license_keeps_server_details_and_message() {
    let mut l = ready("KEY", "@me");
    let mut details = License::default();
    details.status = String::from("active");
    l.update(Message::LicenseResult(Ok(response(true, "", "Bienvenue", Some(details)))));
    assert_eq!(l.status, "Bienvenue");
    assert_eq!(l.api_response.as_ref().unwrap().status, "active");
    assert_eq!(l.api_response.as_ref().unwrap().tiktok_username, "");
}

#[test]
fn refused_license_is_explained() {
    let mut l = ready("KEY", "@me");
    l.update(Message::LicenseResult(Ok(response(false, "revoked", "Licence révoquée", None))));
    assert_eq!(l.status, "Licence révoquée");
    assert!(!l.status_ok && !l.license_valid);
    l.update(Message::LicenseResult(Ok(response(false, "expired", "", None))));
    assert_eq!(l.status, "Licence invalide (expired)");
    let mut details = License::default();
    details.status = String::from("revoked");
    let eff = l.update(Message::LicenseResult(Ok(response(false, "", "", Some(details)))));
    assert!(matches!(eff, Effect::Nothing));
    assert_eq!(l.status, "Licence invalide: clé refusée par le serveur.");
    assert_eq!(l.api_response.as_ref().unwrap().status, "revoked");
}

#[test]
fn failed_request_is_reported() {
    let mut l = ready("KEY", "@me");
    l.update(Message::LicenseResult(Ok(response(false, "", "", Some(License::default())))));
    l.update(Message::CheckLicense);
    l.update(Message::LicenseResult(Err(String::from("Network error: timeout"))));
    assert_eq!(l.status, "Erreur réseau: Network error: timeout");
    assert!(!l.status_ok && !l.license_valid && !l.is_checking);
    assert!(l.api_response.is_some());
}

#[test]
fn update_messages() {
    let mut l = fresh();
    l.update(Message::UpdateChecked(UpdateState::Error(String::from("offline"))));
    assert!(matches!(l.update, UpdateState::Idle));
    l.update(Message::UpdateChecked(UpdateState::Available(String::from("0.3.0"))));
    assert!(matches!(&l.update, UpdateState::Available(v) if v == "0.3.0"));
    assert!(matches!(l.update(Message::UpdateApply), Effect::ApplyUpdate));
    assert!(matches!(l.update, UpdateState::Installing));
    let eff = l.update(Message::UpdateApplied(UpdateState::Error(String::from("disk full"))));
    assert!(matches!(eff, Effect::Nothing));
    assert!(matches!(&l.update, UpdateState::Error(e) if e == "disk full"));
    assert!(matches!(l.update(Message::UpdateApplied(UpdateState::ReadyToQuit)), Effect::Exit));
    assert_eq!(l.fingerprint, "0123456789ABCDEF");
}
