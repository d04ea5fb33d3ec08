use onlyclimb_launcher::api::License;
use onlyclimb_launcher::display::{
    bound_to_other_device, expiry_label, license_info_rows, license_status_fr, update_banner,
};
use onlyclimb_launcher::updater::UpdateState;

#[test]
fn status_labels() {
    assert_eq!(license_status_fr("active"), "Active");
    assert_eq!(license_status_fr("revoked"), "Révoquée");
    assert_eq!(license_status_fr("expired"), "Expirée");
    assert_eq!(license_status_fr("inactive"), "Désactivée");
    assert_eq!(license_status_fr("pending"), "pending");
    assert_eq!(license_status_fr("Active"), "Active");
    assert_eq!(license_status_fr(""), "");
}

#[test]
fn expiry_labels() {
    assert_eq!(expiry_label("2026-01-01", Some(30)), "2026-01-01 · 30 j");
    assert_eq!(expiry_label("2026-01-01", Some(0)), "2026-01-01 · 0 j");
    assert_eq!(expiry_label("2025-01-01", Some(-12)), "2025-01-01 · expiré +12 j");
    assert_eq!(expiry_label("2025-01-01", None), "2025-01-01");
    assert_eq!(
        expiry_label("d", Some(i64::MAX)),
        format!("d · {} j", i64::MAX)
    );
}

#[test]
fn info_rows_show_filled_fields() {
    let mut l = License::default();
    l.tiktok_username = String::from("@me");
    l.status = String::from("expired");
    l.expires_at = String::from("2025-01-01");
    l.expires_in_days = Some(-3);
    let rows = license_info_rows(&l);
    assert_eq!(
        rows,
        vec![
            (String::from("Utilisateur"), String::from("@me")),
            (String::from("Statut"), String::from("Expirée")),
            (String::from("Expire"), String::from("2025-01-01 · expiré +3 j")),
        ]
    );
    assert!(license_info_rows(&License::default()).is_empty());
    l.created_at = String::from("a");
    l.status_changed_at = String::from("b");
    l.last_check = String::from("c");
    let labels: Vec<String> = license_info_rows(&l).into_iter().map(|r| r.0).collect();
    assert_eq!(labels, vec!["Utilisateur", "Statut", "Créée le", "Modifiée le", "Expire", "Vérifié"]);
}

#[test]
fn device_warning() {
    let mut l = License::default();
    assert!(!bound_to_other_device(&l));
    l.fingerprint_bound = true;
    assert!(bound_to_other_device(&l));
    l.fingerprint_match = true;
    assert!(!bound_to_other_device(&l));
}

#[test]
fn banners() {
    assert_eq!(
        update_banner(&UpdateState::Available(String::from("0.3.0"))),
        Some(String::from("Mise à jour 0.3.0 disponible"))
    );
    assert_eq!(update_banner(&UpdateState::Installing), Some(String::from("Mise à jour en cours…")));
    assert_eq!(
        update_banner(&UpdateState::Error(String::from("x"))),
        Some(String::from("Échec de la mise à jour : x"))
    );
    assert_eq!(update_banner(&UpdateState::Idle), None);
    assert_eq!(update_banner(&UpdateState::UpToDate), None);
    assert_eq!(update_banner(&UpdateState::ReadyToQuit), None);
}
