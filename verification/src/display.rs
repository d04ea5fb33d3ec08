//! What the launcher's window shows, as texts: status labels, the license
//! details panel and the update banner.

use vstd::prelude::*;
use crate::api::{License, LicenseView};
use crate::text::{chars_eq, chars_of, decimal, decimal_chars, string_from_chars};
use crate::updater::{UpdateState, UpdateView};

verus! {

/// The French label of the server's license status code; an unknown code is
/// shown as it is.
pub open spec fn status_label(status: Seq<char>) -> Seq<char> {
    if status == "active"@ {
        "Active"@
    } else if status == "revoked"@ {
        "Révoquée"@
    } else if status == "expired"@ {
        "Expirée"@
    } else if status == "inactive"@ {
        "Désactivée"@
    } else {
        status
    }
}

/// Maps the server's license status code to a French label for display.
pub fn license_status_fr<'a>(status: &'a str) -> (res: &'a str)
    ensures
        res@ == status_label(status@),
{
    let s = chars_of(status);
    let active = chars_of("active");
    if chars_eq(s.as_slice(), active.as_slice()) {
        return "Active";
    }
    let revoked = chars_of("revoked");
    if chars_eq(s.as_slice(), revoked.as_slice()) {
        return "Révoquée";
    }
    let expired = chars_of("expired");
    if chars_eq(s.as_slice(), expired.as_slice()) {
        return "Expirée";
    }
    let inactive = chars_of("inactive");
    if chars_eq(s.as_slice(), inactive.as_slice()) {
        return "Désactivée";
    }
    status
}

/// The expiry line: the date, then the days left, or the days since it
/// expired.
pub open spec fn expiry_text(expires_at: Seq<char>, days: Option<i64>) -> Seq<char> {
    match days {
        Some(d) => if d >= 0 {
            expires_at + " · "@ + decimal(d as nat) + " j"@
        } else {
            expires_at + " · expiré +"@ + decimal((-d) as nat) + " j"@
        },
        None => expires_at,
    }
}

/// Formats the expiry line of the license details.
pub fn expiry_label(expires_at: &str, days: Option<i64>) -> (res: String)
    requires
        days != Some(i64::MIN),
    ensures
        res@ == expiry_text(expires_at@, days),
{
    let mut s = String::from_str(expires_at);
    match days {
        Some(d) => {
            if d >= 0 {
                s.append(" · ");
                let digits = decimal_chars(d as u64);
                let t = string_from_chars(digits.as_slice());
                s.append(t.as_str());
            } else {
                s.append(" · expiré +");
                let digits = decimal_chars((-d) as u64);
                let t = string_from_chars(digits.as_slice());
                s.append(t.as_str());
            }
            s.append(" j");
        },
        None => {},
    }
    s
}

/// One row of the details panel when its value is not empty.
pub open spec fn row_if(label: Seq<char>, value: Seq<char>, shown: Seq<char>) -> Seq<(Seq<char>, Seq<char>)> {
    if value.len() > 0 {
        seq![(label, shown)]
    } else {
        seq![]
    }
}

/// The rows of the license details panel, label and value, for the fields
/// that the server filled in.
pub open spec fn info_rows(l: LicenseView) -> Seq<(Seq<char>, Seq<char>)> {
    row_if("Utilisateur"@, l.tiktok_username, l.tiktok_username) + row_if(
        "Statut"@,
        l.status,
        status_label(l.status),
    ) + row_if("Créée le"@, l.created_at, l.created_at) + row_if(
        "Modifiée le"@,
        l.status_changed_at,
        l.status_changed_at,
    ) + row_if("Expire"@, l.expires_at, expiry_text(l.expires_at, l.expires_in_days)) + row_if(
        "Vérifié"@,
        l.last_check,
        l.last_check,
    )
}

/// The views of label and value rows.
pub open spec fn row_views(rows: Seq<(String, String)>) -> Seq<(Seq<char>, Seq<char>)> {
    rows.map_values(|r: (String, String)| (r.0@, r.1@))
}

/// Appends a row to the panel when its value is not empty.
fn push_row(rows: &mut Vec<(String, String)>, label: &str, value: &str, shown: String)
    ensures
        row_views(final(rows)@) == row_views(old(rows)@) + row_if(label@, value@, shown@),
{
    let ghost before = rows@;
    if !value.is_empty() {
        rows.push((String::from_str(label), shown));
        assert(row_views(rows@) =~= row_views(before) + row_if(label@, value@, shown@));
    } else {
        assert(row_views(rows@) =~= row_views(before) + row_if(label@, value@, shown@));
    }
}

/// The rows of the license details panel.
pub fn license_info_rows(info: &License) -> (res: Vec<(String, String)>)
    requires
        info.expires_in_days != Some(i64::MIN),
    ensures
        row_views(res@) == info_rows(info@),
{
    let mut rows: Vec<(String, String)> = Vec::new();
    push_row(&mut rows, "Utilisateur", info.tiktok_username.as_str(), info.tiktok_username.clone());
    let label = license_status_fr(info.status.as_str());
    push_row(&mut rows, "Statut", info.status.as_str(), String::from_str(label));
    push_row(&mut rows, "Créée le", info.created_at.as_str(), info.created_at.clone());
    push_row(
        &mut rows,
        "Modifiée le",
        info.status_changed_at.as_str(),
        info.status_changed_at.clone(),
    );
    let exp = expiry_label(info.expires_at.as_str(), info.expires_in_days);
    push_row(&mut rows, "Expire", info.expires_at.as_str(), exp);
    push_row(&mut rows, "Vérifié", info.last_check.as_str(), info.last_check.clone());
    assert(row_views(rows@) =~= info_rows(info@));
    rows
}

/// The labels of the details panel, in their order.
pub open spec fn panel_labels() -> Seq<Seq<char>> {
    seq!["Utilisateur"@, "Statut"@, "Créée le"@, "Modifiée le"@, "Expire"@, "Vérifié"@]
}

/// The six labels of the details panel differ from one another.
proof fn lemma_panel_labels_distinct()
    ensures
        forall|i: int, j: int|
            0 <= i < j < 6 ==> #[trigger] panel_labels()[i] != #[trigger] panel_labels()[j],
{
    reveal_strlit("Utilisateur");
    reveal_strlit("Statut");
    reveal_strlit("Créée le");
    reveal_strlit("Modifiée le");
    reveal_strlit("Expire");
    reveal_strlit("Vérifié");
    let l = panel_labels();
    assert(l[0][0] != l[3][0]);
    assert(l[1][0] != l[4][0]);
    assert(l[0].len() != l[1].len() && l[0].len() != l[2].len() && l[0].len() != l[4].len() && l[0].len() != l[5].len());
    assert(l[1].len() != l[2].len() && l[1].len() != l[3].len() && l[1].len() != l[5].len());
    assert(l[2].len() != l[3].len() && l[2].len() != l[4].len() && l[2].len() != l[5].len());
    assert(l[3].len() != l[4].len() && l[3].len() != l[5].len());
    assert(l[4].len() != l[5].len());
}

/// The value that the panel shows beside `label`, if a row has that label.
pub open spec fn shown_for(rows: Seq<(Seq<char>, Seq<char>)>, label: Seq<char>) -> Option<Seq<char>>
    decreases rows.len(),
{
    if rows.len() == 0 {
        None
    } else if rows[0].0 == label {
        Some(rows[0].1)
    } else {
        shown_for(rows.drop_first(), label)
    }
}

proof fn lemma_shown_for_append(a: Seq<(Seq<char>, Seq<char>)>, b: Seq<(Seq<char>, Seq<char>)>, label: Seq<char>)
    ensures
        shown_for(a + b, label) == match shown_for(a, label) {
            Some(x) => Some(x),
            None => shown_for(b, label),
        },
    decreases a.len(),
{
    if a.len() > 0 {
        assert((a + b).drop_first() =~= a.drop_first() + b);
        lemma_shown_for_append(a.drop_first(), b, label);
    } else {
        assert(a + b =~= b);
    }
}

/// A single optional row shows its value beside its own label only.
proof fn lemma_shown_for_row(label: Seq<char>, value: Seq<char>, shown: Seq<char>, m: Seq<char>)
    ensures
        shown_for(row_if(label, value, shown), m) == if value.len() > 0 && label == m {
            Some(shown)
        } else {
            None
        },
{
    let r = row_if(label, value, shown);
    let e = Seq::<(Seq<char>, Seq<char>)>::empty();
    assert(shown_for(e, m) is None);
    if value.len() > 0 {
        assert(r[0] == (label, shown));
        assert(r.drop_first() =~= e);
    } else {
        assert(r =~= e);
    }
}

/// What the panel shows beside `m`: the first of its six optional rows that
/// has that label.
proof fn lemma_rows_lookup(l: LicenseView, m: Seq<char>)
    ensures
        shown_for(info_rows(l), m) == if l.tiktok_username.len() > 0 && "Utilisateur"@ == m {
            Some(l.tiktok_username)
        } else if l.status.len() > 0 && "Statut"@ == m {
            Some(status_label(l.status))
        } else if l.created_at.len() > 0 && "Créée le"@ == m {
            Some(l.created_at)
        } else if l.status_changed_at.len() > 0 && "Modifiée le"@ == m {
            Some(l.status_changed_at)
        } else if l.expires_at.len() > 0 && "Expire"@ == m {
            Some(expiry_text(l.expires_at, l.expires_in_days))
        } else if l.last_check.len() > 0 && "Vérifié"@ == m {
            Some(l.last_check)
        } else {
            None
        },
{
    let p0 = row_if("Utilisateur"@, l.tiktok_username, l.tiktok_username);
    let p1 = row_if("Statut"@, l.status, status_label(l.status));
    let p2 = row_if("Créée le"@, l.created_at, l.created_at);
    let p3 = row_if("Modifiée le"@, l.status_changed_at, l.status_changed_at);
    let p4 = row_if("Expire"@, l.expires_at, expiry_text(l.expires_at, l.expires_in_days));
    let p5 = row_if("Vérifié"@, l.last_check, l.last_check);
    lemma_shown_for_append(p0 + p1 + p2 + p3 + p4, p5, m);
    lemma_shown_for_append(p0 + p1 + p2 + p3, p4, m);
    lemma_shown_for_append(p0 + p1 + p2, p3, m);
    lemma_shown_for_append(p0 + p1, p2, m);
    lemma_shown_for_append(p0, p1, m);
    lemma_shown_for_row("Utilisateur"@, l.tiktok_username, l.tiktok_username, m);
    lemma_shown_for_row("Statut"@, l.status, status_label(l.status), m);
    lemma_shown_for_row("Créée le"@, l.created_at, l.created_at, m);
    lemma_shown_for_row("Modifiée le"@, l.status_changed_at, l.status_changed_at, m);
    lemma_shown_for_row("Expire"@, l.expires_at, expiry_text(l.expires_at, l.expires_in_days), m);
    lemma_shown_for_row("Vérifié"@, l.last_check, l.last_check, m);
}

/// Every row of the panel shows the field that its label names, and a row
/// is there exactly when that field is not empty: the account beside
/// `Utilisateur`, the French status beside `Statut`, the creation date
/// beside `Créée le`, the date of the last status change beside
/// `Modifiée le`, the expiry line (starting with the expiry date) beside
/// `Expire`, the time of the last check beside `Vérifié`; and there is no
/// other row.
pub proof fn lemma_rows_show_their_fields(l: LicenseView)
    ensures
        shown_for(info_rows(l), "Utilisateur"@) == if l.tiktok_username.len() > 0 {
            Some(l.tiktok_username)
        } else {
            None
        },
        shown_for(info_rows(l), "Statut"@) == if l.status.len() > 0 {
            Some(status_label(l.status))
        } else {
            None
        },
        shown_for(info_rows(l), "Créée le"@) == if l.created_at.len() > 0 {
            Some(l.created_at)
        } else {
            None
        },
        shown_for(info_rows(l), "Modifiée le"@) == if l.status_changed_at.len() > 0 {
            Some(l.status_changed_at)
        } else {
            None
        },
        shown_for(info_rows(l), "Expire"@) == if l.expires_at.len() > 0 {
            Some(expiry_text(l.expires_at, l.expires_in_days))
        } else {
            None
        },
        l.expires_at.len() > 0 ==> expiry_text(l.expires_at, l.expires_in_days).take(
            l.expires_at.len() as int,
        ) == l.expires_at,
        shown_for(info_rows(l), "Vérifié"@) == if l.last_check.len() > 0 {
            Some(l.last_check)
        } else {
            None
        },
        info_rows(l).len() == (if l.tiktok_username.len() > 0 { 1int } else { 0int }) + (if l.status.len() > 0 {
            1int
        } else {
            0int
        }) + (if l.created_at.len() > 0 { 1int } else { 0int }) + (if l.status_changed_at.len() > 0 {
            1int
        } else {
            0int
        }) + (if l.expires_at.len() > 0 { 1int } else { 0int }) + (if l.last_check.len() > 0 {
            1int
        } else {
            0int
        }),
{
    lemma_panel_labels_distinct();
    let lb = panel_labels();
    lemma_rows_lookup(l, lb[0]);
    lemma_rows_lookup(l, lb[1]);
    lemma_rows_lookup(l, lb[2]);
    lemma_rows_lookup(l, lb[3]);
    lemma_rows_lookup(l, lb[4]);
    lemma_rows_lookup(l, lb[5]);
    assert(lb[0] != lb[1] && lb[0] != lb[2] && lb[0] != lb[3] && lb[0] != lb[4] && lb[0] != lb[5]);
    assert(lb[1] != lb[2] && lb[1] != lb[3] && lb[1] != lb[4] && lb[1] != lb[5]);
    assert(lb[2] != lb[3] && lb[2] != lb[4] && lb[2] != lb[5]);
    assert(lb[3] != lb[4] && lb[3] != lb[5]);
    assert(lb[4] != lb[5]);
    if l.expires_at.len() > 0 {
        let e = expiry_text(l.expires_at, l.expires_in_days);
        assert(e.take(l.expires_at.len() as int) =~= l.expires_at);
    }
}

/// Whether the panel warns that the license is bound to another device.
pub fn bound_to_other_device(info: &License) -> (res: bool)
    ensures
        res == (info.fingerprint_bound && !info.fingerprint_match),
{
    info.fingerprint_bound && !info.fingerprint_match
}

/// The update banner's text: shown while an update is available, being
/// installed, or has failed.
pub open spec fn banner_text(u: UpdateView) -> Option<Seq<char>> {
    match u {
        UpdateView::Available(v) => Some("Mise à jour "@ + v + " disponible"@),
        UpdateView::Installing => Some("Mise à jour en cours…"@),
        UpdateView::Error(e) => Some("Échec de la mise à jour : "@ + e),
        _ => None,
    }
}

/// The update banner's text, if one is shown.
pub fn update_banner(state: &UpdateState) -> (res: Option<String>)
    ensures
        match res {
            Some(t) => banner_text(state@) == Some(t@),
            None => banner_text(state@) is None,
        },
{
    match state {
        UpdateState::Available(v) => {
            let mut s = String::from_str("Mise à jour ");
            s.append(v.as_str());
            s.append(" disponible");
            Some(s)
        },
        UpdateState::Installing => Some(String::from_str("Mise à jour en cours…")),
        UpdateState::Error(e) => {
            let mut s = String::from_str("Échec de la mise à jour : ");
            s.append(e.as_str());
            Some(s)
        },
        _ => None,
    }
}

} // verus!
