//! The launcher's decisions: its state, the messages it reacts to, and the
//! work it asks its host to do after each one.

use vstd::prelude::*;
use crate::api::{
    empty_license_view, opt_license_view, License, LicenseResponse, LicenseView, ResponseView,
};
use crate::license::{opt_record, LicenseRecord, StoredLicense};
use crate::text::{chars_of, string_from_chars, trim, trim_chars};
use crate::updater::{UpdateState, UpdateView};

verus! {

/// A key press, as far as the launcher tells keys apart.
#[derive(Debug, Clone, Copy, PartialEq, Eq, Structural)]
pub enum Key {
    Enter,
    Other,
}

/// What happened: an edit, a click, a key press, or the outcome of work that
/// the launcher asked for.
#[derive(Debug)]
pub enum Message {
    LicenseKeyChanged(String),
    TikTokUserChanged(String),
    CheckLicense,
    LicenseResult(Result<LicenseResponse, String>),
    LaunchGame,
    KeyPress(Key),
    UpdateChecked(UpdateState),
    UpdateApply,
    UpdateApplied(UpdateState),
    /// Saving a license that the server accepted failed, with this message.
    LicenseSaveFailed(String),
}

/// The work that the launcher asks its host to do next.
#[derive(Debug)]
pub enum Effect {
    /// Nothing to do.
    Nothing,
    /// Ask the release server whether a newer version exists.
    CheckUpdate,
    /// Ask the license server about this key, device and account.
    ValidateLicense { license_key: String, fingerprint: String, tiktok_username: String },
    /// Save this license on the device; report a failure back.
    SaveLicense { license_key: String, fingerprint: String, tiktok_username: String },
    /// Decrypt and start the game.
    LaunchGame,
    /// Download and install the latest release.
    ApplyUpdate,
    /// Quit, so that the new binary can take over.
    Exit,
}

/// The launcher's state.
#[derive(Debug)]
pub struct Launcher {
    pub fingerprint: String,
    pub license_key: String,
    pub tiktok_username: String,
    pub status: String,
    pub status_ok: bool,
    pub license_valid: bool,
    pub is_checking: bool,
    pub api_response: Option<License>,
    pub update: UpdateState,
}

/// The view of the launcher's state.
pub struct LauncherView {
    pub fingerprint: Seq<char>,
    pub license_key: Seq<char>,
    pub tiktok_username: Seq<char>,
    pub status: Seq<char>,
    pub status_ok: bool,
    pub license_valid: bool,
    pub is_checking: bool,
    pub api_response: Option<LicenseView>,
    pub update: UpdateView,
}

/// The view of a message.
pub enum MessageView {
    LicenseKeyChanged(Seq<char>),
    TikTokUserChanged(Seq<char>),
    CheckLicense,
    LicenseResult(Result<ResponseView, Seq<char>>),
    LaunchGame,
    KeyPress(Key),
    UpdateChecked(UpdateView),
    UpdateApply,
    UpdateApplied(UpdateView),
    LicenseSaveFailed(Seq<char>),
}

/// The view of an effect.
pub enum EffectView {
    Nothing,
    CheckUpdate,
    ValidateLicense(Seq<char>, Seq<char>, Seq<char>),
    SaveLicense(Seq<char>, Seq<char>, Seq<char>),
    LaunchGame,
    ApplyUpdate,
    Exit,
}

impl View for Launcher {
    type V = LauncherView;

    open spec fn view(&self) -> LauncherView {
        LauncherView {
            fingerprint: self.fingerprint@,
            license_key: self.license_key@,
            tiktok_username: self.tiktok_username@,
            status: self.status@,
            status_ok: self.status_ok,
            license_valid: self.license_valid,
            is_checking: self.is_checking,
            api_response: opt_license_view(self.api_response),
            update: self.update@,
        }
    }
}

impl View for Message {
    type V = MessageView;

    open spec fn view(&self) -> MessageView {
        match self {
            Message::LicenseKeyChanged(s) => MessageView::LicenseKeyChanged(s@),
            Message::TikTokUserChanged(s) => MessageView::TikTokUserChanged(s@),
            Message::CheckLicense => MessageView::CheckLicense,
            Message::LicenseResult(r) => MessageView::LicenseResult(
                match r {
                    Ok(resp) => Ok(resp@),
                    Err(e) => Err(e@),
                },
            ),
            Message::LaunchGame => MessageView::LaunchGame,
            Message::KeyPress(k) => MessageView::KeyPress(*k),
            Message::UpdateChecked(u) => MessageView::UpdateChecked(u@),
            Message::UpdateApply => MessageView::UpdateApply,
            Message::UpdateApplied(u) => MessageView::UpdateApplied(u@),
            Message::LicenseSaveFailed(e) => MessageView::LicenseSaveFailed(e@),
        }
    }
}

impl View for Effect {
    type V = EffectView;

    open spec fn view(&self) -> EffectView {
        match self {
            Effect::Nothing => EffectView::Nothing,
            Effect::CheckUpdate => EffectView::CheckUpdate,
            Effect::ValidateLicense { license_key, fingerprint, tiktok_username } =>
                EffectView::ValidateLicense(license_key@, fingerprint@, tiktok_username@),
            Effect::SaveLicense { license_key, fingerprint, tiktok_username } =>
                EffectView::SaveLicense(license_key@, fingerprint@, tiktok_username@),
            Effect::LaunchGame => EffectView::LaunchGame,
            Effect::ApplyUpdate => EffectView::ApplyUpdate,
            Effect::Exit => EffectView::Exit,
        }
    }
}

pub open spec fn msg_found() -> Seq<char> {
    "Licence trouvée. Cliquez sur Activer pour vérifier."@
}

pub open spec fn msg_enter() -> Seq<char> {
    "Entrez votre clé de licence et votre TikTok pour activer."@
}

pub open spec fn msg_need_key() -> Seq<char> {
    "Veuillez entrer une clé de licence."@
}

pub open spec fn msg_need_tiktok() -> Seq<char> {
    "Le nom d'utilisateur TikTok est obligatoire."@
}

pub open spec fn msg_checking() -> Seq<char> {
    "Vérification en cours..."@
}

pub open spec fn msg_valid() -> Seq<char> {
    "Licence valide ! Vous pouvez lancer le jeu."@
}

pub open spec fn msg_refused() -> Seq<char> {
    "Licence invalide: clé refusée par le serveur."@
}

/// The state the launcher starts in, given the device fingerprint and the
/// license saved on the device, if any.
pub open spec fn initial_view(fingerprint: Seq<char>, saved: Option<LicenseRecord>) -> LauncherView {
    LauncherView {
        fingerprint,
        license_key: match saved {
            Some(l) => l.license_key,
            None => seq![],
        },
        tiktok_username: match saved {
            Some(l) => l.tiktok_username,
            None => seq![],
        },
        status: if saved is Some {
            msg_found()
        } else {
            msg_enter()
        },
        status_ok: true,
        license_valid: false,
        is_checking: false,
        api_response: None,
        update: UpdateView::Idle,
    }
}

/// A request to validate the license: refused while one is in flight or
/// while the key or the account, trimmed, is empty; otherwise the launcher
/// starts checking and sends the trimmed key and account with its
/// fingerprint.
pub open spec fn begin_check_step(s: LauncherView) -> (LauncherView, EffectView) {
    if s.is_checking {
        (s, EffectView::Nothing)
    } else if trim(s.license_key).len() == 0 {
        (LauncherView { status: msg_need_key(), status_ok: false, ..s }, EffectView::Nothing)
    } else if trim(s.tiktok_username).len() == 0 {
        (LauncherView { status: msg_need_tiktok(), status_ok: false, ..s }, EffectView::Nothing)
    } else {
        (
            LauncherView { is_checking: true, status: msg_checking(), status_ok: true, ..s },
            EffectView::ValidateLicense(trim(s.license_key), s.fingerprint, trim(s.tiktok_username)),
        )
    }
}

/// The status shown for a license that the server refused.
pub open spec fn refusal_status(r: ResponseView) -> Seq<char> {
    if r.message.len() != 0 {
        r.message
    } else if r.reason.len() != 0 {
        "Licence invalide ("@ + r.reason + ")"@
    } else {
        msg_refused()
    }
}

/// The outcome of a license check: an accepted license is shown and saved,
/// a refused one is explained, and a failed request is reported.
pub open spec fn result_step(s: LauncherView, r: Result<ResponseView, Seq<char>>) -> (LauncherView, EffectView) {
    let s = LauncherView { is_checking: false, ..s };
    match r {
        Ok(resp) => if resp.valid {
            (
                LauncherView {
                    status: if resp.message.len() == 0 {
                        msg_valid()
                    } else {
                        resp.message
                    },
                    status_ok: true,
                    license_valid: true,
                    api_response: match resp.license {
                        Some(l) => Some(l),
                        None => Some(LicenseView { tiktok_username: s.tiktok_username, ..empty_license_view() }),
                    },
                    ..s
                },
                EffectView::SaveLicense(s.license_key, s.fingerprint, s.tiktok_username),
            )
        } else {
            (
                LauncherView {
                    status: refusal_status(resp),
                    status_ok: false,
                    license_valid: false,
                    api_response: resp.license,
                    ..s
                },
                EffectView::Nothing,
            )
        },
        Err(e) => (
            LauncherView { status: "Erreur réseau: "@ + e, status_ok: false, license_valid: false, ..s },
            EffectView::Nothing,
        ),
    }
}

/// How the launcher reacts to a message: its next state and the work it asks
/// for.
pub open spec fn step(s: LauncherView, m: MessageView) -> (LauncherView, EffectView) {
    match m {
        MessageView::LicenseKeyChanged(k) => (LauncherView { license_key: k, ..s }, EffectView::Nothing),
        MessageView::TikTokUserChanged(t) => (LauncherView { tiktok_username: t, ..s }, EffectView::Nothing),
        MessageView::KeyPress(k) => if k == Key::Enter {
            begin_check_step(s)
        } else {
            (s, EffectView::Nothing)
        },
        MessageView::CheckLicense => begin_check_step(s),
        MessageView::LicenseResult(r) => result_step(s, r),
        MessageView::LaunchGame => (s, EffectView::LaunchGame),
        MessageView::UpdateChecked(u) => (
            LauncherView {
                update: match u {
                    UpdateView::Error(_) => UpdateView::Idle,
                    other => other,
                },
                ..s
            },
            EffectView::Nothing,
        ),
        MessageView::UpdateApply => (LauncherView { update: UpdateView::Installing, ..s }, EffectView::ApplyUpdate),
        MessageView::UpdateApplied(u) => if u is ReadyToQuit {
            (s, EffectView::Exit)
        } else {
            (LauncherView { update: u, ..s }, EffectView::Nothing)
        },
        MessageView::LicenseSaveFailed(e) => (LauncherView { status: e, status_ok: false, ..s }, EffectView::Nothing),
    }
}

/// Trims a text.
fn trimmed(s: &String) -> (res: String)
    ensures
        res@ == trim(s@),
{
    let cs = chars_of(s.as_str());
    let t = trim_chars(cs.as_slice());
    string_from_chars(t.as_slice())
}

impl Launcher {
    /// The launcher at start-up, given the device fingerprint and the license
    /// saved on the device, and its first request: a check for updates.
    pub fn new(fingerprint: String, saved: Option<StoredLicense>) -> (res: (Launcher, Effect))
        ensures
            res.0@ == initial_view(fingerprint@, opt_record(saved)),
            res.1@ == EffectView::CheckUpdate,
    {
        let found = saved.is_some();
        let (license_key, tiktok_username) = match saved {
            Some(l) => (l.license_key, l.tiktok_username),
            None => (String::new(), String::new()),
        };
        let status = if found {
            String::from_str("Licence trouvée. Cliquez sur Activer pour vérifier.")
        } else {
            String::from_str("Entrez votre clé de licence et votre TikTok pour activer.")
        };
        (
            Launcher {
                fingerprint,
                license_key,
                tiktok_username,
                status,
                status_ok: true,
                license_valid: false,
                is_checking: false,
                api_response: None,
                update: UpdateState::Idle,
            },
            Effect::CheckUpdate,
        )
    }

    /// The window title.
    pub fn title(&self) -> (res: String)
        ensures
            res@ == "Only Climb Together"@,
    {
        String::from_str("Only Climb Together")
    }

    /// Starts a license check, when one may start.
    pub fn begin_check(&mut self) -> (eff: Effect)
        ensures
            (final(self)@, eff@) == begin_check_step(old(self)@),
    {
        if self.is_checking {
            return Effect::Nothing;
        }
        let key = trimmed(&self.license_key);
        if key.as_str().is_empty() {
            self.status = String::from_str("Veuillez entrer une clé de licence.");
            self.status_ok = false;
            return Effect::Nothing;
        }
        let tiktok = trimmed(&self.tiktok_username);
        if tiktok.as_str().is_empty() {
            self.status = String::from_str("Le nom d'utilisateur TikTok est obligatoire.");
            self.status_ok = false;
            return Effect::Nothing;
        }
        self.is_checking = true;
        self.status = String::from_str("Vérification en cours...");
        self.status_ok = true;
        Effect::ValidateLicense {
            license_key: key,
            fingerprint: self.fingerprint.clone(),
            tiktok_username: tiktok,
        }
    }

    /// Takes in the outcome of a license check.
    fn take_result(&mut self, result: Result<LicenseResponse, String>) -> (eff: Effect)
        ensures
            (final(self)@, eff@) == result_step(
                old(self)@,
                match result {
                    Ok(resp) => Ok(resp@),
                    Err(e) => Err(e@),
                },
            ),
    {
        self.is_checking = false;
        match result {
            Ok(resp) => {
                if resp.valid {
                    self.status = if resp.message.as_str().is_empty() {
                        String::from_str("Licence valide ! Vous pouvez lancer le jeu.")
                    } else {
                        resp.message
                    };
                    self.status_ok = true;
                    self.license_valid = true;
                    self.api_response = match resp.license {
                        Some(l) => Some(l),
                        None => {
                            let mut l = License::default();
                            l.tiktok_username = self.tiktok_username.clone();
                            Some(l)
                        },
                    };
                    Effect::SaveLicense {
                        license_key: self.license_key.clone(),
                        fingerprint: self.fingerprint.clone(),
                        tiktok_username: self.tiktok_username.clone(),
                    }
                } else {
                    self.status = if !resp.message.as_str().is_empty() {
                        resp.message
                    } else if !resp.reason.as_str().is_empty() {
                        let mut s = String::from_str("Licence invalide (");
                        s.append(resp.reason.as_str());
                        s.append(")");
                        s
                    } else {
                        String::from_str("Licence invalide: clé refusée par le serveur.")
                    };
                    self.status_ok = false;
                    self.license_valid = false;
                    self.api_response = resp.license;
                    Effect::Nothing
                }
            },
            Err(e) => {
                let mut s = String::from_str("Erreur réseau: ");
                s.append(e.as_str());
                self.status = s;
                self.status_ok = false;
                self.license_valid = false;
                Effect::Nothing
            },
        }
    }

    /// Reacts to a message: updates the state and returns the work to do.
    pub fn update(&mut self, message: Message) -> (eff: Effect)
        ensures
            (final(self)@, eff@) == step(old(self)@, message@),
    {
        match message {
            Message::LicenseKeyChanged(input) => {
                self.license_key = input;
                Effect::Nothing
            },
            Message::TikTokUserChanged(input) => {
                self.tiktok_username = input;
                Effect::Nothing
            },
            Message::KeyPress(key) => match key {
                Key::Enter => self.begin_check(),
                Key::Other => Effect::Nothing,
            },
            Message::CheckLicense => self.begin_check(),
            Message::LicenseResult(result) => self.take_result(result),
            Message::LaunchGame => Effect::LaunchGame,
            Message::UpdateChecked(state) => {
                self.update = match state {
                    UpdateState::Error(_) => UpdateState::Idle,
                    s => s,
                };
                Effect::Nothing
            },
            Message::UpdateApply => {
                self.update = UpdateState::Installing;
                Effect::ApplyUpdate
            },
            Message::UpdateApplied(state) => {
                if let UpdateState::ReadyToQuit = state {
                    return Effect::Exit;
                }
                self.update = state;
                Effect::Nothing
            },
            Message::LicenseSaveFailed(e) => {
                self.status = e;
                self.status_ok = false;
                Effect::Nothing
            },
        }
    }
}


/// While a license check is in flight, no message starts another one.
pub proof fn lemma_no_second_check(s: LauncherView, m: MessageView)
    requires
        s.is_checking,
    ensures
        !(step(s, m).1 is ValidateLicense),
{
}

/// A license check is asked for only from an idle launcher, with the
/// trimmed, nonempty key and account and the launcher's fingerprint, and the
/// launcher is then checking.
pub proof fn lemma_check_request(s: LauncherView, m: MessageView)
    requires
        step(s, m).1 is ValidateLicense,
    ensures
        !s.is_checking,
        step(s, m).0.is_checking,
        step(s, m).1 == EffectView::ValidateLicense(
            trim(s.license_key),
            s.fingerprint,
            trim(s.tiktok_username),
        ),
        trim(s.license_key).len() > 0,
        trim(s.tiktok_username).len() > 0,
{
}

/// The launch is unlocked only by a license check that the server answered
/// as valid.
pub proof fn lemma_unlock_needs_valid_answer(s: LauncherView, m: MessageView)
    requires
        !s.license_valid,
        step(s, m).0.license_valid,
    ensures
        m matches MessageView::LicenseResult(Ok(r)) && r.valid,
{
}

/// A license is saved only when the server has just accepted it, and what is
/// saved is the key, fingerprint and account that the launcher holds.
pub proof fn lemma_save_after_acceptance(s: LauncherView, m: MessageView)
    requires
        step(s, m).1 is SaveLicense,
    ensures
        m matches MessageView::LicenseResult(Ok(r)) && r.valid,
        step(s, m).1 == EffectView::SaveLicense(s.license_key, s.fingerprint, s.tiktok_username),
{
}

/// Any outcome of a license check ends the check.
pub proof fn lemma_result_ends_check(s: LauncherView, r: Result<ResponseView, Seq<char>>)
    ensures
        !step(s, MessageView::LicenseResult(r)).0.is_checking,
{
}

/// A failed check for updates at start-up shows nothing.
pub proof fn lemma_failed_update_check_is_silent(s: LauncherView, e: Seq<char>)
    ensures
        step(s, MessageView::UpdateChecked(UpdateView::Error(e))).0.update == UpdateView::Idle,
{
}

/// The launcher asks to exit exactly when an installed update is ready.
pub proof fn lemma_exit_only_when_ready(s: LauncherView, m: MessageView)
    ensures
        step(s, m).1 is Exit <==> m == MessageView::UpdateApplied(UpdateView::ReadyToQuit),
{
}

/// Whether the game can be started follows the server's answer: after any
/// answer it can when the server accepted the license, and it cannot when the
/// server refused it or the request failed; no other message changes it.
pub proof fn lemma_license_valid_follows_verdict(s: LauncherView, m: MessageView)
    ensures
        m matches MessageView::LicenseResult(r) ==> step(s, m).0.license_valid == (r matches Ok(
            resp,
        ) && resp.valid),
        !(m is LicenseResult) ==> step(s, m).0.license_valid == s.license_valid,
{
}

/// A failed license request locks the launch and reports the network error
/// with its message, whatever the launcher showed before.
pub proof fn lemma_failed_request_locks(s: LauncherView, e: Seq<char>)
    ensures
        !step(s, MessageView::LicenseResult(Err(e))).0.license_valid,
        !step(s, MessageView::LicenseResult(Err(e))).0.status_ok,
        step(s, MessageView::LicenseResult(Err(e))).0.status == "Erreur réseau: "@ + e,
        step(s, MessageView::LicenseResult(Err(e))).1 is Nothing,
{
}

/// A refused license locks the launch and saves nothing; the status shows the
/// server's message when it gave one, else its reason in
/// `Licence invalide (..)`, and the panel shows the details it sent.
pub proof fn lemma_refusal_locks(s: LauncherView, r: ResponseView)
    requires
        !r.valid,
    ensures
        !step(s, MessageView::LicenseResult(Ok(r))).0.license_valid,
        !step(s, MessageView::LicenseResult(Ok(r))).0.status_ok,
        step(s, MessageView::LicenseResult(Ok(r))).1 is Nothing,
        step(s, MessageView::LicenseResult(Ok(r))).0.api_response == r.license,
        r.message.len() > 0 ==> step(s, MessageView::LicenseResult(Ok(r))).0.status == r.message,
        r.message.len() == 0 && r.reason.len() > 0 ==> step(
            s,
            MessageView::LicenseResult(Ok(r)),
        ).0.status == "Licence invalide ("@ + r.reason + ")"@,
{
}

/// An accepted license unlocks the launch, is saved as the launcher holds
/// it, and its details, or the account alone when the server sent none, are
/// shown.
pub proof fn lemma_acceptance_unlocks(s: LauncherView, r: ResponseView)
    requires
        r.valid,
    ensures
        step(s, MessageView::LicenseResult(Ok(r))).0.license_valid,
        step(s, MessageView::LicenseResult(Ok(r))).0.status_ok,
        step(s, MessageView::LicenseResult(Ok(r))).1 == EffectView::SaveLicense(
            s.license_key,
            s.fingerprint,
            s.tiktok_username,
        ),
        r.license is Some ==> step(s, MessageView::LicenseResult(Ok(r))).0.api_response == r.license,
        r.license is None ==> step(s, MessageView::LicenseResult(Ok(r))).0.api_response == Some(
            LicenseView { tiktok_username: s.tiktok_username, ..empty_license_view() },
        ),
        r.message.len() > 0 ==> step(s, MessageView::LicenseResult(Ok(r))).0.status == r.message,
{
}

/// Typing changes the edited field only, and asks for nothing.
pub proof fn lemma_edits_change_only_their_field(s: LauncherView, t: Seq<char>)
    ensures
        step(s, MessageView::LicenseKeyChanged(t)).0 == (LauncherView { license_key: t, ..s }),
        step(s, MessageView::TikTokUserChanged(t)).0 == (LauncherView { tiktok_username: t, ..s }),
        step(s, MessageView::LicenseKeyChanged(t)).1 is Nothing,
        step(s, MessageView::TikTokUserChanged(t)).1 is Nothing,
{
}

/// Enter and the activation button do the same; any other key does nothing.
pub proof fn lemma_enter_checks(s: LauncherView)
    ensures
        step(s, MessageView::KeyPress(Key::Enter)) == step(s, MessageView::CheckLicense),
        step(s, MessageView::KeyPress(Key::Other)).0 == s,
        step(s, MessageView::KeyPress(Key::Other)).1 is Nothing,
{
}

/// A check that cannot start leaves the launch lock, the key, the account
/// and the details as they were, and reports the missing field: the key
/// first, then the account.
pub proof fn lemma_refused_check_keeps_state(s: LauncherView)
    requires
        !s.is_checking,
        trim(s.license_key).len() == 0 || trim(s.tiktok_username).len() == 0,
    ensures
        step(s, MessageView::CheckLicense).1 is Nothing,
        !step(s, MessageView::CheckLicense).0.status_ok,
        step(s, MessageView::CheckLicense).0.license_valid == s.license_valid,
        step(s, MessageView::CheckLicense).0.license_key == s.license_key,
        step(s, MessageView::CheckLicense).0.tiktok_username == s.tiktok_username,
        step(s, MessageView::CheckLicense).0.api_response == s.api_response,
        !step(s, MessageView::CheckLicense).0.is_checking,
        trim(s.license_key).len() == 0 ==> step(s, MessageView::CheckLicense).0.status == msg_need_key(),
        trim(s.license_key).len() > 0 ==> step(s, MessageView::CheckLicense).0.status == msg_need_tiktok(),
{
}

/// Only the update messages change the update state: a state reported by a
/// check or an install is shown (a failed start-up check as `Idle`), an
/// install request shows `Installing` and asks for the install, and a ready
/// update makes the launcher exit without changing what it shows.
pub proof fn lemma_update_messages(s: LauncherView, m: MessageView)
    ensures
        !(m is UpdateChecked || m is UpdateApply || m is UpdateApplied) ==> step(s, m).0.update
            == s.update,
        m matches MessageView::UpdateChecked(u) ==> step(s, m).0.update == (if u is Error {
            UpdateView::Idle
        } else {
            u
        }),
        m is UpdateApply ==> step(s, m).0.update == UpdateView::Installing && step(s, m).1 is ApplyUpdate,
        m matches MessageView::UpdateApplied(u) ==> (if u is ReadyToQuit {
            step(s, m).0 == s
        } else {
            step(s, m).0.update == u
        }),
        (m is UpdateChecked || m is UpdateApply || m is UpdateApplied) ==> step(s, m).0
            == (LauncherView { update: step(s, m).0.update, ..s }),
{
}

/// Starting the game asks the host to launch it and changes nothing else.
pub proof fn lemma_launch_request(s: LauncherView)
    ensures
        step(s, MessageView::LaunchGame) == (s, EffectView::LaunchGame),
{
}

/// A failed save of an accepted license is reported, and keeps the launch
/// unlocked.
pub proof fn lemma_save_failure_reported(s: LauncherView, e: Seq<char>)
    ensures
        step(s, MessageView::LicenseSaveFailed(e)).0 == (LauncherView { status: e, status_ok: false, ..s }),
        step(s, MessageView::LicenseSaveFailed(e)).1 is Nothing,
{
}

/// The device fingerprint never changes.
pub proof fn lemma_fingerprint_fixed(s: LauncherView, m: MessageView)
    ensures
        step(s, m).0.fingerprint == s.fingerprint,
{
}

} // verus!
