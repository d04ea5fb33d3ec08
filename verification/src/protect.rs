//! Protection of the game binary: the key derived from a fingerprint, the
//! sealed file format (`OCP1`, nonce, AES-256-GCM ciphertext), launch tokens
//! and the names of the temporary copies of the game.

use vstd::prelude::*;
use crate::crypto::{
    aes256gcm_decrypt, aes256gcm_encrypt, aes256gcm_open, aes256gcm_seal, hex_encode, hex_lower,
    lemma_hex_lower_shape, max_plaintext_len, random_nonce, sha256, sha256_digest,
};
use crate::text::{chars_of, ends_with_chars, has_prefix, has_suffix, starts_with_chars};

verus! {

/// The fingerprint whose key encrypted the distributed game binary.
pub const MASTER_FINGERPRINT: &'static str = "D3BC655F35674C56";

/// The file name of the unprotected game, as shipped.
pub const EXE_NAME: &'static str = "system_core.exe";

/// The file name of the sealed game.
pub const BIN_NAME: &'static str = "system_core.bin";

/// The file name of the launch token handed to the game.
pub const TOKEN_NAME: &'static str = "license.token";

/// The smallest size, in bytes, of a complete sealed game binary.
pub const MIN_BIN_SIZE: u64 = 8192;

/// The magic bytes `OCP1` that open a sealed game binary.
pub open spec fn magic() -> Seq<u8> {
    seq![79u8, 67u8, 80u8, 49u8]
}

/// The salt `ONLYCLIMB_SECURE_2026_SALT` of the key derivation.
pub open spec fn salt() -> Seq<u8> {
    seq![
        79u8, 78u8, 76u8, 89u8, 67u8, 76u8, 73u8, 77u8, 66u8, 95u8, 83u8, 69u8, 67u8, 85u8, 82u8,
        69u8, 95u8, 50u8, 48u8, 50u8, 54u8, 95u8, 83u8, 65u8, 76u8, 84u8,
    ]
}

fn magic_bytes() -> (res: Vec<u8>)
    ensures
        res@ == magic(),
{
    let res = vec![79u8, 67u8, 80u8, 49u8];
    assert(res@ =~= magic());
    res
}

fn salt_bytes() -> (res: Vec<u8>)
    ensures
        res@ == salt(),
{
    let res = vec![
        79u8, 78u8, 76u8, 89u8, 67u8, 76u8, 73u8, 77u8, 66u8, 95u8, 83u8, 69u8, 67u8, 85u8, 82u8,
        69u8, 95u8, 50u8, 48u8, 50u8, 54u8, 95u8, 83u8, 65u8, 76u8, 84u8,
    ];
    assert(res@ =~= salt());
    res
}

/// `a` followed by `b`.
fn concat_bytes(a: &[u8], b: &[u8]) -> (res: Vec<u8>)
    ensures
        res@ == a@ + b@,
{
    let mut res: Vec<u8> = Vec::new();
    let mut i: usize = 0;
    while i < a.len()
        invariant
            i <= a@.len(),
            res@ == a@.take(i as int),
        decreases a@.len() - i,
    {
        res.push(a[i]);
        i = i + 1;
        assert(res@ =~= a@.take(i as int));
    }
    let mut j: usize = 0;
    while j < b.len()
        invariant
            j <= b@.len(),
            res@ == a@ + b@.take(j as int),
        decreases b@.len() - j,
    {
        res.push(b[j]);
        j = j + 1;
        assert(res@ =~= a@ + b@.take(j as int));
    }
    assert(a@.take(a@.len() as int) =~= a@);
    assert(b@.take(b@.len() as int) =~= b@);
    res
}

/// The bytes of `s` from `lo` to `hi`.
fn byte_range(s: &[u8], lo: usize, hi: usize) -> (res: Vec<u8>)
    requires
        lo <= hi <= s@.len(),
    ensures
        res@ == s@.subrange(lo as int, hi as int),
{
    let mut res: Vec<u8> = Vec::new();
    let mut i = lo;
    while i < hi
        invariant
            lo <= i <= hi <= s@.len(),
            res@ == s@.subrange(lo as int, i as int),
        decreases hi - i,
    {
        res.push(s[i]);
        i = i + 1;
        assert(res@ =~= s@.subrange(lo as int, i as int));
    }
    res
}

/// The AES key of a fingerprint: SHA-256 of the salt followed by the SHA-256
/// of the fingerprint's UTF-8 bytes.
pub open spec fn derived_key(fingerprint: Seq<char>) -> Seq<u8> {
    sha256(salt() + sha256(vstd::utf8::encode_utf8(fingerprint)))
}

/// Derives the AES-256 key of a fingerprint.
pub fn derive_key(fingerprint: &str) -> (res: Vec<u8>)
    ensures
        res@ == derived_key(fingerprint@),
        res@.len() == 32,
{
    let fp_hash = sha256_digest(fingerprint.as_bytes());
    let s = salt_bytes();
    let input = concat_bytes(s.as_slice(), fp_hash.as_slice());
    sha256_digest(input.as_slice())
}

/// A sealed game binary: the magic bytes, the nonce, then the ciphertext of
/// the game under the fingerprint's key.
pub open spec fn sealed(fingerprint: Seq<char>, nonce: Seq<u8>, data: Seq<u8>) -> Seq<u8> {
    magic() + nonce + aes256gcm_seal(derived_key(fingerprint), nonce, data)
}

/// Seals a game binary with the given nonce; nothing when the binary is too
/// large for AES-GCM.
pub fn seal_with_nonce(fingerprint: &str, nonce: &[u8], data: &[u8]) -> (res: Option<Vec<u8>>)
    requires
        nonce@.len() == 12,
    ensures
        res is Some <==> data@.len() <= max_plaintext_len(),
        res matches Some(out) ==> out@ == sealed(fingerprint@, nonce@, data@),
        res matches Some(out) ==> out@.len() == data@.len() + 32,
{
    let key = derive_key(fingerprint);
    match aes256gcm_encrypt(key.as_slice(), nonce, data) {
        Some(ct) => {
            let m = magic_bytes();
            let head = concat_bytes(m.as_slice(), nonce);
            let out = concat_bytes(head.as_slice(), ct.as_slice());
            Some(out)
        },
        None => None,
    }
}

/// What sealing the game binary came to.
#[derive(Debug)]
pub enum SealOutcome {
    /// The sealed bytes.
    Sealed(Vec<u8>),
    /// Nothing was sealed: the binary is empty (there is nothing to protect)
    /// or too large for AES-GCM.
    Skipped,
    /// The operating system's random source gave no nonce.
    NoRandomness,
}

/// Seals the game binary with a fresh random nonce: the sealed bytes for
/// some 12-byte nonce, 32 bytes longer than the game. An empty binary is
/// skipped before any nonce is drawn; for any other, a nonce is drawn first,
/// and the binary is skipped only when it is too large for AES-GCM.
pub fn seal_game_binary(fingerprint: &str, exe: &[u8]) -> (res: SealOutcome)
    ensures
        exe@.len() == 0 ==> res is Skipped,
        0 < exe@.len() <= max_plaintext_len() ==> !(res is Skipped),
        exe@.len() > max_plaintext_len() ==> !(res is Sealed),
        res is NoRandomness ==> exe@.len() > 0,
        res matches SealOutcome::Sealed(out) ==> exists|n: Seq<u8>|
            n.len() == 12 && out@ == #[trigger] sealed(fingerprint@, n, exe@),
        res matches SealOutcome::Sealed(out) ==> out@.len() == exe@.len() + 32,
{
    if exe.len() == 0 {
        return SealOutcome::Skipped;
    }
    let nonce = match random_nonce() {
        Some(n) => n,
        None => {
            return SealOutcome::NoRandomness;
        },
    };
    match seal_with_nonce(fingerprint, nonce.as_slice(), exe) {
        Some(out) => {
            assert(nonce@.len() == 12 && out@ == sealed(fingerprint@, nonce@, exe@));
            SealOutcome::Sealed(out)
        },
        None => SealOutcome::Skipped,
    }
}

/// Whether an existing sealed binary is large enough to be complete (a
/// smaller one is the remains of a failed write).
pub fn bin_is_complete(len: u64) -> (res: bool)
    ensures
        res == (len >= MIN_BIN_SIZE),
{
    len >= MIN_BIN_SIZE
}

pub open spec fn msg_too_small() -> Seq<char> {
    "Fichier jeu corrompu (trop petit). Relancez le launcher."@
}

pub open spec fn msg_no_magic() -> Seq<char> {
    "Fichier jeu invalide (magic OCP1 absent). Reinstallation necessaire."@
}

pub open spec fn msg_undecryptable() -> Seq<char> {
    "Dechiffrement echoue. Fichier jeu corrompu ou altere."@
}

/// What opening a sealed game binary gives: the game, or why it cannot be
/// had. The master fingerprint's key decrypts.
pub open spec fn opened(raw: Seq<u8>) -> Result<Seq<u8>, Seq<char>> {
    if raw.len() < 32 {
        Err(msg_too_small())
    } else if raw.take(4) != magic() {
        Err(msg_no_magic())
    } else {
        match aes256gcm_open(derived_key(MASTER_FINGERPRINT@), raw.subrange(4, 16), raw.skip(16)) {
            Some(p) => Ok(p),
            None => Err(msg_undecryptable()),
        }
    }
}

/// The view of what `open_game_binary` returns.
pub open spec fn opened_view(r: Result<Vec<u8>, String>) -> Result<Seq<u8>, Seq<char>> {
    match r {
        Ok(p) => Ok(p@),
        Err(e) => Err(e@),
    }
}

/// Opens a sealed game binary with the master key. A binary sealed for the
/// master fingerprint, 32 bytes longer than the game (as sealing makes it),
/// opens to that game.
pub fn open_game_binary(raw: &[u8]) -> (res: Result<Vec<u8>, String>)
    ensures
        opened_view(res) == opened(raw@),
        forall|n: Seq<u8>, d: Seq<u8>|
            n.len() == 12 && d.len() <= max_plaintext_len() && raw@.len() == d.len() + 32
                && raw@ == #[trigger] sealed(MASTER_FINGERPRINT@, n, d) ==> opened_view(res)
                == Ok::<Seq<u8>, Seq<char>>(d),
{
    if raw.len() < 32 {
        return Err(String::from_str("Fichier jeu corrompu (trop petit). Relancez le launcher."));
    }
    let head = byte_range(raw, 0, 4);
    let m = magic_bytes();
    if !bytes_eq(head.as_slice(), m.as_slice()) {
        proof {
            assert(head@ =~= raw@.take(4));
            assert forall|n: Seq<u8>, d: Seq<u8>| n.len() == 12 implies raw@ != #[trigger] sealed(
                MASTER_FINGERPRINT@,
                n,
                d,
            ) by {
                let s = sealed(MASTER_FINGERPRINT@, n, d);
                if raw@ == s {
                    assert(s.take(4) =~= magic());
                }
            }
        }
        return Err(
            String::from_str("Fichier jeu invalide (magic OCP1 absent). Reinstallation necessaire."),
        );
    }
    let nonce = byte_range(raw, 4, 16);
    let ct = byte_range(raw, 16, raw.len());
    let key = derive_key(MASTER_FINGERPRINT);
    let res = aes256gcm_decrypt(key.as_slice(), nonce.as_slice(), ct.as_slice());
    proof {
        assert(head@ =~= raw@.take(4));
        assert(ct@ =~= raw@.skip(16));
        assert forall|n: Seq<u8>, d: Seq<u8>|
            n.len() == 12 && d.len() <= max_plaintext_len() && raw@ == #[trigger] sealed(
                MASTER_FINGERPRINT@,
                n,
                d,
            ) implies res is Some && res->Some_0@ == d by {
            let s = sealed(MASTER_FINGERPRINT@, n, d);
            assert(s.subrange(4, 16) =~= n);
            assert(s.skip(16) =~= aes256gcm_seal(derived_key(MASTER_FINGERPRINT@), n, d));
        }
    }
    match res {
        Some(p) => Ok(p),
        None => Err(String::from_str("Dechiffrement echoue. Fichier jeu corrompu ou altere.")),
    }
}

/// Sealing for the master fingerprint and opening again gives the game back,
/// for any nonce and any game that AES-GCM takes, given the two facts that
/// the AES-GCM calls state of their results: a ciphertext is 16 bytes
/// longer than its plaintext, and it decrypts to that plaintext.
pub proof fn lemma_seal_open_round_trip(nonce: Seq<u8>, game: Seq<u8>)
    requires
        nonce.len() == 12,
        game.len() <= max_plaintext_len(),
        aes256gcm_seal(derived_key(MASTER_FINGERPRINT@), nonce, game).len() == game.len() + 16,
        aes256gcm_open(
            derived_key(MASTER_FINGERPRINT@),
            nonce,
            aes256gcm_seal(derived_key(MASTER_FINGERPRINT@), nonce, game),
        ) == Some(game),
    ensures
        opened(sealed(MASTER_FINGERPRINT@, nonce, game)) == Ok::<Seq<u8>, Seq<char>>(game),
{
    let s = sealed(MASTER_FINGERPRINT@, nonce, game);
    assert(s.take(4) =~= magic());
    assert(s.subrange(4, 16) =~= nonce);
    assert(s.skip(16) =~= aes256gcm_seal(derived_key(MASTER_FINGERPRINT@), nonce, game));
}

/// Whether two byte sequences are equal.
fn bytes_eq(a: &[u8], b: &[u8]) -> (res: bool)
    ensures
        res == (a@ == b@),
{
    if a.len() != b.len() {
        return false;
    }
    let mut i: usize = 0;
    while i < a.len()
        invariant
            a@.len() == b@.len(),
            i <= a@.len(),
            forall|k: int| 0 <= k < i ==> a@[k] == b@[k],
        decreases a@.len() - i,
    {
        if a[i] != b[i] {
            return false;
        }
        i = i + 1;
    }
    assert(a@ =~= b@);
    true
}


pub open spec fn tmp_prefix() -> Seq<char> {
    "system_core_"@
}

pub open spec fn tmp_suffix() -> Seq<char> {
    ".tmp"@
}

/// The name of the temporary copy of the game made with `nonce`.
pub open spec fn temp_name(nonce: Seq<u8>) -> Seq<char> {
    tmp_prefix() + hex_lower(nonce) + tmp_suffix()
}

/// A file name that a temporary copy of the game may have.
pub open spec fn is_temp_name(name: Seq<char>) -> bool {
    has_prefix(name, tmp_prefix()) && has_suffix(name, tmp_suffix())
}

/// The name of the temporary copy of the game made with `nonce`.
pub fn temp_file_name_for(nonce: &[u8]) -> (res: String)
    ensures
        res@ == temp_name(nonce@),
{
    let mut s = String::from_str("system_core_");
    let h = hex_encode(nonce);
    s.append(h.as_str());
    s.append(".tmp");
    s
}

/// A fresh name for a temporary copy of the game; nothing when the random
/// source fails.
pub fn temp_file_name() -> (res: Option<String>)
    ensures
        res matches Some(name) ==> exists|n: Seq<u8>|
            n.len() == 12 && name@ == #[trigger] temp_name(n),
{
    match random_nonce() {
        Some(nonce) => Some(temp_file_name_for(nonce.as_slice())),
        None => None,
    }
}

/// Whether a file in the game's directory is a leftover temporary copy.
pub fn is_stale_temp(name: &str) -> (res: bool)
    ensures
        res == is_temp_name(name@),
{
    let cs = chars_of(name);
    let p = chars_of("system_core_");
    let q = chars_of(".tmp");
    starts_with_chars(cs.as_slice(), p.as_slice()) && ends_with_chars(cs.as_slice(), q.as_slice())
}

/// Every temporary copy that a launch makes is recognised, and removed, by
/// the clean-up of leftovers.
pub proof fn lemma_temp_names_recognized(nonce: Seq<u8>)
    ensures
        is_temp_name(temp_name(nonce)),
{
    let t = temp_name(nonce);
    assert(t.take(tmp_prefix().len() as int) =~= tmp_prefix());
    assert(t.skip(t.len() - tmp_suffix().len()) =~= tmp_suffix());
}

/// A launch token: the lowercase hexadecimal text of 12 random bytes;
/// nothing when the random source fails.
pub fn generate_token() -> (res: Option<String>)
    ensures
        res matches Some(t) ==> exists|n: Seq<u8>| n.len() == 12 && t@ == #[trigger] hex_lower(n),
        res matches Some(t) ==> t@.len() == 24,
{
    match random_nonce() {
        Some(nonce) => {
            proof {
                lemma_hex_lower_shape(nonce@);
            }
            Some(hex_encode(nonce.as_slice()))
        },
        None => None,
    }
}


/// What the last step of protecting the game gave.
#[derive(Debug)]
pub enum SealEvent {
    /// Protection starts; the size of the sealed binary, if one exists.
    Start { bin_len: Option<u64> },
    /// An incomplete sealed binary was removed (whatever came of it).
    StubRemoved,
    /// Whether the unprotected game exists.
    ExeFound(bool),
    /// The unprotected game's bytes, or nothing when it could not be read.
    ExeRead(Option<Vec<u8>>),
    /// Whether the sealed binary was written.
    Written(bool),
}

/// The next step of protecting the game.
#[derive(Debug)]
pub enum SealAction {
    /// Nothing more to do.
    Stop,
    RemoveStub,
    CheckExe,
    ReadExe,
    /// Write this sealed binary.
    Write(Vec<u8>),
    /// Remove the unprotected game, now that it is sealed.
    RemoveExe,
    /// The operating system's random source gave no nonce to seal with.
    NoRandomness,
}

/// How protecting the game goes on: a complete sealed binary ends it; an
/// incomplete one is removed first; then the unprotected game, when present,
/// readable and not empty, is sealed and written, and only once the write
/// succeeded is the unprotected game removed. When the random source gives
/// no nonce, the step says so, and the caller cannot go on.
pub fn seal_step(fingerprint: &str, event: SealEvent) -> (res: SealAction)
    ensures
        match event {
            SealEvent::Start { bin_len: Some(n) } => if n >= MIN_BIN_SIZE {
                res is Stop
            } else {
                res is RemoveStub
            },
            SealEvent::Start { bin_len: None } => res is CheckExe,
            SealEvent::StubRemoved => res is CheckExe,
            SealEvent::ExeFound(found) => if found {
                res is ReadExe
            } else {
                res is Stop
            },
            SealEvent::ExeRead(None) => res is Stop,
            SealEvent::ExeRead(Some(data)) => {
                &&& (data@.len() == 0 ==> res is Stop)
                &&& (0 < data@.len() <= max_plaintext_len() ==> res is Write || res is NoRandomness)
                &&& (data@.len() > max_plaintext_len() ==> res is Stop || res is NoRandomness)
                &&& (res is NoRandomness ==> data@.len() > 0)
                &&& (res is Write || res is Stop || res is NoRandomness)
                &&& (res matches SealAction::Write(out) ==> exists|n: Seq<u8>|
                    n.len() == 12 && out@ == #[trigger] sealed(fingerprint@, n, data@))
                &&& (res matches SealAction::Write(out) ==> out@.len() == data@.len() + 32)
            },
            SealEvent::Written(ok) => if ok {
                res is RemoveExe
            } else {
                res is Stop
            },
        },
{
    match event {
        SealEvent::Start { bin_len: Some(n) } => {
            if bin_is_complete(n) {
                SealAction::Stop
            } else {
                SealAction::RemoveStub
            }
        },
        SealEvent::Start { bin_len: None } => SealAction::CheckExe,
        SealEvent::StubRemoved => SealAction::CheckExe,
        SealEvent::ExeFound(found) => {
            if found {
                SealAction::ReadExe
            } else {
                SealAction::Stop
            }
        },
        SealEvent::ExeRead(None) => SealAction::Stop,
        SealEvent::ExeRead(Some(data)) => match seal_game_binary(fingerprint, data.as_slice()) {
            SealOutcome::Sealed(out) => SealAction::Write(out),
            SealOutcome::Skipped => SealAction::Stop,
            SealOutcome::NoRandomness => SealAction::NoRandomness,
        },
        SealEvent::Written(ok) => {
            if ok {
                SealAction::RemoveExe
            } else {
                SealAction::Stop
            }
        },
    }
}


/// What the last step of launching the game gave.
#[derive(Debug)]
pub enum LaunchEvent {
    /// The sealed binary's bytes, or why it could not be read.
    BinRead(Result<Vec<u8>, String>),
    /// The decrypted game was written to its temporary file, or why not.
    TempWritten(Result<(), String>),
    /// The launch token was written, or why not.
    TokenWritten(Result<(), String>),
    /// The game process started, or why not.
    Spawned(Result<(), String>),
}

/// The next step of launching the game.
#[derive(Debug)]
pub enum LaunchAction {
    /// Write the decrypted game to the temporary file.
    WriteTemp(Vec<u8>),
    /// Write the launch token beside the game.
    WriteToken,
    /// Start the game from the temporary file, with the token.
    Spawn,
    /// The game runs: remove its files once it exits.
    Running,
    /// Launching failed with this message.
    Fail(String),
    /// Remove the temporary file and the token, then fail with this message.
    CleanUpAndFail(String),
}

/// The view of a launch step.
pub enum LaunchActionView {
    WriteTemp(Seq<u8>),
    WriteToken,
    Spawn,
    Running,
    Fail(Seq<char>),
    CleanUpAndFail(Seq<char>),
}

impl View for LaunchAction {
    type V = LaunchActionView;

    open spec fn view(&self) -> LaunchActionView {
        match self {
            LaunchAction::WriteTemp(b) => LaunchActionView::WriteTemp(b@),
            LaunchAction::WriteToken => LaunchActionView::WriteToken,
            LaunchAction::Spawn => LaunchActionView::Spawn,
            LaunchAction::Running => LaunchActionView::Running,
            LaunchAction::Fail(m) => LaunchActionView::Fail(m@),
            LaunchAction::CleanUpAndFail(m) => LaunchActionView::CleanUpAndFail(m@),
        }
    }
}

/// How launching goes on: the sealed binary is read and opened, the game is
/// written out, then the token, then the game is started; each failure ends
/// the launch with its message, and a failed start first removes the files
/// it left.
pub open spec fn launch_next(e: LaunchEvent) -> LaunchActionView {
    match e {
        LaunchEvent::BinRead(Err(m)) => LaunchActionView::Fail("Lecture du jeu impossible : "@ + m@),
        LaunchEvent::BinRead(Ok(raw)) => match opened(raw@) {
            Ok(game) => LaunchActionView::WriteTemp(game),
            Err(m) => LaunchActionView::Fail(m),
        },
        LaunchEvent::TempWritten(Err(m)) => LaunchActionView::Fail(
            "Ecriture temporaire impossible : "@ + m@,
        ),
        LaunchEvent::TempWritten(Ok(())) => LaunchActionView::WriteToken,
        LaunchEvent::TokenWritten(Err(m)) => LaunchActionView::Fail(
            "Impossible d'ecrire le jeton de licence : "@ + m@,
        ),
        LaunchEvent::TokenWritten(Ok(())) => LaunchActionView::Spawn,
        LaunchEvent::Spawned(Err(m)) => LaunchActionView::CleanUpAndFail(
            "Impossible de lancer le jeu : "@ + m@,
        ),
        LaunchEvent::Spawned(Ok(())) => LaunchActionView::Running,
    }
}

/// A failure message: a prefix, then the cause.
fn prefixed(prefix: &str, cause: &str) -> (res: String)
    ensures
        res@ == prefix@ + cause@,
{
    let mut s = String::from_str(prefix);
    s.append(cause);
    s
}

/// The next step of launching the game, given what the last one gave.
pub fn launch_step(event: LaunchEvent) -> (res: LaunchAction)
    ensures
        res@ == launch_next(event),
{
    match event {
        LaunchEvent::BinRead(Err(m)) => LaunchAction::Fail(
            prefixed("Lecture du jeu impossible : ", m.as_str()),
        ),
        LaunchEvent::BinRead(Ok(raw)) => match open_game_binary(raw.as_slice()) {
            Ok(game) => LaunchAction::WriteTemp(game),
            Err(m) => LaunchAction::Fail(m),
        },
        LaunchEvent::TempWritten(Err(m)) => LaunchAction::Fail(
            prefixed("Ecriture temporaire impossible : ", m.as_str()),
        ),
        LaunchEvent::TempWritten(Ok(())) => LaunchAction::WriteToken,
        LaunchEvent::TokenWritten(Err(m)) => LaunchAction::Fail(
            prefixed("Impossible d'ecrire le jeton de licence : ", m.as_str()),
        ),
        LaunchEvent::TokenWritten(Ok(())) => LaunchAction::Spawn,
        LaunchEvent::Spawned(Err(m)) => LaunchAction::CleanUpAndFail(
            prefixed("Impossible de lancer le jeu : ", m.as_str()),
        ),
        LaunchEvent::Spawned(Ok(())) => LaunchAction::Running,
    }
}

/// The game is started only from a decrypted binary: the only step that
/// writes the game out is the one after a sealed binary opened, and it
/// writes exactly what opening gave.
pub proof fn lemma_launch_writes_opened_game(e: LaunchEvent)
    requires
        launch_next(e) is WriteTemp,
    ensures
        e matches LaunchEvent::BinRead(Ok(raw)) && opened(raw@) == Ok::<Seq<u8>, Seq<char>>(
            launch_next(e)->WriteTemp_0,
        ),
{
}

} // verus!
