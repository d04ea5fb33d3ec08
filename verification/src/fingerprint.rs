//! The device fingerprint: read from the outputs of `wmic` and `reg query`,
//! hashed, and shown as 16 uppercase hexadecimal digits.

use vstd::prelude::*;
use crate::crypto::{hex_encode, hex_lower, lemma_hex_lower_shape, sha256, sha256_digest};
use crate::text::{
    chars_of, contains_chars, contains_seq, copy_range, is_whitespace, is_ws, lemma_trim_end_take,
    lines, lines_of, string_from_chars, trim, trim_chars, trim_end, views,
};

verus! {

/// The text that `String::from_utf8_lossy` makes of `bytes`.
pub uninterp spec fn utf8_lossy(bytes: Seq<u8>) -> Seq<char>;

/// Decodes a command's output with `String::from_utf8_lossy`. The contract
/// names the result, and claims, as the documentation says, that valid UTF-8
/// decodes to its characters; it leaves unsaid how invalid sequences are
/// replaced.
#[verifier::external_body]
pub(crate) fn decode_lossy(bytes: &[u8]) -> (res: String)
    ensures
        res@ == utf8_lossy(bytes@),
        vstd::utf8::valid_utf8(bytes@) ==> res@ == vstd::utf8::decode_utf8(bytes@),
{
    String::from_utf8_lossy(bytes).into_owned()
}

pub open spec fn unknown() -> Seq<char> {
    "UNKNOWN"@
}

/// The value that `wmic ... get <property>` prints: its second line, trimmed.
pub open spec fn wmic_value(text: Seq<char>) -> Seq<char> {
    if lines(text).len() > 1 {
        trim(lines(text)[1])
    } else {
        unknown()
    }
}

/// The property value read from `wmic`'s standard output, or `UNKNOWN` when
/// the command could not run.
pub open spec fn wmic_result(output: Option<Seq<u8>>) -> Seq<char> {
    match output {
        Some(b) => wmic_value(utf8_lossy(b)),
        None => unknown(),
    }
}

/// The property that a `wmic <class> get <property>` command printed, given
/// its standard output (nothing when the command could not run).
pub fn run_wmic(output: Option<&[u8]>) -> (res: String)
    ensures
        res@ == wmic_result(
            match output {
                Some(b) => Some(b@),
                None => None,
            },
        ),
{
    match output {
        Some(bytes) => {
            let text = decode_lossy(bytes);
            let cs = chars_of(text.as_str());
            let ls = lines_of(cs.as_slice());
            if ls.len() > 1 {
                proof {
                    assert(views(ls@)[1] == ls@[1]@);
                }
                let t = trim_chars(ls[1].as_slice());
                string_from_chars(t.as_slice())
            } else {
                String::from_str("UNKNOWN")
            }
        },
        None => String::from_str("UNKNOWN"),
    }
}

/// The maximal run of non-white-space characters at the end of `t`.
pub open spec fn trailing_word(t: Seq<char>) -> Seq<char>
    decreases t.len(),
{
    if t.len() == 0 || is_ws(t.last()) {
        seq![]
    } else {
        trailing_word(t.drop_last()).push(t.last())
    }
}

/// The last white-space-separated word of a line, as
/// `split_whitespace().last()` gives it (empty when the line has none).
pub open spec fn last_word(line: Seq<char>) -> Seq<char> {
    trailing_word(trim_end(line))
}

/// The machine GUID in the lines of `reg query`'s output: the last word of
/// the first line that mentions `MachineGuid`.
pub open spec fn guid_in_lines(ls: Seq<Seq<char>>) -> Seq<char>
    decreases ls.len(),
{
    if ls.len() == 0 {
        unknown()
    } else if contains_seq(ls[0], "MachineGuid"@) {
        if last_word(ls[0]).len() == 0 {
            unknown()
        } else {
            last_word(ls[0])
        }
    } else {
        guid_in_lines(ls.drop_first())
    }
}

/// The machine GUID read from `reg query`'s standard output, or `UNKNOWN`.
pub open spec fn registry_result(output: Option<Seq<u8>>) -> Seq<char> {
    match output {
        Some(b) => guid_in_lines(lines(utf8_lossy(b))),
        None => unknown(),
    }
}

proof fn lemma_trailing_word(s: Seq<char>, lo: int, hi: int)
    requires
        0 <= lo <= hi <= s.len(),
        forall|k: int| lo <= k < hi ==> !is_ws(#[trigger] s[k]),
        lo == 0 || is_ws(s[lo - 1]),
    ensures
        trailing_word(s.take(hi)) == s.subrange(lo, hi),
    decreases hi - lo,
{
    if hi > lo {
        assert(s.take(hi).drop_last() =~= s.take(hi - 1));
        lemma_trailing_word(s, lo, hi - 1);
        assert(s.subrange(lo, hi - 1).push(s[hi - 1]) =~= s.subrange(lo, hi));
    } else if lo > 0 {
        assert(s.take(hi).last() == s[lo - 1]);
    }
}

/// The last white-space-separated word of a line.
fn last_word_chars(s: &[char]) -> (res: Vec<char>)
    ensures
        res@ == last_word(s@),
{
    let mut hi = s.len();
    while hi > 0 && is_whitespace(s[hi - 1])
        invariant
            hi <= s@.len(),
            forall|j: int| hi <= j < s@.len() ==> is_ws(#[trigger] s@[j]),
        decreases hi,
    {
        hi = hi - 1;
    }
    let mut lo = hi;
    while lo > 0 && !is_whitespace(s[lo - 1])
        invariant
            lo <= hi <= s@.len(),
            forall|k: int| lo <= k < hi ==> !is_ws(#[trigger] s@[k]),
        decreases lo,
    {
        lo = lo - 1;
    }
    proof {
        lemma_trim_end_take(s@, hi as int);
        if hi > 0 {
            assert(s@.take(hi as int).last() == s@[hi - 1]);
        }
        lemma_trailing_word(s@, lo as int, hi as int);
    }
    copy_range(s, lo, hi)
}

/// The machine GUID that `reg query ... /v MachineGuid` printed, given its
/// standard output (nothing when the command could not run).
pub fn read_registry_guid(output: Option<&[u8]>) -> (res: String)
    ensures
        res@ == registry_result(
            match output {
                Some(b) => Some(b@),
                None => None,
            },
        ),
{
    match output {
        Some(bytes) => {
            let text = decode_lossy(bytes);
            let cs = chars_of(text.as_str());
            let ls = lines_of(cs.as_slice());
            let marker = chars_of("MachineGuid");
            let ghost all = views(ls@);
            let mut i: usize = 0;
            proof {
                assert(all.skip(0) =~= all);
            }
            while i < ls.len()
                invariant
                    all == views(ls@),
                    registry_result(
                        match output {
                            Some(b) => Some(b@),
                            None => None,
                        },
                    ) == guid_in_lines(all),
                    marker@ == "MachineGuid"@,
                    i <= ls@.len(),
                    guid_in_lines(all) == guid_in_lines(all.skip(i as int)),
                decreases ls@.len() - i,
            {
                proof {
                    assert(all.skip(i as int).drop_first() =~= all.skip(i + 1));
                    assert(all.skip(i as int)[0] == ls@[i as int]@);
                }
                if contains_chars(ls[i].as_slice(), marker.as_slice()) {
                    let w = last_word_chars(ls[i].as_slice());
                    if w.len() == 0 {
                        return String::from_str("UNKNOWN");
                    }
                    return string_from_chars(w.as_slice());
                }
                i = i + 1;
            }
            proof {
                assert(all.skip(i as int) =~= Seq::<Seq<char>>::empty());
            }
            String::from_str("UNKNOWN")
        },
        None => String::from_str("UNKNOWN"),
    }
}

/// The uppercase form of an ASCII letter; other characters stay.
pub open spec fn ascii_upper(c: char) -> char {
    if 'a' <= c && c <= 'z' {
        (c as int - 32) as char
    } else {
        c
    }
}

/// The text hashed into the fingerprint: the three identifiers, trimmed,
/// separated by `|`.
pub open spec fn fingerprint_source(uuid: Seq<char>, volume: Seq<char>, guid: Seq<char>) -> Seq<char> {
    trim(uuid) + seq!['|'] + trim(volume) + seq!['|'] + trim(guid)
}

/// The fingerprint of three identifiers: the first 16 hexadecimal digits of
/// the SHA-256 of their text, in uppercase.
pub open spec fn fingerprint_of(uuid: Seq<char>, volume: Seq<char>, guid: Seq<char>) -> Seq<char> {
    hex_lower(sha256(vstd::utf8::encode_utf8(fingerprint_source(uuid, volume, guid)))).take(16).map_values(
        |c: char| ascii_upper(c),
    )
}

/// The fingerprint of a product UUID, a volume serial number and a machine
/// GUID.
pub fn fingerprint_from_ids(uuid: &str, volume: &str, guid: &str) -> (res: String)
    ensures
        res@ == fingerprint_of(uuid@, volume@, guid@),
        res@.len() == 16,
        forall|i: int|
            0 <= i < 16 ==> {
                let c = #[trigger] res@[i];
                ('0' <= c && c <= '9') || ('A' <= c && c <= 'F')
            },
{
    let u = trim_chars(chars_of(uuid).as_slice());
    let v = trim_chars(chars_of(volume).as_slice());
    let g = trim_chars(chars_of(guid).as_slice());
    let mut raw = string_from_chars(u.as_slice());
    raw.append("|");
    let vs = string_from_chars(v.as_slice());
    raw.append(vs.as_str());
    raw.append("|");
    let gs = string_from_chars(g.as_slice());
    raw.append(gs.as_str());
    proof {
        reveal_strlit("|");
        assert(raw@ =~= fingerprint_source(uuid@, volume@, guid@));
    }
    let digest = sha256_digest(raw.as_str().as_bytes());
    let hex = hex_encode(digest.as_slice());
    let hc = chars_of(hex.as_str());
    proof {
        lemma_hex_lower_shape(digest@);
        lemma_fingerprint_shape(uuid@, volume@, guid@);
    }
    let mut out: Vec<char> = Vec::new();
    let mut i: usize = 0;
    while i < 16
        invariant
            hc@.len() == 64,
            i <= 16,
            out@ == hc@.take(i as int).map_values(|c: char| ascii_upper(c)),
        decreases 16 - i,
    {
        let c = hc[i];
        let up = if 'a' <= c && c <= 'z' { ((c as u32 - 32) as u8) as char } else { c };
        out.push(up);
        i = i + 1;
        assert(out@ =~= hc@.take(i as int).map_values(|c: char| ascii_upper(c)));
    }
    string_from_chars(out.as_slice())
}

/// The device fingerprint, given the outputs of the product UUID and volume
/// serial `wmic` queries and of the machine GUID `reg query` (each nothing
/// when its command could not run).
pub fn generate_fingerprint(
    uuid_output: Option<&[u8]>,
    volume_output: Option<&[u8]>,
    registry_output: Option<&[u8]>,
) -> (res: String)
    ensures
        res@ == fingerprint_of(
            wmic_result(
                match uuid_output {
                    Some(b) => Some(b@),
                    None => None,
                },
            ),
            wmic_result(
                match volume_output {
                    Some(b) => Some(b@),
                    None => None,
                },
            ),
            registry_result(
                match registry_output {
                    Some(b) => Some(b@),
                    None => None,
                },
            ),
        ),
        res@.len() == 16,
        forall|i: int|
            0 <= i < 16 ==> {
                let c = #[trigger] res@[i];
                ('0' <= c && c <= '9') || ('A' <= c && c <= 'F')
            },
{
    let uuid = run_wmic(uuid_output);
    let vol = run_wmic(volume_output);
    let guid = read_registry_guid(registry_output);
    fingerprint_from_ids(uuid.as_str(), vol.as_str(), guid.as_str())
}

/// A fingerprint is 16 characters long, each a digit or an uppercase letter
/// from `A` to `F`.
pub proof fn lemma_fingerprint_shape(uuid: Seq<char>, volume: Seq<char>, guid: Seq<char>)
    requires
        sha256(vstd::utf8::encode_utf8(fingerprint_source(uuid, volume, guid))).len() == 32,
    ensures
        fingerprint_of(uuid, volume, guid).len() == 16,
        forall|i: int|
            0 <= i < 16 ==> {
                let c = #[trigger] fingerprint_of(uuid, volume, guid)[i];
                ('0' <= c && c <= '9') || ('A' <= c && c <= 'F')
            },
{
    let d = sha256(vstd::utf8::encode_utf8(fingerprint_source(uuid, volume, guid)));
    lemma_hex_lower_shape(d);
    let h = hex_lower(d);
    assert forall|i: int| 0 <= i < 16 implies {
        let c = #[trigger] fingerprint_of(uuid, volume, guid)[i];
        ('0' <= c && c <= '9') || ('A' <= c && c <= 'F')
    } by {
        assert(h.take(16)[i] == h[i]);
    }
}

} // verus!
