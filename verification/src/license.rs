//! The license record kept on disk: its text format, how it is read back,
//! and where it lives.

use vstd::prelude::*;
use crate::text::{
    chars_of, copy_range, has_prefix, lemma_lines_no_newline, lemma_split_cons,
    lemma_split_single, lemma_trim_drop_ws_last, lemma_trim_idempotent, lemma_trim_no_newline,
    lines, lines_of, no_newline, split_on, starts_with_chars, string_from_chars, strip_cr, trim,
    trim_chars, views,
};

verus! {

/// A license saved on this machine.
#[derive(Debug, Clone)]
pub struct StoredLicense {
    pub license_key: String,
    /// Kept for the symmetry of the file format; the launcher recomputes the
    /// fingerprint at run time instead of trusting this value.
    pub fingerprint: String,
    pub tiktok_username: String,
}

/// The three fields of a license record, as character sequences.
pub struct LicenseRecord {
    pub license_key: Seq<char>,
    pub fingerprint: Seq<char>,
    pub tiktok_username: Seq<char>,
}

impl View for StoredLicense {
    type V = LicenseRecord;

    open spec fn view(&self) -> LicenseRecord {
        LicenseRecord {
            license_key: self.license_key@,
            fingerprint: self.fingerprint@,
            tiktok_username: self.tiktok_username@,
        }
    }
}

/// The view of an optional stored license.
pub open spec fn opt_record(o: Option<StoredLicense>) -> Option<LicenseRecord> {
    match o {
        Some(l) => Some(l@),
        None => None,
    }
}

pub open spec fn key_prefix() -> Seq<char> {
    "license_key="@
}

pub open spec fn fingerprint_prefix() -> Seq<char> {
    "fingerprint="@
}

pub open spec fn tiktok_prefix() -> Seq<char> {
    "tiktok_username="@
}

/// The record before any line is read: three empty fields.
pub open spec fn empty_record() -> LicenseRecord {
    LicenseRecord { license_key: seq![], fingerprint: seq![], tiktok_username: seq![] }
}

/// The effect of one line of the file on the record read so far: a line
/// that starts with a field's prefix sets that field to the trimmed rest of
/// the line; any other line changes nothing.
pub open spec fn apply_line(r: LicenseRecord, line: Seq<char>) -> LicenseRecord {
    if has_prefix(line, key_prefix()) {
        LicenseRecord { license_key: trim(line.skip(key_prefix().len() as int)), ..r }
    } else if has_prefix(line, fingerprint_prefix()) {
        LicenseRecord { fingerprint: trim(line.skip(fingerprint_prefix().len() as int)), ..r }
    } else if has_prefix(line, tiktok_prefix()) {
        LicenseRecord { tiktok_username: trim(line.skip(tiktok_prefix().len() as int)), ..r }
    } else {
        r
    }
}

/// The record that a sequence of lines gives, read from first to last (a
/// field given twice keeps its last value).
pub open spec fn scan_lines(ls: Seq<Seq<char>>) -> LicenseRecord
    decreases ls.len(),
{
    if ls.len() == 0 {
        empty_record()
    } else {
        apply_line(scan_lines(ls.drop_last()), ls.last())
    }
}

/// What the text of a license file holds: the record of its lines, or
/// nothing when the license key is empty.
pub open spec fn parsed_license(content: Seq<char>) -> Option<LicenseRecord> {
    let r = scan_lines(lines(content));
    if r.license_key.len() == 0 {
        None
    } else {
        Some(r)
    }
}

/// The text written for a license: one `name=value` line per field.
pub open spec fn license_file_text(key: Seq<char>, fp: Seq<char>, tiktok: Seq<char>) -> Seq<
    char,
> {
    key_prefix() + key + seq!['\n'] + fingerprint_prefix() + fp + seq!['\n'] + tiktok_prefix()
        + tiktok + seq!['\n']
}

/// The trimmed rest of `line` after `prefix`, when `line` starts with it.
fn field_value(line: &[char], prefix: &[char]) -> (res: Option<Vec<char>>)
    ensures
        res is Some <==> has_prefix(line@, prefix@),
        res matches Some(v) ==> v@ == trim(line@.skip(prefix@.len() as int)),
{
    if starts_with_chars(line, prefix) {
        let rest = copy_range(line, prefix.len(), line.len());
        assert(rest@ =~= line@.skip(prefix@.len() as int));
        Some(trim_chars(rest.as_slice()))
    } else {
        None
    }
}

/// Reads a license file's text: each `license_key=`, `fingerprint=` and
/// `tiktok_username=` line sets its field to the trimmed rest of the line,
/// other lines are ignored, and a text without a license key gives nothing.
pub fn parse_license_content(content: &str) -> (res: Option<StoredLicense>)
    ensures
        opt_record(res) == parsed_license(content@),
{
    let cs = chars_of(content);
    let ls = lines_of(cs.as_slice());
    let kp = chars_of("license_key=");
    let fp = chars_of("fingerprint=");
    let tp = chars_of("tiktok_username=");
    let mut key: Vec<char> = Vec::new();
    let mut fingerprint: Vec<char> = Vec::new();
    let mut tiktok: Vec<char> = Vec::new();
    let ghost all = views(ls@);
    let mut i: usize = 0;
    proof {
        assert(all.take(0) =~= Seq::<Seq<char>>::empty());
        assert(key@ =~= Seq::<char>::empty());
        assert(fingerprint@ =~= Seq::<char>::empty());
        assert(tiktok@ =~= Seq::<char>::empty());
    }
    while i < ls.len()
        invariant
            all == views(ls@),
            all == lines(content@),
            kp@ == key_prefix(),
            fp@ == fingerprint_prefix(),
            tp@ == tiktok_prefix(),
            i <= ls@.len(),
            scan_lines(all.take(i as int)) == (LicenseRecord {
                license_key: key@,
                fingerprint: fingerprint@,
                tiktok_username: tiktok@,
            }),
        decreases ls@.len() - i,
    {
        let line = ls[i].as_slice();
        proof {
            assert(all.take(i + 1).drop_last() =~= all.take(i as int));
            assert(all.take(i + 1).last() == line@);
        }
        match field_value(line, kp.as_slice()) {
            Some(v) => {
                key = v;
            },
            None => match field_value(line, fp.as_slice()) {
                Some(v) => {
                    fingerprint = v;
                },
                None => match field_value(line, tp.as_slice()) {
                    Some(v) => {
                        tiktok = v;
                    },
                    None => {},
                },
            },
        }
        i = i + 1;
    }
    proof {
        assert(all.take(ls@.len() as int) =~= all);
    }
    if key.len() == 0 {
        None
    } else {
        Some(
            StoredLicense {
                license_key: string_from_chars(key.as_slice()),
                fingerprint: string_from_chars(fingerprint.as_slice()),
                tiktok_username: string_from_chars(tiktok.as_slice()),
            },
        )
    }
}

/// The text saved for a license: `license_key=`, `fingerprint=` and
/// `tiktok_username=` lines, each ended by a line feed.
pub fn license_file_content(key: &str, fp: &str, tiktok: &str) -> (res: String)
    ensures
        res@ == license_file_text(key@, fp@, tiktok@),
{
    let mut s = String::from_str("license_key=");
    s.append(key);
    s.append("\nfingerprint=");
    s.append(fp);
    s.append("\ntiktok_username=");
    s.append(tiktok);
    s.append("\n");
    proof {
        reveal_strlit("\nfingerprint=");
        reveal_strlit("\ntiktok_username=");
        reveal_strlit("\n");
        reveal_strlit("fingerprint=");
        reveal_strlit("tiktok_username=");
        assert("\nfingerprint="@ =~= seq!['\n'] + fingerprint_prefix());
        assert("\ntiktok_username="@ =~= seq!['\n'] + tiktok_prefix());
        assert(s@ =~= license_file_text(key@, fp@, tiktok@));
    }
    s
}

/// Chooses the license to use from the text of the license file, if it
/// could be read, else from the text of the file beside the executable, if
/// that could be read. A readable file decides, even when it holds no license.
pub fn read_license(primary: Option<String>, legacy: Option<String>) -> (res: Option<
    StoredLicense,
>)
    ensures
        opt_record(res) == match primary {
            Some(c) => parsed_license(c@),
            None => match legacy {
                Some(c) => parsed_license(c@),
                None => None,
            },
        },
{
    match primary {
        Some(c) => parse_license_content(c.as_str()),
        None => match legacy {
            Some(c) => parse_license_content(c.as_str()),
            None => None,
        },
    }
}


/// A field's line, as written, ends neither with a line feed nor with a
/// A field's line, as written and then split off at its line feed: the
/// prefix, then the value, less a final carriage return that trimming
/// removes anyway.
proof fn lemma_field_line(prefix: Seq<char>, v: Seq<char>) -> (w: Seq<char>)
    requires
        prefix.len() > 0,
        prefix.last() == '=',
    ensures
        strip_cr(prefix + v) == prefix + w,
        trim(w) == trim(v),
{
    if v.len() > 0 && v.last() == '\r' {
        assert((prefix + v).last() == v.last());
        assert((prefix + v).drop_last() =~= prefix + v.drop_last());
        lemma_trim_drop_ws_last(v);
        v.drop_last()
    } else {
        if v.len() > 0 {
            assert((prefix + v).last() == v.last());
        } else {
            assert(prefix + v =~= prefix);
        }
        v
    }
}

/// What `license_file_content` writes, `parse_license_content` reads back:
/// the three fields, trimmed, whenever no field holds a line feed and the
/// key is not blank.
pub proof fn lemma_license_round_trip(key: Seq<char>, fp: Seq<char>, tiktok: Seq<char>)
    requires
        no_newline(key),
        no_newline(fp),
        no_newline(tiktok),
        trim(key).len() > 0,
    ensures
        parsed_license(license_file_text(key, fp, tiktok)) == Some(
            LicenseRecord {
                license_key: trim(key),
                fingerprint: trim(fp),
                tiktok_username: trim(tiktok),
            },
        ),
{
    reveal_strlit("license_key=");
    reveal_strlit("fingerprint=");
    reveal_strlit("tiktok_username=");
    let kp = key_prefix();
    let fpp = fingerprint_prefix();
    let tp = tiktok_prefix();
    let a = kp + key;
    let b = fpp + fp;
    let c = tp + tiktok;
    let e = Seq::<char>::empty();
    let nl = seq!['\n'];
    assert forall|k: int| 0 <= k < a.len() implies #[trigger] a[k] != '\n' by {
        if k >= kp.len() {
            assert(a[k] == key[k - kp.len()]);
        }
    }
    assert forall|k: int| 0 <= k < b.len() implies #[trigger] b[k] != '\n' by {
        if k >= fpp.len() {
            assert(b[k] == fp[k - fpp.len()]);
        }
    }
    assert forall|k: int| 0 <= k < c.len() implies #[trigger] c[k] != '\n' by {
        if k >= tp.len() {
            assert(c[k] == tiktok[k - tp.len()]);
        }
    }
    let text = license_file_text(key, fp, tiktok);
    assert(text =~= a + nl + (b + nl + (c + nl + e)));
    lemma_split_single(e, '\n');
    lemma_split_cons(c, '\n', e);
    lemma_split_cons(b, '\n', c + nl + e);
    lemma_split_cons(a, '\n', b + nl + (c + nl + e));
    let p = split_on(text, '\n');
    assert(p =~= seq![a, b, c, e]);
    let wk = lemma_field_line(kp, key);
    let wf = lemma_field_line(fpp, fp);
    let wt = lemma_field_line(tp, tiktok);
    let la = kp + wk;
    let lb = fpp + wf;
    let lc = tp + wt;
    let ls = lines(text);
    assert(ls =~= seq![la, lb, lc]);
    assert(la.take(kp.len() as int) =~= kp);
    assert(la.skip(kp.len() as int) =~= wk);
    assert(lb.take(fpp.len() as int) =~= fpp);
    assert(lb.skip(fpp.len() as int) =~= wf);
    assert(lc.take(tp.len() as int) =~= tp);
    assert(lc.skip(tp.len() as int) =~= wt);
    assert(lb.take(kp.len() as int)[0] != kp[0]);
    assert(lc.take(kp.len() as int)[0] != kp[0]);
    assert(lc.take(fpp.len() as int)[0] != fpp[0]);
    assert(ls.drop_last() =~= seq![la, lb]);
    let r0 = scan_lines(seq![la]);
    assert(seq![la].drop_last() =~= Seq::<Seq<char>>::empty());
    assert(scan_lines(Seq::<Seq<char>>::empty()) == empty_record());
    assert(seq![la, lb].drop_last() =~= seq![la]);
    assert(r0 == apply_line(empty_record(), la));
    let r1 = scan_lines(seq![la, lb]);
    assert(r1 == apply_line(r0, lb));
    assert(scan_lines(ls) == apply_line(r1, lc));
}


/// A field as read: trimmed, and free of line feeds.
pub open spec fn clean_field(f: Seq<char>) -> bool {
    trim(f) == f && no_newline(f)
}

proof fn lemma_value_clean(line: Seq<char>, n: int)
    requires
        no_newline(line),
        0 <= n <= line.len(),
    ensures
        clean_field(trim(line.skip(n))),
{
    let rest = line.skip(n);
    assert forall|k: int| 0 <= k < rest.len() implies #[trigger] rest[k] != '\n' by {
        assert(rest[k] == line[k + n]);
    }
    lemma_trim_idempotent(rest);
    lemma_trim_no_newline(rest);
}

proof fn lemma_scan_clean(ls: Seq<Seq<char>>)
    requires
        forall|i: int| 0 <= i < ls.len() ==> no_newline(#[trigger] ls[i]),
    ensures
        clean_field(scan_lines(ls).license_key),
        clean_field(scan_lines(ls).fingerprint),
        clean_field(scan_lines(ls).tiktok_username),
    decreases ls.len(),
{
    if ls.len() == 0 {
        assert(trim(Seq::<char>::empty()) =~= Seq::<char>::empty());
    } else {
        let init = ls.drop_last();
        assert forall|i: int| 0 <= i < init.len() implies no_newline(#[trigger] init[i]) by {
            assert(init[i] == ls[i]);
        }
        lemma_scan_clean(init);
        let line = ls.last();
        assert(no_newline(ls[ls.len() - 1]));
        if has_prefix(line, key_prefix()) {
            lemma_value_clean(line, key_prefix().len() as int);
        } else if has_prefix(line, fingerprint_prefix()) {
            lemma_value_clean(line, fingerprint_prefix().len() as int);
        } else if has_prefix(line, tiktok_prefix()) {
            lemma_value_clean(line, tiktok_prefix().len() as int);
        }
    }
}

/// A license read from any text, written back with `license_file_content`,
/// reads back the same: saving what was loaded loses nothing.
pub proof fn lemma_license_rewrite(content: Seq<char>)
    requires
        parsed_license(content) is Some,
    ensures
        ({
            let r = parsed_license(content)->Some_0;
            parsed_license(license_file_text(r.license_key, r.fingerprint, r.tiktok_username))
                == parsed_license(content)
        }),
{
    lemma_lines_no_newline(content);
    lemma_scan_clean(lines(content));
    let r = parsed_license(content)->Some_0;
    lemma_license_round_trip(r.license_key, r.fingerprint, r.tiktok_username);
}

} // verus!
