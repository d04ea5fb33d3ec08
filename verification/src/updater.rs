//! Self-update decisions: comparing release versions, summarising errors and
//! turning what the release server answered into an update state.

use vstd::prelude::*;
use crate::json::{json_get, parse_json, parsed_json, JsonValue};
use crate::text::{
    all_digits, chars_of, contains_chars, contains_seq, copy_range, digits_value,
    ends_with_chars, has_suffix, lemma_lines_no_newline, lemma_split_append,
    lemma_split_nonempty, lemma_split_single, lemma_trim_fixed, lines, lines_of, no_newline,
    parse_u64, parse_u64_chars, piece_len, split_chars, split_on, string_from_chars, strip_cr,
    trim, trim_chars, unsigned_digits, views,
};

verus! {

/// Update status shown by the launcher.
#[derive(Clone, Debug)]
pub enum UpdateState {
    /// Nothing to do, or a development build: the updater is inert.
    Idle,
    /// Already on the latest version.
    UpToDate,
    /// A newer version is available (its version string).
    Available(String),
    /// Download and swap in progress; the application is about to relaunch.
    Installing,
    /// The new binary is in place and relaunched: the launcher must exit now.
    ReadyToQuit,
    /// Failure, with a short message.
    Error(String),
}

/// The number that one dot-separated field of a version stands for: its
/// trimmed text read as a `u64`, or 0 when that text is no such number.
pub open spec fn field_value(field: Seq<char>) -> u64 {
    match parse_u64(trim(field)) {
        Some(v) => v,
        None => 0,
    }
}

/// The numeric fields of a version string such as `1.2.10`.
pub open spec fn version_fields(s: Seq<char>) -> Seq<u64> {
    split_on(s, '.').map_values(|f: Seq<char>| field_value(f))
}

/// Field `i` of a version, where a missing field counts as 0.
pub open spec fn field_at(v: Seq<u64>, i: int) -> u64 {
    if 0 <= i < v.len() {
        v[i]
    } else {
        0
    }
}

/// The number of fields that a comparison of `a` and `b` looks at.
pub open spec fn field_count(a: Seq<u64>, b: Seq<u64>) -> int {
    if a.len() >= b.len() {
        a.len() as int
    } else {
        b.len() as int
    }
}

/// `a` is greater than `b` at field `i` and equal to it before.
pub open spec fn greater_at(a: Seq<u64>, b: Seq<u64>, i: int) -> bool {
    &&& 0 <= i < field_count(a, b)
    &&& field_at(a, i) > field_at(b, i)
    &&& forall|j: int| 0 <= j < i ==> #[trigger] field_at(a, j) == field_at(b, j)
}

/// `a` is a greater version than `b`: compared field by field, numerically,
/// with missing fields counting as 0, the first field that differs is
/// greater in `a`.
pub open spec fn fields_newer(a: Seq<u64>, b: Seq<u64>) -> bool {
    exists|i: int| #[trigger] greater_at(a, b, i)
}

/// The version string `remote` is newer than `current`.
pub open spec fn newer(remote: Seq<char>, current: Seq<char>) -> bool {
    fields_newer(version_fields(remote), version_fields(current))
}

/// The numeric fields of a version string.
fn version_fields_of(s: &str) -> (res: Vec<u64>)
    ensures
        res@ == version_fields(s@),
{
    let cs = chars_of(s);
    let parts = split_chars(cs.as_slice(), '.');
    let ghost p = views(parts@);
    let mut res: Vec<u64> = Vec::new();
    let mut i: usize = 0;
    while i < parts.len()
        invariant
            p == views(parts@),
            p == split_on(s@, '.'),
            i <= parts@.len(),
            res@ == p.take(i as int).map_values(|f: Seq<char>| field_value(f)),
        decreases parts@.len() - i,
    {
        let t = trim_chars(parts[i].as_slice());
        let v = match parse_u64_chars(t.as_slice()) {
            Some(v) => v,
            None => 0,
        };
        proof {
            assert(parts@[i as int]@ == p[i as int]);
        }
        res.push(v);
        i = i + 1;
        proof {
            assert(res@ =~= p.take(i as int).map_values(|f: Seq<char>| field_value(f)));
        }
    }
    proof {
        assert(p.take(parts@.len() as int) =~= p);
    }
    res
}

/// Compares two "x.y.z" versions numerically, field by field: whether
/// `remote` is newer than `current`.
pub fn is_newer(remote: &str, current: &str) -> (res: bool)
    ensures
        res == newer(remote@, current@),
{
    let r = version_fields_of(remote);
    let c = version_fields_of(current);
    let n = if r.len() >= c.len() { r.len() } else { c.len() };
    let mut i: usize = 0;
    while i < n
        invariant
            n == field_count(r@, c@),
            r@ == version_fields(remote@),
            c@ == version_fields(current@),
            i <= n,
            forall|j: int| 0 <= j < i ==> #[trigger] field_at(r@, j) == field_at(c@, j),
        decreases n - i,
    {
        let rv = if i < r.len() { r[i] } else { 0 };
        let cv = if i < c.len() { c[i] } else { 0 };
        assert(rv == field_at(r@, i as int) && cv == field_at(c@, i as int));
        if rv != cv {
            if rv > cv {
                assert(greater_at(r@, c@, i as int));
            } else {
                assert forall|k: int| !greater_at(r@, c@, k) by {
                    if greater_at(r@, c@, k) {
                        if k > i {
                            assert(field_at(r@, i as int) == field_at(c@, i as int));
                        }
                    }
                }
            }
            return rv > cv;
        }
        i = i + 1;
    }
    assert forall|k: int| !greater_at(r@, c@, k) by {
        if greater_at(r@, c@, k) {
            assert(field_at(r@, k) == field_at(c@, k));
        }
    }
    false
}

/// No version is newer than itself.
pub proof fn lemma_newer_irreflexive(v: Seq<char>)
    ensures
        !newer(v, v),
{
}

/// Of two versions, at most one is newer than the other.
pub proof fn lemma_newer_asymmetric(a: Seq<char>, b: Seq<char>)
    ensures
        !(newer(a, b) && newer(b, a)),
{
    if newer(a, b) && newer(b, a) {
        let fa = version_fields(a);
        let fb = version_fields(b);
        let i = choose|i: int| greater_at(fa, fb, i);
        let k = choose|k: int| greater_at(fb, fa, k);
        if i < k {
            assert(field_at(fb, i) == field_at(fa, i));
        } else if k < i {
            assert(field_at(fa, k) == field_at(fb, k));
        }
    }
}

/// A version newer than a second one, which is newer than a third, is newer
/// than the third.
pub proof fn lemma_newer_transitive(a: Seq<char>, b: Seq<char>, c: Seq<char>)
    requires
        newer(a, b),
        newer(b, c),
    ensures
        newer(a, c),
{
    let fa = version_fields(a);
    let fb = version_fields(b);
    let fc = version_fields(c);
    let i = choose|i: int| greater_at(fa, fb, i);
    let k = choose|k: int| greater_at(fb, fc, k);
    let m = if i < k { i } else { k };
    assert forall|j: int| 0 <= j < m implies #[trigger] field_at(fa, j) == field_at(fc, j) by {
        assert(field_at(fa, j) == field_at(fb, j));
        assert(field_at(fb, j) == field_at(fc, j));
    }
    if i < k {
        assert(field_at(fb, i) == field_at(fc, i));
    } else if k < i {
        assert(field_at(fa, k) == field_at(fb, k));
    }
    assert(field_at(fa, m) > field_at(fc, m));
    assert(m < fa.len());
    assert(greater_at(fa, fc, m));
}

/// A trailing `0` field adds a field that counts as a missing one.
proof fn lemma_fields_trailing_zero(a: Seq<char>)
    ensures
        version_fields(a + seq!['.', '0']) == version_fields(a).push(0),
{
    let z = seq!['0'];
    lemma_split_append(a, '.', z);
    assert(a + seq!['.', '0'] =~= a + seq!['.'] + z);
    lemma_trim_fixed(z);
    assert(unsigned_digits(z) == z);
    assert(all_digits(z));
    assert(z.drop_last() =~= Seq::<char>::empty());
    assert(digits_value(Seq::<char>::empty()) == 0);
    assert(z.last() == '0');
    assert(digits_value(z) == digits_value(z.drop_last()) * 10 + 0);
    assert(field_value(z) == 0);
    let p = split_on(a, '.');
    assert((p + seq![z]).map_values(|f: Seq<char>| field_value(f)) =~= p.map_values(
        |f: Seq<char>| field_value(f),
    ).push(0));
}

/// A trailing `.0` changes nothing in a version comparison, on either side.
pub proof fn lemma_newer_trailing_zero(a: Seq<char>, b: Seq<char>)
    ensures
        newer(a + seq!['.', '0'], b) == newer(a, b),
        newer(b, a + seq!['.', '0']) == newer(b, a),
{
    lemma_fields_trailing_zero(a);
    let fa = version_fields(a);
    let fz = version_fields(a + seq!['.', '0']);
    let fb = version_fields(b);
    assert forall|i: int| #[trigger] field_at(fz, i) == field_at(fa, i) by {
        if 0 <= i < fa.len() {
            assert(fz[i] == fa[i]);
        }
    }
    assert forall|i: int| greater_at(fz, fb, i) <==> #[trigger] greater_at(fa, fb, i) by {
        if greater_at(fz, fb, i) {
            assert(field_at(fz, i) == field_at(fa, i));
            assert forall|j: int| 0 <= j < i implies #[trigger] field_at(fa, j) == field_at(fb, j) by {
                assert(field_at(fz, j) == field_at(fa, j));
            }
        }
        if greater_at(fa, fb, i) {
            assert(field_at(fz, i) == field_at(fa, i));
            assert forall|j: int| 0 <= j < i implies #[trigger] field_at(fz, j) == field_at(fb, j) by {
                assert(field_at(fz, j) == field_at(fa, j));
            }
        }
    }
    assert forall|i: int| greater_at(fb, fz, i) <==> #[trigger] greater_at(fb, fa, i) by {
        if greater_at(fb, fz, i) {
            assert(field_at(fz, i) == field_at(fa, i));
            assert forall|j: int| 0 <= j < i implies #[trigger] field_at(fb, j) == field_at(fa, j) by {
                assert(field_at(fz, j) == field_at(fa, j));
            }
        }
        if greater_at(fb, fa, i) {
            assert(field_at(fz, i) == field_at(fa, i));
            assert forall|j: int| 0 <= j < i implies #[trigger] field_at(fb, j) == field_at(fz, j) by {
                assert(field_at(fz, j) == field_at(fa, j));
            }
        }
    }
    if newer(a + seq!['.', '0'], b) {
        let i = choose|i: int| greater_at(fz, fb, i);
        assert(greater_at(fa, fb, i));
    }
    if newer(a, b) {
        let i = choose|i: int| greater_at(fa, fb, i);
        assert(greater_at(fz, fb, i));
    }
    if newer(b, a + seq!['.', '0']) {
        let i = choose|i: int| greater_at(fb, fz, i);
        assert(greater_at(fb, fa, i));
    }
    if newer(b, a) {
        let i = choose|i: int| greater_at(fb, fa, i);
        assert(greater_at(fb, fz, i));
    }
}

/// At most 160 characters of the first line of `s` (all of `s` when it has
/// no line).
pub open spec fn short_text(s: Seq<char>) -> Seq<char> {
    let first = if lines(s).len() > 0 {
        lines(s)[0]
    } else {
        s
    };
    if first.len() <= 160 {
        first
    } else {
        first.take(160)
    }
}

/// Shortens a message for display: its first line, cut to 160 characters.
pub fn short(s: &str) -> (res: String)
    ensures
        res@ == short_text(s@),
{
    let cs = chars_of(s);
    let ls = lines_of(cs.as_slice());
    let first: &[char] = if ls.len() > 0 { ls[0].as_slice() } else { cs.as_slice() };
    proof {
        if ls@.len() > 0 {
            assert(views(ls@)[0] == ls@[0]@);
        }
    }
    if first.len() <= 160 {
        string_from_chars(first)
    } else {
        let cut = copy_range(first, 0, 160);
        assert(cut@ =~= first@.take(160));
        string_from_chars(cut.as_slice())
    }
}

/// A text without line feeds is its own only line, unless it is empty.
proof fn lemma_lines_single(x: Seq<char>)
    requires
        no_newline(x),
    ensures
        x.len() > 0 ==> lines(x) == seq![x],
        x.len() == 0 ==> lines(x).len() == 0,
{
    lemma_split_single(x, '\n');
    let p = split_on(x, '\n');
    assert(p.drop_last() =~= Seq::<Seq<char>>::empty());
    assert(p.drop_last().map_values(|l: Seq<char>| strip_cr(l)) =~= Seq::<Seq<char>>::empty());
    assert(Seq::<Seq<char>>::empty().push(x) =~= seq![x]);
}

/// A text that has no line is empty.
proof fn lemma_no_lines_empty(s: Seq<char>)
    requires
        lines(s).len() == 0,
    ensures
        s.len() == 0,
{
    let p = split_on(s, '\n');
    let n = piece_len(s, '\n');
    lemma_split_nonempty(s, '\n');
    if n < s.len() {
        lemma_split_nonempty(s.skip(n + 1int), '\n');
        assert(p.len() >= 2);
    }
    assert(p == seq![s]);
    assert(p.last() == s);
}

/// Shortening a shortened message changes nothing.
pub proof fn lemma_short_idempotent(s: Seq<char>)
    ensures
        short_text(short_text(s)) == short_text(s),
{
    let x = short_text(s);
    if lines(s).len() > 0 {
        lemma_lines_no_newline(s);
        let f = lines(s)[0];
        assert(no_newline(f));
        assert forall|k: int| 0 <= k < x.len() implies #[trigger] x[k] != '\n' by {
            assert(x[k] == f[k]);
        }
    } else {
        lemma_no_lines_empty(s);
    }
    assert(no_newline(x));
    lemma_lines_single(x);
    assert(x.len() <= 160);
}

/// The view of an update state: the variant, with its text where it has one.
pub enum UpdateView {
    Idle,
    UpToDate,
    Available(Seq<char>),
    Installing,
    ReadyToQuit,
    Error(Seq<char>),
}

impl View for UpdateState {
    type V = UpdateView;

    open spec fn view(&self) -> UpdateView {
        match self {
            UpdateState::Idle => UpdateView::Idle,
            UpdateState::UpToDate => UpdateView::UpToDate,
            UpdateState::Available(v) => UpdateView::Available(v@),
            UpdateState::Installing => UpdateView::Installing,
            UpdateState::ReadyToQuit => UpdateView::ReadyToQuit,
            UpdateState::Error(e) => UpdateView::Error(e@),
        }
    }
}

/// The update state that a startup check ends in, given the version string
/// of the latest release or the error met while asking for it.
pub open spec fn check_outcome_view(release: Result<Seq<char>, Seq<char>>, current: Seq<char>) -> UpdateView {
    match release {
        Ok(version) => if newer(version, current) {
            UpdateView::Available(version)
        } else {
            UpdateView::UpToDate
        },
        Err(e) => UpdateView::Error(short_text(e)),
    }
}

/// The start of the start-up check, given the path of the running executable:
/// a development build (or one whose path is unknown) stays `Idle` without
/// asking the release server; an installed launcher goes on to ask it
/// (nothing here), and `check_outcome` then gives the state.
pub fn check_start(current_exe: Option<String>) -> (res: Option<UpdateState>)
    ensures
        res is None <==> match current_exe {
            Some(p) => !contains_seq(lowercase(p@), dev_marker()),
            None => false,
        },
        res matches Some(s) ==> s@ == UpdateView::Idle,
{
    if is_installed(current_exe) {
        None
    } else {
        Some(UpdateState::Idle)
    }
}

/// A start-up check offers exactly a release newer than the running version,
/// with that release's version; an equal or older one leaves the launcher up
/// to date; a failed request shows its first line, at most 160 characters.
pub proof fn lemma_check_offers_only_newer(release: Result<Seq<char>, Seq<char>>, current: Seq<char>)
    ensures
        check_outcome_view(release, current) matches UpdateView::Available(v) ==> release == Ok::<
            Seq<char>,
            Seq<char>,
        >(v) && newer(v, current),
        release matches Ok(v) ==> (newer(v, current) <==> check_outcome_view(release, current)
            is Available),
        release matches Ok(v) && !newer(v, current) ==> check_outcome_view(release, current)
            is UpToDate,
        release matches Err(e) ==> check_outcome_view(release, current) == UpdateView::Error(
            short_text(e),
        ),
        check_outcome_view(release, current) matches UpdateView::Error(m) ==> m.len() <= 160 && no_newline(m),
{
    if release is Err {
        let e = release->Err_0;
        let f = if lines(e).len() > 0 { lines(e)[0] } else { e };
        if lines(e).len() > 0 {
            lemma_lines_no_newline(e);
            assert(no_newline(f));
        } else {
            lemma_no_lines_empty(e);
        }
        let x = short_text(e);
        assert forall|k: int| 0 <= k < x.len() implies #[trigger] x[k] != '\n' by {
            assert(x[k] == f[k]);
        }
    }
}

/// The update state after the check of an installed launcher: a newer
/// release is `Available`, an older or equal one leaves it `UpToDate`, and a
/// failed request is an `Error` with the shortened message.
pub fn check_outcome(release: Result<String, String>, current: &str) -> (res: UpdateState)
    ensures
        res@ == check_outcome_view(
            match release {
                Ok(v) => Ok(v@),
                Err(e) => Err(e@),
            },
            current@,
        ),
{
    match release {
        Ok(version) => {
            if is_newer(version.as_str(), current) {
                UpdateState::Available(version)
            } else {
                UpdateState::UpToDate
            }
        },
        Err(e) => UpdateState::Error(short(e.as_str())),
    }
}

/// What `str::to_lowercase` gives for a text: each character mapped to its
/// Unicode lowercase form.
pub uninterp spec fn lowercase(s: Seq<char>) -> Seq<char>;

/// The lowercase form of an ASCII capital letter; other characters stay.
pub open spec fn ascii_lower(c: char) -> char {
    if 'A' <= c && c <= 'Z' {
        (c as int + 32) as char
    } else {
        c
    }
}

/// Lowercases a text with `str::to_lowercase`. The contract names the result,
/// and claims that an ASCII text has its capitals `A` to `Z` mapped to `a` to
/// `z` and its other characters kept; it leaves unsaid how other characters
/// map.
#[verifier::external_body]
pub(crate) fn to_lowercase(s: &str) -> (res: String)
    ensures
        res@ == lowercase(s@),
        (forall|k: int| 0 <= k < s@.len() ==> #[trigger] s@[k] <= '\u{7f}') ==> res@ == s@.map_values(
            |c: char| ascii_lower(c),
        ),
{
    s.to_lowercase()
}

/// The marker of a development build's path: the executable runs from a
/// `target` directory.
pub open spec fn dev_marker() -> Seq<char> {
    "\\target\\"@
}

/// Whether the launcher is a real install, given the path of the running
/// executable (when it could be found): it is, unless its lowercased path
/// contains `\target\`.
pub fn is_installed(current_exe: Option<String>) -> (res: bool)
    ensures
        res == match current_exe {
            Some(p) => !contains_seq(lowercase(p@), dev_marker()),
            None => false,
        },
{
    match current_exe {
        Some(p) => {
            let lower = to_lowercase(p.as_str());
            let lc = chars_of(lower.as_str());
            let marker = chars_of("\\target\\");
            !contains_chars(lc.as_slice(), marker.as_slice())
        },
        None => false,
    }
}


/// A release tag without its leading `v` characters, as
/// `trim_start_matches('v')` leaves it.
pub open spec fn strip_leading_v(s: Seq<char>) -> Seq<char>
    decreases s.len(),
{
    if s.len() > 0 && s[0] == 'v' {
        strip_leading_v(s.drop_first())
    } else {
        s
    }
}

/// An asset whose name, lowercased, ends with `.exe`.
pub open spec fn is_exe_asset(a: JsonValue) -> bool {
    match json_get(a, "name"@) {
        Some(JsonValue::Str(n)) => has_suffix(lowercase(n@), ".exe"@),
        _ => false,
    }
}

/// The first executable asset among `items`.
pub open spec fn first_exe_asset(items: Seq<JsonValue>) -> Option<JsonValue>
    decreases items.len(),
{
    if items.len() == 0 {
        None
    } else if is_exe_asset(items[0]) {
        Some(items[0])
    } else {
        first_exe_asset(items.drop_first())
    }
}

/// The download address of the first executable asset of a release, when
/// that asset has one.
pub open spec fn exe_download_url(release: JsonValue) -> Option<Seq<char>> {
    match json_get(release, "assets"@) {
        Some(JsonValue::Array(items)) => match first_exe_asset(items@) {
            Some(a) => match json_get(a, "browser_download_url"@) {
                Some(JsonValue::Str(u)) => Some(u@),
                _ => None,
            },
            None => None,
        },
        _ => None,
    }
}

pub open spec fn missing_tag_message() -> Seq<char> {
    "réponse GitHub inattendue (tag_name absent)"@
}

pub open spec fn missing_exe_message() -> Seq<char> {
    "aucun .exe dans la dernière release"@
}

/// What a release description gives: its version (the tag without leading
/// `v`) and the address of its executable, or the first thing missing.
pub open spec fn release_of_json(release: JsonValue) -> Result<(Seq<char>, Seq<char>), Seq<char>> {
    match json_get(release, "tag_name"@) {
        Some(JsonValue::Str(tag)) => match exe_download_url(release) {
            Some(url) => Ok((strip_leading_v(tag@), url)),
            None => Err(missing_exe_message()),
        },
        _ => Err(missing_tag_message()),
    }
}

/// The view of what `release_from_json` returns.
pub open spec fn release_view(r: Result<(String, String), String>) -> Result<(Seq<char>, Seq<char>), Seq<char>> {
    match r {
        Ok((v, u)) => Ok((v@, u@)),
        Err(e) => Err(e@),
    }
}

/// What the release server's reply body gives: the release that its JSON
/// describes, or `error decoding response body` when it is not JSON.
pub open spec fn release_reply_view(body: Seq<char>) -> Result<(Seq<char>, Seq<char>), Seq<char>> {
    match parsed_json(body) {
        Ok(v) => release_of_json(v),
        Err(_) => Err("error decoding response body"@),
    }
}

/// Reads the latest release's reply body.
pub fn release_reply(body: &str) -> (res: Result<(String, String), String>)
    ensures
        release_view(res) == release_reply_view(body@),
{
    match parse_json(body) {
        Ok(v) => release_from_json(&v),
        Err(_) => Err(String::from_str("error decoding response body")),
    }
}

/// A tag without its leading `v` characters.
fn strip_leading_v_chars(s: &[char]) -> (res: Vec<char>)
    ensures
        res@ == strip_leading_v(s@),
{
    let mut i: usize = 0;
    proof {
        assert(s@.skip(0) =~= s@);
    }
    while i < s.len() && s[i] == 'v'
        invariant
            i <= s@.len(),
            strip_leading_v(s@) == strip_leading_v(s@.skip(i as int)),
        decreases s@.len() - i,
    {
        proof {
            assert(s@.skip(i as int).drop_first() =~= s@.skip(i + 1));
        }
        i = i + 1;
    }
    let res = copy_range(s, i, s.len());
    assert(res@ =~= s@.skip(i as int));
    res
}

/// The first executable asset among `items`.
fn find_exe_asset(items: &Vec<JsonValue>) -> (res: Option<&JsonValue>)
    ensures
        match res {
            Some(a) => first_exe_asset(items@) == Some(*a),
            None => first_exe_asset(items@) is None,
        },
{
    let suffix = chars_of(".exe");
    let mut i: usize = 0;
    assert(items@.skip(0) =~= items@);
    while i < items.len()
        invariant
            i <= items@.len(),
            suffix@ == ".exe"@,
            first_exe_asset(items@) == first_exe_asset(items@.skip(i as int)),
        decreases items@.len() - i,
    {
        proof {
            assert(items@.skip(i as int).drop_first() =~= items@.skip(i + 1));
            assert(items@.skip(i as int)[0] == items@[i as int]);
        }
        let a = &items[i];
        let is_exe = match a.get("name") {
            Some(JsonValue::Str(n)) => {
                let lower = to_lowercase(n.as_str());
                let lc = chars_of(lower.as_str());
                ends_with_chars(lc.as_slice(), suffix.as_slice())
            },
            _ => false,
        };
        if is_exe {
            return Some(a);
        }
        i = i + 1;
    }
    assert(items@.skip(i as int) =~= Seq::<JsonValue>::empty());
    None
}

/// Reads the latest release's description: its version, without leading
/// `v`, and the download address of its first `.exe` asset.
pub fn release_from_json(release: &JsonValue) -> (res: Result<(String, String), String>)
    ensures
        release_view(res) == release_of_json(*release),
{
    let tag = match release.get("tag_name") {
        Some(JsonValue::Str(t)) => t,
        _ => {
            return Err(String::from_str("réponse GitHub inattendue (tag_name absent)"));
        },
    };
    let url = match release.get("assets") {
        Some(JsonValue::Array(items)) => match find_exe_asset(items) {
            Some(a) => match a.get("browser_download_url") {
                Some(JsonValue::Str(u)) => Some(u.clone()),
                _ => None,
            },
            None => None,
        },
        _ => None,
    };
    match url {
        Some(u) => {
            let tc = chars_of(tag.as_str());
            let version = strip_leading_v_chars(tc.as_slice());
            Ok((string_from_chars(version.as_slice()), u))
        },
        None => Err(String::from_str("aucun .exe dans la dernière release")),
    }
}


/// The error for a release server reply whose status is not a success.
pub fn release_status_error(status: u16, status_text: &str) -> (res: Option<String>)
    ensures
        crate::api::is_success(status) ==> res is None,
        !crate::api::is_success(status) ==> (res matches Some(e) && e@
            == "GitHub a renvoyé "@ + status_text@),
{
    if 200 <= status && status <= 299 {
        None
    } else {
        let mut e = String::from_str("GitHub a renvoyé ");
        e.append(status_text);
        Some(e)
    }
}

/// The error for a download whose status is not a success.
pub fn download_status_error(status: u16, status_text: &str) -> (res: Option<String>)
    ensures
        crate::api::is_success(status) ==> res is None,
        !crate::api::is_success(status) ==> (res matches Some(e) && e@
            == "téléchargement: "@ + status_text@),
{
    if 200 <= status && status <= 299 {
        None
    } else {
        let mut e = String::from_str("téléchargement: ");
        e.append(status_text);
        Some(e)
    }
}


/// What the last step of installing an update gave.
#[derive(Debug)]
pub enum InstallEvent {
    /// Installation asked for, on a real install or not.
    Start { installed: bool },
    /// The download address of the latest release, or why it is unknown.
    Release(Result<String, String>),
    /// The downloaded executable, or why the download failed.
    Downloaded(Result<Vec<u8>, String>),
    /// The executable was written to a temporary file, or why not.
    TempWritten(Result<(), String>),
    /// The running executable was replaced, or why not.
    Replaced(Result<(), String>),
    /// The temporary file was removed (whatever came of it).
    TempRemoved,
    /// The new executable was started (whatever came of it).
    Relaunched,
}

/// The next step of installing an update.
#[derive(Debug)]
pub enum InstallAction {
    FetchRelease,
    Download(String),
    WriteTemp(Vec<u8>),
    Replace,
    RemoveTemp,
    Relaunch,
    /// Installation is over, in this state.
    Finish(UpdateState),
}

/// The view of an installation event.
pub enum InstallEventView {
    Start(bool),
    Release(Result<Seq<char>, Seq<char>>),
    Downloaded(Result<Seq<u8>, Seq<char>>),
    TempWritten(Result<(), Seq<char>>),
    Replaced(Result<(), Seq<char>>),
    TempRemoved,
    Relaunched,
}

/// The view of an installation step.
pub enum InstallActionView {
    FetchRelease,
    Download(Seq<char>),
    WriteTemp(Seq<u8>),
    Replace,
    RemoveTemp,
    Relaunch,
    Finish(UpdateView),
}

impl View for InstallEvent {
    type V = InstallEventView;

    open spec fn view(&self) -> InstallEventView {
        match self {
            InstallEvent::Start { installed } => InstallEventView::Start(*installed),
            InstallEvent::Release(r) => InstallEventView::Release(
                match r {
                    Ok(u) => Ok(u@),
                    Err(e) => Err(e@),
                },
            ),
            InstallEvent::Downloaded(r) => InstallEventView::Downloaded(
                match r {
                    Ok(b) => Ok(b@),
                    Err(e) => Err(e@),
                },
            ),
            InstallEvent::TempWritten(r) => InstallEventView::TempWritten(
                match r {
                    Ok(()) => Ok(()),
                    Err(e) => Err(e@),
                },
            ),
            InstallEvent::Replaced(r) => InstallEventView::Replaced(
                match r {
                    Ok(()) => Ok(()),
                    Err(e) => Err(e@),
                },
            ),
            InstallEvent::TempRemoved => InstallEventView::TempRemoved,
            InstallEvent::Relaunched => InstallEventView::Relaunched,
        }
    }
}

impl View for InstallAction {
    type V = InstallActionView;

    open spec fn view(&self) -> InstallActionView {
        match self {
            InstallAction::FetchRelease => InstallActionView::FetchRelease,
            InstallAction::Download(u) => InstallActionView::Download(u@),
            InstallAction::WriteTemp(b) => InstallActionView::WriteTemp(b@),
            InstallAction::Replace => InstallActionView::Replace,
            InstallAction::RemoveTemp => InstallActionView::RemoveTemp,
            InstallAction::Relaunch => InstallActionView::Relaunch,
            InstallAction::Finish(s) => InstallActionView::Finish(s@),
        }
    }
}

/// How installing an update goes on: a development build stays idle; each
/// step that succeeds leads to the next (address, download, temporary file,
/// replacement, clean-up, and a relaunch when asked); any failure ends in an
/// error with the shortened message; the end is `ReadyToQuit`.
pub open spec fn install_next(e: InstallEventView, relaunch: bool) -> InstallActionView {
    match e {
        InstallEventView::Start(installed) => if installed {
            InstallActionView::FetchRelease
        } else {
            InstallActionView::Finish(UpdateView::Idle)
        },
        InstallEventView::Release(r) => match r {
            Ok(url) => InstallActionView::Download(url),
            Err(m) => InstallActionView::Finish(UpdateView::Error(short_text(m))),
        },
        InstallEventView::Downloaded(r) => match r {
            Ok(bytes) => InstallActionView::WriteTemp(bytes),
            Err(m) => InstallActionView::Finish(UpdateView::Error(short_text(m))),
        },
        InstallEventView::TempWritten(r) => match r {
            Ok(()) => InstallActionView::Replace,
            Err(m) => InstallActionView::Finish(UpdateView::Error(short_text(m))),
        },
        InstallEventView::Replaced(r) => match r {
            Ok(()) => InstallActionView::RemoveTemp,
            Err(m) => InstallActionView::Finish(UpdateView::Error(short_text(m))),
        },
        InstallEventView::TempRemoved => if relaunch {
            InstallActionView::Relaunch
        } else {
            InstallActionView::Finish(UpdateView::ReadyToQuit)
        },
        InstallEventView::Relaunched => InstallActionView::Finish(UpdateView::ReadyToQuit),
    }
}

/// The next step of installing an update, given what the last one gave.
pub fn install_step(event: InstallEvent, relaunch: bool) -> (res: InstallAction)
    ensures
        res@ == install_next(event@, relaunch),
{
    match event {
        InstallEvent::Start { installed } => {
            if installed {
                InstallAction::FetchRelease
            } else {
                InstallAction::Finish(UpdateState::Idle)
            }
        },
        InstallEvent::Release(r) => match r {
            Ok(url) => InstallAction::Download(url),
            Err(m) => InstallAction::Finish(UpdateState::Error(short(m.as_str()))),
        },
        InstallEvent::Downloaded(r) => match r {
            Ok(bytes) => InstallAction::WriteTemp(bytes),
            Err(m) => InstallAction::Finish(UpdateState::Error(short(m.as_str()))),
        },
        InstallEvent::TempWritten(r) => match r {
            Ok(()) => InstallAction::Replace,
            Err(m) => InstallAction::Finish(UpdateState::Error(short(m.as_str()))),
        },
        InstallEvent::Replaced(r) => match r {
            Ok(()) => InstallAction::RemoveTemp,
            Err(m) => InstallAction::Finish(UpdateState::Error(short(m.as_str()))),
        },
        InstallEvent::TempRemoved => {
            if relaunch {
                InstallAction::Relaunch
            } else {
                InstallAction::Finish(UpdateState::ReadyToQuit)
            }
        },
        InstallEvent::Relaunched => InstallAction::Finish(UpdateState::ReadyToQuit),
    }
}

/// Every failed installation step ends the installation with an error that
/// shows the failure's message, shortened; what succeeded is handed on
/// unchanged (the address is downloaded, the download is written out).
pub proof fn lemma_install_failures_and_hand_over(e: InstallEventView, relaunch: bool)
    ensures
        e matches InstallEventView::Release(Err(m)) ==> install_next(e, relaunch)
            == InstallActionView::Finish(UpdateView::Error(short_text(m))),
        e matches InstallEventView::Downloaded(Err(m)) ==> install_next(e, relaunch)
            == InstallActionView::Finish(UpdateView::Error(short_text(m))),
        e matches InstallEventView::TempWritten(Err(m)) ==> install_next(e, relaunch)
            == InstallActionView::Finish(UpdateView::Error(short_text(m))),
        e matches InstallEventView::Replaced(Err(m)) ==> install_next(e, relaunch)
            == InstallActionView::Finish(UpdateView::Error(short_text(m))),
        e matches InstallEventView::Release(Ok(u)) ==> install_next(e, relaunch)
            == InstallActionView::Download(u),
        e matches InstallEventView::Downloaded(Ok(b)) ==> install_next(e, relaunch)
            == InstallActionView::WriteTemp(b),
        e == InstallEventView::Start(false) ==> install_next(e, relaunch)
            == InstallActionView::Finish(UpdateView::Idle),
        install_next(e, relaunch) is Relaunch ==> relaunch && e is TempRemoved,
{
}

/// A tag loses exactly its leading `v` characters: what is left does not
/// start with `v`, and the tag is some `v` characters followed by it.
pub proof fn lemma_strip_leading_v(t: Seq<char>)
    ensures
        !(strip_leading_v(t).len() > 0 && strip_leading_v(t)[0] == 'v'),
        exists|k: int|
            0 <= k <= t.len() && t.skip(k) == strip_leading_v(t) && (forall|j: int|
                0 <= j < k ==> #[trigger] t[j] == 'v'),
    decreases t.len(),
{
    if t.len() > 0 && t[0] == 'v' {
        lemma_strip_leading_v(t.drop_first());
        let r = t.drop_first();
        let k = choose|k: int|
            0 <= k <= r.len() && r.skip(k) == strip_leading_v(r) && (forall|j: int|
                0 <= j < k ==> #[trigger] r[j] == 'v');
        assert(t.skip(k + 1) =~= r.skip(k));
        assert forall|j: int| 0 <= j < k + 1 implies #[trigger] t[j] == 'v' by {
            if j > 0 {
                assert(t[j] == r[j - 1]);
            }
        }
    } else {
        assert(t.skip(0) =~= t);
    }
}

/// A release is read from its members by name: without a text `tag_name`
/// it is refused for that; with one, its version is the tag without leading
/// `v`, and its address is the `browser_download_url` text of the first
/// asset in `assets` whose name, lowercased, ends with `.exe`; when there is
/// no such address, the release is refused for having no executable.
pub proof fn lemma_release_by_name(r: JsonValue)
    ensures
        !(json_get(r, "tag_name"@) matches Some(JsonValue::Str(_))) ==> release_of_json(r) == Err::<
            (Seq<char>, Seq<char>),
            Seq<char>,
        >("réponse GitHub inattendue (tag_name absent)"@),
        release_of_json(r) matches Ok((v, u)) ==> (json_get(r, "tag_name"@) matches Some(
            JsonValue::Str(t),
        ) && v == strip_leading_v(t@)),
        release_of_json(r) matches Ok((v, u)) ==> (json_get(r, "assets"@) matches Some(
            JsonValue::Array(items),
        ) && first_exe_asset(items@) matches Some(a) && json_get(a, "browser_download_url"@) matches Some(
            JsonValue::Str(s),
        ) && s@ == u),
{
}

/// The asset chosen among `items` is the first one whose `name` is a text
/// that, lowercased, ends with `.exe`: it is one of them, its name so ends,
/// and no asset before it has such a name.
pub proof fn lemma_first_exe_asset(items: Seq<JsonValue>)
    ensures
        first_exe_asset(items) matches Some(a) ==> exists|i: int|
            0 <= i < items.len() && items[i] == a && (forall|j: int|
                0 <= j < i ==> !is_exe_asset(#[trigger] items[j])),
        first_exe_asset(items) matches Some(a) ==> (json_get(a, "name"@) matches Some(
            JsonValue::Str(n),
        ) && has_suffix(lowercase(n@), ".exe"@)),
        first_exe_asset(items) is None ==> forall|j: int|
            0 <= j < items.len() ==> !is_exe_asset(#[trigger] items[j]),
    decreases items.len(),
{
    if items.len() > 0 {
        if is_exe_asset(items[0]) {
            assert(items[0] == items[0]);
        } else {
            let rest = items.drop_first();
            lemma_first_exe_asset(rest);
            if first_exe_asset(rest) is Some {
                let i = choose|i: int|
                    0 <= i < rest.len() && rest[i] == first_exe_asset(rest)->Some_0 && (forall|j: int|
                        0 <= j < i ==> !is_exe_asset(#[trigger] rest[j]));
                assert(items[i + 1] == rest[i]);
                assert forall|j: int| 0 <= j < i + 1 implies !is_exe_asset(#[trigger] items[j]) by {
                    if j > 0 {
                        assert(items[j] == rest[j - 1]);
                    }
                }
            } else {
                assert forall|j: int| 0 <= j < items.len() implies !is_exe_asset(#[trigger] items[j]) by {
                    if j > 0 {
                        assert(items[j] == rest[j - 1]);
                    }
                }
            }
        }
    }
}

/// An installation reports the launcher ready to quit only once the running
/// executable has been replaced and the temporary file removed.
pub proof fn lemma_ready_only_after_replacement(e: InstallEventView, relaunch: bool)
    requires
        install_next(e, relaunch) == InstallActionView::Finish(UpdateView::ReadyToQuit),
    ensures
        e is TempRemoved || e is Relaunched,
{
}

/// The replacement is attempted only after the download was written out.
pub proof fn lemma_replace_after_write(e: InstallEventView, relaunch: bool)
    requires
        install_next(e, relaunch) is Replace,
    ensures
        e matches InstallEventView::TempWritten(Ok(_)),
{
}

} // verus!
