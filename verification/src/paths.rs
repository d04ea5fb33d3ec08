//! Where the launcher's files live. Paths are texts here; which separator is
//! written, and which characters separate, depends on the platform.

use vstd::prelude::*;
use crate::text::has_suffix;

verus! {

/// A path separator on some platform: `/`, or `\` on Windows.
pub open spec fn is_sep(c: char) -> bool {
    c == '/' || c == '\\'
}

/// A single file or directory name: not empty, free of separators and drive
/// colons, and neither `.` nor `..`.
pub open spec fn is_plain_name(name: Seq<char>) -> bool {
    &&& name.len() > 0
    &&& forall|k: int| 0 <= k < name.len() ==> {
        let c = #[trigger] name[k];
        c != '/' && c != '\\' && c != ':'
    }
    &&& name != seq!['.']
    &&& name != seq!['.', '.']
}

/// A Windows verbatim path, starting with `\\?\`.
pub open spec fn is_verbatim(p: Seq<char>) -> bool {
    p.len() >= 4 && p[0] == '\\' && p[1] == '\\' && p[2] == '?' && p[3] == '\\'
}

/// A bare Windows drive such as `C:`.
pub open spec fn is_bare_drive(p: Seq<char>) -> bool {
    p.len() == 2 && p[1] == ':' && (('a' <= p[0] && p[0] <= 'z') || ('A' <= p[0] && p[0] <= 'Z'))
}

/// `base`, then possibly a separator, then `name`.
pub open spec fn joined(base: Seq<char>, name: Seq<char>, res: Seq<char>) -> bool {
    res == base + name || res == base + seq!['/'] + name || res == base + seq!['\\'] + name
}

/// What joining a plain name to a path gives, on every platform: a path that
/// ends with the name; outside verbatim paths, the path, a separator where
/// one is needed, and the name; the name alone after an empty path; and a
/// separator whenever the path ends in neither a separator nor a bare drive.
pub open spec fn join_result(base: Seq<char>, name: Seq<char>, res: Seq<char>) -> bool {
    &&& has_suffix(res, name)
    &&& !is_verbatim(base) ==> joined(base, name, res)
    &&& (!is_verbatim(base) && base.len() == 0) ==> res == name
    &&& (!is_verbatim(base) && base.len() > 0 && !is_sep(base.last()) && !is_bare_drive(base))
        ==> (res == base + seq!['/'] + name || res == base + seq!['\\'] + name)
}

/// Appends a plain name to a path with `Path::join` (`PathBuf::push`). The
/// contract claims what the documentation of `push` gives on every platform
/// for a relative name: outside a verbatim path, the path, then a separator
/// where one is needed, then the name (no separator after an empty path, a
/// separator, or a bare drive); a verbatim path is rebuilt and claimed only
/// to end with the name. It leaves unsaid which separator is written.
#[verifier::external_body]
fn path_join(base: &str, name: &str) -> (res: String)
    requires
        is_plain_name(name@),
    ensures
        join_result(base@, name@, res@),
{
    std::path::Path::new(base).join(name).to_string_lossy().into_owned()
}

/// A directory part whose parent-taking is the same on every platform: not
/// empty, not ending in a separator or in a `.` component, not a bare drive
/// nor a path that opens with two separators (network and verbatim paths),
/// and with a colon only in a drive such as `C:\`.
pub open spec fn simple_dir(d: Seq<char>) -> bool {
    &&& d.len() > 0
    &&& !is_sep(d.last())
    &&& !is_bare_drive(d)
    &&& !(d.len() >= 2 && is_sep(d[0]) && is_sep(d[1]))
    &&& (d == seq!['.'] || !(d.len() >= 2 && d.last() == '.' && is_sep(d[d.len() - 2])))
    &&& forall|k: int|
        0 <= k < d.len() && #[trigger] d[k] == ':' ==> k == 1 && d.len() >= 3 && is_sep(d[2]) && ((
        'a' <= d[0] && d[0] <= 'z') || ('A' <= d[0] && d[0] <= 'Z'))
}

/// `s` holds no `/`.
pub open spec fn no_slash(s: Seq<char>) -> bool {
    forall|k: int| 0 <= k < s.len() ==> #[trigger] s[k] != '/'
}

/// The directory that holds a path, with `Path::parent`. The contract claims
/// what the documentation gives on every platform: no parent for an empty
/// path; a parent is a strictly shorter prefix of the path; for a simple
/// directory, `/` and a plain name, the parent is that directory; with `\`
/// in place of `/` (and no `/` at all), it is that directory on Windows and
/// the empty path elsewhere, where `\` does not separate. It leaves unsaid
/// the parent of other paths.
#[verifier::external_body]
fn path_parent(path: &str) -> (res: Option<String>)
    ensures
        res matches Some(p) ==> p@.len() < path@.len() && p@ == path@.take(p@.len() as int),
        path@.len() == 0 ==> res is None,
        forall|d: Seq<char>, f: Seq<char>|
            simple_dir(d) && is_plain_name(f) && path@ == #[trigger] (d + seq!['/'] + f) ==> (
            res is Some && res->Some_0@ == d),
        forall|d: Seq<char>, f: Seq<char>|
            simple_dir(d) && is_plain_name(f) && no_slash(d) && path@ == #[trigger] (d
                + seq!['\\'] + f) ==> (res is Some && (res->Some_0@ == d || res->Some_0@.len()
                == 0)),
{
    std::path::Path::new(path).parent().map(|p| p.to_string_lossy().into_owned())
}

/// The launcher's data directory: `OnlyClimb` inside the local application
/// data directory, or inside the current directory when that is not known.
pub fn app_data_dir(local_app_data: Option<String>) -> (res: String)
    ensures
        join_result(
            match local_app_data {
                Some(b) => b@,
                None => "."@,
            },
            "OnlyClimb"@,
            res@,
        ),
{
    proof {
        reveal_strlit("OnlyClimb");
        assert("OnlyClimb"@.len() == 9);
        assert("OnlyClimb"@ != seq!['.', '.']);
    }
    match local_app_data {
        Some(base) => path_join(base.as_str(), "OnlyClimb"),
        None => path_join(".", "OnlyClimb"),
    }
}

/// The license file: `license.key` in the launcher's data directory.
pub fn license_path(local_app_data: Option<String>) -> (res: String)
    ensures
        exists|dir: Seq<char>|
            join_result(
                match local_app_data {
                    Some(b) => b@,
                    None => "."@,
                },
                "OnlyClimb"@,
                dir,
            ) && #[trigger] join_result(dir, "license.key"@, res@),
{
    proof {
        reveal_strlit("license.key");
        assert("license.key"@.len() == 11);
        assert("license.key"@ != seq!['.', '.']);
    }
    let dir = app_data_dir(local_app_data);
    let res = path_join(dir.as_str(), "license.key");
    assert(join_result(dir@, "license.key"@, res@));
    res
}

/// What the executable's directory is, given the executable's path when it
/// is known: `.` when it is not or when it has no parent; otherwise a
/// strictly shorter prefix of the path, which for a simple directory, a
/// separator and a plain name is that directory (or, with `\` on a platform
/// where it does not separate, the empty path).
pub open spec fn exe_dir_of(exe: Option<Seq<char>>, dir: Seq<char>) -> bool {
    match exe {
        None => dir == seq!['.'],
        Some(p) => {
            &&& (dir == seq!['.'] || (dir.len() < p.len() && dir == p.take(dir.len() as int)))
            &&& p.len() == 0 ==> dir == seq!['.']
            &&& forall|d: Seq<char>, f: Seq<char>|
                simple_dir(d) && is_plain_name(f) && p == #[trigger] (d + seq!['/'] + f) ==> dir
                    == d
            &&& forall|d: Seq<char>, f: Seq<char>|
                simple_dir(d) && is_plain_name(f) && no_slash(d) && p == #[trigger] (d
                    + seq!['\\'] + f) ==> (dir == d || dir.len() == 0)
        },
    }
}

/// The view of an optional path.
pub open spec fn opt_path(p: Option<String>) -> Option<Seq<char>> {
    match p {
        Some(s) => Some(s@),
        None => None,
    }
}

/// The directory of the running executable, or the current directory when
/// the executable or its parent is unknown.
pub fn exe_dir(current_exe: Option<String>) -> (res: String)
    ensures
        exe_dir_of(opt_path(current_exe), res@),
{
    proof {
        reveal_strlit(".");
        assert("."@ =~= seq!['.']);
    }
    match current_exe {
        Some(p) => {
            let parent = path_parent(p.as_str());
            match parent {
                Some(d) => d,
                None => {
                    let dot = String::from_str(".");
                    proof {
                        assert forall|d: Seq<char>, f: Seq<char>|
                            simple_dir(d) && is_plain_name(f) && p@ == #[trigger] (d + seq!['/']
                                + f) implies dot@ == d by {}
                        assert forall|d: Seq<char>, f: Seq<char>|
                            simple_dir(d) && is_plain_name(f) && no_slash(d) && p@
                                == #[trigger] (d + seq!['\\'] + f) implies (dot@ == d
                            || dot@.len() == 0) by {}
                    }
                    dot
                },
            }
        },
        None => String::from_str("."),
    }
}

/// The license file of earlier versions: `license.key` beside the
/// executable.
pub fn legacy_license_path(current_exe: Option<String>) -> (res: String)
    ensures
        exists|dir: Seq<char>|
            exe_dir_of(opt_path(current_exe), dir) && #[trigger] join_result(
                dir,
                "license.key"@,
                res@,
            ),
{
    proof {
        reveal_strlit("license.key");
        assert("license.key"@.len() == 11);
        assert("license.key"@ != seq!['.', '.']);
    }
    let ghost exe = opt_path(current_exe);
    let dir = exe_dir(current_exe);
    let res = path_join(dir.as_str(), "license.key");
    assert(join_result(dir@, "license.key"@, res@));
    res
}

} // verus!
