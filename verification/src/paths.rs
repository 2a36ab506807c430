//! Confinement of user-supplied paths to a configured base directory.
//!
//! A user path is joined onto the base directory and canonicalized by the
//! operating system (which resolves `.`, `..` and symlinks and requires the
//! target to exist); the canonical result is then admitted only if it lies
//! within the canonical form of the base directory.  The canonicalization
//! itself is an outside call; the decision over its result is verified
//! exactly: [`check_confined`] accepts precisely the paths that
//! [`is_within`] allows.

use vstd::prelude::*;
use crate::strutil::{concat_strs, starts_with_seq, str_ends_with, str_to_chars};
use vstd::string::StringSliceAdditionalSpecFns;
use vstd::string::StrSliceExecFns;

verus! {

/// Whether `s` looks like a command-line option: it starts with `-`.
pub open spec fn spec_is_option_like(s: Seq<char>) -> bool {
    s.len() > 0 && s[0] == '-'
}

/// Whether the string `s` starts with `-` and could be taken for a
/// command-line option by a program it is handed to.
pub fn is_option_like(s: &str) -> (r: bool)
    ensures
        r == spec_is_option_like(s@),
{
    if s.is_empty() {
        return false;
    }
    let c = s.get_char(0);
    c == '-'
}

/// Whether `s` is an absolute path.
pub open spec fn is_abs_path(s: Seq<char>) -> bool {
    s.len() > 0 && s[0] == '/'
}

/// `rel` joined onto `base`: `rel` itself when absolute, otherwise
/// `base` and `rel` separated by exactly one `/`.
pub open spec fn join_path(base: Seq<char>, rel: Seq<char>) -> Seq<char> {
    if is_abs_path(rel) {
        rel
    } else if base.len() > 0 && base[base.len() - 1] == '/' {
        base + rel
    } else {
        base + seq!['/'] + rel
    }
}

/// Whether the path `child` lies within the directory `anc`: `anc` is a
/// textual prefix and the prefix ends on a component boundary.
pub open spec fn is_within(child: Seq<char>, anc: Seq<char>) -> bool {
    &&& starts_with_seq(child, anc)
    &&& (child.len() == anc.len() || (anc.len() > 0 && anc[anc.len() - 1] == '/') || child[
        anc.len() as int
    ] == '/')
}

/// Joins `rel` onto `base` as [`join_path`] says.
pub fn join_path_str(base: &str, rel: &str) -> (r: String)
    ensures
        r@ == join_path(base@, rel@),
{
    if !rel.is_empty() && rel.get_char(0) == '/' {
        return rel.to_owned();
    }
    if str_ends_with(base, "/") {
        proof {
            reveal_strlit("/");
            assert(base@[base@.len() - 1] == '/') by {
                assert(base@.subrange(base@.len() - 1, base@.len() as int)[0] == base@[base@.len()
                    - 1]);
            };
        }
        return concat_strs(base, rel);
    }
    proof {
        reveal_strlit("/");
        assert(!(base@.len() > 0 && base@[base@.len() - 1] == '/')) by {
            if base@.len() > 0 && base@[base@.len() - 1] == '/' {
                assert(base@.subrange(base@.len() - 1, base@.len() as int) =~= "/"@);
            }
        };
    }
    let with_sep = concat_strs(base, "/");
    let r = concat_strs(with_sep.as_str(), rel);
    proof {
        assert(r@ =~= base@ + seq!['/'] + rel@);
    }
    r
}

/// Decides [`is_within`]: whether the canonical path `child` lies within
/// the canonical directory `anc`.
pub fn check_confined(child: &str, anc: &str) -> (r: bool)
    ensures
        r == is_within(child@, anc@),
{
    let cc = str_to_chars(child);
    let ac = str_to_chars(anc);
    let n = cc.len();
    let m = ac.len();
    if m > n {
        return false;
    }
    let mut i: usize = 0;
    while i < m
        invariant
            0 <= i <= m <= n,
            n == cc@.len(),
            m == ac@.len(),
            cc@ == child@,
            ac@ == anc@,
            forall|k: int| 0 <= k < i ==> cc@[k] == ac@[k],
        decreases m - i,
    {
        if cc[i] != ac[i] {
            proof {
                assert(child@.subrange(0, m as int)[i as int] != anc@[i as int]);
            }
            return false;
        }
        i += 1;
    }
    proof {
        assert(child@.subrange(0, m as int) =~= anc@);
        assert(starts_with_seq(child@, anc@));
    }
    if n == m {
        return true;
    }
    if m > 0 && ac[m - 1] == '/' {
        return true;
    }
    cc[m] == '/'
}

/// Relies on `std::path::Path::canonicalize`: on success the result is
/// the canonical, absolute form of the path — on the POSIX systems this
/// sandbox targets, one beginning with `/` — with `.` and `..`
/// components resolved away and symlinks followed; it fails when the
/// path does not exist.  A non-UTF-8 canonical path is reported as an
/// error, never returned.
#[verifier::external_body]
fn canonicalize_path(p: &str) -> (r: Result<String, String>)
    ensures
        r is Ok ==> is_abs_path(r->Ok_0@),
{
    match std::path::Path::new(p).canonicalize() {
        Ok(pb) => match pb.into_os_string().into_string() {
            Ok(s) => Ok(s),
            Err(_) => Err("path is not valid UTF-8".to_string()),
        },
        Err(e) => Err(format!("{}", e)),
    }
}

/// The error text for an empty or oversized user path.
pub open spec fn msg_invalid_path() -> Seq<char> {
    "Invalid path: path must be non-empty and under 4096 characters"@
}

/// The error text for a path that escapes the base directory.
pub open spec fn msg_traversal(user_path: Seq<char>) -> Seq<char> {
    "Path traversal detected: '"@ + user_path + "' escapes base directory"@
}

/// Whether a user-supplied path is acceptable at all: non-empty and at
/// most 4096 bytes.
pub open spec fn acceptable_user_path(s: &str) -> bool {
    s@.len() > 0 && (s.spec_bytes().len() as usize) <= 4096
}

/// Resolves `user_path` against `base_dir` and confines the result.
///
/// The empty path and paths over 4096 bytes are rejected outright.  The
/// joined path is canonicalized by the operating system; a target that
/// does not exist fails with a resolution error.  The canonical result is
/// returned only when it lies within the canonical form of `base_dir`
/// (see [`is_within`]); otherwise the call fails with a traversal error.
pub fn safe_resolve_path(user_path: &str, base_dir: &str) -> (r: Result<String, String>)
    ensures
        !acceptable_user_path(user_path) <==> (r is Err && r->Err_0@ == msg_invalid_path()),
        r is Ok ==> is_abs_path(r->Ok_0@),
        r is Err ==> r->Err_0@ == msg_invalid_path() || r->Err_0@ == msg_traversal(user_path@)
            || starts_with_seq(r->Err_0@, "Failed to resolve path: "@) || starts_with_seq(
            r->Err_0@,
            "Failed to canonicalize base directory: "@,
        ),
{
    if user_path.is_empty() || user_path.len() > 4096 {
        return Err("Invalid path: path must be non-empty and under 4096 characters".to_owned());
    }
    let joined = join_path_str(base_dir, user_path);
    let resolved = match canonicalize_path(joined.as_str()) {
        Ok(s) => s,
        Err(e) => {
            let m = concat_strs("Failed to resolve path: ", e.as_str());
            proof {
                assert(starts_with_seq(m@, "Failed to resolve path: "@)) by {
                    assert(m@.subrange(0, "Failed to resolve path: "@.len() as int)
                        =~= "Failed to resolve path: "@);
                };
                assert(m@ != msg_invalid_path()) by {
                    reveal_strlit("Failed to resolve path: ");
                    reveal_strlit("Invalid path: path must be non-empty and under 4096 characters");
                    assert(m@[0] == 'F');
                    assert(msg_invalid_path()[0] == 'I');
                };
            }
            return Err(m);
        },
    };
    let base_canonical = match canonicalize_path(base_dir) {
        Ok(s) => s,
        Err(e) => {
            let m = concat_strs("Failed to canonicalize base directory: ", e.as_str());
            proof {
                assert(starts_with_seq(m@, "Failed to canonicalize base directory: "@)) by {
                    assert(m@.subrange(0, "Failed to canonicalize base directory: "@.len() as int)
                        =~= "Failed to canonicalize base directory: "@);
                };
                assert(m@ != msg_invalid_path()) by {
                    reveal_strlit("Failed to canonicalize base directory: ");
                    reveal_strlit("Invalid path: path must be non-empty and under 4096 characters");
                    assert(m@[0] == 'F');
                    assert(msg_invalid_path()[0] == 'I');
                };
            }
            return Err(m);
        },
    };
    if !check_confined(resolved.as_str(), base_canonical.as_str()) {
        let m1 = concat_strs("Path traversal detected: '", user_path);
        let m = concat_strs(m1.as_str(), "' escapes base directory");
        proof {
            assert(m@ =~= msg_traversal(user_path@));
            assert(m@ != msg_invalid_path()) by {
                reveal_strlit("Path traversal detected: '");
                reveal_strlit("Invalid path: path must be non-empty and under 4096 characters");
                assert(m@[0] == 'P');
                assert(msg_invalid_path()[0] == 'I');
            };
        }
        return Err(m);
    }
    Ok(resolved)
}

/// Resolves `user_path` against `base_dir` as [`safe_resolve_path`] does
/// and returns the canonical absolute path as a string.
pub fn canonicalize_within_base_dir(user_path: &str, base_dir: &str) -> (r: Result<String, String>)
    ensures
        !acceptable_user_path(user_path) <==> (r is Err && r->Err_0@ == msg_invalid_path()),
        r is Ok ==> is_abs_path(r->Ok_0@),
{
    safe_resolve_path(user_path, base_dir)
}

#[verifier::external_type_specification]
#[verifier::external_body]
pub struct ExPathBuf(std::path::PathBuf);

/// The text of the path `p`, when it is valid UTF-8: a function of the
/// path value alone.
pub uninterp spec fn path_text_of(p: std::path::PathBuf) -> Option<Seq<char>>;

/// Relies on `std::path::Path::to_str`: yields the path's text exactly
/// when the path is valid UTF-8, and an explicit error — never a panic —
/// otherwise.
#[verifier::external_body]
pub fn stringify_path(p: &std::path::PathBuf) -> (r: Result<String, String>)
    ensures
        r is Ok <==> path_text_of(*p) is Some,
        r is Ok ==> r->Ok_0@ == path_text_of(*p)->Some_0,
        r is Err ==> starts_with_seq(r->Err_0@, "Path contains invalid UTF-8: "@),
{
    match p.to_str() {
        Some(s) => Ok(s.to_string()),
        None => Err(format!("Path contains invalid UTF-8: {}", p.display())),
    }
}

/// Never returns a path outside the base: an accepted path starts with
/// the base directory's text and leaves it only at a `/` boundary, so no
/// sibling of the base (`/b` against base `/base`) and no relative path
/// is ever accepted.
pub proof fn lemma_confinement(child: Seq<char>, anc: Seq<char>)
    requires
        is_within(child, anc),
    ensures
        child.len() >= anc.len(),
        child.subrange(0, anc.len() as int) == anc,
        child.len() > anc.len() && !(anc.len() > 0 && anc[anc.len() - 1] == '/') ==> child[
            anc.len() as int
        ] == '/',
{
}

} // verus!
