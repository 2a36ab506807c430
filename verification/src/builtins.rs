//! The built-in `read_file` tool: planning and judging.  The caller
//! reads the planned file's bytes and hands them back to be judged
//! against the size cap and decoded.

use vstd::prelude::*;
use crate::json::{json_lookup, JsonValue, JsonV};
use crate::registry::LocalSettings;
use crate::strutil::{concat_strs, dec_digits};

verus! {

/// A planned file read: the canonical absolute path, within the base
/// directory, and the size cap to enforce.
#[derive(Debug)]
pub struct ReadFilePlan {
    pub path: String,
    pub max_file_size_bytes: u64,
}

/// Whether the call arguments carry a string `path` member.
pub open spec fn spec_has_path_arg(args: JsonV) -> bool {
    json_lookup(args, "path"@) matches Some(v) && v is Str
}

/// Plans the built-in file read: requires a string `path` argument,
/// confines it to the base directory, and carries the size cap.
pub fn plan_read_file(arguments: &JsonValue, settings: &LocalSettings) -> (r: Result<
    ReadFilePlan,
    String,
>)
    ensures
        !spec_has_path_arg(arguments@) <==> (r is Err && r->Err_0@
            == "Missing required argument: path"@),
        r is Ok ==> crate::paths::is_abs_path(r->Ok_0.path@) && r->Ok_0.max_file_size_bytes
            == settings.max_file_size_bytes,
{
    let path_value = match arguments.get("path") {
        Some(v) => v,
        None => {
            return Err("Missing required argument: path".to_owned());
        },
    };
    let path = match path_value {
        JsonValue::Str(s) => s,
        _ => {
            return Err("Missing required argument: path".to_owned());
        },
    };
    match crate::paths::safe_resolve_path(path.as_str(), settings.base_dir.as_str()) {
        Ok(resolved) => Ok(
            ReadFilePlan { path: resolved, max_file_size_bytes: settings.max_file_size_bytes },
        ),
        Err(e) => {
            proof {
                assert(e@ != "Missing required argument: path"@) by {
                    reveal_strlit("Missing required argument: path");
                    reveal_strlit("Invalid path: path must be non-empty and under 4096 characters");
                    reveal_strlit("Path traversal detected: '");
                    reveal_strlit("Failed to resolve path: ");
                    reveal_strlit("Failed to canonicalize base directory: ");
                    assert("Missing required argument: path"@[0] == 'M');
                    if e@ == crate::paths::msg_invalid_path() {
                        assert(e@[0] == 'I');
                    } else if e@ == crate::paths::msg_traversal(path@) {
                        assert(e@[0] == 'P');
                    } else if crate::strutil::starts_with_seq(e@, "Failed to resolve path: "@) {
                        assert(e@.subrange(0, "Failed to resolve path: "@.len() as int)[0]
                            == e@[0]);
                        assert(e@[0] == 'F');
                    } else {
                        assert(e@.subrange(
                            0,
                            "Failed to canonicalize base directory: "@.len() as int,
                        )[0] == e@[0]);
                        assert(e@[0] == 'F');
                    }
                };
            }
            if crate::strutil::str_starts_with(e.as_str(), "Failed to resolve path: ") {
                let m = concat_strs("File not found: ", path.as_str());
                proof {
                    assert(m@ != "Missing required argument: path"@) by {
                        reveal_strlit("Missing required argument: path");
                        reveal_strlit("File not found: ");
                        assert(m@[0] == 'F');
                        assert("Missing required argument: path"@[0] == 'M');
                    };
                }
                Err(m)
            } else {
                Err(e)
            }
        },
    }
}

/// The error text for an oversized file.
pub open spec fn msg_file_too_large(n: nat, max: u64) -> Seq<char> {
    "File too large: "@ + dec_digits(n) + " bytes (max: "@ + dec_digits(max as nat) + " bytes)"@
}

/// Checks a file's byte count against the size cap, with the exact
/// error text for an oversized file.
pub fn check_read_file_size(len: u64, max_file_size_bytes: u64) -> (r: Result<(), String>)
    ensures
        len > max_file_size_bytes <==> r is Err,
        r is Err ==> r->Err_0@ == msg_file_too_large(len as nat, max_file_size_bytes),
{
    if len > max_file_size_bytes {
        let n = crate::strutil::u64_to_string(len);
        let mx = crate::strutil::u64_to_string(max_file_size_bytes);
        let m1 = concat_strs("File too large: ", n.as_str());
        let m2 = concat_strs(m1.as_str(), " bytes (max: ");
        let m3 = concat_strs(m2.as_str(), mx.as_str());
        let m = concat_strs(m3.as_str(), " bytes)");
        return Err(m);
    }
    Ok(())
}

/// Judges the bytes read for the built-in file reader: an oversized file
/// and undecodable content are errors; otherwise the text is the result.
pub fn judge_read_file(bytes: Vec<u8>, max_file_size_bytes: u64) -> (r: Result<String, String>)
    ensures
        bytes@.len() > max_file_size_bytes ==> r is Err && r->Err_0@ == msg_file_too_large(
            bytes@.len(),
            max_file_size_bytes,
        ),
        bytes@.len() <= max_file_size_bytes ==> match crate::executor::utf8_of(bytes@) {
            Some(text) => r is Ok && r->Ok_0@ == text,
            None => r is Err && r->Err_0@ == "File is not valid UTF-8"@,
        },
{
    match check_read_file_size(bytes.len() as u64, max_file_size_bytes) {
        Ok(()) => {},
        Err(e) => {
            return Err(e);
        },
    }
    match crate::executor::decode_utf8(bytes) {
        Ok(text) => Ok(text),
        Err(_) => Err("File is not valid UTF-8".to_owned()),
    }
}

} // verus!
