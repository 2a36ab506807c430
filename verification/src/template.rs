//! `{{key}}` placeholder scanning and span replacement for command
//! argument templates.
//!
//! Placeholders are located in the original text only; the replacement
//! texts are then spliced in by spans, so a substituted value that itself
//! contains placeholder syntax is never expanded again.

use vstd::prelude::*;
use crate::strutil::chars_to_string;

verus! {

/// The position of the first `}` in `s` at or after `j`, or `s.len()`.
pub open spec fn find_rbrace(s: Seq<char>, j: int) -> int
    decreases s.len() - j,
{
    if j < 0 || j >= s.len() {
        s.len() as int
    } else if s[j] == '}' {
        j
    } else {
        find_rbrace(s, j + 1)
    }
}

/// A placeholder found in a template: the span `[start, end)` of the full
/// `{{key}}` text and the key between the braces.
pub struct PlaceholderMatch {
    pub start: usize,
    pub end: usize,
    pub key: Vec<char>,
}

/// Whether a placeholder match begins at `i`: `{{`, then at least one
/// character other than `}`, then `}}`.
pub open spec fn match_at(s: Seq<char>, i: int) -> bool {
    let p = find_rbrace(s, i + 2);
    &&& 0 <= i
    &&& i + 5 <= s.len()
    &&& s[i] == '{'
    &&& s[i + 1] == '{'
    &&& p > i + 2
    &&& p + 1 < s.len()
    &&& s[p + 1] == '}'
}

/// The placeholders of `s` from position `i` on: leftmost first,
/// non-overlapping, each as `(start, end, key)`.
pub open spec fn scan_placeholders(s: Seq<char>, i: int) -> Seq<(int, int, Seq<char>)>
    decreases s.len() - i,
{
    if i < 0 || i + 5 > s.len() {
        Seq::empty()
    } else if match_at(s, i) {
        let p = find_rbrace(s, i + 2);
        seq![(i, p + 2, s.subrange(i + 2, p))] + scan_placeholders(s, p + 2)
    } else {
        scan_placeholders(s, i + 1)
    }
}

/// `find_rbrace` stays within `[j, s.len()]` and marks the first `}`.
pub proof fn lemma_find_rbrace(s: Seq<char>, j: int)
    requires
        0 <= j <= s.len(),
    ensures
        j <= find_rbrace(s, j) <= s.len(),
        find_rbrace(s, j) < s.len() ==> s[find_rbrace(s, j)] == '}',
        forall|t: int| j <= t < find_rbrace(s, j) ==> s[t] != '}',
    decreases s.len() - j,
{
    if j < s.len() && s[j] != '}' {
        lemma_find_rbrace(s, j + 1);
    }
}

/// Finds the first `}` at or after `j`.
pub fn find_rbrace_vec(s: &Vec<char>, j: usize) -> (r: usize)
    requires
        j <= s@.len(),
    ensures
        r == find_rbrace(s@, j as int),
        j <= r <= s@.len(),
{
    let n = s.len();
    let mut k = j;
    while k < n
        invariant
            j <= k <= n,
            n == s@.len(),
            find_rbrace(s@, j as int) == find_rbrace(s@, k as int),
            forall|t: int| j <= t < k ==> s@[t] != '}',
        decreases n - k,
    {
        if s[k] == '}' {
            return k;
        }
        k += 1;
    }
    n
}

/// Scans `s` for `{{key}}` placeholders, leftmost first, non-overlapping.
pub fn scan_placeholders_vec(s: &Vec<char>) -> (r: Vec<PlaceholderMatch>)
    ensures
        r@.map_values(|m: PlaceholderMatch| (m.start as int, m.end as int, m.key@))
            == scan_placeholders(s@, 0),
        forall|k: int|
            0 <= k < r@.len() ==> r@[k].start < r@[k].end && r@[k].end <= s@.len(),
        forall|k: int| 0 <= k < r@.len() - 1 ==> r@[k].end <= r@[k + 1].start,
{
    let n = s.len();
    let mut res: Vec<PlaceholderMatch> = Vec::new();
    let mut i: usize = 0;
    if n < 5 {
        proof {
            assert(scan_placeholders(s@, 0) =~= Seq::<(int, int, Seq<char>)>::empty());
            assert(res@.map_values(|m: PlaceholderMatch| (m.start as int, m.end as int, m.key@))
                =~= Seq::<(int, int, Seq<char>)>::empty());
        }
        return res;
    }
    while i <= n - 5
        invariant
            0 <= i,
            5 <= n,
            n == s@.len(),
            scan_placeholders(s@, 0) == res@.map_values(
                |m: PlaceholderMatch| (m.start as int, m.end as int, m.key@),
            ) + scan_placeholders(s@, i as int),
            forall|k: int|
                0 <= k < res@.len() ==> res@[k].start < res@[k].end && res@[k].end <= s@.len(),
            forall|k: int| 0 <= k < res@.len() - 1 ==> res@[k].end <= res@[k + 1].start,
            forall|k: int| 0 <= k < res@.len() ==> res@[k].end <= i,
        decreases n - i,
    {
        if s[i] == '{' && s[i + 1] == '{' {
            let p = find_rbrace_vec(s, i + 2);
            proof {
                lemma_find_rbrace(s@, i as int + 2);
            }
            if p > i + 2 && p < n && p + 1 < n && s[p + 1] == '}' {
                proof {
                    assert(match_at(s@, i as int));
                }
                let mut key: Vec<char> = Vec::new();
                let mut t = i + 2;
                while t < p
                    invariant
                        i + 2 <= t <= p,
                        p <= s@.len(),
                        key@ == s@.subrange(i as int + 2, t as int),
                    decreases p - t,
                {
                    key.push(s[t]);
                    t += 1;
                    proof {
                        assert(key@ =~= s@.subrange(i as int + 2, t as int));
                    }
                }
                proof {
                    assert(key@ =~= s@.subrange(i as int + 2, p as int));
                }
                let m = PlaceholderMatch { start: i, end: p + 2, key };
                res.push(m);
                proof {
                    assert(res@.map_values(
                        |m: PlaceholderMatch| (m.start as int, m.end as int, m.key@),
                    ) =~= res@.drop_last().map_values(
                        |m: PlaceholderMatch| (m.start as int, m.end as int, m.key@),
                    ) + seq![(i as int, p as int + 2, s@.subrange(i as int + 2, p as int))]);
                    assert(scan_placeholders(s@, i as int) == seq![
                        (i as int, p as int + 2, s@.subrange(i as int + 2, p as int)),
                    ] + scan_placeholders(s@, p as int + 2));
                }
                i = p + 2;
            } else {
                proof {
                    assert(!match_at(s@, i as int));
                    assert(scan_placeholders(s@, i as int) == scan_placeholders(s@, i as int + 1));
                }
                i += 1;
            }
        } else {
            proof {
                assert(!match_at(s@, i as int));
                assert(scan_placeholders(s@, i as int) == scan_placeholders(s@, i as int + 1));
            }
            i += 1;
        }
    }
    proof {
        assert(i + 5 > n);
        assert(scan_placeholders(s@, i as int) =~= Seq::<(int, int, Seq<char>)>::empty());
        assert(res@.map_values(|m: PlaceholderMatch| (m.start as int, m.end as int, m.key@))
            + scan_placeholders(s@, i as int) =~= res@.map_values(
            |m: PlaceholderMatch| (m.start as int, m.end as int, m.key@),
        ));
    }
    res
}

/// One span replacement: the text `[start, end)` of the original is
/// replaced by `text`.
pub struct SpanReplacement {
    pub start: usize,
    pub end: usize,
    pub text: Vec<char>,
}

/// The result of splicing the replacement texts `repls` into `s`, reading
/// the original from position `from` on.  Replacement spans are taken
/// from the original text only, so replacement texts are never rescanned.
pub open spec fn splice(s: Seq<char>, repls: Seq<(int, int, Seq<char>)>, from: int) -> Seq<char>
    decreases repls.len(),
{
    if repls.len() == 0 {
        s.subrange(from, s.len() as int)
    } else {
        s.subrange(from, repls[0].0) + repls[0].2 + splice(s, repls.drop_first(), repls[0].1)
    }
}

/// Whether `repls` is a well-formed replacement plan for `s` from `from`:
/// ascending, non-overlapping spans within bounds.
pub open spec fn wf_spans(s: Seq<char>, repls: Seq<(int, int, Seq<char>)>, from: int) -> bool
    decreases repls.len(),
{
    if repls.len() == 0 {
        0 <= from <= s.len()
    } else {
        0 <= from <= repls[0].0 && repls[0].0 <= repls[0].1 <= s.len() && wf_spans(
            s,
            repls.drop_first(),
            repls[0].1,
        )
    }
}

/// A well-formed span list keeps `from` within the text.
proof fn lemma_wf_spans_len(s: Seq<char>, repls: Seq<(int, int, Seq<char>)>, from: int)
    requires
        wf_spans(s, repls, from),
    ensures
        0 <= from <= s.len(),
    decreases repls.len(),
{
    if repls.len() > 0 {
        lemma_wf_spans_len(s, repls.drop_first(), repls[0].1);
    }
}

/// Splices replacement texts into the original character vector.
#[verifier::rlimit(100)]
pub fn splice_vec(s: &Vec<char>, repls: &Vec<SpanReplacement>) -> (r: Vec<char>)
    requires
        wf_spans(
            s@,
            repls@.map_values(|m: SpanReplacement| (m.start as int, m.end as int, m.text@)),
            0,
        ),
    ensures
        r@ == splice(
            s@,
            repls@.map_values(|m: SpanReplacement| (m.start as int, m.end as int, m.text@)),
            0,
        ),
{
    let ghost rs = repls@.map_values(|m: SpanReplacement| (m.start as int, m.end as int, m.text@));
    let mut out: Vec<char> = Vec::new();
    let mut from: usize = 0;
    let nr = repls.len();
    let mut k: usize = 0;
    proof {
        assert(rs.skip(0) =~= rs);
        assert(out@ + splice(s@, rs, 0) =~= splice(s@, rs, 0));
        lemma_wf_spans_len(s@, rs, 0);
    }
    while k < nr
        invariant
            0 <= k <= nr,
            nr == repls@.len(),
            rs == repls@.map_values(
                |m: SpanReplacement| (m.start as int, m.end as int, m.text@),
            ),
            wf_spans(s@, rs.skip(k as int), from as int),
            from <= s@.len(),
            splice(s@, rs, 0) == out@ + splice(s@, rs.skip(k as int), from as int),
        decreases nr - k,
    {
        proof {
            assert(rs.skip(k as int)[0] == rs[k as int]);
        }
        let start = repls[k].start;
        let end = repls[k].end;
        let ghost out0 = out@;
        let mut t = from;
        while t < start
            invariant
                from <= t <= start,
                start <= s@.len(),
                s@.len() == s.len(),
                out@ == out0 + s@.subrange(from as int, t as int),
            decreases start - t,
        {
            out.push(s[t]);
            t += 1;
            proof {
                assert(out0 + s@.subrange(from as int, t as int) =~= out@);
            }
        }
        proof {
            assert(out@ == out0 + s@.subrange(from as int, start as int)) by {
                assert(out0 + s@.subrange(from as int, from as int) =~= out0);
            };
        }
        let ghost out1 = out@;
        let tl = repls[k].text.len();
        let mut u: usize = 0;
        while u < tl
            invariant
                0 <= u <= tl,
                k < nr == repls@.len(),
                tl == repls@[k as int].text@.len(),
                out@ == out1 + repls@[k as int].text@.subrange(0, u as int),
            decreases tl - u,
        {
            out.push(repls[k].text[u]);
            u += 1;
            proof {
                assert(out1 + repls@[k as int].text@.subrange(0, u as int) =~= out@);
            }
        }
        proof {
            assert(repls@[k as int].text@.subrange(0, tl as int) =~= repls@[k as int].text@);
            assert(out@ == out1 + rs[k as int].2) by {
                assert(out1 + repls@[k as int].text@.subrange(0, 0) =~= out1);
            };
            assert(rs.skip(k as int).drop_first() =~= rs.skip(k as int + 1));
            assert(splice(s@, rs.skip(k as int), from as int) == s@.subrange(
                from as int,
                rs[k as int].0,
            ) + rs[k as int].2 + splice(s@, rs.skip(k as int + 1), rs[k as int].1));
            assert(splice(s@, rs, 0) =~= out@ + splice(s@, rs.skip(k as int + 1), end as int));
        }
        proof {
            lemma_wf_spans_len(s@, rs.skip(k as int + 1), end as int);
        }
        from = end;
        k += 1;
    }
    proof {
        assert(rs.skip(nr as int) =~= Seq::<(int, int, Seq<char>)>::empty());
        assert(splice(s@, rs.skip(nr as int), from as int) == s@.subrange(
            from as int,
            s@.len() as int,
        ));
    }
    let n = s.len();
    let ghost out2 = out@;
    let mut t = from;
    while t < n
        invariant
            from <= t <= n,
            n == s@.len() == s.len(),
            out@ == out2 + s@.subrange(from as int, t as int),
        decreases n - t,
    {
        out.push(s[t]);
        t += 1;
        proof {
            assert(out2 + s@.subrange(from as int, t as int) =~= out@);
        }
    }
    proof {
        assert(out@ =~= out2 + s@.subrange(from as int, n as int)) by {
            assert(out2 + s@.subrange(from as int, from as int) =~= out2);
        };
        assert(out@ =~= splice(s@, rs, 0));
    }
    out
}

} // verus!

verus! {

/// `c` lowered to ASCII lower case.
pub open spec fn lower_ascii_char(c: char) -> char {
    if 'A' <= c && c <= 'Z' {
        (((c as u32) + 32) as u8) as char
    } else {
        c
    }
}

/// `s` lowered to ASCII lower case.
pub open spec fn lower_ascii(s: Seq<char>) -> Seq<char> {
    s.map_values(|c: char| lower_ascii_char(c))
}

/// Whether `key` names a path by convention: lowered, it is `path` or
/// `paths`, or ends in `_path` or `_paths`.
pub open spec fn is_path_key(key: Seq<char>) -> bool {
    let l = lower_ascii(key);
    l == "path"@ || l == "paths"@ || crate::strutil::ends_with_seq(l, "_path"@)
        || crate::strutil::ends_with_seq(l, "_paths"@)
}

/// Lowers `s` to ASCII lower case.
pub fn lower_ascii_str(s: &Vec<char>) -> (r: Vec<char>)
    ensures
        r@ == lower_ascii(s@),
{
    let n = s.len();
    let mut out: Vec<char> = Vec::new();
    let mut i: usize = 0;
    while i < n
        invariant
            0 <= i <= n,
            n == s@.len(),
            out@ == lower_ascii(s@.subrange(0, i as int)),
        decreases n - i,
    {
        let c = s[i];
        let u = c as u32;
        if 65 <= u && u <= 90 {
            let l = ((u + 32) as u8) as char;
            proof {
                assert(l == lower_ascii_char(c));
            }
            out.push(l);
        } else {
            proof {
                assert(c == lower_ascii_char(c));
            }
            out.push(c);
        }
        i += 1;
        proof {
            assert(out@ =~= lower_ascii(s@.subrange(0, i as int)));
        }
    }
    proof {
        assert(out@ =~= lower_ascii(s@));
    }
    out
}

/// Decides [`is_path_key`].
pub fn is_path_like_key(key: &Vec<char>) -> (r: bool)
    ensures
        r == is_path_key(key@),
{
    let l = lower_ascii_str(key);
    let path_chars = crate::strutil::str_to_chars("path");
    let paths_chars = crate::strutil::str_to_chars("paths");
    let upath_chars = crate::strutil::str_to_chars("_path");
    let upaths_chars = crate::strutil::str_to_chars("_paths");
    if l.len() == path_chars.len() && crate::strutil::chars_occur_at(&l, &path_chars, 0) {
        proof {
            assert(lower_ascii(key@) =~= "path"@);
        }
        return true;
    }
    if l.len() == paths_chars.len() && crate::strutil::chars_occur_at(&l, &paths_chars, 0) {
        proof {
            assert(lower_ascii(key@) =~= "paths"@);
        }
        return true;
    }
    if l.len() >= upath_chars.len() && crate::strutil::chars_occur_at(
        &l,
        &upath_chars,
        l.len() - upath_chars.len(),
    ) {
        proof {
            assert(crate::strutil::ends_with_seq(lower_ascii(key@), "_path"@));
        }
        return true;
    }
    if l.len() >= upaths_chars.len() && crate::strutil::chars_occur_at(
        &l,
        &upaths_chars,
        l.len() - upaths_chars.len(),
    ) {
        proof {
            assert(crate::strutil::ends_with_seq(lower_ascii(key@), "_paths"@));
        }
        return true;
    }
    proof {
        assert(lower_ascii(key@) != "path"@) by {
            if lower_ascii(key@) == "path"@ {
                assert(l@.subrange(0, l@.len() as int) =~= l@);
            }
        };
        assert(lower_ascii(key@) != "paths"@) by {
            if lower_ascii(key@) == "paths"@ {
                assert(l@.subrange(0, l@.len() as int) =~= l@);
            }
        };
        assert(!crate::strutil::ends_with_seq(lower_ascii(key@), "_path"@)) by {
            if crate::strutil::ends_with_seq(lower_ascii(key@), "_path"@) {
                assert(crate::strutil::occurs_at(l@, "_path"@, l@.len() - "_path"@.len()));
            }
        };
        assert(!crate::strutil::ends_with_seq(lower_ascii(key@), "_paths"@)) by {
            if crate::strutil::ends_with_seq(lower_ascii(key@), "_paths"@) {
                assert(crate::strutil::occurs_at(l@, "_paths"@, l@.len() - "_paths"@.len()));
            }
        };
    }
    false
}

} // verus!

verus! {

/// Whether the regular expression `pattern` compiles.
pub uninterp spec fn regex_compiles(pattern: Seq<char>) -> bool;

/// Whether the regular expression `pattern` matches somewhere in `text`.
pub uninterp spec fn regex_is_match(pattern: Seq<char>, text: Seq<char>) -> bool;

/// Relies on `regex::Regex::new` and `regex::Regex::is_match`: compiling
/// fails exactly on an invalid pattern, and matching is a function of the
/// pattern and the text alone.
#[verifier::external_body]
fn regex_match(pattern: &str, text: &str) -> (r: Result<bool, String>)
    ensures
        r is Ok <==> regex_compiles(pattern@),
        r is Ok ==> r->Ok_0 == regex_is_match(pattern@, text@),
{
    match regex::Regex::new(pattern) {
        Ok(re) => Ok(re.is_match(text)),
        Err(e) => Err(format!("{}", e)),
    }
}

/// The explicit validation policy configured for `key`, if any: the first
/// entry of that name.
pub open spec fn spec_tv_lookup(
    vs: Seq<(String, crate::config::TemplateValidation)>,
    key: Seq<char>,
) -> Option<crate::config::TemplateValidation>
    decreases vs,
{
    if vs.len() == 0 {
        None
    } else if vs[0].0@ == key {
        Some(vs[0].1)
    } else {
        spec_tv_lookup(vs.drop_first(), key)
    }
}

/// The explicit policy for `key` under `cfg`, if configured.
pub open spec fn spec_policy_of(cfg: crate::config::LocalToolConfig, key: Seq<char>) -> Option<
    crate::config::TemplateValidation,
> {
    match cfg.template_validations {
        Some(vs) => spec_tv_lookup(vs@, key),
        None => None,
    }
}

/// Whether `key` is treated as a path under `cfg`: its explicit policy
/// says so, or, absent one, the name heuristic does.
pub open spec fn spec_policy_is_path(cfg: crate::config::LocalToolConfig, key: Seq<char>) -> bool {
    match spec_policy_of(cfg, key) {
        Some(tv) => tv.kind@ == "path"@,
        None => is_path_key(key),
    }
}

/// Finds the explicit validation policy configured for `key`, if any.
fn find_validation<'a>(cfg: &'a crate::config::LocalToolConfig, key: &str) -> (r: Option<
    &'a crate::config::TemplateValidation,
>)
    ensures
        match r {
            Some(tv) => spec_policy_of(*cfg, key@) == Some(*tv),
            None => spec_policy_of(*cfg, key@) is None,
        },
{
    match &cfg.template_validations {
        Some(vs) => {
            let n = vs.len();
            proof {
                assert(vs@.subrange(0, n as int) =~= vs@);
            }
            let mut i: usize = 0;
            while i < n
                invariant
                    0 <= i <= n,
                    n == vs@.len(),
                    cfg.template_validations == Some(*vs),
                    spec_tv_lookup(vs@, key@) == spec_tv_lookup(
                        vs@.subrange(i as int, n as int),
                        key@,
                    ),
                decreases n - i,
            {
                proof {
                    assert(vs@.subrange(i as int, n as int).drop_first() =~= vs@.subrange(
                        i as int + 1,
                        n as int,
                    ));
                    assert(vs@.subrange(i as int, n as int)[0] == vs@[i as int]);
                }
                if crate::json::streq(&vs[i].0, key) {
                    return Some(&vs[i].1);
                }
                i += 1;
            }
            None
        },
        None => None,
    }
}

/// Whether `key` is treated as a path under `cfg`.
pub fn policy_is_path(cfg: &crate::config::LocalToolConfig, key: &str) -> (r: bool)
    ensures
        r == spec_policy_is_path(*cfg, key@),
{
    match find_validation(cfg, key) {
        Some(tv) => crate::json::streq(&tv.kind, "path"),
        None => {
            let kc = crate::strutil::str_to_chars(key);
            is_path_like_key(&kc)
        },
    }
}

/// The textual form a JSON value takes in an argument position: a string
/// as it is, a number or boolean as its text, null as the empty string,
/// and anything else as its JSON text.
pub open spec fn arg_string(v: crate::json::JsonV) -> Seq<char> {
    match v {
        crate::json::JsonV::Str(s) => s,
        crate::json::JsonV::Num(n) => n,
        crate::json::JsonV::Bool(b) => if b {
            "true"@
        } else {
            "false"@
        },
        crate::json::JsonV::Null => Seq::empty(),
        _ => crate::json::json_ser(v),
    }
}

/// Renders a JSON value for an argument position, as [`arg_string`] says.
pub fn stringify_arg(v: &crate::json::JsonValue) -> (r: String)
    ensures
        r@ == arg_string(v@),
{
    match v {
        crate::json::JsonValue::Str(s) => s.clone(),
        crate::json::JsonValue::Num(n) => n.clone(),
        crate::json::JsonValue::Bool(b) => {
            if *b {
                "true".to_owned()
            } else {
                "false".to_owned()
            }
        },
        crate::json::JsonValue::Null => String::new(),
        _ => crate::json::to_json_string(v),
    }
}

} // verus!

verus! {

/// The outcome of the allow-pattern phase for a string-kind value.
pub enum AllowPhase {
    Matched,
    NoMatch,
    Bad(Seq<char>),
}

/// The outcome of the deny-pattern phase for a string-kind value.
pub enum DenyPhase {
    Clean,
    Hit(Seq<char>),
    Bad(Seq<char>),
}

/// The outcome of string-kind validation.
pub enum StrCheck {
    Pass,
    BadAllow(Seq<char>),
    NoAllowMatch,
    BadDeny(Seq<char>),
    Denied(Seq<char>),
}

/// Walks the allow patterns in order: the first invalid pattern aborts,
/// the first match accepts.
pub open spec fn allow_phase(ps: Seq<Seq<char>>, v: Seq<char>) -> AllowPhase
    decreases ps,
{
    if ps.len() == 0 {
        AllowPhase::NoMatch
    } else if !regex_compiles(ps[0]) {
        AllowPhase::Bad(ps[0])
    } else if regex_is_match(ps[0], v) {
        AllowPhase::Matched
    } else {
        allow_phase(ps.drop_first(), v)
    }
}

/// Walks the deny patterns in order: the first invalid pattern aborts,
/// the first match rejects.
pub open spec fn deny_phase(ps: Seq<Seq<char>>, v: Seq<char>) -> DenyPhase
    decreases ps,
{
    if ps.len() == 0 {
        DenyPhase::Clean
    } else if !regex_compiles(ps[0]) {
        DenyPhase::Bad(ps[0])
    } else if regex_is_match(ps[0], v) {
        DenyPhase::Hit(ps[0])
    } else {
        deny_phase(ps.drop_first(), v)
    }
}

/// String-kind validation: when allow patterns are configured the value
/// must match one; when deny patterns are configured it must match none.
pub open spec fn string_check(
    allow: Option<Seq<Seq<char>>>,
    deny: Option<Seq<Seq<char>>>,
    v: Seq<char>,
) -> StrCheck {
    let deny_part = match deny {
        Some(ps) => match deny_phase(ps, v) {
            DenyPhase::Clean => StrCheck::Pass,
            DenyPhase::Hit(p) => StrCheck::Denied(p),
            DenyPhase::Bad(p) => StrCheck::BadDeny(p),
        },
        None => StrCheck::Pass,
    };
    match allow {
        Some(ps) => match allow_phase(ps, v) {
            AllowPhase::Bad(p) => StrCheck::BadAllow(p),
            AllowPhase::NoMatch => StrCheck::NoAllowMatch,
            AllowPhase::Matched => deny_part,
        },
        None => deny_part,
    }
}

/// The views of a pattern list.
pub open spec fn pats_view(ps: Vec<String>) -> Seq<Seq<char>> {
    ps@.map_values(|s: String| s@)
}

/// The allow patterns in force for `key` under `cfg`.
pub open spec fn spec_allow_of(cfg: crate::config::LocalToolConfig, key: Seq<char>) -> Option<
    Seq<Seq<char>>,
> {
    match spec_policy_of(cfg, key) {
        Some(tv) => match tv.allow_patterns {
            Some(ps) => Some(pats_view(ps)),
            None => None,
        },
        None => None,
    }
}

/// The deny patterns in force for `key` under `cfg`.
pub open spec fn spec_deny_of(cfg: crate::config::LocalToolConfig, key: Seq<char>) -> Option<
    Seq<Seq<char>>,
> {
    match spec_policy_of(cfg, key) {
        Some(tv) => match tv.deny_patterns {
            Some(ps) => Some(pats_view(ps)),
            None => None,
        },
        None => None,
    }
}

/// Whether absolute paths are allowed for `key` under `cfg`.
pub open spec fn spec_allow_abs(cfg: crate::config::LocalToolConfig, key: Seq<char>) -> bool {
    match spec_policy_of(cfg, key) {
        Some(tv) => tv.allow_absolute,
        None => false,
    }
}

/// The string-kind validation outcome for `key` and `value` under `cfg`.
pub open spec fn spec_string_check(
    cfg: crate::config::LocalToolConfig,
    key: Seq<char>,
    value: Seq<char>,
) -> StrCheck {
    string_check(spec_allow_of(cfg, key), spec_deny_of(cfg, key), value)
}

/// Runs the configured patterns of one phase over `value`.
/// Returns the phase outcome of `allow_phase` / `deny_phase`.
fn run_patterns(ps: &Vec<String>, value: &str) -> (r: Result<(bool, usize), String>)
    ensures
        match r {
            Ok((matched, idx)) => {
                &&& matched ==> allow_phase(pats_view(*ps), value@) == AllowPhase::Matched
                    && deny_phase(pats_view(*ps), value@) == DenyPhase::Hit(ps@[idx as int]@)
                    && idx < ps@.len()
                &&& !matched ==> allow_phase(pats_view(*ps), value@) == AllowPhase::NoMatch
                    && deny_phase(pats_view(*ps), value@) == DenyPhase::Clean
            },
            Err(e) => {
                &&& exists|p: Seq<char>|
                    allow_phase(pats_view(*ps), value@) == AllowPhase::Bad(p) && deny_phase(
                        pats_view(*ps),
                        value@,
                    ) == DenyPhase::Bad(p)
            },
        },
{
    let n = ps.len();
    proof {
        assert(pats_view(*ps).skip(0) =~= pats_view(*ps));
    }
    let mut i: usize = 0;
    while i < n
        invariant
            0 <= i <= n,
            n == ps@.len(),
            pats_view(*ps).len() == n,
            allow_phase(pats_view(*ps), value@) == allow_phase(
                pats_view(*ps).skip(i as int),
                value@,
            ),
            deny_phase(pats_view(*ps), value@) == deny_phase(
                pats_view(*ps).skip(i as int),
                value@,
            ),
        decreases n - i,
    {
        proof {
            assert(pats_view(*ps).skip(i as int)[0] == ps@[i as int]@);
            assert(pats_view(*ps).skip(i as int).drop_first() =~= pats_view(*ps).skip(
                i as int + 1,
            ));
        }
        match regex_match(&ps[i], value) {
            Ok(true) => {
                return Ok((true, i));
            },
            Ok(false) => {},
            Err(e) => {
                return Err(e);
            },
        }
        i += 1;
    }
    proof {
        assert(pats_view(*ps).skip(n as int) =~= Seq::<Seq<char>>::empty());
    }
    Ok((false, 0))
}

/// Validates one substituted value under the policy for `key` and yields
/// the text to splice in.
///
/// A path-kind value may not look like a command-line option; under
/// confinement it may not be absolute (unless allowed) and is
/// canonicalized within `base_dir`.  A string-kind value passes through
/// unchanged exactly when its patterns accept it.
pub fn validate_and_transform_value(
    key: &str,
    value: &str,
    cfg: &crate::config::LocalToolConfig,
    base_dir: &str,
) -> (r: Result<String, String>)
    ensures
        spec_policy_is_path(*cfg, key@) ==> {
            &&& crate::paths::spec_is_option_like(value@) ==> r is Err
            &&& r is Ok ==> !crate::paths::spec_is_option_like(value@)
            &&& (!crate::paths::spec_is_option_like(value@) && !cfg.restrict_to_base_dir) ==> r
                is Ok && r->Ok_0@ == value@
            &&& (!crate::paths::spec_is_option_like(value@) && cfg.restrict_to_base_dir
                && crate::paths::is_abs_path(value@) && !spec_allow_abs(*cfg, key@)) ==> r is Err
            &&& (r is Ok && cfg.restrict_to_base_dir) ==> crate::paths::is_abs_path(r->Ok_0@)
        },
        !spec_policy_is_path(*cfg, key@) ==> {
            &&& r is Ok <==> spec_string_check(*cfg, key@, value@) is Pass
            &&& r is Ok ==> r->Ok_0@ == value@
        },
{
    let is_path = policy_is_path(cfg, key);
    if is_path {
        if crate::paths::is_option_like(value) {
            let m1 = crate::strutil::concat_strs("Invalid path argument '", key);
            let m2 = crate::strutil::concat_strs(m1.as_str(), "': value '");
            let m3 = crate::strutil::concat_strs(m2.as_str(), value);
            let m = crate::strutil::concat_strs(
                m3.as_str(),
                "' looks like a command-line option. Path arguments cannot start with '-'.",
            );
            return Err(m);
        }
        if cfg.restrict_to_base_dir {
            let allow_abs = match find_validation(cfg, key) {
                Some(tv) => tv.allow_absolute,
                None => false,
            };
            if crate::strutil::str_starts_with(value, "/") && !allow_abs {
                proof {
                    reveal_strlit("/");
                    assert(value@.subrange(0, 1)[0] == value@[0]);
                    assert(crate::paths::is_abs_path(value@));
                }
                let m1 = crate::strutil::concat_strs("Invalid path argument '", key);
                let m2 = crate::strutil::concat_strs(m1.as_str(), "': absolute path '");
                let m3 = crate::strutil::concat_strs(m2.as_str(), value);
                let m = crate::strutil::concat_strs(
                    m3.as_str(),
                    "' is not allowed. Use a relative path instead, or set allow_absolute: true in template_validations.",
                );
                return Err(m);
            }
            proof {
                reveal_strlit("/");
                if crate::paths::is_abs_path(value@) {
                    assert(crate::strutil::starts_with_seq(value@, "/"@)) by {
                        assert(value@.subrange(0, 1) =~= "/"@);
                    };
                }
            }
            match crate::paths::canonicalize_within_base_dir(value, base_dir) {
                Ok(canonical) => Ok(canonical),
                Err(e) => {
                    let m1 = crate::strutil::concat_strs("Invalid path argument '", key);
                    let m2 = crate::strutil::concat_strs(m1.as_str(), "': ");
                    let m = crate::strutil::concat_strs(m2.as_str(), e.as_str());
                    Err(m)
                },
            }
        } else {
            Ok(value.to_owned())
        }
    } else {
        let explicit = find_validation(cfg, key);
        match explicit {
            Some(tv) => {
                match &tv.allow_patterns {
                    Some(ps) => {
                        match run_patterns(ps, value) {
                            Ok((true, _)) => {},
                            Ok((false, _)) => {
                                let m1 = crate::strutil::concat_strs(
                                    "Invalid string argument '",
                                    key,
                                );
                                let m2 = crate::strutil::concat_strs(m1.as_str(), "': value '");
                                let m3 = crate::strutil::concat_strs(m2.as_str(), value);
                                let m = crate::strutil::concat_strs(
                                    m3.as_str(),
                                    "' does not match any allow_pattern",
                                );
                                return Err(m);
                            },
                            Err(e) => {
                                let m1 = crate::strutil::concat_strs(
                                    "Invalid allow_pattern regex: ",
                                    e.as_str(),
                                );
                                return Err(m1);
                            },
                        }
                    },
                    None => {},
                }
                match &tv.deny_patterns {
                    Some(ps) => {
                        match run_patterns(ps, value) {
                            Ok((true, idx)) => {
                                let m1 = crate::strutil::concat_strs(
                                    "Invalid string argument '",
                                    key,
                                );
                                let m2 = crate::strutil::concat_strs(m1.as_str(), "': value '");
                                let m3 = crate::strutil::concat_strs(m2.as_str(), value);
                                let m4 = crate::strutil::concat_strs(
                                    m3.as_str(),
                                    "' matches deny_pattern '",
                                );
                                let m5 = crate::strutil::concat_strs(m4.as_str(), &ps[idx]);
                                let m = crate::strutil::concat_strs(m5.as_str(), "'");
                                return Err(m);
                            },
                            Ok((false, _)) => {},
                            Err(e) => {
                                let m1 = crate::strutil::concat_strs(
                                    "Invalid deny_pattern regex: ",
                                    e.as_str(),
                                );
                                return Err(m1);
                            },
                        }
                    },
                    None => {},
                }
                Ok(value.to_owned())
            },
            None => Ok(value.to_owned()),
        }
    }
}

} // verus!

verus! {

/// The placeholders of `ms` whose keys are present in the call arguments.
pub open spec fn present_matches(
    ms: Seq<(int, int, Seq<char>)>,
    args: crate::json::JsonV,
) -> Seq<(int, int, Seq<char>)>
    decreases ms,
{
    if ms.len() == 0 {
        Seq::empty()
    } else if crate::json::json_lookup(args, ms[0].2) is Some {
        seq![ms[0]] + present_matches(ms.drop_first(), args)
    } else {
        present_matches(ms.drop_first(), args)
    }
}

/// Appending one placeholder extends the present list by it exactly when
/// its key is present.
pub proof fn lemma_present_snoc(ms: Seq<(int, int, Seq<char>)>, args: crate::json::JsonV)
    requires
        ms.len() > 0,
    ensures
        present_matches(ms, args) == present_matches(ms.drop_last(), args) + (
        if crate::json::json_lookup(args, ms.last().2) is Some {
            seq![ms.last()]
        } else {
            Seq::<(int, int, Seq<char>)>::empty()
        }),
    decreases ms,
{
    if ms.len() == 1 {
        assert(ms.drop_last() =~= Seq::<(int, int, Seq<char>)>::empty());
        assert(present_matches(ms.drop_last(), args) =~= Seq::<(int, int, Seq<char>)>::empty());
        if crate::json::json_lookup(args, ms[0].2) is Some {
            assert(ms.drop_first() =~= Seq::<(int, int, Seq<char>)>::empty());
            assert(present_matches(ms, args) =~= seq![ms.last()]);
        } else {
            assert(ms.drop_first() =~= Seq::<(int, int, Seq<char>)>::empty());
            assert(present_matches(ms, args) =~= Seq::<(int, int, Seq<char>)>::empty());
        }
    } else {
        lemma_present_snoc(ms.drop_first(), args);
        assert(ms.drop_first().drop_last() =~= ms.drop_last().drop_first());
        assert(ms.drop_first().last() == ms.last());
        assert(ms.drop_last()[0] == ms[0]);
        assert(ms.drop_last().len() > 0);
        if crate::json::json_lookup(args, ms[0].2) is Some {
            assert(present_matches(ms, args) =~= present_matches(ms.drop_last(), args) + (
            if crate::json::json_lookup(args, ms.last().2) is Some {
                seq![ms.last()]
            } else {
                Seq::<(int, int, Seq<char>)>::empty()
            }));
        } else {
            assert(present_matches(ms, args) =~= present_matches(ms.drop_last(), args) + (
            if crate::json::json_lookup(args, ms.last().2) is Some {
                seq![ms.last()]
            } else {
                Seq::<(int, int, Seq<char>)>::empty()
            }));
        }
    }
}

/// The present placeholders of a prefix stand unchanged, in order, at
/// the front of the full present list.
pub proof fn lemma_present_prefix(
    ms: Seq<(int, int, Seq<char>)>,
    args: crate::json::JsonV,
    k: int,
)
    requires
        0 <= k <= ms.len(),
    ensures
        present_matches(ms.take(k), args).len() <= present_matches(ms, args).len(),
        forall|i: int|
            0 <= i < present_matches(ms.take(k), args).len() ==> present_matches(
                ms.take(k),
                args,
            )[i] == present_matches(ms, args)[i],
    decreases ms.len() - k,
{
    if k < ms.len() {
        lemma_present_prefix(ms, args, k + 1);
        assert(ms.take(k + 1).drop_last() =~= ms.take(k));
        assert(ms.take(k + 1).last() == ms[k]);
        lemma_present_snoc(ms.take(k + 1), args);
    } else {
        assert(ms.take(k) =~= ms);
    }
}

/// The present placeholders of the template `s` under `args`.
pub open spec fn spec_present_of(s: Seq<char>, args: crate::json::JsonV) -> Seq<
    (int, int, Seq<char>),
> {
    present_matches(scan_placeholders(s, 0), args)
}

/// Whether expanding `s` substitutes at least one path-kind key.
pub open spec fn spec_has_path_subst(
    s: Seq<char>,
    args: crate::json::JsonV,
    cfg: crate::config::LocalToolConfig,
) -> bool {
    exists|k: int|
        0 <= k < spec_present_of(s, args).len() && spec_policy_is_path(
            cfg,
            spec_present_of(s, args)[k].2,
        )
}

/// Whether `result` is an expansion of the template `s`: the spans of the
/// present placeholders of `s` are replaced, in place, by `texts`, and
/// every text of a non-path key is exactly the rendered argument value.
/// (A path key's text additionally passed path validation, whose
/// canonical form depends on the filesystem.)
pub open spec fn expansion_witness(
    s: Seq<char>,
    args: crate::json::JsonV,
    cfg: crate::config::LocalToolConfig,
    texts: Seq<Seq<char>>,
    result: Seq<char>,
) -> bool {
    let pm = spec_present_of(s, args);
    let spans = Seq::new(pm.len(), |k: int| (pm[k].0, pm[k].1, texts[k]));
    &&& texts.len() == pm.len()
    &&& (forall|k: int|
        0 <= k < pm.len() && !spec_policy_is_path(cfg, pm[k].2) ==> texts[k] == arg_string(
            crate::json::json_lookup(args, pm[k].2)->Some_0,
        ))
    &&& (forall|k: int|
        0 <= k < pm.len() && !spec_policy_is_path(cfg, pm[k].2) ==> spec_string_check(
            cfg,
            pm[k].2,
            arg_string(crate::json::json_lookup(args, pm[k].2)->Some_0),
        ) is Pass)
    &&& (forall|k: int|
        0 <= k < pm.len() && spec_policy_is_path(cfg, pm[k].2)
            ==> !crate::paths::spec_is_option_like(
            arg_string(crate::json::json_lookup(args, pm[k].2)->Some_0),
        ))
    &&& (forall|k: int|
        0 <= k < pm.len() && spec_policy_is_path(cfg, pm[k].2) && cfg.restrict_to_base_dir
            ==> crate::paths::is_abs_path(texts[k]))
    &&& (forall|k: int|
        0 <= k < pm.len() && spec_policy_is_path(cfg, pm[k].2) && !cfg.restrict_to_base_dir
            ==> texts[k] == arg_string(crate::json::json_lookup(args, pm[k].2)->Some_0))
    &&& wf_spans(s, spans, 0)
    &&& result == splice(s, spans, 0)
}

/// Whether `result` can be the expansion of `s` under `args` and `cfg`.
pub open spec fn expansion_ok(
    s: Seq<char>,
    args: crate::json::JsonV,
    cfg: crate::config::LocalToolConfig,
    result: Seq<char>,
) -> bool {
    exists|texts: Seq<Seq<char>>| expansion_witness(s, args, cfg, texts, result)
}

/// Whether every present key of the template is string-kind and passes
/// its pattern checks — the case in which expansion cannot fail.
pub open spec fn spec_all_string_checks_pass(
    s: Seq<char>,
    args: crate::json::JsonV,
    cfg: crate::config::LocalToolConfig,
) -> bool {
    let pm = spec_present_of(s, args);
    forall|k: int|
        0 <= k < pm.len() ==> !spec_policy_is_path(cfg, (#[trigger] pm[k]).2) && spec_string_check(
            cfg,
            pm[k].2,
            arg_string(crate::json::json_lookup(args, pm[k].2)->Some_0),
        ) is Pass
}

/// Sorted, bounded spans are a well-formed replacement plan.
proof fn lemma_wf_spans_from_sorted(
    s: Seq<char>,
    spans: Seq<(int, int, Seq<char>)>,
    from: int,
)
    requires
        0 <= from <= s.len(),
        spans.len() > 0 ==> from <= spans[0].0,
        forall|k: int| 0 <= k < spans.len() ==> (#[trigger] spans[k]).0 <= spans[k].1 <= s.len(),
        forall|k: int| 0 <= k < spans.len() - 1 ==> (#[trigger] spans[k]).1 <= spans[k + 1].0,
    ensures
        wf_spans(s, spans, from),
    decreases spans,
{
    if spans.len() > 0 {
        assert(forall|k: int|
            0 <= k < spans.drop_first().len() ==> spans.drop_first()[k] == spans[k + 1]);
        lemma_wf_spans_from_sorted(s, spans.drop_first(), spans[0].1);
    }
}

/// Whether the collected replacements correspond to the present
/// placeholders `pm`: same spans in order, and for every non-path key the
/// text is exactly the rendered argument value, which passed its string
/// checks.
pub open spec fn repls_match_pm(
    repls: Seq<(int, int, Seq<char>)>,
    pm: Seq<(int, int, Seq<char>)>,
    args: crate::json::JsonV,
    cfg: crate::config::LocalToolConfig,
) -> bool {
    &&& repls.len() == pm.len()
    &&& (forall|k: int|
        0 <= k < pm.len() ==> ((#[trigger] repls[k]).0, repls[k].1) == ((#[trigger] pm[k]).0,
        pm[k].1))
    &&& (forall|k: int|
        0 <= k < pm.len() && !spec_policy_is_path(cfg, (#[trigger] pm[k]).2) ==> repls[k].2
            == arg_string(crate::json::json_lookup(args, pm[k].2)->Some_0) && spec_string_check(
            cfg,
            pm[k].2,
            arg_string(crate::json::json_lookup(args, pm[k].2)->Some_0),
        ) is Pass)
    &&& (forall|k: int|
        0 <= k < pm.len() && spec_policy_is_path(cfg, (#[trigger] pm[k]).2)
            ==> !crate::paths::spec_is_option_like(
            arg_string(crate::json::json_lookup(args, pm[k].2)->Some_0),
        ))
    &&& (forall|k: int|
        0 <= k < pm.len() && spec_policy_is_path(cfg, (#[trigger] pm[k]).2)
            && cfg.restrict_to_base_dir ==> crate::paths::is_abs_path(repls[k].2))
    &&& (forall|k: int|
        0 <= k < pm.len() && spec_policy_is_path(cfg, (#[trigger] pm[k]).2)
            && !cfg.restrict_to_base_dir ==> repls[k].2 == arg_string(
            crate::json::json_lookup(args, pm[k].2)->Some_0,
        ))
}

/// Expands the `{{key}}` placeholders of one argument template.
///
/// Yields the expanded text, whether the template held any placeholder,
/// and whether a path-kind substitution occurred.  A key that is missing
/// from the arguments leaves its placeholder untouched.  Substituted
/// values are validated under their key's policy, fail-closed.
#[verifier::rlimit(80)]
pub fn expand_one_arg(
    arg: &str,
    arguments: &crate::json::JsonValue,
    cfg: &crate::config::LocalToolConfig,
    base_dir: &str,
) -> (r: Result<(String, bool, bool), String>)
    ensures
        r is Ok ==> {
            &&& expansion_ok(arg@, arguments@, *cfg, r->Ok_0.0@)
            &&& r->Ok_0.1 == (scan_placeholders(arg@, 0).len() > 0)
            &&& r->Ok_0.2 == spec_has_path_subst(arg@, arguments@, *cfg)
        },
        spec_all_string_checks_pass(arg@, arguments@, *cfg) ==> r is Ok,
{
    let chars = crate::strutil::str_to_chars(arg);
    let matches = scan_placeholders_vec(&chars);
    let had_placeholder = matches.len() > 0;
    let ghost scan_seq = matches@.map_values(
        |m: PlaceholderMatch| (m.start as int, m.end as int, m.key@),
    );
    let mut repls: Vec<SpanReplacement> = Vec::new();
    let mut has_path: bool = false;
    let nm = matches.len();
    let ghost argsv = arguments@;
    proof {
        assert(scan_seq.take(0) =~= Seq::<(int, int, Seq<char>)>::empty());
        assert(present_matches(scan_seq.take(0), argsv) =~= Seq::<(int, int, Seq<char>)>::empty());
    }
    let mut j: usize = 0;
    while j < nm
        invariant
            0 <= j <= nm,
            nm == matches@.len(),
            scan_seq == matches@.map_values(
                |m: PlaceholderMatch| (m.start as int, m.end as int, m.key@),
            ),
            scan_seq == scan_placeholders(chars@, 0),
            chars@ == arg@,
            argsv == arguments@,
            forall|k: int|
                0 <= k < matches@.len() ==> (#[trigger] matches@[k]).start < matches@[k].end
                    && matches@[k].end <= chars@.len(),
            forall|k: int|
                0 <= k < matches@.len() - 1 ==> (#[trigger] matches@[k]).end <= matches@[k
                    + 1].start,
            repls_match_pm(
                repls@.map_values(|m: SpanReplacement| (m.start as int, m.end as int, m.text@)),
                present_matches(scan_seq.take(j as int), argsv),
                argsv,
                *cfg,
            ),
            forall|k: int|
                0 <= k < repls@.len() ==> (#[trigger] repls@[k]).start < repls@[k].end && repls@[
                    k
                ].end <= chars@.len(),
            forall|k: int|
                0 <= k < repls@.len() - 1 ==> (#[trigger] repls@[k]).end <= repls@[k + 1].start,
            repls@.len() > 0 && j < nm ==> repls@.last().end <= matches@[j as int].start,
            has_path == exists|k: int|
                0 <= k < present_matches(scan_seq.take(j as int), argsv).len()
                    && spec_policy_is_path(
                    *cfg,
                    (#[trigger] present_matches(scan_seq.take(j as int), argsv)[k]).2,
                ),
        decreases nm - j,
    {
        let ghost pm_old = present_matches(scan_seq.take(j as int), argsv);
        proof {
            assert(scan_seq.take(j as int + 1).drop_last() =~= scan_seq.take(j as int));
            assert(scan_seq.take(j as int + 1).last() == scan_seq[j as int]);
            lemma_present_snoc(scan_seq.take(j as int + 1), argsv);
        }
        let key_string = chars_to_string(&matches[j].key);
        proof {
            assert((matches@[j as int].start as int, matches@[j as int].end as int, matches@[
                j as int
            ].key@) == scan_seq[j as int]);
            assert(key_string@ == scan_seq[j as int].2);
        }
        match arguments.get(key_string.as_str()) {
            Some(value) => {
                let ghost pm_new = present_matches(scan_seq.take(j as int + 1), argsv);
                proof {
                    assert(pm_new =~= pm_old + seq![scan_seq[j as int]]);
                }
                let sval = stringify_arg(value);
                let is_path_kind = policy_is_path(cfg, key_string.as_str());
                let validated = match validate_and_transform_value(
                    key_string.as_str(),
                    sval.as_str(),
                    cfg,
                    base_dir,
                ) {
                    Ok(v) => v,
                    Err(e) => {
                        proof {
                            if spec_all_string_checks_pass(arg@, argsv, *cfg) {
                                lemma_present_prefix(scan_seq, argsv, j as int + 1);
                                assert(pm_new[pm_old.len() as int] == scan_seq[j as int]);
                                assert(spec_present_of(arg@, argsv)[pm_old.len() as int]
                                    == scan_seq[j as int]);
                                assert(!spec_policy_is_path(*cfg, scan_seq[j as int].2));
                                assert(spec_string_check(
                                    *cfg,
                                    scan_seq[j as int].2,
                                    sval@,
                                ) is Pass);
                            }
                        }
                        return Err(e);
                    },
                };
                let text = crate::strutil::str_to_chars(validated.as_str());
                let rep = SpanReplacement {
                    start: matches[j].start,
                    end: matches[j].end,
                    text,
                };
                repls.push(rep);
                if is_path_kind {
                    has_path = true;
                }
                proof {
                    let rmapped = repls@.map_values(
                        |m: SpanReplacement| (m.start as int, m.end as int, m.text@),
                    );
                    assert(rmapped =~= repls@.drop_last().map_values(
                        |m: SpanReplacement| (m.start as int, m.end as int, m.text@),
                    ) + seq![(matches@[j as int].start as int, matches@[j as int].end as int,
                    validated@)]);
                    assert(forall|k: int| 0 <= k < pm_old.len() ==> pm_new[k] == pm_old[k]);
                    assert(pm_new[pm_old.len() as int] == scan_seq[j as int]);
                    if !is_path_kind {
                        assert(sval@ == arg_string(
                            crate::json::json_lookup(argsv, scan_seq[j as int].2)->Some_0,
                        ));
                        assert(validated@ == sval@);
                        assert(spec_string_check(*cfg, scan_seq[j as int].2, sval@) is Pass);
                    } else {
                        assert(!crate::paths::spec_is_option_like(sval@));
                        if cfg.restrict_to_base_dir {
                            assert(crate::paths::is_abs_path(validated@));
                        } else {
                            assert(validated@ == sval@);
                        }
                    }
                    if is_path_kind {
                        assert(spec_policy_is_path(*cfg, pm_new[pm_old.len() as int].2));
                        assert(0 <= pm_old.len() < pm_new.len() && spec_policy_is_path(
                            *cfg,
                            pm_new[pm_old.len() as int].2,
                        ));
                    } else {
                        assert(forall|k: int|
                            0 <= k < pm_new.len() && spec_policy_is_path(
                                *cfg,
                                (#[trigger] pm_new[k]).2,
                            ) ==> 0 <= k < pm_old.len() && spec_policy_is_path(
                                *cfg,
                                pm_old[k].2,
                            ));
                    }
                }
            },
            None => {
                proof {
                    assert(present_matches(scan_seq.take(j as int + 1), argsv) =~= pm_old);
                }
            },
        }
        j += 1;
        proof {
            if repls@.len() > 0 && j < nm {
                assert(matches@[j as int - 1].end <= matches@[j as int].start);
            }
        }
    }
    proof {
        assert(scan_seq.take(nm as int) =~= scan_seq);
    }
    let ghost pm = present_matches(scan_seq, argsv);
    let ghost texts = repls@.map_values(|m: SpanReplacement| m.text@);
    proof {
        let spans = Seq::new(pm.len(), |k: int| (pm[k].0, pm[k].1, texts[k]));
        assert(spans =~= repls@.map_values(
            |m: SpanReplacement| (m.start as int, m.end as int, m.text@),
        ));
        lemma_wf_spans_from_sorted(chars@, spans, 0);
    }
    let out = splice_vec(&chars, &repls);
    let result = chars_to_string(&out);
    proof {
        assert(expansion_witness(arg@, argsv, *cfg, texts, result@));
    }
    Ok((result, had_placeholder, has_path))
}

/// The index of the first argument template that holds a placeholder, at
/// or after `j`.
pub open spec fn first_ph_from(argv: Seq<Seq<char>>, j: int) -> Option<int>
    decreases argv.len() - j,
{
    if j < 0 || j >= argv.len() {
        None
    } else if scan_placeholders(argv[j], 0).len() > 0 {
        Some(j)
    } else {
        first_ph_from(argv, j + 1)
    }
}

/// Whether any argument template substitutes a path-kind key.
pub open spec fn spec_any_path_subst(
    argv: Seq<Seq<char>>,
    args: crate::json::JsonV,
    cfg: crate::config::LocalToolConfig,
) -> bool {
    exists|j: int| 0 <= j < argv.len() && spec_has_path_subst(argv[j], args, cfg)
}

/// Whether the `--` guard is inserted: forced by configuration, or, on
/// auto-detection, whenever a path-kind substitution occurred.
pub open spec fn spec_insert_dd(
    argv: Seq<Seq<char>>,
    args: crate::json::JsonV,
    cfg: crate::config::LocalToolConfig,
) -> bool {
    match cfg.insert_double_dash {
        Some(b) => b,
        None => spec_any_path_subst(argv, args, cfg),
    }
}

/// The views of a list of strings.
pub open spec fn strs_view(v: Seq<String>) -> Seq<Seq<char>> {
    v.map_values(|s: String| s@)
}

/// What `template_args` guarantees of its output `outv`, with `mid` the
/// per-template expansions before the guard insertion.
pub open spec fn template_args_post(
    args: Seq<String>,
    argsv: crate::json::JsonV,
    cfg: crate::config::LocalToolConfig,
    outv: Seq<String>,
    mid: Seq<Seq<char>>,
) -> bool {
    &&& mid.len() == args.len()
    &&& (forall|j: int|
        0 <= j < args.len() ==> expansion_ok(args[j]@, argsv, cfg, #[trigger] mid[j]))
    &&& strs_view(outv) == (if spec_insert_dd(strs_view(args), argsv, cfg) && first_ph_from(
        strs_view(args),
        0,
    ) is Some {
        mid.insert(first_ph_from(strs_view(args), 0)->Some_0, "--"@)
    } else {
        mid
    })
}

/// Expands every argument template and inserts the option-injection
/// guard.
///
/// Each output argument is an expansion of its template as
/// [`expansion_ok`] says.  When the guard condition holds (see
/// [`spec_insert_dd`]) and some template held a placeholder, a literal
/// `--` stands immediately before the expansion of the first such
/// template, tracked by original argument position, not by substituted
/// content.
pub fn template_args(
    args: &Vec<String>,
    arguments: &crate::json::JsonValue,
    cfg: &crate::config::LocalToolConfig,
    base_dir: &str,
) -> (r: Result<Vec<String>, String>)
    ensures
        r is Ok ==> exists|mid: Seq<Seq<char>>|
            #[trigger] template_args_post(args@, arguments@, *cfg, r->Ok_0@, mid),
        (forall|j: int|
            0 <= j < args@.len() ==> spec_all_string_checks_pass(
                (#[trigger] args@[j])@,
                arguments@,
                *cfg,
            )) ==> r is Ok,
{
    let ghost argv = strs_view(args@);
    let ghost argsv = arguments@;
    let n = args.len();
    let mut out: Vec<String> = Vec::new();
    let mut first_idx: Option<usize> = None;
    let mut any_path: bool = false;
    proof {
        assert(argv.len() == n);
    }
    let mut j: usize = 0;
    while j < n
        invariant
            0 <= j <= n,
            n == args@.len(),
            argv == strs_view(args@),
            argv.len() == n,
            argsv == arguments@,
            out@.len() == j,
            forall|k: int|
                0 <= k < j ==> expansion_ok(args@[k]@, argsv, *cfg, (#[trigger] out@[k])@),
            match first_idx {
                Some(i) => i < j && scan_placeholders(argv[i as int], 0).len() > 0 && forall|
                    t: int,
                |
                    0 <= t < i ==> scan_placeholders(#[trigger] argv[t], 0).len() == 0,
                None => forall|t: int|
                    0 <= t < j ==> scan_placeholders(#[trigger] argv[t], 0).len() == 0,
            },
            any_path == exists|t: int|
                0 <= t < j && spec_has_path_subst(#[trigger] argv[t], argsv, *cfg),
        decreases n - j,
    {
        let expanded = match expand_one_arg(&args[j], arguments, cfg, base_dir) {
            Ok(t) => t,
            Err(e) => {
                proof {
                    assert(args@[j as int]@ == argv[j as int]);
                }
                return Err(e);
            },
        };
        let (text, had_ph, had_path) = expanded;
        proof {
            assert(argv[j as int] == args@[j as int]@);
        }
        out.push(text);
        if had_ph && first_idx.is_none() {
            first_idx = Some(j);
        }
        if had_path {
            any_path = true;
        }
        j += 1;
        proof {
            if any_path {
                assert(exists|t: int|
                    0 <= t < j && spec_has_path_subst(#[trigger] argv[t], argsv, *cfg));
            }
        }
    }
    let insert_dd = match cfg.insert_double_dash {
        Some(b) => b,
        None => any_path,
    };
    let ghost mid = out@.map_values(|s: String| s@);
    proof {
        assert(mid.len() == n);
        assert(forall|k: int|
            0 <= k < n ==> expansion_ok(args@[k]@, argsv, *cfg, #[trigger] mid[k]));
        assert(insert_dd == spec_insert_dd(argv, argsv, *cfg));
        match first_idx {
            Some(i) => {
                lemma_first_ph_found(argv, i as int);
            },
            None => {
                lemma_first_ph_none(argv, 0, n as int);
            },
        }
    }
    if insert_dd {
        match first_idx {
            Some(i) => {
                out.insert(i, "--".to_owned());
                proof {
                    assert(strs_view(out@) =~= mid.insert(i as int, "--"@));
                    assert(template_args_post(args@, arguments@, *cfg, out@, mid));
                }
                let res: Result<Vec<String>, String> = Ok(out);
                proof {
                    assert(template_args_post(args@, arguments@, *cfg, res->Ok_0@, mid));
                }
                res
            },
            None => {
                proof {
                    assert(strs_view(out@) =~= mid);
                    assert(template_args_post(args@, arguments@, *cfg, out@, mid));
                }
                let res: Result<Vec<String>, String> = Ok(out);
                proof {
                    assert(template_args_post(args@, arguments@, *cfg, res->Ok_0@, mid));
                }
                res
            },
        }
    } else {
        proof {
            assert(strs_view(out@) =~= mid);
            assert(template_args_post(args@, arguments@, *cfg, out@, mid));
        }
        let res: Result<Vec<String>, String> = Ok(out);
        proof {
            assert(template_args_post(args@, arguments@, *cfg, res->Ok_0@, mid));
        }
        res
    }
}

/// When every template before `i` lacks placeholders and `i` has one,
/// `i` is the first placeholder index.
proof fn lemma_first_ph_found(argv: Seq<Seq<char>>, i: int)
    requires
        0 <= i < argv.len(),
        scan_placeholders(argv[i], 0).len() > 0,
        forall|t: int| 0 <= t < i ==> scan_placeholders(#[trigger] argv[t], 0).len() == 0,
    ensures
        first_ph_from(argv, 0) == Some(i),
{
    lemma_first_ph_step(argv, 0, i);
}

/// Walks `first_ph_from` forward over placeholder-free templates.
proof fn lemma_first_ph_step(argv: Seq<Seq<char>>, j: int, i: int)
    requires
        0 <= j <= i < argv.len(),
        scan_placeholders(argv[i], 0).len() > 0,
        forall|t: int| j <= t < i ==> scan_placeholders(#[trigger] argv[t], 0).len() == 0,
    ensures
        first_ph_from(argv, j) == Some(i),
    decreases i - j,
{
    if j < i {
        lemma_first_ph_step(argv, j + 1, i);
    }
}

/// When no template up to `n` holds a placeholder, there is no first
/// placeholder index.
proof fn lemma_first_ph_none(argv: Seq<Seq<char>>, j: int, n: int)
    requires
        0 <= j <= n,
        n == argv.len(),
        forall|t: int| j <= t < n ==> scan_placeholders(#[trigger] argv[t], 0).len() == 0,
    ensures
        first_ph_from(argv, j) is None,
    decreases n - j,
{
    if j < n {
        lemma_first_ph_none(argv, j + 1, n);
    }
}

/// No cascading substitution: expanding the template `{{a}}` with an
/// argument object that maps `a` to the string `val` yields `val`
/// verbatim, whatever characters `val` holds — in particular, a value
/// that itself looks like `{{b}}` is not expanded again.
pub proof fn lemma_no_cascading(
    cfg: crate::config::LocalToolConfig,
    args: crate::json::JsonV,
    val: Seq<char>,
    result: Seq<char>,
)
    requires
        cfg.template_validations is None,
        crate::json::json_lookup(args, "a"@) == Some(crate::json::JsonV::Str(val)),
        expansion_ok("{{a}}"@, args, cfg, result),
    ensures
        result == val,
{
    reveal_strlit("{{a}}");
    reveal_strlit("a");
    reveal_strlit("path");
    reveal_strlit("paths");
    reveal_strlit("_path");
    reveal_strlit("_paths");
    let s = "{{a}}"@;
    assert(s.len() == 5);
    assert(s[0] == '{' && s[1] == '{' && s[2] == 'a' && s[3] == '}' && s[4] == '}');
    assert(find_rbrace(s, 3) == 3);
    assert(find_rbrace(s, 2) == 3);
    assert(match_at(s, 0));
    assert(s.subrange(2, 3) =~= "a"@);
    assert(scan_placeholders(s, 5) =~= Seq::<(int, int, Seq<char>)>::empty());
    assert(scan_placeholders(s, 0) =~= seq![(0int, 5int, "a"@)]);
    let pm = spec_present_of(s, args);
    assert(seq![(0int, 5int, "a"@)].drop_first() =~= Seq::<(int, int, Seq<char>)>::empty());
    assert(present_matches(Seq::<(int, int, Seq<char>)>::empty(), args) =~= Seq::<(
        int,
        int,
        Seq<char>,
    )>::empty());
    assert(seq![(0int, 5int, "a"@)][0].2 == "a"@);
    assert(present_matches(seq![(0int, 5int, "a"@)], args) =~= seq![(0int, 5int, "a"@)]);
    assert(pm =~= seq![(0int, 5int, "a"@)]);
    assert(lower_ascii("a"@) =~= "a"@);
    assert(!is_path_key("a"@)) by {
        if crate::strutil::ends_with_seq(lower_ascii("a"@), "_path"@) {
            assert("_path"@.len() <= 1);
        }
        if crate::strutil::ends_with_seq(lower_ascii("a"@), "_paths"@) {
            assert("_paths"@.len() <= 1);
        }
    };
    assert(!spec_policy_is_path(cfg, "a"@));
    let texts = choose|t: Seq<Seq<char>>| expansion_witness(s, args, cfg, t, result);
    assert(expansion_witness(s, args, cfg, texts, result));
    assert(texts[0] == arg_string(crate::json::JsonV::Str(val)));
    assert(texts[0] == val);
    let spans = Seq::new(pm.len(), |k: int| (pm[k].0, pm[k].1, texts[k]));
    assert(spans.len() == 1);
    assert(spans[0] == (0int, 5int, val));
    assert(spans.drop_first() =~= Seq::<(int, int, Seq<char>)>::empty());
    assert(splice(s, spans.drop_first(), 5) == s.subrange(5, 5));
    assert(s.subrange(5, 5) =~= Seq::<char>::empty());
    assert(s.subrange(0, 0) =~= Seq::<char>::empty());
    assert(splice(s, spans, 0) =~= val);
}

/// Option-injection guard placement: when the guard condition holds and
/// some argument template held a placeholder, the output is the
/// per-template expansions with one extra element, a literal `--`,
/// standing immediately before the expansion of the first
/// placeholder-bearing template.
pub proof fn lemma_guard_before_first_placeholder(
    args: Seq<String>,
    argsv: crate::json::JsonV,
    cfg: crate::config::LocalToolConfig,
    outv: Seq<String>,
    mid: Seq<Seq<char>>,
    i: int,
)
    requires
        template_args_post(args, argsv, cfg, outv, mid),
        spec_insert_dd(strs_view(args), argsv, cfg),
        first_ph_from(strs_view(args), 0) == Some(i),
    ensures
        0 <= i <= args.len(),
        outv.len() == args.len() + 1,
        outv[i]@ == "--"@,
        forall|j: int| 0 <= j < i ==> (#[trigger] outv[j])@ == mid[j],
        forall|j: int| i < j < outv.len() ==> (#[trigger] outv[j])@ == mid[j - 1],
{
    lemma_first_ph_in_range(strs_view(args), 0, i);
    let sv = strs_view(outv);
    assert(sv == mid.insert(i, "--"@));
    assert(sv.len() == mid.len() + 1);
    assert(forall|j: int| 0 <= j < sv.len() ==> (#[trigger] outv[j])@ == sv[j]);
}

/// A first-placeholder index lies within the list.
proof fn lemma_first_ph_in_range(argv: Seq<Seq<char>>, j: int, i: int)
    requires
        0 <= j,
        first_ph_from(argv, j) == Some(i),
    ensures
        j <= i < argv.len(),
    decreases argv.len() - j,
{
    if j < argv.len() && scan_placeholders(argv[j], 0).len() == 0 {
        lemma_first_ph_in_range(argv, j + 1, i);
    }
}

} // verus!
