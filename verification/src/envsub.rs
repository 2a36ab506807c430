//! `${VAR}` expansion in configured strings, against an environment
//! table handed in by the caller.  A name that the table lacks leaves
//! its `${name}` text untouched.

use vstd::prelude::*;
use crate::strutil::{chars_to_string, str_to_chars};
use crate::template::find_rbrace;

verus! {

/// The value of `key` in the environment table, first entry wins.
pub open spec fn env_lookup(env: Seq<(Seq<char>, Seq<char>)>, key: Seq<char>) -> Option<Seq<char>>
    decreases env,
{
    if env.len() == 0 {
        None
    } else if env[0].0 == key {
        Some(env[0].1)
    } else {
        env_lookup(env.drop_first(), key)
    }
}

/// Whether a `${name}` reference begins at `i`: `${`, at least one
/// character other than `}`, then `}`.
pub open spec fn env_ref_at(s: Seq<char>, i: int) -> bool {
    let p = find_rbrace(s, i + 2);
    &&& 0 <= i
    &&& i + 4 <= s.len()
    &&& s[i] == '$'
    &&& s[i + 1] == '{'
    &&& p > i + 2
    &&& p < s.len()
}

/// `s` from position `i` on with every `${name}` replaced by the
/// table's value for `name`, when the table has one.
pub open spec fn env_expand(s: Seq<char>, i: int, env: Seq<(Seq<char>, Seq<char>)>) -> Seq<char>
    decreases s.len() - i,
{
    if i < 0 || i + 4 > s.len() {
        s.subrange(if i < 0 {
            0
        } else {
            i
        }, s.len() as int)
    } else if env_ref_at(s, i) {
        let p = find_rbrace(s, i + 2);
        match env_lookup(env, s.subrange(i + 2, p)) {
            Some(v) => v + env_expand(s, p + 1, env),
            None => s.subrange(i, p + 1) + env_expand(s, p + 1, env),
        }
    } else {
        seq![s[i]] + env_expand(s, i + 1, env)
    }
}

/// The views of an environment table.
pub open spec fn env_view(env: Seq<(String, String)>) -> Seq<(Seq<char>, Seq<char>)> {
    env.map_values(|p: (String, String)| (p.0@, p.1@))
}

/// Looks `key` up in the environment table.
fn env_get<'a>(env: &'a Vec<(String, String)>, key: &str) -> (r: Option<&'a String>)
    ensures
        match r {
            Some(v) => env_lookup(env_view(env@), key@) == Some(v@),
            None => env_lookup(env_view(env@), key@) is None,
        },
{
    let n = env.len();
    proof {
        assert(env_view(env@).skip(0) =~= env_view(env@));
    }
    let mut i: usize = 0;
    while i < n
        invariant
            0 <= i <= n,
            n == env@.len(),
            env_view(env@).len() == n,
            env_lookup(env_view(env@), key@) == env_lookup(env_view(env@).skip(i as int), key@),
        decreases n - i,
    {
        proof {
            assert(env_view(env@).skip(i as int)[0] == env_view(env@)[i as int]);
            assert(env_view(env@).skip(i as int).drop_first() =~= env_view(env@).skip(
                i as int + 1,
            ));
        }
        if crate::json::streq(&env[i].0, key) {
            return Some(&env[i].1);
        }
        i += 1;
    }
    proof {
        assert(env_view(env@).skip(n as int) =~= Seq::<(Seq<char>, Seq<char>)>::empty());
    }
    None
}

/// Expands every `${name}` in `value` from the environment table.
pub fn expand_env_var_in_string(value: &str, env: &Vec<(String, String)>) -> (r: String)
    ensures
        r@ == env_expand(value@, 0, env_view(env@)),
{
    let s = str_to_chars(value);
    let n = s.len();
    let ghost ev = env_view(env@);
    let mut out: Vec<char> = Vec::new();
    let mut i: usize = 0;
    proof {
        assert(out@ + env_expand(s@, 0, ev) =~= env_expand(s@, 0, ev));
    }
    while i < n
        invariant
            0 <= i <= n,
            n == s@.len(),
            s@ == value@,
            ev == env_view(env@),
            env_expand(s@, 0, ev) == out@ + env_expand(s@, i as int, ev),
        decreases n - i,
    {
        let mut simple = true;
        if i < n && n - i >= 4 && s[i] == '$' && s[i + 1] == '{' {
            let p = crate::template::find_rbrace_vec(&s, i + 2);
            proof {
                crate::template::lemma_find_rbrace(s@, i as int + 2);
            }
            if p > i + 2 && p < n {
                proof {
                    assert(env_ref_at(s@, i as int));
                }
                simple = false;
                let mut key: Vec<char> = Vec::new();
                let mut t = i + 2;
                while t < p
                    invariant
                        i + 2 <= t <= p,
                        p <= s@.len(),
                        key@ == s@.subrange(i as int + 2, t as int),
                    decreases p - t,
                {
                    key.push(s[t]);
                    t += 1;
                    proof {
                        assert(key@ =~= s@.subrange(i as int + 2, t as int));
                    }
                }
                proof {
                    assert(key@ =~= s@.subrange(i as int + 2, p as int));
                }
                let key_string = chars_to_string(&key);
                let ghost out0 = out@;
                match env_get(env, key_string.as_str()) {
                    Some(v) => {
                        let vc = str_to_chars(v.as_str());
                        let m = vc.len();
                        let mut u: usize = 0;
                        while u < m
                            invariant
                                0 <= u <= m,
                                m == vc@.len(),
                                out@ == out0 + vc@.subrange(0, u as int),
                            decreases m - u,
                        {
                            out.push(vc[u]);
                            u += 1;
                            proof {
                                assert(out@ =~= out0 + vc@.subrange(0, u as int));
                            }
                        }
                        proof {
                            assert(vc@.subrange(0, m as int) =~= vc@);
                            assert(out@ =~= out0 + v@);
                        }
                    },
                    None => {
                        let mut u = i;
                        while u < p + 1
                            invariant
                                i <= u <= p + 1,
                                p < n == s@.len(),
                                out@ == out0 + s@.subrange(i as int, u as int),
                            decreases p + 1 - u,
                        {
                            out.push(s[u]);
                            u += 1;
                            proof {
                                assert(out@ =~= out0 + s@.subrange(i as int, u as int));
                            }
                        }
                    },
                }
                proof {
                    assert(env_expand(s@, i as int, ev) == (match env_lookup(
                        ev,
                        s@.subrange(i as int + 2, p as int),
                    ) {
                        Some(v) => v + env_expand(s@, p as int + 1, ev),
                        None => s@.subrange(i as int, p as int + 1) + env_expand(
                            s@,
                            p as int + 1,
                            ev,
                        ),
                    }));
                    assert(env_expand(s@, 0, ev) =~= out@ + env_expand(s@, p as int + 1, ev));
                }
                i = p + 1;
            }
        }
        if simple {
            proof {
                if i + 4 <= n {
                    assert(!env_ref_at(s@, i as int));
                }
                assert(env_expand(s@, i as int, ev) =~= seq![s@[i as int]] + env_expand(
                    s@,
                    i as int + 1,
                    ev,
                )) by {
                    if i + 4 > n {
                        assert(s@.subrange(i as int, n as int) =~= seq![s@[i as int]]
                            + s@.subrange(i as int + 1, n as int));
                    }
                };
            }
            out.push(s[i]);
            i += 1;
            proof {
                assert(env_expand(s@, 0, ev) =~= out@ + env_expand(s@, i as int, ev));
            }
        }
    }
    proof {
        assert(env_expand(s@, n as int, ev) =~= Seq::<char>::empty());
        assert(out@ =~= env_expand(s@, 0, ev));
    }
    chars_to_string(&out)
}

/// Expands `${name}` references in every value of an environment map.
pub fn expand_env_vars(map: &Vec<(String, String)>, env: &Vec<(String, String)>) -> (r: Vec<
    (String, String),
>)
    ensures
        r@.len() == map@.len(),
        forall|k: int|
            0 <= k < map@.len() ==> (#[trigger] r@[k]).0@ == map@[k].0@ && r@[k].1@ == env_expand(
                map@[k].1@,
                0,
                env_view(env@),
            ),
{
    let n = map.len();
    let mut out: Vec<(String, String)> = Vec::new();
    let mut i: usize = 0;
    while i < n
        invariant
            0 <= i <= n,
            n == map@.len(),
            out@.len() == i,
            forall|k: int|
                0 <= k < i ==> (#[trigger] out@[k]).0@ == map@[k].0@ && out@[k].1@ == env_expand(
                    map@[k].1@,
                    0,
                    env_view(env@),
                ),
        decreases n - i,
    {
        let key = map[i].0.clone();
        let val = expand_env_var_in_string(map[i].1.as_str(), env);
        out.push((key, val));
        i += 1;
    }
    out
}

} // verus!
