//! Small verified utilities for moving between `&str`/`String` and
//! `Vec<char>`, and for searching character sequences.

use vstd::prelude::*;
use vstd::string::StrSliceExecFns;
use vstd::string::StringExecFns;

verus! {

/// The characters of `s`, in order.
pub fn str_to_chars(s: &str) -> (r: Vec<char>)
    ensures
        r@ == s@,
{
    let n = s.unicode_len();
    let mut r: Vec<char> = Vec::new();
    let mut i: usize = 0;
    while i < n
        invariant
            0 <= i <= n,
            n == s@.len(),
            r@ == s@.subrange(0, i as int),
        decreases n - i,
    {
        let c = s.get_char(i);
        r.push(c);
        i += 1;
        proof {
            assert(r@ =~= s@.subrange(0, i as int));
        }
    }
    proof {
        assert(r@ =~= s@);
    }
    r
}

/// Relies on std's `FromIterator` impl for `String`: collecting characters
/// yields the string holding exactly those characters, in order.
#[verifier::external_body]
pub fn chars_to_string(v: &Vec<char>) -> (r: String)
    ensures
        r@ == v@,
{
    v.iter().collect()
}

/// Whether `p` occurs in `t` starting at position `i`.
pub open spec fn occurs_at(t: Seq<char>, p: Seq<char>, i: int) -> bool {
    &&& 0 <= i
    &&& i + p.len() <= t.len()
    &&& t.subrange(i, i + p.len()) == p
}

/// Whether `p` occurs anywhere in `t`.
pub open spec fn contains_seq(t: Seq<char>, p: Seq<char>) -> bool {
    exists|i: int| occurs_at(t, p, i)
}

/// Whether `t` starts with `p`.
pub open spec fn starts_with_seq(t: Seq<char>, p: Seq<char>) -> bool {
    p.len() <= t.len() && t.subrange(0, p.len() as int) == p
}

/// Whether `t` ends with `p`.
pub open spec fn ends_with_seq(t: Seq<char>, p: Seq<char>) -> bool {
    p.len() <= t.len() && t.subrange(t.len() - p.len(), t.len() as int) == p
}

/// Whether `p` occurs in `t` at `i`, decided on character vectors.
pub fn chars_occur_at(t: &Vec<char>, p: &Vec<char>, i: usize) -> (r: bool)
    requires
        i + p@.len() <= t@.len(),
    ensures
        r == occurs_at(t@, p@, i as int),
{
    let n = t.len();
    let m = p.len();
    let mut j: usize = 0;
    while j < m
        invariant
            0 <= j <= m,
            m == p@.len(),
            n == t@.len(),
            i + m <= n,
            forall|k: int| 0 <= k < j ==> t@[i + k] == p@[k],
        decreases m - j,
    {
        if t[i + j] != p[j] {
            proof {
                assert(t@.subrange(i as int, i + p@.len())[j as int] != p@[j as int]);
            }
            return false;
        }
        j += 1;
    }
    proof {
        assert(t@.subrange(i as int, i + p@.len()) =~= p@);
    }
    true
}

/// Whether `p` occurs anywhere in `t`, decided on character vectors.
pub fn chars_contain(t: &Vec<char>, p: &Vec<char>) -> (r: bool)
    ensures
        r == contains_seq(t@, p@),
{
    let n = t.len();
    let m = p.len();
    if m > n {
        proof {
            assert(forall|i: int| !occurs_at(t@, p@, i));
        }
        return false;
    }
    if m == 0 {
        proof {
            assert(t@.subrange(0, 0) =~= p@);
            assert(occurs_at(t@, p@, 0));
        }
        return true;
    }
    let mut i: usize = 0;
    while i <= n - m
        invariant
            0 <= i <= n - m + 1,
            1 <= m <= n,
            n == t@.len(),
            m == p@.len(),
            forall|k: int| 0 <= k < i ==> !occurs_at(t@, p@, k),
        decreases n - i,
    {
        if chars_occur_at(t, p, i) {
            return true;
        }
        i += 1;
    }
    proof {
        assert(forall|k: int| occurs_at(t@, p@, k) ==> 0 <= k <= n - m);
    }
    false
}

/// Whether the string `t` contains the string `p`.
pub fn str_contains(t: &str, p: &str) -> (r: bool)
    ensures
        r == contains_seq(t@, p@),
{
    let tc = str_to_chars(t);
    let pc = str_to_chars(p);
    chars_contain(&tc, &pc)
}

/// Whether the string `t` starts with the string `p`.
pub fn str_starts_with(t: &str, p: &str) -> (r: bool)
    ensures
        r == starts_with_seq(t@, p@),
{
    let tc = str_to_chars(t);
    let pc = str_to_chars(p);
    if pc.len() > tc.len() {
        return false;
    }
    let r = chars_occur_at(&tc, &pc, 0);
    proof {
        assert(occurs_at(t@, p@, 0) == starts_with_seq(t@, p@));
    }
    r
}

/// Whether the string `t` ends with the string `p`.
pub fn str_ends_with(t: &str, p: &str) -> (r: bool)
    ensures
        r == ends_with_seq(t@, p@),
{
    let tc = str_to_chars(t);
    let pc = str_to_chars(p);
    if pc.len() > tc.len() {
        return false;
    }
    let i = tc.len() - pc.len();
    let r = chars_occur_at(&tc, &pc, i);
    proof {
        assert(occurs_at(t@, p@, t@.len() - p@.len()) == ends_with_seq(t@, p@));
    }
    r
}

/// `a` followed by `b`.
pub fn concat_strs(a: &str, b: &str) -> (r: String)
    ensures
        r@ == a@ + b@,
{
    let mut s = a.to_owned();
    s.append(b);
    s
}

/// The character for the decimal digit `d`.
pub open spec fn digit_char(d: nat) -> char {
    ((48 + d) as u8) as char
}

/// The decimal rendering of `n`, most significant digit first.
pub open spec fn dec_digits(n: nat) -> Seq<char>
    decreases n,
{
    if n < 10 {
        seq![digit_char(n)]
    } else {
        dec_digits(n / 10) + seq![digit_char(n % 10)]
    }
}

/// The decimal rendering of the signed value `n`.
pub open spec fn dec_digits_signed(n: int) -> Seq<char> {
    if n < 0 {
        seq!['-'] + dec_digits((-n) as nat)
    } else {
        dec_digits(n as nat)
    }
}

/// The decimal digits of `n`, as characters.
pub fn u64_to_chars(n: u64) -> (r: Vec<char>)
    ensures
        r@ == dec_digits(n as nat),
{
    let mut acc: Vec<char> = Vec::new();
    let mut m = n;
    loop
        invariant
            dec_digits(n as nat) == (if acc@.len() == 0 {
                dec_digits(m as nat)
            } else {
                dec_digits(m as nat) + acc@
            }),
        decreases m,
    {
        let d = (m % 10) as u8;
        let c = (48 + d) as char;
        proof {
            assert(c == digit_char((m % 10) as nat));
        }
        let next = m / 10;
        if next == 0 {
            proof {
                assert(m < 10) by {
                    assert(m / 10 == 0);
                };
                assert(dec_digits(m as nat) == seq![digit_char(m as nat)]);
                assert(m as nat % 10 == m as nat);
            }
            acc.insert(0, c);
            proof {
                assert(dec_digits(n as nat) =~= acc@);
            }
            return acc;
        }
        proof {
            assert(m >= 10) by {
                assert(m / 10 != 0);
            };
            assert(dec_digits(m as nat) == dec_digits((m as nat) / 10) + seq![
                digit_char((m as nat) % 10),
            ]);
            assert((m / 10) as nat == (m as nat) / 10);
        }
        acc.insert(0, c);
        proof {
            assert(dec_digits(m as nat) + acc@.subrange(1, acc@.len() as int) =~= dec_digits(
                (next as nat),
            ) + acc@);
        }
        m = next;
    }
}

/// The decimal rendering of `n` as a string.
pub fn u64_to_string(n: u64) -> (r: String)
    ensures
        r@ == dec_digits(n as nat),
{
    let v = u64_to_chars(n);
    chars_to_string(&v)
}

/// The decimal rendering of the signed value `n` as a string.
pub fn i64_to_string(n: i64) -> (r: String)
    ensures
        r@ == dec_digits_signed(n as int),
{
    if n >= 0 {
        u64_to_string(n as u64)
    } else {
        let mag: u64 = if n == i64::MIN {
            9223372036854775808u64
        } else {
            (-n) as u64
        };
        let mut v = u64_to_chars(mag);
        v.insert(0, '-');
        proof {
            assert(v@ =~= dec_digits_signed(n as int));
        }
        chars_to_string(&v)
    }
}

} // verus!
