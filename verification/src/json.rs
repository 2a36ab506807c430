//! The library's own model of JSON values.
//!
//! Tool arguments, input schemas and tool descriptors are held in this type,
//! so that the logic that reads and builds them is verified.  A number is
//! carried in its textual rendering, which keeps the model exact without
//! floating point.  Serialization to JSON text is implemented here and
//! verified against [`json_ser`].

use vstd::prelude::*;
use crate::strutil::{chars_to_string, str_to_chars};

verus! {

/// A JSON value.
#[derive(Debug, PartialEq, Eq)]
pub enum JsonValue {
    Null,
    Bool(bool),
    /// A number, in its textual rendering (as `serde_json` would print it).
    Num(String),
    Str(String),
    Arr(Vec<JsonValue>),
    Obj(Vec<(String, JsonValue)>),
}

/// The mathematical value of a [`JsonValue`], over sequences.
#[verifier::ext_equal]
pub enum JsonV {
    Null,
    Bool(bool),
    Num(Seq<char>),
    Str(Seq<char>),
    Arr(Seq<JsonV>),
    Obj(Seq<(Seq<char>, JsonV)>),
}

/// The value of `v`.
pub open spec fn json_view(v: JsonValue) -> JsonV
    decreases v,
{
    match v {
        JsonValue::Null => JsonV::Null,
        JsonValue::Bool(b) => JsonV::Bool(b),
        JsonValue::Num(s) => JsonV::Num(s@),
        JsonValue::Str(s) => JsonV::Str(s@),
        JsonValue::Arr(a) => JsonV::Arr(views_of(a@)),
        JsonValue::Obj(o) => JsonV::Obj(pair_views_of(o@)),
    }
}

/// The values of the elements of `a`.
pub open spec fn views_of(a: Seq<JsonValue>) -> Seq<JsonV>
    decreases a,
{
    if a.len() == 0 {
        Seq::empty()
    } else {
        seq![json_view(a[0])] + views_of(a.drop_first())
    }
}

/// The values of the members of `o`.
pub open spec fn pair_views_of(o: Seq<(String, JsonValue)>) -> Seq<(Seq<char>, JsonV)>
    decreases o,
{
    if o.len() == 0 {
        Seq::empty()
    } else {
        seq![(o[0].0@, json_view(o[0].1))] + pair_views_of(o.drop_first())
    }
}

impl View for JsonValue {
    type V = JsonV;

    open spec fn view(&self) -> JsonV {
        json_view(*self)
    }
}

/// `views_of` maps indexwise.
pub proof fn lemma_views_of_index(a: Seq<JsonValue>, i: int)
    requires
        0 <= i < a.len(),
    ensures
        views_of(a).len() == a.len(),
        views_of(a)[i] == json_view(a[i]),
    decreases a,
{
    lemma_views_of_len(a);
    if i > 0 {
        lemma_views_of_index(a.drop_first(), i - 1);
    }
}

/// `views_of` keeps the length.
pub proof fn lemma_views_of_len(a: Seq<JsonValue>)
    ensures
        views_of(a).len() == a.len(),
    decreases a,
{
    if a.len() > 0 {
        lemma_views_of_len(a.drop_first());
    }
}

/// `pair_views_of` maps indexwise.
pub proof fn lemma_pair_views_of_index(o: Seq<(String, JsonValue)>, i: int)
    requires
        0 <= i < o.len(),
    ensures
        pair_views_of(o).len() == o.len(),
        pair_views_of(o)[i] == (o[i].0@, json_view(o[i].1)),
    decreases o,
{
    lemma_pair_views_of_len(o);
    if i > 0 {
        lemma_pair_views_of_index(o.drop_first(), i - 1);
    }
}

/// `pair_views_of` keeps the length.
pub proof fn lemma_pair_views_of_len(o: Seq<(String, JsonValue)>)
    ensures
        pair_views_of(o).len() == o.len(),
    decreases o,
{
    if o.len() > 0 {
        lemma_pair_views_of_len(o.drop_first());
    }
}

/// The hexadecimal digit character for `d` (lower case).
pub open spec fn hex_digit(d: nat) -> char {
    if d < 10 {
        ((48 + d) as u8) as char
    } else {
        ((87 + d) as u8) as char
    }
}

/// The JSON escape of one character inside a string literal.
pub open spec fn esc_char(c: char) -> Seq<char> {
    if c == '"' {
        seq!['\\', '"']
    } else if c == '\\' {
        seq!['\\', '\\']
    } else if c == '\u{8}' {
        seq!['\\', 'b']
    } else if c == '\t' {
        seq!['\\', 't']
    } else if c == '\n' {
        seq!['\\', 'n']
    } else if c == '\u{c}' {
        seq!['\\', 'f']
    } else if c == '\r' {
        seq!['\\', 'r']
    } else if (c as u32) < 32 {
        seq!['\\', 'u', '0', '0', hex_digit(((c as u32) / 16) as nat), hex_digit(
            ((c as u32) % 16) as nat,
        )]
    } else {
        seq![c]
    }
}

/// The body of a JSON string literal: every character escaped as needed.
pub open spec fn esc_chars(s: Seq<char>) -> Seq<char>
    decreases s.len(),
{
    if s.len() == 0 {
        Seq::empty()
    } else {
        esc_char(s[0]) + esc_chars(s.drop_first())
    }
}

/// The JSON string literal for `s`, quotes included.
pub open spec fn ser_str(s: Seq<char>) -> Seq<char> {
    seq!['"'] + esc_chars(s) + seq!['"']
}

/// The JSON text of `v`, in compact form.
pub open spec fn json_ser(v: JsonV) -> Seq<char>
    decreases v,
{
    match v {
        JsonV::Null => seq!['n', 'u', 'l', 'l'],
        JsonV::Bool(b) => if b {
            seq!['t', 'r', 'u', 'e']
        } else {
            seq!['f', 'a', 'l', 's', 'e']
        },
        JsonV::Num(n) => n,
        JsonV::Str(s) => ser_str(s),
        JsonV::Arr(a) => seq!['['] + ser_arr_items(a) + seq![']'],
        JsonV::Obj(o) => seq!['{'] + ser_obj_items(o) + seq!['}'],
    }
}

/// The comma-separated JSON texts of array elements.
pub open spec fn ser_arr_items(a: Seq<JsonV>) -> Seq<char>
    decreases a,
{
    if a.len() == 0 {
        Seq::empty()
    } else if a.len() == 1 {
        json_ser(a[0])
    } else {
        json_ser(a[0]) + seq![','] + ser_arr_items(a.drop_first())
    }
}

/// The comma-separated `"key":value` texts of object members.
pub open spec fn ser_obj_items(o: Seq<(Seq<char>, JsonV)>) -> Seq<char>
    decreases o,
{
    if o.len() == 0 {
        Seq::empty()
    } else if o.len() == 1 {
        ser_str(o[0].0) + seq![':'] + json_ser(o[0].1)
    } else {
        ser_str(o[0].0) + seq![':'] + json_ser(o[0].1) + seq![','] + ser_obj_items(
            o.drop_first(),
        )
    }
}

/// The value of the first member of `v` named `key`, if `v` is an object
/// with such a member.
pub open spec fn json_lookup(v: JsonV, key: Seq<char>) -> Option<JsonV>
    decreases v,
{
    match v {
        JsonV::Obj(o) => obj_lookup(o, key),
        _ => None,
    }
}

/// The value of the first member of `o` named `key`.
pub open spec fn obj_lookup(o: Seq<(Seq<char>, JsonV)>, key: Seq<char>) -> Option<JsonV>
    decreases o,
{
    if o.len() == 0 {
        None
    } else if o[0].0 == key {
        Some(o[0].1)
    } else {
        obj_lookup(o.drop_first(), key)
    }
}

impl JsonValue {
    /// The value of the first member named `key`, if this is an object with
    /// such a member.
    pub fn get<'a>(&'a self, key: &str) -> (r: Option<&'a JsonValue>)
        ensures
            match r {
                Some(x) => json_lookup(self@, key@) == Some((*x)@),
                None => json_lookup(self@, key@) is None,
            },
    {
        match self {
            JsonValue::Obj(o) => {
                let n = o.len();
                proof {
                    assert(o@.subrange(0, n as int) =~= o@);
                    assert(self@ == JsonV::Obj(pair_views_of(o@)));
                }
                let mut i: usize = 0;
                while i < n
                    invariant
                        0 <= i <= n,
                        n == o@.len(),
                        *self == JsonValue::Obj(*o),
                        obj_lookup(pair_views_of(o@), key@) == obj_lookup(
                            pair_views_of(o@.subrange(i as int, n as int)),
                            key@,
                        ),
                    decreases n - i,
                {
                    proof {
                        assert(o@.subrange(i as int, n as int).drop_first() =~= o@.subrange(
                            i as int + 1,
                            n as int,
                        ));
                        assert(o@.subrange(i as int, n as int)[0] == o@[i as int]);
                        assert(pair_views_of(o@.subrange(i as int, n as int)) == seq![
                            (o@[i as int].0@, json_view(o@[i as int].1)),
                        ] + pair_views_of(o@.subrange(i as int + 1, n as int)));
                        assert(pair_views_of(o@.subrange(i as int, n as int)).drop_first()
                            =~= pair_views_of(o@.subrange(i as int + 1, n as int)));
                        assert(pair_views_of(o@.subrange(i as int, n as int))[0] == (
                            o@[i as int].0@,
                            json_view(o@[i as int].1),
                        ));
                    }
                    if streq(&o[i].0, key) {
                        proof {
                            lemma_pair_views_of_len(o@.subrange(i as int + 1, n as int));
                            assert(obj_lookup(pair_views_of(o@.subrange(i as int, n as int)), key@)
                                == Some(json_view(o@[i as int].1)));
                        }
                        return Some(&o[i].1);
                    }
                    i += 1;
                }
                None
            },
            _ => None,
        }
    }

    /// Whether this value is an object holding a member named `key`.
    pub fn has_key(&self, key: &str) -> (r: bool)
        ensures
            r == (json_lookup(self@, key@) is Some),
    {
        self.get(key).is_some()
    }
}

/// Sequences with pointwise equal values have equal value sequences.
pub proof fn lemma_views_of_pointwise(a: Seq<JsonValue>, b: Seq<JsonValue>)
    requires
        a.len() == b.len(),
        forall|k: int| 0 <= k < a.len() ==> json_view(a[k]) == json_view(b[k]),
    ensures
        views_of(a) == views_of(b),
    decreases a,
{
    if a.len() > 0 {
        assert(forall|k: int|
            0 <= k < a.drop_first().len() ==> a.drop_first()[k] == a[k + 1] && b.drop_first()[k]
                == b[k + 1]);
        lemma_views_of_pointwise(a.drop_first(), b.drop_first());
    }
}

/// Member sequences with equal names and pointwise equal values have
/// equal value sequences.
pub proof fn lemma_pair_views_of_pointwise(
    a: Seq<(String, JsonValue)>,
    b: Seq<(String, JsonValue)>,
)
    requires
        a.len() == b.len(),
        forall|k: int|
            0 <= k < a.len() ==> a[k].0@ == b[k].0@ && json_view(a[k].1) == json_view(b[k].1),
    ensures
        pair_views_of(a) == pair_views_of(b),
    decreases a,
{
    if a.len() > 0 {
        assert(forall|k: int|
            0 <= k < a.drop_first().len() ==> a.drop_first()[k] == a[k + 1] && b.drop_first()[k]
                == b[k + 1]);
        lemma_pair_views_of_pointwise(a.drop_first(), b.drop_first());
    }
}

impl Clone for JsonValue {
    /// A deep copy holding the same value.
    fn clone(&self) -> (r: Self)
        ensures
            r@ == self@,
        decreases *self,
    {
        match self {
            JsonValue::Null => JsonValue::Null,
            JsonValue::Bool(b) => JsonValue::Bool(*b),
            JsonValue::Num(s) => JsonValue::Num(s.clone()),
            JsonValue::Str(s) => JsonValue::Str(s.clone()),
            JsonValue::Arr(a) => {
                let n = a.len();
                let mut acc: Vec<JsonValue> = Vec::new();
                let mut i: usize = 0;
                while i < n
                    invariant
                        0 <= i <= n,
                        n == a@.len(),
                        *self == JsonValue::Arr(*a),
                        acc@.len() == i,
                        forall|k: int|
                            0 <= k < i ==> json_view(acc@[k]) == json_view(a@[k]),
                    decreases n - i,
                {
                    proof {
                        broadcast use vstd::std_specs::vec::group_vec_axioms;

                        assert(decreases_to!(*self => self->Arr_0));
                        assert(self->Arr_0 == *a);
                        assert(decreases_to!(*a => a@[i as int]));
                        assert(decreases_to!(*self => a@[i as int]));
                    }
                    acc.push(a[i].clone());
                    i += 1;
                }
                proof {
                    lemma_views_of_pointwise(acc@, a@);
                }
                JsonValue::Arr(acc)
            },
            JsonValue::Obj(o) => {
                let n = o.len();
                let mut acc: Vec<(String, JsonValue)> = Vec::new();
                let mut i: usize = 0;
                while i < n
                    invariant
                        0 <= i <= n,
                        n == o@.len(),
                        *self == JsonValue::Obj(*o),
                        acc@.len() == i,
                        forall|k: int|
                            0 <= k < i ==> acc@[k].0@ == o@[k].0@ && json_view(acc@[k].1)
                                == json_view(o@[k].1),
                    decreases n - i,
                {
                    proof {
                        broadcast use vstd::std_specs::vec::group_vec_axioms;

                        assert(decreases_to!(*self => self->Obj_0));
                        assert(self->Obj_0 == *o);
                        assert(decreases_to!(*o => o@[i as int]));
                        assert(decreases_to!(o@[i as int] => o@[i as int].1));
                        assert(decreases_to!(*self => o@[i as int].1));
                    }
                    let k = o[i].0.clone();
                    let v = o[i].1.clone();
                    acc.push((k, v));
                    i += 1;
                }
                proof {
                    lemma_pair_views_of_pointwise(acc@, o@);
                }
                JsonValue::Obj(acc)
            },
        }
    }
}

/// Whether the string `a` equals the string `b`.
pub fn streq(a: &str, b: &str) -> (r: bool)
    ensures
        r == (a@ == b@),
{
    let ac = str_to_chars(a);
    let bc = str_to_chars(b);
    if ac.len() != bc.len() {
        return false;
    }
    let n = ac.len();
    let mut i: usize = 0;
    while i < n
        invariant
            0 <= i <= n,
            n == ac@.len() == bc@.len(),
            ac@ == a@,
            bc@ == b@,
            forall|k: int| 0 <= k < i ==> ac@[k] == bc@[k],
        decreases n - i,
    {
        if ac[i] != bc[i] {
            return false;
        }
        i += 1;
    }
    proof {
        assert(a@ =~= b@);
    }
    true
}

/// Appends the escaped form of `c` to `out`.
fn push_escaped(out: &mut Vec<char>, c: char)
    ensures
        final(out)@ == old(out)@ + esc_char(c),
{
    let code = c as u32;
    if c == '"' {
        out.push('\\');
        out.push('"');
    } else if c == '\\' {
        out.push('\\');
        out.push('\\');
    } else if code == 8 {
        out.push('\\');
        out.push('b');
    } else if c == '\t' {
        out.push('\\');
        out.push('t');
    } else if c == '\n' {
        out.push('\\');
        out.push('n');
    } else if code == 12 {
        out.push('\\');
        out.push('f');
    } else if c == '\r' {
        out.push('\\');
        out.push('r');
    } else if code < 32 {
        out.push('\\');
        out.push('u');
        out.push('0');
        out.push('0');
        let hi = (code / 16) as u8;
        let lo = (code % 16) as u8;
        let hc = if hi < 10 {
            (48 + hi) as char
        } else {
            (87 + hi) as char
        };
        let lc = if lo < 10 {
            (48 + lo) as char
        } else {
            (87 + lo) as char
        };
        out.push(hc);
        out.push(lc);
        proof {
            assert(hc == hex_digit(((c as u32) / 16) as nat));
            assert(lc == hex_digit(((c as u32) % 16) as nat));
        }
    } else {
        out.push(c);
    }
    proof {
        assert(out@ =~= old(out)@ + esc_char(c));
    }
}

/// Appends the JSON string literal for `s` to `out`.
fn push_str_lit(out: &mut Vec<char>, s: &str)
    ensures
        final(out)@ == old(out)@ + ser_str(s@),
{
    let sc = str_to_chars(s);
    out.push('"');
    let n = sc.len();
    let mut i: usize = 0;
    while i < n
        invariant
            0 <= i <= n,
            n == sc@.len(),
            sc@ == s@,
            out@ == old(out)@ + seq!['"'] + esc_chars(s@.subrange(0, i as int)),
        decreases n - i,
    {
        push_escaped(out, sc[i]);
        proof {
            lemma_esc_chars_snoc(s@, i as int);
        }
        i += 1;
    }
    out.push('"');
    proof {
        assert(s@.subrange(0, n as int) =~= s@);
        assert(out@ =~= old(out)@ + ser_str(s@));
    }
}

/// Escaping distributes over concatenation.
proof fn lemma_esc_chars_concat(a: Seq<char>, b: Seq<char>)
    ensures
        esc_chars(a + b) == esc_chars(a) + esc_chars(b),
    decreases a.len(),
{
    if a.len() == 0 {
        assert(a + b =~= b);
        assert(esc_chars(a) =~= Seq::<char>::empty());
    } else {
        lemma_esc_chars_concat(a.drop_first(), b);
        assert((a + b).drop_first() =~= a.drop_first() + b);
        assert((a + b)[0] == a[0]);
        assert(esc_chars(a + b) =~= esc_chars(a) + esc_chars(b));
    }
}

/// Escaping a prefix one character longer appends that character's escape.
proof fn lemma_esc_chars_snoc(s: Seq<char>, i: int)
    requires
        0 <= i < s.len(),
    ensures
        esc_chars(s.subrange(0, i + 1)) == esc_chars(s.subrange(0, i)) + esc_char(s[i]),
{
    lemma_esc_chars_concat(s.subrange(0, i), seq![s[i]]);
    assert(s.subrange(0, i) + seq![s[i]] =~= s.subrange(0, i + 1));
    assert(seq![s[i]].drop_first() =~= Seq::<char>::empty());
    assert(esc_chars(Seq::<char>::empty()) =~= Seq::<char>::empty());
    assert(seq![s[i]][0] == s[i]);
    assert(esc_chars(seq![s[i]]) == esc_char(seq![s[i]][0]) + esc_chars(seq![s[i]].drop_first()));
    assert(esc_chars(seq![s[i]]) =~= esc_char(s[i]));
}

/// Appends the compact JSON text of `v` to `out`.
fn push_json(out: &mut Vec<char>, v: &JsonValue)
    ensures
        final(out)@ == old(out)@ + json_ser(v@),
    decreases *v,
{
    match v {
        JsonValue::Null => {
            out.push('n');
            out.push('u');
            out.push('l');
            out.push('l');
            proof {
                assert(out@ =~= old(out)@ + json_ser(v@));
            }
        },
        JsonValue::Bool(b) => {
            if *b {
                out.push('t');
                out.push('r');
                out.push('u');
                out.push('e');
            } else {
                out.push('f');
                out.push('a');
                out.push('l');
                out.push('s');
                out.push('e');
            }
            proof {
                assert(out@ =~= old(out)@ + json_ser(v@));
            }
        },
        JsonValue::Num(n) => {
            let nc = str_to_chars(n.as_str());
            let m = nc.len();
            let mut i: usize = 0;
            while i < m
                invariant
                    0 <= i <= m,
                    m == nc@.len(),
                    nc@ == n@,
                    out@ == old(out)@ + n@.subrange(0, i as int),
                decreases m - i,
            {
                out.push(nc[i]);
                proof {
                    assert(out@ =~= old(out)@ + n@.subrange(0, i + 1));
                }
                i += 1;
            }
            proof {
                assert(n@.subrange(0, m as int) =~= n@);
                assert(v@ == JsonV::Num(n@));
            }
        },
        JsonValue::Str(s) => {
            push_str_lit(out, s.as_str());
            proof {
                assert(v@ == JsonV::Str(s@));
            }
        },
        JsonValue::Arr(a) => {
            out.push('[');
            let n = a.len();
            proof {
                lemma_views_of_len(a@);
            }
            let mut i: usize = 0;
            while i < n
                invariant
                    0 <= i <= n,
                    n == a@.len(),
                    *v == JsonValue::Arr(*a),
                    views_of(a@).len() == n,
                    out@ == old(out)@ + seq!['['] + ser_arr_prefix(views_of(a@), i as int),
                decreases n - i,
            {
                if i > 0 {
                    out.push(',');
                }
                proof {
                    broadcast use vstd::std_specs::vec::group_vec_axioms;

                    assert(decreases_to!(*v => v->Arr_0));
                    assert(v->Arr_0 == *a);
                    assert(decreases_to!(*a => a@[i as int]));
                    assert(decreases_to!(*v => a@[i as int]));
                }
                push_json(out, &a[i]);
                proof {
                    lemma_views_of_index(a@, i as int);
                    lemma_ser_arr_prefix_snoc(views_of(a@), i as int);
                    assert(out@ =~= old(out)@ + seq!['['] + ser_arr_prefix(
                        views_of(a@),
                        i + 1,
                    ));
                }
                i += 1;
            }
            out.push(']');
            proof {
                lemma_ser_arr_prefix_full(views_of(a@));
                assert(v@ == JsonV::Arr(views_of(a@)));
                assert(out@ =~= old(out)@ + json_ser(v@));
            }
        },
        JsonValue::Obj(o) => {
            out.push('{');
            let n = o.len();
            proof {
                lemma_pair_views_of_len(o@);
            }
            let mut i: usize = 0;
            while i < n
                invariant
                    0 <= i <= n,
                    n == o@.len(),
                    *v == JsonValue::Obj(*o),
                    pair_views_of(o@).len() == n,
                    out@ == old(out)@ + seq!['{'] + ser_obj_prefix(pair_views_of(o@), i as int),
                decreases n - i,
            {
                if i > 0 {
                    out.push(',');
                }
                push_str_lit(out, o[i].0.as_str());
                out.push(':');
                proof {
                    broadcast use vstd::std_specs::vec::group_vec_axioms;

                    assert(decreases_to!(*v => v->Obj_0));
                    assert(v->Obj_0 == *o);
                    assert(decreases_to!(*o => o@[i as int]));
                    assert(decreases_to!(o@[i as int] => o@[i as int].1));
                    assert(decreases_to!(*v => o@[i as int].1));
                }
                push_json(out, &o[i].1);
                proof {
                    lemma_pair_views_of_index(o@, i as int);
                    lemma_ser_obj_prefix_snoc(pair_views_of(o@), i as int);
                    assert(out@ =~= old(out)@ + seq!['{'] + ser_obj_prefix(
                        pair_views_of(o@),
                        i + 1,
                    ));
                }
                i += 1;
            }
            out.push('}');
            proof {
                lemma_ser_obj_prefix_full(pair_views_of(o@));
                assert(v@ == JsonV::Obj(pair_views_of(o@)));
                assert(out@ =~= old(out)@ + json_ser(v@));
            }
        },
    }
}

/// The serialized items of the first `i` elements of `a`, commas included.
pub open spec fn ser_arr_prefix(a: Seq<JsonV>, i: int) -> Seq<char>
    decreases i,
{
    if i <= 0 {
        Seq::empty()
    } else if i == 1 {
        json_ser(a[0])
    } else {
        ser_arr_prefix(a, i - 1) + seq![','] + json_ser(a[i - 1])
    }
}

/// The serialized members of the first `i` elements of `o`, commas included.
pub open spec fn ser_obj_prefix(o: Seq<(Seq<char>, JsonV)>, i: int) -> Seq<char>
    decreases i,
{
    if i <= 0 {
        Seq::empty()
    } else if i == 1 {
        ser_str(o[0].0) + seq![':'] + json_ser(o[0].1)
    } else {
        ser_obj_prefix(o, i - 1) + seq![','] + ser_str(o[i - 1].0) + seq![':'] + json_ser(
            o[i - 1].1,
        )
    }
}

/// Extending an array-items prefix by one element.
proof fn lemma_ser_arr_prefix_snoc(a: Seq<JsonV>, i: int)
    requires
        0 <= i < a.len(),
    ensures
        ser_arr_prefix(a, i + 1) == if i == 0 {
            json_ser(a[0])
        } else {
            ser_arr_prefix(a, i) + seq![','] + json_ser(a[i])
        },
{
}

/// Extending an object-members prefix by one element.
proof fn lemma_ser_obj_prefix_snoc(o: Seq<(Seq<char>, JsonV)>, i: int)
    requires
        0 <= i < o.len(),
    ensures
        ser_obj_prefix(o, i + 1) == if i == 0 {
            ser_str(o[0].0) + seq![':'] + json_ser(o[0].1)
        } else {
            ser_obj_prefix(o, i) + seq![','] + ser_str(o[i].0) + seq![':'] + json_ser(o[i].1)
        },
{
}

/// The full array-items prefix equals `ser_arr_items`.
proof fn lemma_ser_arr_prefix_full(a: Seq<JsonV>)
    ensures
        ser_arr_prefix(a, a.len() as int) == ser_arr_items(a),
    decreases a.len(),
{
    if a.len() > 1 {
        lemma_ser_arr_prefix_full(a.drop_first());
        lemma_ser_arr_prefix_shift(a, a.len() as int);
    }
}

/// A prefix of the items of `a` past the first element splits off
/// the first element's text.
proof fn lemma_ser_arr_prefix_shift(a: Seq<JsonV>, i: int)
    requires
        2 <= i <= a.len(),
    ensures
        ser_arr_prefix(a, i) == json_ser(a[0]) + seq![','] + ser_arr_prefix(a.drop_first(), i - 1),
    decreases i,
{
    if i == 2 {
        assert(a.drop_first()[0] == a[1]);
        assert(ser_arr_prefix(a, 1) == json_ser(a[0]));
        assert(ser_arr_prefix(a, 2) == ser_arr_prefix(a, 1) + seq![','] + json_ser(a[1]));
        assert(ser_arr_prefix(a.drop_first(), 1) == json_ser(a[1]));
        assert(ser_arr_prefix(a, 2) =~= json_ser(a[0]) + seq![','] + ser_arr_prefix(
            a.drop_first(),
            1,
        ));
    } else {
        lemma_ser_arr_prefix_shift(a, i - 1);
        assert(a.drop_first()[i - 2] == a[i - 1]);
        assert(ser_arr_prefix(a, i) =~= json_ser(a[0]) + seq![','] + ser_arr_prefix(
            a.drop_first(),
            i - 1,
        ));
    }
}

/// The full object-members prefix equals `ser_obj_items`.
proof fn lemma_ser_obj_prefix_full(o: Seq<(Seq<char>, JsonV)>)
    ensures
        ser_obj_prefix(o, o.len() as int) == ser_obj_items(o),
    decreases o.len(),
{
    if o.len() > 1 {
        lemma_ser_obj_prefix_full(o.drop_first());
        lemma_ser_obj_prefix_shift(o, o.len() as int);
    }
}

/// A prefix of the members of `o` past the first element splits off
/// the first member's text.
proof fn lemma_ser_obj_prefix_shift(o: Seq<(Seq<char>, JsonV)>, i: int)
    requires
        2 <= i <= o.len(),
    ensures
        ser_obj_prefix(o, i) == ser_str(o[0].0) + seq![':'] + json_ser(o[0].1) + seq![',']
            + ser_obj_prefix(o.drop_first(), i - 1),
    decreases i,
{
    if i == 2 {
        assert(o.drop_first()[0] == o[1]);
        assert(ser_obj_prefix(o, 1) == ser_str(o[0].0) + seq![':'] + json_ser(o[0].1));
        assert(ser_obj_prefix(o, 2) == ser_obj_prefix(o, 1) + seq![','] + ser_str(o[1].0) + seq![
            ':',
        ] + json_ser(o[1].1));
        assert(ser_obj_prefix(o.drop_first(), 1) == ser_str(o[1].0) + seq![':'] + json_ser(
            o[1].1,
        ));
        assert(ser_obj_prefix(o, 2) =~= ser_str(o[0].0) + seq![':'] + json_ser(o[0].1) + seq![
            ',',
        ] + ser_obj_prefix(o.drop_first(), 1));
    } else {
        lemma_ser_obj_prefix_shift(o, i - 1);
        assert(o.drop_first()[i - 2] == o[i - 1]);
        assert(ser_obj_prefix(o, i) =~= ser_str(o[0].0) + seq![':'] + json_ser(o[0].1) + seq![
            ',',
        ] + ser_obj_prefix(o.drop_first(), i - 1));
    }
}

/// The compact JSON text of `v`.
pub fn to_json_string(v: &JsonValue) -> (r: String)
    ensures
        r@ == json_ser(v@),
{
    let mut out: Vec<char> = Vec::new();
    push_json(&mut out, v);
    chars_to_string(&out)
}

} // verus!
