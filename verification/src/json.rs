//! The JSON value model and the verified text encoder.
//!
//! Attribute and extension maps of the document models hold dynamically
//! typed JSON values. Objects are ordered association lists: key order is
//! insertion order and is preserved on the wire, and keys are unique.
//! `json_text` is the specification of the wire form; `write_json` produces
//! exactly that text.

use vstd::prelude::*;
use vstd::string::StrSliceExecFns;

verus! {

broadcast use vstd::std_specs::vec::axiom_vec_index_decreases;

/// A JSON value: null, boolean, integer, string, array, or object.
#[derive(Debug)]
pub enum JsonValue {
    Null,
    Bool(bool),
    Int(i64),
    Str(String),
    Arr(Vec<JsonValue>),
    Obj(Vec<(String, JsonValue)>),
}

/// All keys of an association list differ, compared as character sequences.
pub open spec fn keys_distinct<V>(s: Seq<(String, V)>) -> bool {
    forall|i: int, j: int| 0 <= i < j < s.len() ==> s[i].0@ != s[j].0@
}

/// Insertion with replacement: an existing binding of the key keeps its
/// position and takes the new value; a new key goes to the end.
pub open spec fn upsert<V>(s: Seq<(String, V)>, k: String, v: V) -> Seq<(String, V)>
    decreases s.len(),
{
    if s.len() == 0 {
        seq![(k, v)]
    } else if s[0].0@ == k@ {
        seq![(k, v)] + s.drop_first()
    } else {
        seq![s[0]] + upsert(s.drop_first(), k, v)
    }
}

pub proof fn lemma_upsert_distinct<V>(s: Seq<(String, V)>, k: String, v: V)
    requires
        keys_distinct(s),
    ensures
        keys_distinct(upsert(s, k, v)),
        forall|j: int|
            0 <= j < upsert(s, k, v).len() ==> (#[trigger] upsert(s, k, v)[j].0@ == k@ || (
            j < s.len() && upsert(s, k, v)[j].0 == s[j].0)),
    decreases s.len(),
{
    if s.len() == 0 {
    } else if s[0].0@ == k@ {
        assert(upsert(s, k, v) =~= seq![(k, v)] + s.drop_first());
    } else {
        assert(keys_distinct(s.drop_first())) by {
            assert(forall|i: int, j: int|
                0 <= i < j < s.drop_first().len() ==> s.drop_first()[i].0@ == s[i + 1].0@
                    && s.drop_first()[j].0@ == s[j + 1].0@);
        }
        lemma_upsert_distinct(s.drop_first(), k, v);
        let r = upsert(s, k, v);
        let rd = upsert(s.drop_first(), k, v);
        assert(forall|j: int| 1 <= j < r.len() ==> r[j] == rd[j - 1]);
        assert forall|i: int, j: int| 0 <= i < j < r.len() implies r[i].0@ != r[j].0@ by {
            if i == 0 {
                assert(r[0].0 == s[0].0);
                if rd[j - 1].0@ == k@ {
                } else {
                    assert(j - 1 < s.drop_first().len() && rd[j - 1].0 == s.drop_first()[j - 1].0);
                    assert(s[0].0@ != s[j].0@);
                }
            }
        }
    }
}

/// Inserts `k -> v` into the association list, replacing the value in
/// place when the key is already bound and appending otherwise.
pub fn map_upsert<V>(m: &mut Vec<(String, V)>, k: String, v: V)
    ensures
        final(m)@ == upsert(old(m)@, k, v),
{
    let n: usize = m.len();
    let mut i: usize = 0;
    while i < n
        invariant
            0 <= i <= n,
            n == m.len(),
            m@ == old(m)@,
            forall|j: int| 0 <= j < i ==> m@[j].0@ != k@,
        decreases n - i,
    {
        let hit: bool = {
            let ks: &String = &m[i].0;
            *ks == k
        };
        if hit {
            m[i] = (k, v);
            proof {
                lemma_upsert_at(old(m)@, k, v, i as int);
            }
            return ;
        }
        i = i + 1;
    }
    m.push((k, v));
    proof {
        lemma_upsert_missing(old(m)@, k, v);
    }
}

proof fn lemma_upsert_at<V>(s: Seq<(String, V)>, k: String, v: V, i: int)
    requires
        0 <= i < s.len(),
        s[i].0@ == k@,
        forall|j: int| 0 <= j < i ==> s[j].0@ != k@,
    ensures
        upsert(s, k, v) =~= s.update(i, (k, v)),
    decreases s.len(),
{
    if i == 0 {
        assert(upsert(s, k, v) =~= seq![(k, v)] + s.drop_first());
    } else {
        lemma_upsert_at(s.drop_first(), k, v, i - 1);
        assert(upsert(s, k, v) =~= seq![s[0]] + upsert(s.drop_first(), k, v));
        assert(upsert(s.drop_first(), k, v) =~= s.drop_first().update(i - 1, (k, v)));
    }
}

pub proof fn lemma_upsert_empty<V>(k: String, v: V)
    ensures
        upsert(Seq::<(String, V)>::empty(), k, v) == seq![(k, v)],
{
    assert(upsert(Seq::<(String, V)>::empty(), k, v) =~= seq![(k, v)]);
}

pub proof fn lemma_upsert_missing<V>(s: Seq<(String, V)>, k: String, v: V)
    requires
        forall|j: int| 0 <= j < s.len() ==> s[j].0@ != k@,
    ensures
        upsert(s, k, v) =~= s.push((k, v)),
    decreases s.len(),
{
    if s.len() == 0 {
    } else {
        lemma_upsert_missing(s.drop_first(), k, v);
    }
}

/// The decimal digits of `n`, most significant first.
pub open spec fn dec_digits(n: nat) -> Seq<char>
    decreases n,
{
    if n < 10 {
        seq![digit_char(n as int)]
    } else {
        dec_digits(n / 10) + seq![digit_char((n % 10) as int)]
    }
}

/// The character for a decimal digit value.
pub open spec fn digit_char(d: int) -> char {
    ((48 + d) as u8) as char
}

/// The character for a hexadecimal digit value, lower case.
pub open spec fn hex_char(d: int) -> char {
    if d < 10 {
        digit_char(d)
    } else {
        ((87 + d) as u8) as char
    }
}

/// The text of an integer: a minus sign for negative values, then the
/// decimal digits of the magnitude.
pub open spec fn int_text(i: int) -> Seq<char> {
    if i < 0 {
        seq!['-'] + dec_digits((-i) as nat)
    } else {
        dec_digits(i as nat)
    }
}

/// How one character appears inside a JSON string: quote, backslash and
/// control characters are escaped, everything else stands as itself.
pub open spec fn esc_char(c: char) -> Seq<char> {
    if c == '"' {
        seq!['\\', '"']
    } else if c == '\\' {
        seq!['\\', '\\']
    } else if c == '\n' {
        seq!['\\', 'n']
    } else if c == '\r' {
        seq!['\\', 'r']
    } else if c == '\t' {
        seq!['\\', 't']
    } else if (c as int) < 32 {
        seq!['\\', 'u', '0', '0', hex_char(c as int / 16), hex_char(c as int % 16)]
    } else {
        seq![c]
    }
}

/// The body of a JSON string: each character in escaped form.
pub open spec fn esc(s: Seq<char>) -> Seq<char>
    decreases s.len(),
{
    if s.len() == 0 {
        Seq::empty()
    } else {
        esc_char(s[0]) + esc(s.drop_first())
    }
}

pub proof fn lemma_esc_snoc(s: Seq<char>, c: char)
    ensures
        esc(s.push(c)) == esc(s) + esc_char(c),
    decreases s.len(),
{
    if s.len() == 0 {
        assert(s.push(c).drop_first() =~= Seq::<char>::empty());
        assert(esc(s.push(c).drop_first()) =~= Seq::<char>::empty());
        assert(esc(s.push(c)) =~= esc_char(c));
        assert(esc(s) + esc_char(c) =~= esc_char(c));
    } else {
        assert(s.push(c).drop_first() =~= s.drop_first().push(c));
        lemma_esc_snoc(s.drop_first(), c);
        assert(esc(s.push(c)) =~= esc(s) + esc_char(c));
    }
}

/// Escaping leaves a string without quotes, backslashes or control
/// characters exactly as it is.
pub proof fn lemma_esc_identity(s: Seq<char>)
    requires
        forall|i: int| 0 <= i < s.len() ==> ((#[trigger] s[i]) != '"' && s[i] != '\\'
            && (s[i] as int) >= 32),
    ensures
        esc(s) == s,
    decreases s.len(),
{
    if s.len() == 0 {
        assert(esc(s) =~= s);
    } else {
        lemma_esc_identity(s.drop_first());
        assert(esc(s) =~= s);
    }
}

/// Whether a key holds exactly the given characters.
pub fn key_is(k: &String, lit: &str) -> (r: bool)
    ensures
        r == (k@ == lit@),
{
    *k == lit.to_owned()
}

/// A string in its JSON form: quoted and escaped.
pub open spec fn str_text(s: Seq<char>) -> Seq<char> {
    seq!['"'] + esc(s) + seq!['"']
}

/// The wire text of a JSON value. Objects and arrays are compact: no
/// whitespace, elements separated by single commas.
pub open spec fn json_text(v: JsonValue) -> Seq<char>
    decreases v, 0int,
{
    match v {
        JsonValue::Null => "null"@,
        JsonValue::Bool(b) => if b {
            "true"@
        } else {
            "false"@
        },
        JsonValue::Int(i) => int_text(i as int),
        JsonValue::Str(s) => str_text(s@),
        JsonValue::Arr(xs) => seq!['['] + items_prefix(xs, xs.len() as int) + seq![']'],
        JsonValue::Obj(ps) => obj_text(ps),
    }
}

/// The text of the first `i` elements of an array body, comma-separated.
pub open spec fn items_prefix(xs: Vec<JsonValue>, i: int) -> Seq<char>
    decreases xs, i,
{
    if i <= 0 || i > xs.len() {
        Seq::empty()
    } else {
        let entry = json_text(xs[i - 1]);
        if i == 1 {
            entry
        } else {
            items_prefix(xs, i - 1) + seq![','] + entry
        }
    }
}

/// The text of the first `i` members of an object body, comma-separated,
/// each a quoted key, a colon and the value.
pub open spec fn pairs_prefix(ps: Vec<(String, JsonValue)>, i: int) -> Seq<char>
    decreases ps, i,
{
    if i <= 0 || i > ps.len() {
        Seq::empty()
    } else {
        let entry = str_text(ps[i - 1].0@) + seq![':'] + json_text(ps[i - 1].1);
        if i == 1 {
            entry
        } else {
            pairs_prefix(ps, i - 1) + seq![','] + entry
        }
    }
}

/// The text of a whole JSON object given its members.
pub open spec fn obj_text(ps: Vec<(String, JsonValue)>) -> Seq<char>
    decreases ps, ps.len() as int + 1,
{
    seq!['{'] + pairs_prefix(ps, ps.len() as int) + seq!['}']
}

/// Relies on `String::push`: appends one character at the end of the string.
#[verifier::external_body]
pub(crate) fn push_char(out: &mut String, c: char)
    ensures
        final(out)@ == old(out)@ + seq![c],
{
    out.push(c)
}

/// Relies on `String::push_str`: appends the characters of `s` at the end.
#[verifier::external_body]
pub(crate) fn push_str(out: &mut String, s: &str)
    ensures
        final(out)@ == old(out)@ + s@,
{
    out.push_str(s)
}

/// Appends the escaped body of `s` (no quotes) to `out`.
pub fn write_escaped(s: &str, out: &mut String)
    ensures
        final(out)@ == old(out)@ + esc(s@),
{
    let n: usize = s.unicode_len();
    let mut i: usize = 0;
    while i < n
        invariant
            0 <= i <= n,
            n == s@.len(),
            out@ == old(out)@ + esc(s@.subrange(0, i as int)),
        decreases n - i,
    {
        let c: char = s.get_char(i);
        if c == '"' {
            push_char(out, '\\');
            push_char(out, '"');
        } else if c == '\\' {
            push_char(out, '\\');
            push_char(out, '\\');
        } else if c == '\n' {
            push_char(out, '\\');
            push_char(out, 'n');
        } else if c == '\r' {
            push_char(out, '\\');
            push_char(out, 'r');
        } else if c == '\t' {
            push_char(out, '\\');
            push_char(out, 't');
        } else if (c as u32) < 32 {
            push_char(out, '\\');
            push_char(out, 'u');
            push_char(out, '0');
            push_char(out, '0');
            let code: u32 = c as u32;
            let hi: u32 = code / 16;
            let lo: u32 = code % 16;
            push_char(out, hex_digit(hi as u8));
            push_char(out, hex_digit(lo as u8));
        } else {
            push_char(out, c);
        }
        proof {
            lemma_esc_snoc(s@.subrange(0, i as int), s@[i as int]);
            assert(s@.subrange(0, i as int + 1) =~= s@.subrange(0, i as int).push(s@[i as int]));
            assert(out@ =~= old(out)@ + esc(s@.subrange(0, i as int + 1)));
        }
        i = i + 1;
    }
    proof {
        assert(s@.subrange(0, n as int) =~= s@);
    }
}

/// The character for a hexadecimal digit value, lower case.
fn hex_digit(d: u8) -> (c: char)
    requires
        d < 16,
    ensures
        c == hex_char(d as int),
{
    if d < 10 {
        (48 + d) as char
    } else {
        (87 + d) as char
    }
}

/// The characters pushed for digit positions `j .. ds.len()` of a digit
/// stack, highest position first.
spec fn emitted(ds: Seq<u8>, j: int) -> Seq<char>
    decreases ds.len() - j,
{
    if j < 0 || j >= ds.len() {
        Seq::empty()
    } else {
        emitted(ds, j + 1) + seq![digit_char(ds[j] as int)]
    }
}

proof fn lemma_emitted_push(ds: Seq<u8>, d: u8, j: int)
    requires
        0 <= j <= ds.len(),
    ensures
        emitted(ds.push(d), j) == seq![digit_char(d as int)] + emitted(ds, j),
    decreases ds.len() - j,
{
    if j == ds.len() {
        assert(emitted(ds.push(d), j + 1) =~= Seq::<char>::empty());
        assert(emitted(ds.push(d), j) =~= seq![digit_char(d as int)]);
        assert(seq![digit_char(d as int)] + emitted(ds, j) =~= seq![digit_char(d as int)]);
    } else {
        lemma_emitted_push(ds, d, j + 1);
        assert(ds.push(d)[j] == ds[j]);
        assert(emitted(ds.push(d), j) =~= seq![digit_char(d as int)] + emitted(ds, j));
    }
}

/// Appends the decimal digits of `n` to `out`.
pub fn write_u64(n: u64, out: &mut String)
    ensures
        final(out)@ == old(out)@ + dec_digits(n as nat),
{
    if n == 0 {
        push_char(out, '0');
        assert(dec_digits(0) =~= seq![digit_char(0)]);
        return ;
    }
    let mut digits: Vec<u8> = Vec::new();
    let mut m: u64 = n;
    while m > 0
        invariant
            m > 0 ==> dec_digits(n as nat) == dec_digits(m as nat) + emitted(digits@, 0),
            m == 0 ==> dec_digits(n as nat) == emitted(digits@, 0),
            forall|j: int| 0 <= j < digits@.len() ==> digits@[j] < 10,
        decreases m,
    {
        let d: u8 = (m % 10) as u8;
        proof {
            lemma_emitted_push(digits@, d, 0);
            if m >= 10 {
                assert(dec_digits(m as nat) == dec_digits((m as nat) / 10) + seq![
                    digit_char(((m as nat) % 10) as int),
                ]);
                assert(dec_digits(m as nat) + emitted(digits@, 0) =~= dec_digits((m as nat) / 10)
                    + emitted(digits@.push(d), 0));
            } else {
                assert(dec_digits(m as nat) =~= seq![digit_char(m as int)]);
                assert(dec_digits(m as nat) + emitted(digits@, 0) =~= emitted(
                    digits@.push(d),
                    0,
                ));
            }
        }
        digits.push(d);
        m = m / 10;
    }
    let len: usize = digits.len();
    let mut k: usize = len;
    while k > 0
        invariant
            0 <= k <= len,
            len == digits@.len(),
            dec_digits(n as nat) == emitted(digits@, 0),
            forall|j: int| 0 <= j < digits@.len() ==> digits@[j] < 10,
            out@ == old(out)@ + emitted(digits@, k as int),
        decreases k,
    {
        let d: u8 = digits[k - 1];
        push_char(out, (48 + d) as char);
        proof {
            assert(emitted(digits@, k as int - 1) =~= emitted(digits@, k as int) + seq![
                digit_char(d as int),
            ]);
            assert(out@ =~= old(out)@ + emitted(digits@, k as int - 1));
        }
        k = k - 1;
    }
}

/// Appends the decimal text of `i`, with a leading minus sign when negative.
pub fn write_i64(i: i64, out: &mut String)
    ensures
        final(out)@ == old(out)@ + int_text(i as int),
{
    if i < 0 {
        push_char(out, '-');
        let mag: u64 = ((-(i + 1)) as u64) + 1;
        assert(mag as int == -(i as int));
        write_u64(mag, out);
        assert(out@ =~= old(out)@ + int_text(i as int));
    } else {
        write_u64(i as u64, out);
    }
}

/// Appends the wire text of `v` to `out`.
pub fn write_json(v: &JsonValue, out: &mut String)
    ensures
        final(out)@ == old(out)@ + json_text(*v),
    decreases *v, 0int,
{
    match v {
        JsonValue::Null => {
            push_str(out, "null");
        },
        JsonValue::Bool(b) => {
            if *b {
                push_str(out, "true");
            } else {
                push_str(out, "false");
            }
        },
        JsonValue::Int(i) => {
            write_i64(*i, out);
        },
        JsonValue::Str(s) => {
            push_char(out, '"');
            write_escaped(s.as_str(), out);
            push_char(out, '"');
            assert(out@ =~= old(out)@ + json_text(*v));
        },
        JsonValue::Arr(xs) => {
            push_char(out, '[');
            let ghost entry: Seq<char> = out@;
            let n: usize = xs.len();
            let mut i: usize = 0;
            while i < n
                invariant
                    0 <= i <= n,
                    n == xs@.len(),
                    *v == JsonValue::Arr(*xs),
                    out@ == entry + items_prefix(*xs, i as int),
                decreases n - i,
            {
                if i > 0 {
                    push_char(out, ',');
                }
                proof {
                    assert(*v == JsonValue::Arr(*xs));
                    assert(decreases_to!(*v => v->Arr_0));
                    assert(decreases_to!(v->Arr_0 => v->Arr_0@));
                    assert(decreases_to!(v->Arr_0@ => v->Arr_0@[i as int]));
                    assert(decreases_to!(*v => xs@[i as int]));
                }
                write_json(&xs[i], out);
                proof {
                    if i == 0 {
                        assert(out@ =~= entry + items_prefix(*xs, 1));
                    } else {
                        assert(out@ =~= entry + items_prefix(*xs, i as int + 1));
                    }
                }
                i = i + 1;
            }
            push_char(out, ']');
            assert(out@ =~= old(out)@ + json_text(*v));
        },
        JsonValue::Obj(ps) => {
            push_char(out, '{');
            let ghost entry: Seq<char> = out@;
            let n: usize = ps.len();
            let mut i: usize = 0;
            while i < n
                invariant
                    0 <= i <= n,
                    n == ps@.len(),
                    *v == JsonValue::Obj(*ps),
                    out@ == entry + pairs_prefix(*ps, i as int),
                decreases n - i,
            {
                if i > 0 {
                    push_char(out, ',');
                }
                push_char(out, '"');
                let key: &String = &ps[i].0;
                write_escaped(key.as_str(), out);
                push_char(out, '"');
                push_char(out, ':');
                proof {
                    assert(*v == JsonValue::Obj(*ps));
                    assert(decreases_to!(*v => v->Obj_0));
                    assert(decreases_to!(v->Obj_0 => v->Obj_0@));
                    assert(decreases_to!(v->Obj_0@ => v->Obj_0@[i as int]));
                    assert(decreases_to!(v->Obj_0@[i as int] => v->Obj_0@[i as int].1));
                    assert(decreases_to!(*v => ps@[i as int].1));
                }
                write_json(&ps[i].1, out);
                proof {
                    if i == 0 {
                        assert(out@ =~= entry + pairs_prefix(*ps, 1));
                    } else {
                        assert(out@ =~= entry + pairs_prefix(*ps, i as int + 1));
                    }
                }
                i = i + 1;
            }
            push_char(out, '}');
            assert(out@ =~= old(out)@ + json_text(*v));
        },
    }
}

/// Appends the text of a whole JSON object given its members.
pub fn write_obj(ps: &Vec<(String, JsonValue)>, out: &mut String)
    ensures
        final(out)@ == old(out)@ + obj_text(*ps),
{
    push_char(out, '{');
    let ghost entry: Seq<char> = out@;
    let n: usize = ps.len();
    let mut i: usize = 0;
    while i < n
        invariant
            0 <= i <= n,
            n == ps@.len(),
            out@ == entry + pairs_prefix(*ps, i as int),
        decreases n - i,
    {
        if i > 0 {
            push_char(out, ',');
        }
        push_char(out, '"');
        let key: &String = &ps[i].0;
        write_escaped(key.as_str(), out);
        push_char(out, '"');
        push_char(out, ':');
        write_json(&ps[i].1, out);
        proof {
            if i == 0 {
                assert(out@ =~= entry + pairs_prefix(*ps, 1));
            } else {
                assert(out@ =~= entry + pairs_prefix(*ps, i as int + 1));
            }
        }
        i = i + 1;
    }
    push_char(out, '}');
    assert(out@ =~= old(out)@ + obj_text(*ps));
}

} // verus!
