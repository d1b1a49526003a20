//! Deterministic JSON serialization of response values: object members in
//! insertion order, strings escaped character-wise, integers in decimal.
//! `json_of` is the specification; the writer is proved to produce exactly
//! those characters, so equal values always serialize to identical bytes.
use vstd::prelude::*;
use vstd::string::StrSliceExecFns;

use crate::value::ConstValue;
use crate::value::Name;
use crate::value::NumberValue;
use crate::value::ValueModel;
use crate::value::vmodel;

verus! {

broadcast use vstd::std_specs::vec::group_vec_axioms;

/// The decimal digit character for `d` in `0..16` (the tail is for the two
/// hex digits of control-character escapes).
pub open spec fn digit_char(d: nat) -> char {
    if d == 0 {
        '0'
    } else if d == 1 {
        '1'
    } else if d == 2 {
        '2'
    } else if d == 3 {
        '3'
    } else if d == 4 {
        '4'
    } else if d == 5 {
        '5'
    } else if d == 6 {
        '6'
    } else if d == 7 {
        '7'
    } else if d == 8 {
        '8'
    } else if d == 9 {
        '9'
    } else if d == 10 {
        'a'
    } else if d == 11 {
        'b'
    } else if d == 12 {
        'c'
    } else if d == 13 {
        'd'
    } else if d == 14 {
        'e'
    } else {
        'f'
    }
}

/// The decimal digits of `n`, most significant first.
pub open spec fn dec_chars(n: nat) -> Seq<char>
    decreases n,
{
    if n < 10 {
        seq![digit_char(n)]
    } else {
        dec_chars(n / 10).push(digit_char(n % 10))
    }
}

/// The decimal text of a signed integer.
pub open spec fn int_chars(i: int) -> Seq<char> {
    if i < 0 {
        seq!['-'] + dec_chars((-i) as nat)
    } else {
        dec_chars(i as nat)
    }
}

/// How one character appears inside a JSON string literal: quote and
/// backslash escaped, the common control characters by letter, any other
/// control character as `\u00XX`, everything else verbatim.
pub open spec fn esc_char(c: char) -> Seq<char> {
    if c == '"' {
        seq!['\\', '"']
    } else if c == '\\' {
        seq!['\\', '\\']
    } else if c == '\n' {
        seq!['\\', 'n']
    } else if c == '\r' {
        seq!['\\', 'r']
    } else if c == '\t' {
        seq!['\\', 't']
    } else if (c as u32) < 0x20 {
        seq!['\\', 'u', '0', '0', digit_char(((c as u32) / 16) as nat), digit_char(
            ((c as u32) % 16) as nat,
        )]
    } else {
        seq![c]
    }
}

pub open spec fn escape_chars(s: Seq<char>) -> Seq<char>
    decreases s,
{
    if s.len() == 0 {
        Seq::empty()
    } else {
        esc_char(s[0]) + escape_chars(s.drop_first())
    }
}

/// A JSON string literal: quotes around the escaped characters.
pub open spec fn quoted(s: Seq<char>) -> Seq<char> {
    seq!['"'] + escape_chars(s) + seq!['"']
}

/// The JSON text of a value model: `null`, `true` / `false`, decimal
/// numbers, a float's stored decimal text verbatim, quoted strings (enum
/// values as strings), `[...]` lists and `{...}` objects in stored order.
pub open spec fn json_of(m: ValueModel) -> Seq<char>
    decreases m,
{
    match m {
        ValueModel::Null => seq!['n', 'u', 'l', 'l'],
        ValueModel::Bool(b) => if b {
            seq!['t', 'r', 'u', 'e']
        } else {
            seq!['f', 'a', 'l', 's', 'e']
        },
        ValueModel::Int(i) => int_chars(i as int),
        ValueModel::Float(t) => t,
        ValueModel::Str(s) => quoted(s),
        ValueModel::EnumVal(s) => quoted(s),
        ValueModel::List(ms) => seq!['['] + json_list(ms) + seq![']'],
        ValueModel::Object(fs) => seq!['{'] + json_fields(fs) + seq!['}'],
    }
}

pub open spec fn json_list(ms: Seq<ValueModel>) -> Seq<char>
    decreases ms, 1nat,
{
    if ms.len() == 0 {
        Seq::empty()
    } else {
        json_of(ms[0]) + json_list_rest(ms.drop_first())
    }
}

pub open spec fn json_list_rest(ms: Seq<ValueModel>) -> Seq<char>
    decreases ms, 0nat,
{
    if ms.len() == 0 {
        Seq::empty()
    } else {
        seq![','] + json_of(ms[0]) + json_list_rest(ms.drop_first())
    }
}

pub open spec fn json_fields(fs: Seq<(Seq<char>, ValueModel)>) -> Seq<char>
    decreases fs, 1nat,
{
    if fs.len() == 0 {
        Seq::empty()
    } else {
        quoted(fs[0].0) + seq![':'] + json_of(fs[0].1) + json_fields_rest(fs.drop_first())
    }
}

pub open spec fn json_fields_rest(fs: Seq<(Seq<char>, ValueModel)>) -> Seq<char>
    decreases fs, 0nat,
{
    if fs.len() == 0 {
        Seq::empty()
    } else {
        seq![','] + quoted(fs[0].0) + seq![':'] + json_of(fs[0].1) + json_fields_rest(
            fs.drop_first(),
        )
    }
}

fn digit_char_exec(d: u32) -> (c: char)
    requires
        d < 16,
    ensures
        c == digit_char(d as nat),
{
    if d == 0 {
        '0'
    } else if d == 1 {
        '1'
    } else if d == 2 {
        '2'
    } else if d == 3 {
        '3'
    } else if d == 4 {
        '4'
    } else if d == 5 {
        '5'
    } else if d == 6 {
        '6'
    } else if d == 7 {
        '7'
    } else if d == 8 {
        '8'
    } else if d == 9 {
        '9'
    } else if d == 10 {
        'a'
    } else if d == 11 {
        'b'
    } else if d == 12 {
        'c'
    } else if d == 13 {
        'd'
    } else if d == 14 {
        'e'
    } else {
        'f'
    }
}

/// Append the decimal digits of `m`.
fn write_dec(m: u64, out: &mut Vec<char>)
    ensures
        final(out)@ == old(out)@ + dec_chars(m as nat),
    decreases m,
{
    if m < 10 {
        out.push(digit_char_exec(m as u32));
        proof {
            assert(final(out)@ =~= old(out)@ + dec_chars(m as nat));
        }
    } else {
        write_dec(m / 10, out);
        out.push(digit_char_exec((m % 10) as u32));
        proof {
            assert(final(out)@ =~= old(out)@ + dec_chars(m as nat));
        }
    }
}

/// Append the decimal text of a signed integer.
fn write_int(i: i64, out: &mut Vec<char>)
    ensures
        final(out)@ == old(out)@ + int_chars(i as int),
{
    if i < 0 {
        out.push('-');
        let mag: u64 = if i == i64::MIN {
            9223372036854775808u64
        } else {
            (-i) as u64
        };
        proof {
            assert(mag == (-(i as int)) as nat);
        }
        write_dec(mag, out);
        proof {
            assert(final(out)@ =~= old(out)@ + int_chars(i as int));
        }
    } else {
        write_dec(i as u64, out);
    }
}

proof fn lemma_escape_chars_snoc(s: Seq<char>, c: char)
    ensures
        escape_chars(s.push(c)) == escape_chars(s) + esc_char(c),
    decreases s,
{
    if s.len() == 0 {
        assert(s.push(c).drop_first() =~= s);
        assert(escape_chars(s.push(c)) =~= escape_chars(s) + esc_char(c));
    } else {
        assert(s.push(c).drop_first() =~= s.drop_first().push(c));
        lemma_escape_chars_snoc(s.drop_first(), c);
        assert(escape_chars(s.push(c)) =~= escape_chars(s) + esc_char(c));
    }
}

/// Append one character, escaped for a JSON string literal.
fn write_escaped_char(c: char, out: &mut Vec<char>)
    ensures
        final(out)@ == old(out)@ + esc_char(c),
{
    let u = c as u32;
    if u == '"' as u32 {
        out.push('\\');
        out.push('"');
    } else if u == '\\' as u32 {
        out.push('\\');
        out.push('\\');
    } else if u == '\n' as u32 {
        out.push('\\');
        out.push('n');
    } else if u == '\r' as u32 {
        out.push('\\');
        out.push('r');
    } else if u == '\t' as u32 {
        out.push('\\');
        out.push('t');
    } else if u < 0x20 {
        out.push('\\');
        out.push('u');
        out.push('0');
        out.push('0');
        out.push(digit_char_exec(u / 16));
        out.push(digit_char_exec(u % 16));
    } else {
        out.push(c);
    }
    proof {
        assert(final(out)@ =~= old(out)@ + esc_char(c));
    }
}

/// Append a quoted, escaped JSON string literal.
#[verifier::loop_isolation(false)]
fn write_quoted(s: &String, out: &mut Vec<char>)
    ensures
        final(out)@ == old(out)@ + quoted(s@),
{
    out.push('"');
    let slice = s.as_str();
    let len = slice.unicode_len();
    let mut i: usize = 0;
    proof {
        assert(s@.take(0) =~= Seq::<char>::empty());
    }
    while i < len
        invariant
            i <= s@.len(),
            len == s@.len(),
            out@ == old(out)@ + seq!['"'] + escape_chars(s@.take(i as int)),
        decreases len - i,
    {
        let c = slice.get_char(i);
        write_escaped_char(c, out);
        proof {
            assert(s@.take(i as int + 1) =~= s@.take(i as int).push(s@[i as int]));
            lemma_escape_chars_snoc(s@.take(i as int), s@[i as int]);
            assert(out@ =~= old(out)@ + seq!['"'] + escape_chars(s@.take(i as int + 1)));
        }
        i = i + 1;
    }
    out.push('"');
    proof {
        assert(s@.take(s@.len() as int) =~= s@);
        assert(final(out)@ =~= old(out)@ + quoted(s@));
    }
}

/// Append the JSON text of a value: exactly `json_of` of its model.
#[verifier::loop_isolation(false)]
#[verifier::rlimit(60)]
pub fn write_json(v: &ConstValue, out: &mut Vec<char>)
    ensures
        final(out)@ == old(out)@ + json_of(vmodel(*v)),
    decreases *v,
{
    match v {
        ConstValue::Null => {
            out.push('n');
            out.push('u');
            out.push('l');
            out.push('l');
            proof {
                assert(final(out)@ =~= old(out)@ + json_of(vmodel(*v)));
            }
        },
        ConstValue::Boolean(b) => {
            if *b {
                out.push('t');
                out.push('r');
                out.push('u');
                out.push('e');
            } else {
                out.push('f');
                out.push('a');
                out.push('l');
                out.push('s');
                out.push('e');
            }
            proof {
                assert(final(out)@ =~= old(out)@ + json_of(vmodel(*v)));
            }
        },
        ConstValue::Number(n) => match n {
            NumberValue::Int(i) => {
                write_int(*i, out);
            },
            NumberValue::Float(t) => {
                let slice = t.as_str();
                let len = slice.unicode_len();
                let mut i: usize = 0;
                proof {
                    assert(out@ =~= old(out)@ + t@.take(0));
                }
                while i < len
                    invariant
                        i <= t@.len(),
                        len == t@.len(),
                        out@ == old(out)@ + t@.take(i as int),
                    decreases len - i,
                {
                    out.push(slice.get_char(i));
                    proof {
                        assert(t@.take(i as int + 1) =~= t@.take(i as int).push(t@[i as int]));
                        assert(out@ =~= old(out)@ + t@.take(i as int + 1));
                    }
                    i = i + 1;
                }
                proof {
                    assert(t@.take(t@.len() as int) =~= t@);
                }
            },
        },
        ConstValue::Str(s) => {
            write_quoted(s, out);
        },
        ConstValue::Enum(n) => {
            write_quoted(&n.value, out);
        },
        ConstValue::List(items) => {
            out.push('[');
            let mut i: usize = 0;
            while i < items.len()
                invariant
                    *v is List,
                    (*v)->List_0 == *items,
                    i <= items@.len(),
                    out@ == old(out)@ + seq!['['] + json_list_prefix(
                        crate::value::vmodel_list(items@),
                        i as int,
                    ),
                decreases items@.len() - i,
            {
                proof {
                    assert(decreases_to!(*v => (*v)->List_0));
                    assert(decreases_to!(*items => items@));
                    assert(decreases_to!(items@ => items@[i as int]));
                }
                if i > 0 {
                    out.push(',');
                }
                write_json(&items[i], out);
                proof {
                    crate::value::lemma_vmodel_list_index(items@, i as int);
                    lemma_json_list_prefix_step(crate::value::vmodel_list(items@), i as int);
                    assert(out@ =~= old(out)@ + seq!['['] + json_list_prefix(
                        crate::value::vmodel_list(items@),
                        i as int + 1,
                    ));
                }
                i = i + 1;
            }
            out.push(']');
            proof {
                crate::value::lemma_vmodel_list_len(items@);
                lemma_json_list_prefix_full(crate::value::vmodel_list(items@));
                assert(final(out)@ =~= old(out)@ + json_of(vmodel(*v)));
            }
        },
        ConstValue::Object(fields) => {
            out.push('{');
            let mut i: usize = 0;
            while i < fields.len()
                invariant
                    *v is Object,
                    (*v)->Object_0 == *fields,
                    i <= fields@.len(),
                    out@ == old(out)@ + seq!['{'] + json_fields_prefix(
                        crate::value::vmodel_fields(fields@),
                        i as int,
                    ),
                decreases fields@.len() - i,
            {
                proof {
                    assert(decreases_to!(*v => (*v)->Object_0));
                    assert(decreases_to!(*fields => fields@));
                    assert(decreases_to!(fields@ => fields@[i as int]));
                    assert(decreases_to!(fields@[i as int] => fields@[i as int].1));
                }
                if i > 0 {
                    out.push(',');
                }
                write_quoted(&fields[i].0.value, out);
                out.push(':');
                write_json(&fields[i].1, out);
                proof {
                    crate::value::lemma_vmodel_fields_index(fields@, i as int);
                    lemma_json_fields_prefix_step(crate::value::vmodel_fields(fields@), i as int);
                    assert(out@ =~= old(out)@ + seq!['{'] + json_fields_prefix(
                        crate::value::vmodel_fields(fields@),
                        i as int + 1,
                    ));
                }
                i = i + 1;
            }
            out.push('}');
            proof {
                crate::value::lemma_vmodel_fields_len(fields@);
                lemma_json_fields_prefix_full(crate::value::vmodel_fields(fields@));
                assert(final(out)@ =~= old(out)@ + json_of(vmodel(*v)));
            }
        },
    }
}

/// The JSON of the first `i` list elements, commas included.
pub open spec fn json_list_prefix(ms: Seq<ValueModel>, i: int) -> Seq<char>
    decreases i,
{
    if i <= 0 {
        Seq::empty()
    } else if i == 1 {
        json_of(ms[0])
    } else {
        json_list_prefix(ms, i - 1) + seq![','] + json_of(ms[i - 1])
    }
}

proof fn lemma_json_list_prefix_step(ms: Seq<ValueModel>, i: int)
    requires
        0 <= i,
    ensures
        json_list_prefix(ms, i + 1) == if i == 0 {
            json_of(ms[0])
        } else {
            json_list_prefix(ms, i) + seq![','] + json_of(ms[i])
        },
{
}

/// The full prefix is the comma-joined list.
proof fn lemma_json_list_prefix_full(ms: Seq<ValueModel>)
    ensures
        json_list_prefix(ms, ms.len() as int) == json_list(ms),
{
    lemma_json_list_prefix_eq(ms, ms.len() as int);
    assert(ms.take(ms.len() as int) =~= ms);
}

proof fn lemma_json_list_prefix_eq(ms: Seq<ValueModel>, i: int)
    requires
        0 <= i <= ms.len(),
    ensures
        json_list_prefix(ms, i) == json_list(ms.take(i)),
    decreases i,
{
    if i == 0 {
        assert(json_list(ms.take(0)) =~= Seq::<char>::empty());
    } else {
        lemma_json_list_prefix_eq(ms, i - 1);
        lemma_json_list_snoc(ms.take(i - 1), ms[i - 1]);
        assert(ms.take(i) =~= ms.take(i - 1).push(ms[i - 1]));
        if i == 1 {
            assert(json_list_prefix(ms, 1) =~= json_list(ms.take(1)));
        } else {
            assert(json_list_prefix(ms, i) =~= json_list(ms.take(i)));
        }
    }
}

proof fn lemma_json_list_snoc(ms: Seq<ValueModel>, x: ValueModel)
    ensures
        json_list(ms.push(x)) == if ms.len() == 0 {
            json_of(x)
        } else {
            json_list(ms) + seq![','] + json_of(x)
        },
    decreases ms,
{
    if ms.len() == 0 {
        assert(ms.push(x).drop_first() =~= ms);
        assert(json_list(ms.push(x)) =~= json_of(x));
    } else {
        assert(ms.push(x).drop_first() =~= ms.drop_first().push(x));
        lemma_json_list_rest_snoc(ms.drop_first(), x);
        assert(json_list(ms.push(x)) =~= json_list(ms) + seq![','] + json_of(x));
    }
}

proof fn lemma_json_list_rest_snoc(ms: Seq<ValueModel>, x: ValueModel)
    ensures
        json_list_rest(ms.push(x)) == json_list_rest(ms) + seq![','] + json_of(x),
    decreases ms,
{
    if ms.len() == 0 {
        assert(ms.push(x).drop_first() =~= ms);
        assert(json_list_rest(ms.push(x)) =~= json_list_rest(ms) + seq![','] + json_of(x));
    } else {
        assert(ms.push(x).drop_first() =~= ms.drop_first().push(x));
        lemma_json_list_rest_snoc(ms.drop_first(), x);
        assert(json_list_rest(ms.push(x)) =~= json_list_rest(ms) + seq![','] + json_of(x));
    }
}

/// The JSON of the first `i` object members, commas included.
pub open spec fn json_fields_prefix(fs: Seq<(Seq<char>, ValueModel)>, i: int) -> Seq<char>
    decreases i,
{
    if i <= 0 {
        Seq::empty()
    } else if i == 1 {
        quoted(fs[0].0) + seq![':'] + json_of(fs[0].1)
    } else {
        json_fields_prefix(fs, i - 1) + seq![','] + quoted(fs[i - 1].0) + seq![':'] + json_of(
            fs[i - 1].1,
        )
    }
}

proof fn lemma_json_fields_prefix_step(fs: Seq<(Seq<char>, ValueModel)>, i: int)
    requires
        0 <= i,
    ensures
        json_fields_prefix(fs, i + 1) == if i == 0 {
            quoted(fs[0].0) + seq![':'] + json_of(fs[0].1)
        } else {
            json_fields_prefix(fs, i) + seq![','] + quoted(fs[i].0) + seq![':'] + json_of(fs[i].1)
        },
{
}

proof fn lemma_json_fields_prefix_full(fs: Seq<(Seq<char>, ValueModel)>)
    ensures
        json_fields_prefix(fs, fs.len() as int) == json_fields(fs),
{
    lemma_json_fields_prefix_eq(fs, fs.len() as int);
    assert(fs.take(fs.len() as int) =~= fs);
}

proof fn lemma_json_fields_prefix_eq(fs: Seq<(Seq<char>, ValueModel)>, i: int)
    requires
        0 <= i <= fs.len(),
    ensures
        json_fields_prefix(fs, i) == json_fields(fs.take(i)),
    decreases i,
{
    if i == 0 {
        assert(json_fields(fs.take(0)) =~= Seq::<char>::empty());
    } else {
        lemma_json_fields_prefix_eq(fs, i - 1);
        lemma_json_fields_snoc(fs.take(i - 1), fs[i - 1]);
        assert(fs.take(i) =~= fs.take(i - 1).push(fs[i - 1]));
        if i == 1 {
            assert(json_fields_prefix(fs, 1) =~= json_fields(fs.take(1)));
        } else {
            assert(json_fields_prefix(fs, i) =~= json_fields(fs.take(i)));
        }
    }
}

proof fn lemma_json_fields_snoc(fs: Seq<(Seq<char>, ValueModel)>, x: (Seq<char>, ValueModel))
    ensures
        json_fields(fs.push(x)) == if fs.len() == 0 {
            quoted(x.0) + seq![':'] + json_of(x.1)
        } else {
            json_fields(fs) + seq![','] + quoted(x.0) + seq![':'] + json_of(x.1)
        },
    decreases fs,
{
    if fs.len() == 0 {
        assert(fs.push(x).drop_first() =~= fs);
        assert(json_fields(fs.push(x)) =~= quoted(x.0) + seq![':'] + json_of(x.1));
    } else {
        assert(fs.push(x).drop_first() =~= fs.drop_first().push(x));
        lemma_json_fields_rest_snoc(fs.drop_first(), x);
        assert(json_fields(fs.push(x)) =~= json_fields(fs) + seq![','] + quoted(x.0) + seq![':']
            + json_of(x.1));
    }
}

proof fn lemma_json_fields_rest_snoc(fs: Seq<(Seq<char>, ValueModel)>, x: (Seq<char>, ValueModel))
    ensures
        json_fields_rest(fs.push(x)) == json_fields_rest(fs) + seq![','] + quoted(x.0) + seq![':']
            + json_of(x.1),
    decreases fs,
{
    if fs.len() == 0 {
        assert(fs.push(x).drop_first() =~= fs);
        assert(json_fields_rest(fs.push(x)) =~= json_fields_rest(fs) + seq![','] + quoted(x.0)
            + seq![':'] + json_of(x.1));
    } else {
        assert(fs.push(x).drop_first() =~= fs.drop_first().push(x));
        lemma_json_fields_rest_snoc(fs.drop_first(), x);
        assert(json_fields_rest(fs.push(x)) =~= json_fields_rest(fs) + seq![','] + quoted(x.0)
            + seq![':'] + json_of(x.1));
    }
}

/// A decimal digit character.
pub open spec fn is_digit(c: char) -> bool {
    '0' <= c && c <= '9'
}

pub open spec fn all_digits(s: Seq<char>) -> bool {
    s.len() > 0 && (forall|i: int| 0 <= i < s.len() ==> is_digit(#[trigger] s[i]))
}

/// A JSON integer part: `0`, or digits without a leading zero.
pub open spec fn is_int_part(s: Seq<char>) -> bool {
    s == seq!['0'] || (all_digits(s) && s[0] != '0')
}

/// An optional JSON fraction: empty, or `.` then digits.
pub open spec fn is_frac_part(s: Seq<char>) -> bool {
    s.len() == 0 || (s[0] == '.' && all_digits(s.drop_first()))
}

/// An optional JSON exponent: empty, or `e` / `E`, an optional sign, digits.
pub open spec fn is_exp_part(s: Seq<char>) -> bool {
    s.len() == 0 || ((s[0] == 'e' || s[0] == 'E') && (all_digits(s.drop_first()) || (s.len() >= 2
        && (s[1] == '+' || s[1] == '-') && all_digits(s.skip(2)))))
}

/// Whether `s` is the text of a JSON number.
pub open spec fn is_json_number(s: Seq<char>) -> bool {
    exists|sign: Seq<char>, ip: Seq<char>, fp: Seq<char>, ep: Seq<char>|
        s == #[trigger] (sign + ip + fp + ep) && (sign == Seq::<char>::empty() || sign
            == seq!['-']) && is_int_part(ip) && is_frac_part(fp) && is_exp_part(ep)
}

/// Whether every float in a value carries JSON-number text. The writer emits
/// a float's stored text verbatim, so its output is a JSON document exactly
/// when this holds; values built from a parsed document satisfy it, since a
/// document's float literals are numerals.
pub open spec fn floats_wellformed(m: ValueModel) -> bool
    decreases m,
{
    match m {
        ValueModel::Float(t) => is_json_number(t),
        ValueModel::List(ms) => forall|i: int|
            0 <= i < ms.len() ==> floats_wellformed(#[trigger] ms[i]),
        ValueModel::Object(fs) => forall|i: int|
            0 <= i < fs.len() ==> floats_wellformed((#[trigger] fs[i]).1),
        _ => true,
    }
}

/// Relies on `Iterator::collect` for `String` from chars: the string holds
/// exactly the characters of the vector, in order.
#[verifier::external_body]
fn chars_to_string(cs: &Vec<char>) -> (r: String)
    ensures
        r@ == cs@,
{
    cs.iter().collect()
}

/// The JSON text of a value, as characters.
pub fn to_json_chars(v: &ConstValue) -> (r: Vec<char>)
    ensures
        r@ == json_of(vmodel(*v)),
{
    let mut out: Vec<char> = Vec::new();
    write_json(v, &mut out);
    proof {
        assert(Seq::<char>::empty() + json_of(vmodel(*v)) =~= json_of(vmodel(*v)));
    }
    out
}

/// The JSON text of a value. Values with equal models give byte-identical
/// text: serialization is a function of the value alone. The output is a
/// JSON document whenever `floats_wellformed` holds of the value's model;
/// everything but a float's stored text is escaped and formatted here.
pub fn to_json(v: &ConstValue) -> (r: String)
    ensures
        r@ == json_of(vmodel(*v)),
{
    let cs = to_json_chars(v);
    chars_to_string(&cs)
}

} // verus!
