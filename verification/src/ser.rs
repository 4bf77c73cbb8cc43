//! Canonical (compact) JSON text for a document model, and the
//! executable serializer proved to emit exactly that text. The envelope
//! for the network manifest embeds this text as a string.

use vstd::prelude::*;
use crate::json::{arr_model, fields_model, group_json_model_axioms, JsonModel, JsonValue};
use crate::text::{dec_rep, u64_to_chars};

verus! {

/// The escaped form of one string character: quotes and backslashes
/// take a backslash, everything else stands for itself.
pub open spec fn esc_char(c: char) -> Seq<char> {
    if c == '"' {
        seq!['\\', '"']
    } else if c == '\\' {
        seq!['\\', '\\']
    } else {
        seq![c]
    }
}

/// The escaped form of a string body.
pub open spec fn esc(s: Seq<char>) -> Seq<char>
    decreases s.len(),
{
    if s.len() == 0 {
        Seq::empty()
    } else {
        esc_char(s[0]) + esc(s.drop_first())
    }
}

/// Escaping distributes over concatenation.
pub proof fn lemma_esc_concat(a: Seq<char>, b: Seq<char>)
    ensures
        esc(a + b) == esc(a) + esc(b),
    decreases a.len(),
{
    if a.len() == 0 {
        assert(a + b =~= b);
        assert(esc(a) + esc(b) =~= esc(b));
    } else {
        assert((a + b).drop_first() =~= a.drop_first() + b);
        lemma_esc_concat(a.drop_first(), b);
        assert(esc_char((a + b)[0]) + (esc(a.drop_first()) + esc(b)) =~= (esc_char(a[0]) + esc(
            a.drop_first(),
        )) + esc(b));
    }
}

/// The canonical text of an integer.
pub open spec fn ser_int(n: int) -> Seq<char> {
    if n >= 0 {
        dec_rep(n as nat)
    } else {
        seq!['-'] + dec_rep((-n) as nat)
    }
}

/// The canonical text of a document model: no whitespace, object
/// fields in stored order, strings with `\"` and `\\` escapes only.
pub open spec fn ser(m: JsonModel) -> Seq<char>
    decreases m, 0int,
{
    match m {
        JsonModel::Null => seq!['n', 'u', 'l', 'l'],
        JsonModel::Bool(b) => if b {
            seq!['t', 'r', 'u', 'e']
        } else {
            seq!['f', 'a', 'l', 's', 'e']
        },
        JsonModel::Int(n) => ser_int(n),
        JsonModel::Str(s) => seq!['"'] + esc(s) + seq!['"'],
        JsonModel::Arr(xs) => seq!['['] + ser_items(xs) + seq![']'],
        JsonModel::Obj(fs) => seq!['{'] + ser_fields(fs) + seq!['}'],
    }
}

/// The comma-separated texts of array elements.
pub open spec fn ser_items(xs: Seq<JsonModel>) -> Seq<char>
    decreases xs, 1int,
{
    if xs.len() == 0 {
        Seq::empty()
    } else if xs.len() == 1 {
        ser(xs[0])
    } else {
        ser(xs[0]) + seq![','] + ser_items(xs.drop_first())
    }
}

/// The text of one object field.
pub open spec fn ser_field(f: (Seq<char>, JsonModel)) -> Seq<char>
    decreases f, 0int,
{
    seq!['"'] + esc(f.0) + seq!['"', ':'] + ser(f.1)
}

/// The comma-separated texts of object fields.
pub open spec fn ser_fields(fs: Seq<(Seq<char>, JsonModel)>) -> Seq<char>
    decreases fs, 1int,
{
    if fs.len() == 0 {
        Seq::empty()
    } else if fs.len() == 1 {
        ser_field(fs[0])
    } else {
        ser_field(fs[0]) + seq![','] + ser_fields(fs.drop_first())
    }
}

/// Appends the characters of `s` to `out`.
pub fn append_chars(out: &mut Vec<char>, s: &Vec<char>)
    ensures
        final(out)@ == old(out)@ + s@,
{
    let n = s.len();
    let mut i: usize = 0;
    while i < n
        invariant
            n == s@.len(),
            i <= n,
            out@ == old(out)@ + s@.subrange(0, i as int),
        decreases n - i,
    {
        out.push(s[i]);
        i = i + 1;
        proof {
            assert(out@ =~= old(out)@ + s@.subrange(0, i as int));
        }
    }
    proof {
        assert(out@ =~= old(out)@ + s@);
    }
}

/// Appends the escaped body of `s` (without the surrounding quotes).
fn write_escaped(s: &Vec<char>, out: &mut Vec<char>)
    ensures
        final(out)@ == old(out)@ + esc(s@),
{
    let n = s.len();
    let mut i: usize = 0;
    proof {
        assert(s@.subrange(0, 0) =~= Seq::<char>::empty());
        assert(out@ =~= old(out)@ + esc(s@.subrange(0, 0)));
    }
    while i < n
        invariant
            n == s@.len(),
            i <= n,
            out@ == old(out)@ + esc(s@.subrange(0, i as int)),
        decreases n - i,
    {
        let c = s[i];
        if c == '"' {
            out.push('\\');
            out.push('"');
        } else if c == '\\' {
            out.push('\\');
            out.push('\\');
        } else {
            out.push(c);
        }
        proof {
            lemma_esc_concat(s@.subrange(0, i as int), seq![s@[i as int]]);
            assert(s@.subrange(0, i + 1) =~= s@.subrange(0, i as int) + seq![s@[i as int]]);
            assert(seq![s@[i as int]].drop_first() =~= Seq::<char>::empty());
            assert(esc(Seq::<char>::empty()) == Seq::<char>::empty());
            assert(esc_char(s@[i as int]) + Seq::<char>::empty() =~= esc_char(s@[i as int]));
            assert(esc(seq![s@[i as int]]) =~= esc_char(s@[i as int]));
            assert(out@ =~= old(out)@ + esc(s@.subrange(0, i + 1)));
        }
        i = i + 1;
    }
    proof {
        assert(s@.subrange(0, n as int) =~= s@);
    }
}

/// Appends the canonical text of `v` to `out`.
pub fn write_value(v: &JsonValue, out: &mut Vec<char>)
    ensures
        final(out)@ == old(out)@ + ser(v.model()),
    decreases v, 0int,
{
    broadcast use group_json_model_axioms;

    match v {
        JsonValue::Null => {
            out.push('n');
            out.push('u');
            out.push('l');
            out.push('l');
            proof {
                assert(out@ =~= old(out)@ + ser(v.model()));
            }
        },
        JsonValue::Bool(b) => {
            if *b {
                out.push('t');
                out.push('r');
                out.push('u');
                out.push('e');
            } else {
                out.push('f');
                out.push('a');
                out.push('l');
                out.push('s');
                out.push('e');
            }
            proof {
                assert(out@ =~= old(out)@ + ser(v.model()));
            }
        },
        JsonValue::Int(n) => {
            let m = *n;
            if m >= 0 {
                let digits = u64_to_chars(m as u64);
                append_chars(out, &digits);
                proof {
                    assert(out@ =~= old(out)@ + ser(v.model()));
                }
            } else {
                out.push('-');
                let mag: u64 = if m == i64::MIN {
                    9223372036854775808u64
                } else {
                    (-m) as u64
                };
                let digits = u64_to_chars(mag);
                append_chars(out, &digits);
                proof {
                    assert(mag as nat == (-(m as int)) as nat);
                    assert(out@ =~= old(out)@ + ser(v.model()));
                }
            }
        },
        JsonValue::Str(s) => {
            out.push('"');
            write_escaped(s, out);
            out.push('"');
            proof {
                assert(out@ =~= old(out)@ + ser(v.model()));
            }
        },
        JsonValue::Arr(xs) => {
            out.push('[');
            write_items(xs, 0, out);
            out.push(']');
            proof {
                assert(arr_model(xs@).skip(0) =~= arr_model(xs@));
                assert(out@ =~= old(out)@ + ser(v.model()));
            }
        },
        JsonValue::Obj(fs) => {
            out.push('{');
            write_fields(fs, 0, out);
            out.push('}');
            proof {
                assert(fields_model(fs@).skip(0) =~= fields_model(fs@));
                assert(out@ =~= old(out)@ + ser(v.model()));
            }
        },
    }
}

/// Appends the texts of the elements of `xs` from position `i` on.
fn write_items(xs: &Vec<JsonValue>, i: usize, out: &mut Vec<char>)
    requires
        i <= xs@.len(),
    ensures
        final(out)@ == old(out)@ + ser_items(arr_model(xs@).skip(i as int)),
    decreases xs, xs@.len() - i,
{
    broadcast use group_json_model_axioms;

    let n = xs.len();
    if i == n {
        proof {
            assert(arr_model(xs@).skip(i as int) =~= Seq::<JsonModel>::empty());
            assert(out@ =~= old(out)@ + ser_items(Seq::<JsonModel>::empty()));
        }
        return ;
    }
    proof {
        assert(decreases_to!(*xs => xs@));
        assert(decreases_to!(xs@ => xs@[i as int]));
    }
    write_value(&xs[i], out);
    proof {
        assert(arr_model(xs@).skip(i as int)[0] == xs@[i as int].model());
    }
    if i + 1 == n {
        proof {
            assert(arr_model(xs@).skip(i as int).len() == 1);
            assert(out@ =~= old(out)@ + ser_items(arr_model(xs@).skip(i as int)));
        }
        return ;
    }
    out.push(',');
    write_items(xs, i + 1, out);
    proof {
        let tail = arr_model(xs@).skip(i as int);
        assert(tail.drop_first() =~= arr_model(xs@).skip(i + 1));
        assert(tail.len() >= 2);
        assert(ser_items(tail) == ser(tail[0]) + seq![','] + ser_items(tail.drop_first()));
        assert(out@ =~= old(out)@ + ser_items(tail));
    }
}

/// Appends the texts of the fields of `fs` from position `i` on.
fn write_fields(fs: &Vec<(Vec<char>, JsonValue)>, i: usize, out: &mut Vec<char>)
    requires
        i <= fs@.len(),
    ensures
        final(out)@ == old(out)@ + ser_fields(fields_model(fs@).skip(i as int)),
    decreases fs, fs@.len() - i,
{
    broadcast use group_json_model_axioms;

    let n = fs.len();
    if i == n {
        proof {
            assert(fields_model(fs@).skip(i as int) =~= Seq::<(Seq<char>, JsonModel)>::empty());
            assert(out@ =~= old(out)@ + ser_fields(Seq::<(Seq<char>, JsonModel)>::empty()));
        }
        return ;
    }
    out.push('"');
    write_escaped(&fs[i].0, out);
    out.push('"');
    out.push(':');
    proof {
        assert(decreases_to!(*fs => fs@));
        assert(decreases_to!(fs@ => fs@[i as int]));
        assert(decreases_to!(fs@[i as int] => fs@[i as int].1));
    }
    write_value(&fs[i].1, out);
    proof {
        assert(fields_model(fs@).skip(i as int)[0] == (fs@[i as int].0@, fs@[i as int].1.model()));
        assert(out@ =~= old(out)@ + ser_field(fields_model(fs@).skip(i as int)[0]));
    }
    if i + 1 == n {
        proof {
            assert(fields_model(fs@).skip(i as int).len() == 1);
            assert(out@ =~= old(out)@ + ser_fields(fields_model(fs@).skip(i as int)));
        }
        return ;
    }
    out.push(',');
    let ghost mid = out@;
    write_fields(fs, i + 1, out);
    proof {
        let tail = fields_model(fs@).skip(i as int);
        assert(tail.drop_first() =~= fields_model(fs@).skip(i + 1));
        assert(tail.len() >= 2);
        assert(ser_fields(tail) == ser_field(tail[0]) + seq![','] + ser_fields(tail.drop_first()));
        assert(out@ =~= old(out)@ + ser_fields(tail));
    }
}

/// The canonical text of `v`, as a character vector.
pub fn to_json_chars(v: &JsonValue) -> (r: Vec<char>)
    ensures
        r@ == ser(v.model()),
{
    let mut out: Vec<char> = Vec::new();
    write_value(v, &mut out);
    proof {
        assert(out@ =~= ser(v.model()));
    }
    out
}

/// The canonical text of `v`, as a `String`.
pub fn to_json_string(v: &JsonValue) -> (r: String)
    ensures
        r@ == ser(v.model()),
{
    let chars = to_json_chars(v);
    crate::text::string_from_chars(&chars)
}

} // verus!
