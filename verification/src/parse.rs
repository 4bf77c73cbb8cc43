//! A parser for the canonical JSON text that the serializer emits,
//! and the round-trip theorem: parsing the canonical text of a
//! well-formed document yields exactly that document. The envelope
//! embeds manifest content as such text, so this is what makes the
//! embedded string trustworthy.

use vstd::prelude::*;
use crate::json::{arr_model, fields_model, group_json_model_axioms, JsonModel, JsonValue};
use crate::ser::{esc, esc_char, lemma_esc_concat, ser, ser_field, ser_fields, ser_int, ser_items};
use crate::text::{dec_rep, digit_char};

verus! {

pub open spec fn is_digit(c: char) -> bool {
    48 <= c as int <= 57
}

pub open spec fn digit_val(c: char) -> int {
    c as int - 48
}

/// Strings a document may hold if its text is to parse back: no raw
/// control characters (the serializer escapes only quotes and
/// backslashes).
pub open spec fn str_ok(s: Seq<char>) -> bool {
    forall|i: int| 0 <= i < s.len() ==> (#[trigger] s[i]) as int >= 32
}

/// A document whose canonical text parses back to it: strings without
/// control characters, integers within the machine range.
pub open spec fn wf_model(m: JsonModel) -> bool
    decreases m,
{
    match m {
        JsonModel::Null => true,
        JsonModel::Bool(_) => true,
        JsonModel::Int(n) => -0x8000000000000000 <= n <= 0x7fffffffffffffff,
        JsonModel::Str(s) => str_ok(s),
        JsonModel::Arr(xs) => forall|i: int| 0 <= i < xs.len() ==> wf_model(#[trigger] xs[i]),
        JsonModel::Obj(fs) => forall|i: int|
            0 <= i < fs.len() ==> str_ok(#[trigger] fs[i].0) && wf_model(fs[i].1),
    }
}

/// The first position at or after `i` that does not hold a digit.
pub open spec fn digits_end(s: Seq<char>, i: int) -> int
    decreases s.len() - i,
{
    if 0 <= i < s.len() && is_digit(s[i]) {
        digits_end(s, i + 1)
    } else {
        i
    }
}

/// The value of the digit run `s[i..e)`.
pub open spec fn digits_val(s: Seq<char>, i: int, e: int) -> nat
    decreases e - i,
{
    if i >= e {
        0
    } else {
        (digits_val(s, i, e - 1) * 10 + digit_val(s[e - 1])) as nat
    }
}

/// Parses an integer at `i`: an optional minus sign and a digit run,
/// within the machine range.
pub open spec fn sp_int(s: Seq<char>, i: int) -> Option<(JsonModel, int)> {
    let neg = 0 <= i < s.len() && s[i] == '-';
    let d0 = if neg {
        i + 1
    } else {
        i
    };
    let e = digits_end(s, d0);
    if e == d0 {
        None
    } else {
        let v = digits_val(s, d0, e) as int;
        if neg {
            if v <= 0x8000000000000000 {
                Some((JsonModel::Int(-v), e))
            } else {
                None
            }
        } else {
            if v <= 0x7fffffffffffffff {
                Some((JsonModel::Int(v), e))
            } else {
                None
            }
        }
    }
}

/// Parses a string body after the opening quote: plain characters and
/// the `\"` and `\\` escapes, up to the closing quote.
pub open spec fn sp_string_body(s: Seq<char>, i: int) -> Option<(Seq<char>, int)>
    decreases s.len() - i,
{
    if !(0 <= i < s.len()) {
        None
    } else if s[i] == '"' {
        Some((Seq::empty(), i + 1))
    } else if s[i] == '\\' {
        if i + 1 < s.len() && (s[i + 1] == '"' || s[i + 1] == '\\') {
            match sp_string_body(s, i + 2) {
                Some((body, j)) => Some((seq![s[i + 1]] + body, j)),
                None => None,
            }
        } else {
            None
        }
    } else if s[i] as int >= 32 {
        match sp_string_body(s, i + 1) {
            Some((body, j)) => Some((seq![s[i]] + body, j)),
            None => None,
        }
    } else {
        None
    }
}

/// Parses one value at `i`.
pub open spec fn sp_value(s: Seq<char>, i: int) -> Option<(JsonModel, int)>
    decreases s.len() - i, 0int,
{
    if !(0 <= i < s.len()) {
        None
    } else if s[i] == 'n' {
        if i + 4 <= s.len() && s[i + 1] == 'u' && s[i + 2] == 'l' && s[i + 3] == 'l' {
            Some((JsonModel::Null, i + 4))
        } else {
            None
        }
    } else if s[i] == 't' {
        if i + 4 <= s.len() && s[i + 1] == 'r' && s[i + 2] == 'u' && s[i + 3] == 'e' {
            Some((JsonModel::Bool(true), i + 4))
        } else {
            None
        }
    } else if s[i] == 'f' {
        if i + 5 <= s.len() && s[i + 1] == 'a' && s[i + 2] == 'l' && s[i + 3] == 's' && s[i + 4]
            == 'e' {
            Some((JsonModel::Bool(false), i + 5))
        } else {
            None
        }
    } else if s[i] == '"' {
        match sp_string_body(s, i + 1) {
            Some((body, j)) => Some((JsonModel::Str(body), j)),
            None => None,
        }
    } else if s[i] == '[' {
        if i + 1 < s.len() && s[i + 1] == ']' {
            Some((JsonModel::Arr(Seq::empty()), i + 2))
        } else {
            match sp_items(s, i + 1) {
                Some((xs, j)) => Some((JsonModel::Arr(xs), j)),
                None => None,
            }
        }
    } else if s[i] == '{' {
        if i + 1 < s.len() && s[i + 1] == '}' {
            Some((JsonModel::Obj(Seq::empty()), i + 2))
        } else {
            match sp_fields(s, i + 1) {
                Some((fs, j)) => Some((JsonModel::Obj(fs), j)),
                None => None,
            }
        }
    } else if s[i] == '-' || is_digit(s[i]) {
        sp_int(s, i)
    } else {
        None
    }
}

/// Parses `value (',' value)* ']'` starting at `i`.
pub open spec fn sp_items(s: Seq<char>, i: int) -> Option<(Seq<JsonModel>, int)>
    decreases s.len() - i, 1int,
{
    if !(0 <= i < s.len()) {
        None
    } else {
        match sp_value(s, i) {
            Some((v, j)) => {
                if i < j < s.len() {
                    if s[j] == ']' {
                        Some((seq![v], j + 1))
                    } else if s[j] == ',' {
                        match sp_items(s, j + 1) {
                            Some((xs, k)) => Some((seq![v] + xs, k)),
                            None => None,
                        }
                    } else {
                        None
                    }
                } else {
                    None
                }
            },
            None => None,
        }
    }
}

/// Parses `'"' key '"' ':' value (',' ...)* '}'` starting at `i`.
pub open spec fn sp_fields(s: Seq<char>, i: int) -> Option<(Seq<(Seq<char>, JsonModel)>, int)>
    decreases s.len() - i, 1int,
{
    if !(0 <= i < s.len() && s[i] == '"') {
        None
    } else {
        match sp_string_body(s, i + 1) {
            Some((key, j)) => {
                if i + 1 < j < s.len() && s[j] == ':' {
                    match sp_value(s, j + 1) {
                        Some((v, k)) => {
                            if j + 1 <= k < s.len() {
                                if s[k] == '}' {
                                    Some((seq![(key, v)], k + 1))
                                } else if s[k] == ',' {
                                    match sp_fields(s, k + 1) {
                                        Some((fs, l)) => Some((seq![(key, v)] + fs, l)),
                                        None => None,
                                    }
                                } else {
                                    None
                                }
                            } else {
                                None
                            }
                        },
                        None => None,
                    }
                } else {
                    None
                }
            },
            None => None,
        }
    }
}

/// Parses a whole text: one value spanning all of it.
pub open spec fn parse_spec(s: Seq<char>) -> Option<JsonModel> {
    match sp_value(s, 0) {
        Some((m, j)) => if j == s.len() {
            Some(m)
        } else {
            None
        },
        None => None,
    }
}

/// A character of an embedded text, extracted from the subrange fact.
pub proof fn lemma_text_char(s: Seq<char>, i: int, w: int, t: Seq<char>, k: int)
    requires
        0 <= i,
        i + w <= s.len(),
        s.subrange(i, i + w) == t,
        t.len() == w,
        0 <= k < w,
    ensures
        s[i + k] == t[k],
{
    assert(s.subrange(i, i + w)[k] == s[i + k]);
}

/// A slice of an embedded text is the matching slice of the text.
pub proof fn lemma_subrange_sub(s: Seq<char>, i: int, w: int, t: Seq<char>, a: int, b: int)
    requires
        0 <= i,
        i + w <= s.len(),
        s.subrange(i, i + w) == t,
        t.len() == w,
        0 <= a <= b <= w,
    ensures
        s.subrange(i + a, i + b) == t.subrange(a, b),
{
    assert forall|k: int| 0 <= k < b - a implies s.subrange(i + a, i + b)[k] == t.subrange(
        a,
        b,
    )[k] by {
        assert(s.subrange(i + a, i + b)[k] == s[i + a + k]);
        assert(s.subrange(i, i + w)[a + k] == s[i + (a + k)]);
        assert(t.subrange(a, b)[k] == t[a + k]);
    };
    assert(s.subrange(i + a, i + b) =~= t.subrange(a, b));
}

pub proof fn lemma_dec_rep_digits(n: nat)
    ensures
        dec_rep(n).len() >= 1,
        forall|k: int| 0 <= k < dec_rep(n).len() ==> is_digit(#[trigger] dec_rep(n)[k]),
    decreases n,
{
    if n >= 10 {
        lemma_dec_rep_digits(n / 10);
        assert(forall|k: int|
            0 <= k < dec_rep((n / 10) as nat).len() ==> dec_rep(n)[k] == #[trigger] dec_rep(
                (n / 10) as nat,
            )[k]);
    }
}

pub proof fn lemma_digits_end_of(s: Seq<char>, i: int, e: int)
    requires
        0 <= i <= e <= s.len(),
        forall|k: int| i <= k < e ==> is_digit(#[trigger] s[k]),
        e == s.len() || !is_digit(s[e]),
    ensures
        digits_end(s, i) == e,
    decreases e - i,
{
    if i < e {
        lemma_digits_end_of(s, i + 1, e);
    }
}

pub proof fn lemma_digits_val_of(n: nat, s: Seq<char>, i: int)
    requires
        0 <= i,
        i + dec_rep(n).len() <= s.len(),
        s.subrange(i, i + dec_rep(n).len()) == dec_rep(n),
    ensures
        digits_val(s, i, i + dec_rep(n).len()) == n,
    decreases n,
{
    let w = dec_rep(n).len() as int;
    if n < 10 {
        lemma_text_char(s, i, w, dec_rep(n), 0);
        assert(dec_rep(n)[0] == digit_char(n as int));
        assert(s[i] == digit_char(n as int));
        assert(digits_val(s, i, i + 1) == digit_val(s[i]));
        assert(digit_val(digit_char(n as int)) == n as int);
    } else {
        let half = (n / 10) as nat;
        let hw = dec_rep(half).len() as int;
        assert(dec_rep(n) == dec_rep(half) + seq![digit_char((n % 10) as int)]);
        lemma_subrange_sub(s, i, w, dec_rep(n), 0, hw);
        assert(dec_rep(n).subrange(0, hw) =~= dec_rep(half));
        assert(s.subrange(i, i + hw) =~= s.subrange(i + 0, i + hw));
        lemma_digits_val_of(half, s, i);
        lemma_text_char(s, i, w, dec_rep(n), w - 1);
        assert(dec_rep(n)[w - 1] == digit_char((n % 10) as int));
        assert(s[i + (w - 1)] == digit_char((n % 10) as int));
        assert(digits_val(s, i, i + w) == digits_val(s, i, i + w - 1) * 10 + digit_val(
            s[i + w - 1],
        ));
        assert(digit_val(digit_char((n % 10) as int)) == n % 10);
        assert(n == (n / 10) * 10 + n % 10);
    }
}

/// Every canonical text is non-empty and starts with a character the
/// parser dispatches on.
pub proof fn lemma_ser_first_char(m: JsonModel)
    ensures
        ser(m).len() >= 1,
        ({
            let c = ser(m)[0];
            c == 'n' || c == 't' || c == 'f' || c == '"' || c == '[' || c == '{' || c == '-'
                || is_digit(c)
        }),
{
    match m {
        JsonModel::Int(n) => {
            if n >= 0 {
                lemma_dec_rep_digits(n as nat);
            } else {
                lemma_dec_rep_digits((-n) as nat);
            }
        },
        _ => {},
    }
}

pub proof fn lemma_parse_int(n: int, s: Seq<char>, i: int)
    requires
        -0x8000000000000000 <= n <= 0x7fffffffffffffff,
        0 <= i,
        i + ser_int(n).len() <= s.len(),
        s.subrange(i, i + ser_int(n).len()) == ser_int(n),
        i + ser_int(n).len() == s.len() || !is_digit(s[i + ser_int(n).len()]),
    ensures
        sp_value(s, i) == Some((JsonModel::Int(n), i + ser_int(n).len())),
{
    let w = ser_int(n).len() as int;
    if n >= 0 {
        lemma_dec_rep_digits(n as nat);
        assert forall|k: int| i <= k < i + w implies is_digit(#[trigger] s[k]) by {
            lemma_text_char(s, i, w, ser_int(n), k - i);
        };
        assert(is_digit(s[i]));
        lemma_digits_end_of(s, i, i + w);
        lemma_digits_val_of(n as nat, s, i);
        assert(!(s[i] == '-'));
        assert(sp_int(s, i) == Some((JsonModel::Int(n), i + w)));
    } else {
        let mag = (-n) as nat;
        lemma_dec_rep_digits(mag);
        lemma_text_char(s, i, w, ser_int(n), 0);
        assert(ser_int(n)[0] == '-');
        assert(s[i] == '-');
        lemma_subrange_sub(s, i, w, ser_int(n), 1, w);
        assert(ser_int(n).subrange(1, w) =~= dec_rep(mag));
        assert(s.subrange(i + 1, i + w) == dec_rep(mag));
        assert forall|k: int| i + 1 <= k < i + w implies is_digit(#[trigger] s[k]) by {
            lemma_text_char(s, i + 1, w - 1, dec_rep(mag), k - (i + 1));
        };
        lemma_digits_end_of(s, i + 1, i + w);
        lemma_digits_val_of(mag, s, i + 1);
        assert(sp_int(s, i) == Some((JsonModel::Int(n), i + w)));
    }
}

pub proof fn lemma_parse_string_body(body: Seq<char>, s: Seq<char>, i: int)
    requires
        str_ok(body),
        0 <= i,
        i + esc(body).len() + 1 <= s.len(),
        s.subrange(i, i + esc(body).len() + 1) == esc(body) + seq!['"'],
    ensures
        sp_string_body(s, i) == Some((body, i + esc(body).len() + 1)),
    decreases body.len(),
{
    let w = esc(body).len() as int;
    let text = esc(body) + seq!['"'];
    if body.len() == 0 {
        lemma_text_char(s, i, w + 1, text, 0);
        assert(text[0] == '"');
        assert(s[i] == '"');
    } else {
        let c = body[0];
        let rest = body.drop_first();
        assert(esc(body) == esc_char(c) + esc(rest));
        assert(str_ok(rest)) by {
            assert(forall|k: int| 0 <= k < rest.len() ==> #[trigger] rest[k] == body[k + 1]);
        }
        let cw = esc_char(c).len() as int;
        lemma_subrange_sub(s, i, w + 1, text, cw, w + 1);
        assert(text.subrange(cw, w + 1) =~= esc(rest) + seq!['"']);
        lemma_parse_string_body(rest, s, i + cw);
        if c == '"' || c == '\\' {
            lemma_text_char(s, i, w + 1, text, 0);
            lemma_text_char(s, i, w + 1, text, 1);
            assert(text[0] == '\\' && text[1] == c);
            assert(s[i] == '\\' && s[i + 1] == c);
            assert(seq![s[i + 1]] + rest =~= body);
        } else {
            lemma_text_char(s, i, w + 1, text, 0);
            assert(text[0] == c);
            assert(s[i] == c);
            assert(c as int >= 32);
            assert(!(c == '"') && !(c == '\\'));
            assert(seq![s[i]] + rest =~= body);
        }
    }
}

/// Parsing the canonical text of a well-formed document, embedded in a
/// larger text and not followed by a digit, yields that document and
/// stops right after it.
pub proof fn lemma_parse_ser(m: JsonModel, s: Seq<char>, i: int)
    requires
        wf_model(m),
        0 <= i,
        i + ser(m).len() <= s.len(),
        s.subrange(i, i + ser(m).len()) == ser(m),
        i + ser(m).len() == s.len() || !is_digit(s[i + ser(m).len()]),
    ensures
        sp_value(s, i) == Some((m, i + ser(m).len())),
    decreases m, 0int,
{
    let w = ser(m).len() as int;
    assert forall|k: int| 0 <= k < w implies #[trigger] s[i + k] == ser(m)[k] by {
        lemma_text_char(s, i, w, ser(m), k);
    };
    match m {
        JsonModel::Null => {
            assert(s[i + 0] == 'n' && s[i + 1] == 'u' && s[i + 2] == 'l' && s[i + 3] == 'l');
            assert(s[i] == 'n');
            assert(sp_value(s, i) == Some((m, i + w)));
        },
        JsonModel::Bool(b) => {
            if b {
                assert(s[i + 0] == 't' && s[i + 1] == 'r' && s[i + 2] == 'u' && s[i + 3] == 'e');
                assert(s[i] == 't');
            } else {
                assert(s[i + 0] == 'f' && s[i + 1] == 'a' && s[i + 2] == 'l' && s[i + 3] == 's'
                    && s[i + 4] == 'e');
                assert(s[i] == 'f');
            }
        },
        JsonModel::Int(n) => {
            lemma_parse_int(n, s, i);
            assert(sp_value(s, i) == Some((m, i + w)));
        },
        JsonModel::Str(body) => {
            lemma_text_char(s, i, w, ser(m), 0);
            assert(ser(m) == (seq!['"'] + esc(body)) + seq!['"']);
            assert((seq!['"'] + esc(body))[0] == '"');
            assert(ser(m)[0] == '"');
            assert(s[i] == '"');
            lemma_subrange_sub(s, i, w, ser(m), 1, w);
            assert(ser(m).subrange(1, w) =~= esc(body) + seq!['"']) by {
                assert forall|k: int| 0 <= k < w - 1 implies ser(m).subrange(1, w)[k] == (esc(body)
                    + seq!['"'])[k] by {
                    assert(ser(m).subrange(1, w)[k] == ser(m)[1 + k]);
                    if k < w - 2 {
                        assert((seq!['"'] + esc(body))[1 + k] == esc(body)[k]);
                        assert(ser(m)[1 + k] == (seq!['"'] + esc(body))[1 + k]);
                    } else {
                        assert(ser(m)[1 + k] == '"');
                    }
                };
            }
            lemma_parse_string_body(body, s, i + 1);
            assert(sp_value(s, i) == Some((m, i + w)));
        },
        JsonModel::Arr(xs) => {
            let iw = ser_items(xs).len() as int;
            assert(ser(m) == (seq!['['] + ser_items(xs)) + seq![']']);
            lemma_text_char(s, i, w, ser(m), 0);
            assert((seq!['['] + ser_items(xs))[0] == '[');
            assert(s[i] == '[');
            lemma_text_char(s, i, w, ser(m), w - 1);
            assert(ser(m)[w - 1] == ']');
            assert(s[i + (w - 1)] == ']');
            if xs.len() == 0 {
                assert(ser_items(xs) =~= Seq::<char>::empty());
                assert(s[i + 1] == ']');
                assert(xs =~= Seq::<JsonModel>::empty());
                assert(m == JsonModel::Arr(Seq::<JsonModel>::empty()));
            } else {
                assert(s.subrange(i + 1, i + 1 + iw) =~= ser_items(xs)) by {
                    assert forall|k: int| 0 <= k < iw implies s.subrange(i + 1, i + 1 + iw)[k]
                        == ser_items(xs)[k] by {
                        assert(s.subrange(i + 1, i + 1 + iw)[k] == s[i + 1 + k]);
                        lemma_text_char(s, i, w, ser(m), 1 + k);
                        assert((seq!['['] + ser_items(xs))[1 + k] == ser_items(xs)[k]);
                        assert(ser(m)[1 + k] == ser_items(xs)[k]);
                    };
                }
                assert(s[i + 1 + iw] == ']');
                lemma_parse_items(xs, s, i + 1);
                assert(ser(xs[0]).len() >= 1) by {
                    lemma_ser_first_char(xs[0]);
                }
                assert(ser_items(xs)[0] == ser(xs[0])[0]) by {
                    if xs.len() == 1 {
                    } else {
                        assert(ser_items(xs) == ser(xs[0]) + seq![','] + ser_items(
                            xs.drop_first(),
                        ));
                    }
                }
                assert(s[i + 1] == ser(xs[0])[0]);
                lemma_ser_first_char(xs[0]);
                assert(!(s[i + 1] == ']'));
            }
            assert(sp_value(s, i) == Some((m, i + w)));
        },
        JsonModel::Obj(fs) => {
            let iw = ser_fields(fs).len() as int;
            assert(ser(m) == (seq!['{'] + ser_fields(fs)) + seq!['}']);
            lemma_text_char(s, i, w, ser(m), 0);
            assert((seq!['{'] + ser_fields(fs))[0] == '{');
            assert(s[i] == '{');
            lemma_text_char(s, i, w, ser(m), w - 1);
            assert(ser(m)[w - 1] == '}');
            assert(s[i + (w - 1)] == '}');
            if fs.len() == 0 {
                assert(ser_fields(fs) =~= Seq::<char>::empty());
                assert(s[i + 1] == '}');
                assert(fs =~= Seq::<(Seq<char>, JsonModel)>::empty());
                assert(m == JsonModel::Obj(Seq::<(Seq<char>, JsonModel)>::empty()));
            } else {
                assert(s.subrange(i + 1, i + 1 + iw) =~= ser_fields(fs)) by {
                    assert forall|k: int| 0 <= k < iw implies s.subrange(i + 1, i + 1 + iw)[k]
                        == ser_fields(fs)[k] by {
                        assert(s.subrange(i + 1, i + 1 + iw)[k] == s[i + 1 + k]);
                        lemma_text_char(s, i, w, ser(m), 1 + k);
                        assert((seq!['{'] + ser_fields(fs))[1 + k] == ser_fields(fs)[k]);
                        assert(ser(m)[1 + k] == ser_fields(fs)[k]);
                    };
                }
                assert(s[i + 1 + iw] == '}');
                lemma_parse_fields(fs, s, i + 1);
                assert(ser_fields(fs)[0] == '"') by {
                    assert(ser_field(fs[0])[0] == '"');
                    if fs.len() == 1 {
                    } else {
                        assert(ser_fields(fs) == ser_field(fs[0]) + seq![','] + ser_fields(
                            fs.drop_first(),
                        ));
                    }
                }
                assert(s[i + 1] == '"');
                assert(!(s[i + 1] == '}'));
            }
            assert(sp_value(s, i) == Some((m, i + w)));
        },
    }
}

pub proof fn lemma_parse_items(xs: Seq<JsonModel>, s: Seq<char>, i: int)
    requires
        xs.len() >= 1,
        forall|k: int| 0 <= k < xs.len() ==> wf_model(#[trigger] xs[k]),
        0 <= i,
        i + ser_items(xs).len() + 1 <= s.len(),
        s.subrange(i, i + ser_items(xs).len()) == ser_items(xs),
        s[i + ser_items(xs).len()] == ']',
    ensures
        sp_items(s, i) == Some((xs, i + ser_items(xs).len() + 1)),
    decreases xs, 1int,
{
    let w = ser_items(xs).len() as int;
    assert(forall|k: int| 0 <= k < w ==> s[i + k] == #[trigger] ser_items(xs)[k]);
    let v0 = xs[0];
    let vw = ser(v0).len() as int;
    if xs.len() == 1 {
        assert(ser_items(xs) == ser(v0));
        assert(s.subrange(i, i + vw) =~= ser(v0));
        assert(!is_digit(']'));
        lemma_parse_ser(v0, s, i);
        assert(s[i + vw] == ']');
        lemma_ser_first_char(v0);
        assert(0 <= i < s.len());
        assert(seq![v0] =~= xs);
    } else {
        let rest = xs.drop_first();
        assert(ser_items(xs) == (ser(v0) + seq![',']) + ser_items(rest));
        let rw = ser_items(rest).len() as int;
        assert(s.subrange(i, i + vw) =~= ser(v0));
        lemma_text_char(s, i, w, ser_items(xs), vw);
        assert((ser(v0) + seq![','])[vw] == ',');
        assert(ser_items(xs)[vw] == ',');
        assert(s[i + vw] == ',');
        assert(!is_digit(','));
        lemma_parse_ser(v0, s, i);
        lemma_subrange_sub(s, i, w, ser_items(xs), vw + 1, w);
        assert(ser_items(xs).subrange(vw + 1, w) =~= ser_items(rest)) by {
            assert forall|k: int| 0 <= k < rw implies ser_items(xs).subrange(vw + 1, w)[k]
                == ser_items(rest)[k] by {
                assert(ser_items(xs).subrange(vw + 1, w)[k] == ser_items(xs)[vw + 1 + k]);
                assert(ser_items(xs)[vw + 1 + k] == ser_items(rest)[k]);
            };
        }
        assert(s.subrange(i + (vw + 1), i + w) == ser_items(rest));
        assert(s.subrange(i + vw + 1, i + vw + 1 + rw) =~= s.subrange(i + (vw + 1), i + w));
        assert(s[i + vw + 1 + rw] == ']');
        assert(forall|k: int| 0 <= k < rest.len() ==> #[trigger] rest[k] == xs[k + 1]);
        lemma_parse_items(rest, s, i + vw + 1);
        lemma_ser_first_char(v0);
        assert(0 <= i < s.len());
        assert(seq![v0] + rest =~= xs);
    }
}

pub proof fn lemma_parse_fields(fs: Seq<(Seq<char>, JsonModel)>, s: Seq<char>, i: int)
    requires
        fs.len() >= 1,
        forall|k: int|
            0 <= k < fs.len() ==> str_ok(#[trigger] fs[k].0) && wf_model(fs[k].1),
        0 <= i,
        i + ser_fields(fs).len() + 1 <= s.len(),
        s.subrange(i, i + ser_fields(fs).len()) == ser_fields(fs),
        s[i + ser_fields(fs).len()] == '}',
    ensures
        sp_fields(s, i) == Some((fs, i + ser_fields(fs).len() + 1)),
    decreases fs, 1int,
{
    let w = ser_fields(fs).len() as int;
    let f0 = fs[0];
    let fw = ser_field(f0).len() as int;
    let kw = esc(f0.0).len() as int;
    let vw = ser(f0.1).len() as int;
    assert(ser_field(f0) == ((seq!['"'] + esc(f0.0)) + seq!['"', ':']) + ser(f0.1));
    assert(fw == kw + 3 + vw);
    // the characters of the leading field, read off the concatenation
    assert forall|k: int| 0 <= k < fw implies ser_fields(fs)[k] == ser_field(f0)[k] by {
        if fs.len() == 1 {
        } else {
            assert(ser_fields(fs) == (ser_field(f0) + seq![',']) + ser_fields(fs.drop_first()));
            assert((ser_field(f0) + seq![','])[k] == ser_field(f0)[k]);
        }
    };
    assert((seq!['"'] + esc(f0.0))[0] == '"');
    assert(ser_field(f0)[0] == '"');
    lemma_text_char(s, i, w, ser_fields(fs), 0);
    assert(s[i] == '"');
    // the key body followed by its closing quote
    assert(s.subrange(i + 1, i + 1 + kw + 1) =~= esc(f0.0) + seq!['"']) by {
        assert forall|k: int| 0 <= k < kw + 1 implies s.subrange(i + 1, i + kw + 2)[k] == (esc(f0.0)
            + seq!['"'])[k] by {
            assert(s.subrange(i + 1, i + kw + 2)[k] == s[i + 1 + k]);
            lemma_text_char(s, i, w, ser_fields(fs), 1 + k);
            if k < kw {
                assert((seq!['"'] + esc(f0.0))[1 + k] == esc(f0.0)[k]);
                assert(ser_field(f0)[1 + k] == (seq!['"'] + esc(f0.0))[1 + k]);
            } else {
                assert(ser_field(f0)[1 + k] == (seq!['"', ':'])[0]);
            }
        };
    }
    lemma_parse_string_body(f0.0, s, i + 1);
    lemma_text_char(s, i, w, ser_fields(fs), kw + 2);
    assert(ser_field(f0)[kw + 2] == (seq!['"', ':'])[1]);
    assert(s[i + (kw + 2)] == ':');
    // the value text
    assert(s.subrange(i + kw + 3, i + kw + 3 + vw) =~= ser(f0.1)) by {
        assert forall|k: int| 0 <= k < vw implies s.subrange(i + kw + 3, i + kw + 3 + vw)[k] == ser(
            f0.1,
        )[k] by {
            assert(s.subrange(i + kw + 3, i + kw + 3 + vw)[k] == s[i + kw + 3 + k]);
            lemma_text_char(s, i, w, ser_fields(fs), kw + 3 + k);
            assert(ser_field(f0)[kw + 3 + k] == ser(f0.1)[k]);
        };
    }
    if fs.len() == 1 {
        assert(s[i + kw + 3 + vw] == '}');
        assert(!is_digit('}'));
        lemma_parse_ser(f0.1, s, i + kw + 3);
        assert(seq![(f0.0, f0.1)] =~= fs);
        assert((f0.0, f0.1) == f0);
    } else {
        let rest = fs.drop_first();
        let rw = ser_fields(rest).len() as int;
        assert(ser_fields(fs) == (ser_field(f0) + seq![',']) + ser_fields(rest));
        lemma_text_char(s, i, w, ser_fields(fs), fw);
        assert((ser_field(f0) + seq![','])[fw] == ',');
        assert(ser_fields(fs)[fw] == ',');
        assert(s[i + fw] == ',');
        assert(!is_digit(','));
        lemma_parse_ser(f0.1, s, i + kw + 3);
        lemma_subrange_sub(s, i, w, ser_fields(fs), fw + 1, w);
        assert(ser_fields(fs).subrange(fw + 1, w) =~= ser_fields(rest)) by {
            assert forall|k: int| 0 <= k < rw implies ser_fields(fs).subrange(fw + 1, w)[k]
                == ser_fields(rest)[k] by {
                assert(ser_fields(fs).subrange(fw + 1, w)[k] == ser_fields(fs)[fw + 1 + k]);
                assert(ser_fields(fs)[fw + 1 + k] == ser_fields(rest)[k]);
            };
        }
        assert(s.subrange(i + (fw + 1), i + w) == ser_fields(rest));
        assert(s.subrange(i + fw + 1, i + fw + 1 + rw) =~= s.subrange(i + (fw + 1), i + w));
        assert(s[i + fw + 1 + rw] == '}');
        assert(forall|k: int| 0 <= k < rest.len() ==> #[trigger] rest[k] == fs[k + 1]);
        lemma_parse_fields(rest, s, i + fw + 1);
        assert(seq![(f0.0, f0.1)] + rest =~= fs);
        assert((f0.0, f0.1) == f0);
    }
}

/// The round trip: the canonical text of a well-formed document parses
/// back to a document structurally equal to it.
pub proof fn lemma_parse_round_trip(m: JsonModel)
    requires
        wf_model(m),
    ensures
        parse_spec(ser(m)) == Some(m),
{
    let s = ser(m);
    assert(s.subrange(0, s.len() as int) =~= s);
    lemma_parse_ser(m, s, 0);
}



/// Parses a string body after the opening quote, executable form.
fn p_string_body(s: &Vec<char>, i: usize) -> (r: Option<(Vec<char>, usize)>)
    requires
        i <= s@.len(),
    ensures
        match r {
            Some(p) => sp_string_body(s@, i as int) == Some((p.0@, p.1 as int)) && i < p.1
                <= s@.len(),
            None => sp_string_body(s@, i as int) is None,
        },
    decreases s@.len() - i,
{
    let n = s.len();
    if i >= n {
        return None;
    }
    let c = s[i];
    if c == '"' {
        let empty: Vec<char> = Vec::new();
        proof {
            assert(empty@ =~= Seq::<char>::empty());
        }
        return Some((empty, i + 1));
    }
    if c == '\\' {
        if i + 1 < n && (s[i + 1] == '"' || s[i + 1] == '\\') {
            match p_string_body(s, i + 2) {
                Some(tail) => {
                    let mut out: Vec<char> = Vec::new();
                    out.push(s[i + 1]);
                    crate::ser::append_chars(&mut out, &tail.0);
                    proof {
                        assert(out@ =~= seq![s@[i + 1]] + tail.0@);
                        assert(sp_string_body(s@, i as int) == Some((out@, tail.1 as int)));
                    }
                    Some((out, tail.1))
                },
                None => None,
            }
        } else {
            None
        }
    } else if c >= ' ' {
        match p_string_body(s, i + 1) {
            Some(tail) => {
                let mut out: Vec<char> = Vec::new();
                out.push(c);
                crate::ser::append_chars(&mut out, &tail.0);
                proof {
                    assert(c as int >= 32);
                    assert(out@ =~= seq![s@[i as int]] + tail.0@);
                    assert(sp_string_body(s@, i as int) == Some((out@, tail.1 as int)));
                }
                Some((out, tail.1))
            },
            None => None,
        }
    } else {
        None
    }
}

/// Parses an integer, executable form.
fn p_int(s: &Vec<char>, i: usize) -> (r: Option<(JsonValue, usize)>)
    requires
        i < s@.len(),
        s@[i as int] == '-' || is_digit(s@[i as int]),
    ensures
        match r {
            Some(p) => sp_int(s@, i as int) == Some((p.0.model(), p.1 as int)) && i < p.1
                <= s@.len(),
            None => sp_int(s@, i as int) is None,
        },
{
    let n = s.len();
    let neg = s[i] == '-';
    let d0: usize = if neg {
        i + 1
    } else {
        i
    };
    if d0 >= n {
        proof {
            assert(digits_end(s@, d0 as int) == d0);
        }
        return None;
    }
    let mut k: usize = d0;
    let mut acc: u128 = 0;
    let mut too_big: bool = false;
    while k < n && s[k] >= '0' && s[k] <= '9'
        invariant
            d0 <= k <= n,
            n == s@.len(),
            forall|t: int| d0 <= t < k ==> is_digit(#[trigger] s@[t]),
            digits_end(s@, d0 as int) == digits_end(s@, k as int),
            !too_big ==> acc == digits_val(s@, d0 as int, k as int) && acc
                <= 0x8000000000000000,
            too_big ==> digits_val(s@, d0 as int, k as int) > 0x8000000000000000,
        decreases n - k,
    {
        let d = (s[k] as u32 - 48) as u128;
        proof {
            assert(is_digit(s@[k as int]));
            assert(d == digit_val(s@[k as int]));
            assert(digits_val(s@, d0 as int, k + 1) == digits_val(s@, d0 as int, k as int) * 10
                + digit_val(s@[k as int]));
            if too_big {
                let v = digits_val(s@, d0 as int, k as int);
                assert(v * 10 >= v) by (nonlinear_arith)
                    requires
                        v >= 0,
                ;
            }
        }
        if !too_big {
            acc = acc * 10 + d;
            if acc > 0x8000000000000000 {
                too_big = true;
            }
        }
        k = k + 1;
    }
    proof {
        assert(digits_end(s@, k as int) == k);
    }
    if k == d0 {
        return None;
    }
    if too_big {
        return None;
    }
    let e = k;
    if neg {
        if acc > 0x8000000000000000 {
            return None;
        }
        let v: i64 = if acc == 0x8000000000000000 {
            i64::MIN
        } else {
            -((acc as u64) as i64)
        };
        Some((JsonValue::Int(v), e))
    } else {
        if acc > 0x7fffffffffffffff {
            return None;
        }
        Some((JsonValue::Int(acc as i64), e))
    }
}

/// Parses one value, executable form.
pub fn p_value(s: &Vec<char>, i: usize) -> (r: Option<(JsonValue, usize)>)
    requires
        i <= s@.len(),
    ensures
        match r {
            Some(p) => sp_value(s@, i as int) == Some((p.0.model(), p.1 as int)) && i < p.1
                <= s@.len(),
            None => sp_value(s@, i as int) is None,
        },
    decreases s@.len() - i, 0int,
{
    broadcast use group_json_model_axioms;

    let n = s.len();
    if i >= n {
        return None;
    }
    let c = s[i];
    if c == 'n' {
        if n - i >= 4 && s[i + 1] == 'u' && s[i + 2] == 'l' && s[i + 3] == 'l' {
            Some((JsonValue::Null, i + 4))
        } else {
            None
        }
    } else if c == 't' {
        if n - i >= 4 && s[i + 1] == 'r' && s[i + 2] == 'u' && s[i + 3] == 'e' {
            Some((JsonValue::Bool(true), i + 4))
        } else {
            None
        }
    } else if c == 'f' {
        if n - i >= 5 && s[i + 1] == 'a' && s[i + 2] == 'l' && s[i + 3] == 's' && s[i + 4] == 'e' {
            Some((JsonValue::Bool(false), i + 5))
        } else {
            None
        }
    } else if c == '"' {
        match p_string_body(s, i + 1) {
            Some(p) => Some((JsonValue::Str(p.0), p.1)),
            None => None,
        }
    } else if c == '[' {
        if i + 1 < n && s[i + 1] == ']' {
            let empty: Vec<JsonValue> = Vec::new();
            proof {
                assert(arr_model(empty@) =~= Seq::<JsonModel>::empty());
            }
            Some((JsonValue::Arr(empty), i + 2))
        } else {
            match p_items(s, i + 1) {
                Some(p) => Some((JsonValue::Arr(p.0), p.1)),
                None => None,
            }
        }
    } else if c == '{' {
        if i + 1 < n && s[i + 1] == '}' {
            let empty: Vec<(Vec<char>, JsonValue)> = Vec::new();
            proof {
                assert(fields_model(empty@) =~= Seq::<(Seq<char>, JsonModel)>::empty());
            }
            Some((JsonValue::Obj(empty), i + 2))
        } else {
            match p_fields(s, i + 1) {
                Some(p) => Some((JsonValue::Obj(p.0), p.1)),
                None => None,
            }
        }
    } else if c == '-' || (c >= '0' && c <= '9') {
        p_int(s, i)
    } else {
        None
    }
}

/// Parses array elements and the closing bracket, executable form.
fn p_items(s: &Vec<char>, i: usize) -> (r: Option<(Vec<JsonValue>, usize)>)
    requires
        i <= s@.len(),
    ensures
        match r {
            Some(p) => sp_items(s@, i as int) == Some((arr_model(p.0@), p.1 as int)) && i < p.1
                <= s@.len(),
            None => sp_items(s@, i as int) is None,
        },
    decreases s@.len() - i, 1int,
{
    broadcast use group_json_model_axioms;

    let n = s.len();
    if i >= n {
        return None;
    }
    let first = match p_value(s, i) {
        Some(p) => p,
        None => {
            return None;
        },
    };
    let j = first.1;
    if j >= n {
        return None;
    }
    if s[j] == ']' {
        let mut out: Vec<JsonValue> = Vec::new();
        out.push(first.0);
        proof {
            assert(arr_model(out@) =~= seq![out@[0].model()]);
        }
        Some((out, j + 1))
    } else if s[j] == ',' {
        match p_items(s, j + 1) {
            Some(p) => {
                let mut rest = p.0;
                rest.insert(0, first.0);
                proof {
                    assert(arr_model(rest@) =~= seq![rest@[0].model()] + arr_model(
                        rest@.drop_first(),
                    ));
                }
                Some((rest, p.1))
            },
            None => None,
        }
    } else {
        None
    }
}

/// Parses object fields and the closing brace, executable form.
fn p_fields(s: &Vec<char>, i: usize) -> (r: Option<(Vec<(Vec<char>, JsonValue)>, usize)>)
    requires
        i <= s@.len(),
    ensures
        match r {
            Some(p) => sp_fields(s@, i as int) == Some((fields_model(p.0@), p.1 as int)) && i < p.1
                <= s@.len(),
            None => sp_fields(s@, i as int) is None,
        },
    decreases s@.len() - i, 1int,
{
    broadcast use group_json_model_axioms;

    let n = s.len();
    if i >= n || s[i] != '"' {
        return None;
    }
    let key = match p_string_body(s, i + 1) {
        Some(p) => p,
        None => {
            return None;
        },
    };
    let j = key.1;
    if j >= n || s[j] != ':' {
        return None;
    }
    let val = match p_value(s, j + 1) {
        Some(p) => p,
        None => {
            return None;
        },
    };
    let k = val.1;
    if k >= n {
        return None;
    }
    if s[k] == '}' {
        let mut out: Vec<(Vec<char>, JsonValue)> = Vec::new();
        let entry = (key.0, val.0);
        out.push(entry);
        proof {
            assert(fields_model(out@) =~= seq![(out@[0].0@, out@[0].1.model())]);
        }
        Some((out, k + 1))
    } else if s[k] == ',' {
        match p_fields(s, k + 1) {
            Some(p) => {
                let mut rest = p.0;
                let entry = (key.0, val.0);
                rest.insert(0, entry);
                proof {
                    assert(fields_model(rest@) =~= seq![(rest@[0].0@, rest@[0].1.model())]
                        + fields_model(rest@.drop_first()));
                }
                Some((rest, p.1))
            },
            None => None,
        }
    } else {
        None
    }
}

/// Parses a whole text: `None` unless one value spans all of it.
pub fn parse_json_chars(s: &Vec<char>) -> (r: Option<JsonValue>)
    ensures
        match r {
            Some(v) => parse_spec(s@) == Some(v.model()),
            None => parse_spec(s@) is None,
        },
{
    match p_value(s, 0) {
        Some(p) => {
            if p.1 == s.len() {
                Some(p.0)
            } else {
                None
            }
        },
        None => None,
    }
}

/// Parses a whole string slice.
pub fn parse_json(s: &str) -> (r: Option<JsonValue>)
    ensures
        match r {
            Some(v) => parse_spec(s@) == Some(v.model()),
            None => parse_spec(s@) is None,
        },
{
    let chars = crate::text::chars_of(s);
    parse_json_chars(&chars)
}


} // verus!
