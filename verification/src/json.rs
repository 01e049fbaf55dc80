//! The crate's own JSON reading: a value model, a specification-level
//! parser that defines the accepted grammar, and an executable parser proved
//! to return exactly what the specification says.  The grammar is lenient
//! where tolerance serves the decoder: numbers are kept as their lexemes,
//! and any non-escape character may stand inside a string.

use vstd::prelude::*;

verus! {

broadcast use
    vstd::std_specs::vec::group_vec_axioms,
    vstd::seq::group_seq_axioms,
    vstd::utf8::char_u32_cast;

/// A parsed JSON value.  Numbers keep their lexeme: nothing in this crate
/// reads them, and keeping the text avoids any floating-point type.
pub enum JsonValue {
    Null,
    Bool(bool),
    Number(Vec<char>),
    Text(Vec<char>),
    Array(Vec<JsonValue>),
    Object(Vec<(Vec<char>, JsonValue)>),
}

/// The mathematical shape of a [`JsonValue`].
pub enum JsonModel {
    Null,
    Bool(bool),
    Number(Seq<char>),
    Text(Seq<char>),
    Array(Seq<JsonModel>),
    Object(Seq<(Seq<char>, JsonModel)>),
}

/// The model of one value.
pub open spec fn json_model_of(v: JsonValue) -> JsonModel
    decreases v,
{
    match v {
        JsonValue::Null => JsonModel::Null,
        JsonValue::Bool(b) => JsonModel::Bool(b),
        JsonValue::Number(s) => JsonModel::Number(s@),
        JsonValue::Text(s) => JsonModel::Text(s@),
        JsonValue::Array(items) => JsonModel::Array(json_models_of(items@)),
        JsonValue::Object(fields) => JsonModel::Object(json_field_models_of(fields@)),
    }
}

/// The models of a sequence of values, in order.
pub open spec fn json_models_of(s: Seq<JsonValue>) -> Seq<JsonModel>
    decreases s,
{
    if s.len() == 0 {
        Seq::<JsonModel>::empty()
    } else {
        seq![json_model_of(s[0])] + json_models_of(s.drop_first())
    }
}

/// The models of an object's fields, in order.
pub open spec fn json_field_models_of(s: Seq<(Vec<char>, JsonValue)>) -> Seq<
    (Seq<char>, JsonModel),
>
    decreases s,
{
    if s.len() == 0 {
        Seq::<(Seq<char>, JsonModel)>::empty()
    } else {
        seq![(s[0].0@, json_model_of(s[0].1))] + json_field_models_of(s.drop_first())
    }
}

impl View for JsonValue {
    type V = JsonModel;

    open spec fn view(&self) -> JsonModel {
        json_model_of(*self)
    }
}

/// The whitespace JSON allows between tokens.
pub open spec fn json_ws(c: char) -> bool {
    c == ' ' || c == '\t' || c == '\n' || c == '\r'
}

/// The first position at or after `i` holding no JSON whitespace.
pub open spec fn skip_ws_spec(s: Seq<char>, i: int) -> int
    decreases s.len() - i,
{
    if 0 <= i < s.len() && json_ws(s[i]) {
        skip_ws_spec(s, i + 1)
    } else {
        i
    }
}

/// What a single-character escape stands for; `None` refuses the escape.
pub open spec fn escape_char_of(e: char) -> Option<char> {
    if e == '"' {
        Some('"')
    } else if e == '\\' {
        Some('\\')
    } else if e == '/' {
        Some('/')
    } else if e == 'n' {
        Some('\n')
    } else if e == 't' {
        Some('\t')
    } else if e == 'r' {
        Some('\r')
    } else if e == 'b' {
        Some('\u{0008}')
    } else if e == 'f' {
        Some('\u{000C}')
    } else {
        None
    }
}

/// The value of a hexadecimal digit, or `None`.
pub open spec fn hex_val(c: char) -> Option<int> {
    if '0' <= c && c <= '9' {
        Some((c as int) - ('0' as int))
    } else if 'a' <= c && c <= 'f' {
        Some((c as int) - ('a' as int) + 10)
    } else if 'A' <= c && c <= 'F' {
        Some((c as int) - ('A' as int) + 10)
    } else {
        None
    }
}

/// The code point of a `\uXXXX` escape at `i`, where `s[i]` is the first
/// hex digit, or `None` when the four digits are not all hexadecimal.
pub open spec fn hex4_val(s: Seq<char>, i: int) -> Option<u32> {
    if i + 4 <= s.len() && hex_val(s[i]) is Some && hex_val(s[i + 1]) is Some && hex_val(
        s[i + 2],
    ) is Some && hex_val(s[i + 3]) is Some {
        Some(
            (hex_val(s[i]).unwrap() * 0x1000 + hex_val(s[i + 1]).unwrap() * 0x100 + hex_val(
                s[i + 2],
            ).unwrap() * 0x10 + hex_val(s[i + 3]).unwrap()) as u32,
        )
    } else {
        None
    }
}

/// Characters that may continue a number lexeme.
pub open spec fn is_number_char(c: char) -> bool {
    ('0' <= c && c <= '9') || c == '-' || c == '+' || c == '.' || c == 'e' || c == 'E'
}

/// Where the number lexeme beginning at `i` ends.
pub open spec fn number_end_spec(s: Seq<char>, i: int) -> int
    decreases s.len() - i,
{
    if 0 <= i < s.len() && is_number_char(s[i]) {
        number_end_spec(s, i + 1)
    } else {
        i
    }
}

/// The content of a string literal from position `i` (just after the
/// opening quote) to its closing quote: the decoded characters and the
/// position after the closing quote.  `None` when the literal never closes
/// or an escape is malformed.
pub open spec fn parse_chars_spec(s: Seq<char>, i: int) -> Option<(Seq<char>, int)>
    decreases s.len() - i, 0int,
{
    if i < 0 || i >= s.len() {
        None
    } else if s[i] == '"' {
        Some((Seq::<char>::empty(), i + 1))
    } else if s[i] == '\\' {
        if i + 1 >= s.len() {
            None
        } else if s[i + 1] == 'u' {
            if i + 6 > s.len() {
                None
            } else {
                match hex4_val(s, i + 2) {
                Some(code) => {
                    if code < 0xD800 {
                        match parse_chars_spec(s, i + 6) {
                            Some((rest, j)) => Some((seq![code as char] + rest, j)),
                            None => None,
                        }
                    } else if code >= 0xE000 {
                        match parse_chars_spec(s, i + 6) {
                            Some((rest, j)) => Some((seq![code as char] + rest, j)),
                            None => None,
                        }
                    } else {
                        None
                    }
                },
                None => None,
                }
            }
        } else {
            match escape_char_of(s[i + 1]) {
                Some(c) => match parse_chars_spec(s, i + 2) {
                    Some((rest, j)) => Some((seq![c] + rest, j)),
                    None => None,
                },
                None => None,
            }
        }
    } else {
        match parse_chars_spec(s, i + 1) {
            Some((rest, j)) => Some((seq![s[i]] + rest, j)),
            None => None,
        }
    }
}

/// A JSON value beginning at `i`, which must not be whitespace: the parsed
/// model and the position just past it.
pub open spec fn parse_value_spec(s: Seq<char>, i: int) -> Option<(JsonModel, int)>
    decreases s.len() - i, 1int,
{
    if i < 0 || i >= s.len() {
        None
    } else if s[i] == 'n' {
        if i + 4 <= s.len() && s[i + 1] == 'u' && s[i + 2] == 'l' && s[i + 3] == 'l' {
            Some((JsonModel::Null, i + 4))
        } else {
            None
        }
    } else if s[i] == 't' {
        if i + 4 <= s.len() && s[i + 1] == 'r' && s[i + 2] == 'u' && s[i + 3] == 'e' {
            Some((JsonModel::Bool(true), i + 4))
        } else {
            None
        }
    } else if s[i] == 'f' {
        if i + 5 <= s.len() && s[i + 1] == 'a' && s[i + 2] == 'l' && s[i + 3] == 's' && s[i + 4]
            == 'e' {
            Some((JsonModel::Bool(false), i + 5))
        } else {
            None
        }
    } else if s[i] == '"' {
        match parse_chars_spec(s, i + 1) {
            Some((content, j)) => Some((JsonModel::Text(content), j)),
            None => None,
        }
    } else if s[i] == '[' {
        let j = skip_ws_spec(s, i + 1);
        if j < s.len() && s[j] == ']' {
            Some((JsonModel::Array(Seq::<JsonModel>::empty()), j + 1))
        } else if j <= i || j > s.len() {
            None
        } else {
            match parse_elements_spec(s, j) {
                Some((items, k)) => Some((JsonModel::Array(items), k)),
                None => None,
            }
        }
    } else if s[i] == '{' {
        let j = skip_ws_spec(s, i + 1);
        if j < s.len() && s[j] == '}' {
            Some((JsonModel::Object(Seq::<(Seq<char>, JsonModel)>::empty()), j + 1))
        } else if j <= i || j > s.len() {
            None
        } else {
            match parse_members_spec(s, j) {
                Some((fields, k)) => Some((JsonModel::Object(fields), k)),
                None => None,
            }
        }
    } else if s[i] == '-' || ('0' <= s[i] && s[i] <= '9') {
        let end = number_end_spec(s, i);
        if end <= i || end > s.len() {
            None
        } else {
            Some((JsonModel::Number(s.subrange(i, end)), end))
        }
    } else {
        None
    }
}

/// The elements of an array from position `i`, which must hold the first
/// element's first character, up to and past the closing bracket.
pub open spec fn parse_elements_spec(s: Seq<char>, i: int) -> Option<(Seq<JsonModel>, int)>
    decreases s.len() - i, 2int,
{
    match parse_value_spec(s, i) {
        Some((v, jv)) => {
            let j2 = skip_ws_spec(s, jv);
            if j2 < s.len() && s[j2] == ']' {
                Some((seq![v], j2 + 1))
            } else if j2 < s.len() && s[j2] == ',' {
                let j3 = skip_ws_spec(s, j2 + 1);
                if j3 <= i || j3 > s.len() {
                    None
                } else {
                    match parse_elements_spec(s, j3) {
                        Some((rest, k)) => Some((seq![v] + rest, k)),
                        None => None,
                    }
                }
            } else {
                None
            }
        },
        None => None,
    }
}

/// The members of an object from position `i`, which must hold the first
/// key's opening quote, up to and past the closing brace.
pub open spec fn parse_members_spec(s: Seq<char>, i: int) -> Option<
    (Seq<(Seq<char>, JsonModel)>, int),
>
    decreases s.len() - i, 2int,
{
    if i < 0 || i >= s.len() || s[i] != '"' {
        None
    } else {
        match parse_chars_spec(s, i + 1) {
            Some((key, jk)) => {
                let jc = skip_ws_spec(s, jk);
                if !(jc < s.len() && s[jc] == ':') {
                    None
                } else {
                    let jv0 = skip_ws_spec(s, jc + 1);
                    if jv0 <= i || jv0 > s.len() {
                        None
                    } else {
                        match parse_value_spec(s, jv0) {
                            Some((v, jv)) => {
                                let j2 = skip_ws_spec(s, jv);
                                if j2 < s.len() && s[j2] == '}' {
                                    Some((seq![(key, v)], j2 + 1))
                                } else if j2 < s.len() && s[j2] == ',' {
                                    let j3 = skip_ws_spec(s, j2 + 1);
                                    if j3 <= i || j3 > s.len() {
                                        None
                                    } else {
                                        match parse_members_spec(s, j3) {
                                            Some((rest, k)) => Some((seq![(key, v)] + rest, k)),
                                            None => None,
                                        }
                                    }
                                } else {
                                    None
                                }
                            },
                            None => None,
                        }
                    }
                }
            },
            None => None,
        }
    }
}

/// A whole document: one value, surrounded only by whitespace.
pub open spec fn parse_json_spec(s: Seq<char>) -> Option<JsonModel> {
    let i0 = skip_ws_spec(s, 0);
    match parse_value_spec(s, i0) {
        Some((v, j)) => {
            if skip_ws_spec(s, j) == s.len() {
                Some(v)
            } else {
                None
            }
        },
        None => None,
    }
}

/// Appending a value extends the models at the end.
proof fn lemma_json_models_push(s: Seq<JsonValue>, v: JsonValue)
    ensures
        json_models_of(s.push(v)) == json_models_of(s).push(json_model_of(v)),
    decreases s.len(),
{
    if s.len() == 0 {
        assert(s.push(v).drop_first() =~= Seq::<JsonValue>::empty());
        assert(json_models_of(Seq::<JsonValue>::empty()) == Seq::<JsonModel>::empty());
        assert(json_models_of(s.push(v)) =~= json_models_of(s).push(json_model_of(v)));
    } else {
        assert(s.push(v).drop_first() =~= s.drop_first().push(v));
        lemma_json_models_push(s.drop_first(), v);
        assert(json_models_of(s.push(v)) =~= json_models_of(s).push(json_model_of(v)));
    }
}

/// Appending a field extends the field models at the end.
proof fn lemma_json_field_models_push(s: Seq<(Vec<char>, JsonValue)>, f: (Vec<char>, JsonValue))
    ensures
        json_field_models_of(s.push(f)) == json_field_models_of(s).push(
            (f.0@, json_model_of(f.1)),
        ),
    decreases s.len(),
{
    if s.len() == 0 {
        assert(s.push(f).drop_first() =~= Seq::<(Vec<char>, JsonValue)>::empty());
        assert(json_field_models_of(Seq::<(Vec<char>, JsonValue)>::empty()) == Seq::<
            (Seq<char>, JsonModel),
        >::empty());
        assert(json_field_models_of(s.push(f)) =~= json_field_models_of(s).push(
            (f.0@, json_model_of(f.1)),
        ));
    } else {
        assert(s.push(f).drop_first() =~= s.drop_first().push(f));
        lemma_json_field_models_push(s.drop_first(), f);
        assert(json_field_models_of(s.push(f)) =~= json_field_models_of(s).push(
            (f.0@, json_model_of(f.1)),
        ));
    }
}

fn is_json_ws(c: char) -> (r: bool)
    ensures
        r == json_ws(c),
{
    c == ' ' || c == '\t' || c == '\n' || c == '\r'
}

fn skip_ws(s: &Vec<char>, i: usize) -> (j: usize)
    requires
        i <= s@.len(),
    ensures
        j as int == skip_ws_spec(s@, i as int),
        i <= j <= s@.len(),
{
    let mut j = i;
    while j < s.len() && is_json_ws(s[j])
        invariant
            i <= j <= s@.len(),
            skip_ws_spec(s@, i as int) == skip_ws_spec(s@, j as int),
        decreases s@.len() - j,
    {
        j = j + 1;
    }
    j
}

fn hex_digit(c: char) -> (r: Option<u32>)
    ensures
        match r {
            Some(v) => hex_val(c) == Some(v as int) && v < 16,
            None => hex_val(c) is None,
        },
{
    let n = c as u32;
    if 0x30 <= n && n <= 0x39 {
        Some(n - 0x30)
    } else if 0x61 <= n && n <= 0x66 {
        Some(n - 0x61 + 10)
    } else if 0x41 <= n && n <= 0x46 {
        Some(n - 0x41 + 10)
    } else {
        None
    }
}

/// Relies on `char::from_u32`: `Some` exactly for values that are Unicode
/// scalar values (not surrogates, at most 0x10FFFF), holding the character
/// with that code point.
#[verifier::external_body]
fn char_from_u32(code: u32) -> (r: Option<char>)
    ensures
        (code < 0xD800 || (0xE000 <= code && code <= 0x10FFFF)) <==> r is Some,
        r matches Some(c) ==> c as u32 == code,
{
    char::from_u32(code)
}

fn escape_char(e: char) -> (r: Option<char>)
    ensures
        r == escape_char_of(e),
{
    if e == '"' {
        Some('"')
    } else if e == '\\' {
        Some('\\')
    } else if e == '/' {
        Some('/')
    } else if e == 'n' {
        Some('\n')
    } else if e == 't' {
        Some('\t')
    } else if e == 'r' {
        Some('\r')
    } else if e == 'b' {
        Some('\u{0008}')
    } else if e == 'f' {
        Some('\u{000C}')
    } else {
        None
    }
}

/// The content of a string literal, from just after the opening quote.
fn parse_string_chars(s: &Vec<char>, start: usize) -> (r: Option<(Vec<char>, usize)>)
    requires
        start <= s@.len(),
    ensures
        match r {
            Some(p) => parse_chars_spec(s@, start as int) == Some((p.0@, p.1 as int)) && start
                < p.1 <= s@.len(),
            None => parse_chars_spec(s@, start as int) is None,
        },
{
    let mut out: Vec<char> = Vec::new();
    let mut i = start;
    loop
        invariant
            start <= i <= s@.len(),
            match parse_chars_spec(s@, i as int) {
                Some(p) => parse_chars_spec(s@, start as int) == Some((out@ + p.0, p.1)),
                None => parse_chars_spec(s@, start as int) is None,
            },
        decreases s@.len() - i,
    {
        if i >= s.len() {
            return None;
        }
        let c = s[i];
        if c == '"' {
            proof {
                assert(out@ + Seq::<char>::empty() =~= out@);
            }
            return Some((out, i + 1));
        } else if c == '\\' {
            if i + 1 >= s.len() {
                return None;
            }
            let e = s[i + 1];
            if e == 'u' {
                if s.len() - i < 6 {
                    return None;
                }
                let h0 = hex_digit(s[i + 2]);
                let h1 = hex_digit(s[i + 3]);
                let h2 = hex_digit(s[i + 4]);
                let h3 = hex_digit(s[i + 5]);
                if h0.is_none() || h1.is_none() || h2.is_none() || h3.is_none() {
                    return None;
                }
                let code = h0.unwrap() * 0x1000 + h1.unwrap() * 0x100 + h2.unwrap() * 0x10
                    + h3.unwrap();
                proof {
                    assert(hex4_val(s@, i + 2) == Some(code));
                }
                if 0xD800 <= code && code < 0xE000 {
                    return None;
                }
                let c2 = char_from_u32(code).unwrap();
                let ghost out_before = out@;
                out.push(c2);
                proof {
                    assert(c2 as u32 == code);
                    vstd::utf8::char_u32_cast(c2, code);
                    assert((code as char) == c2);
                    if parse_chars_spec(s@, i + 6) is Some {
                        assert(out_before + (seq![c2] + parse_chars_spec(s@, i + 6).unwrap().0)
                            =~= out@ + parse_chars_spec(s@, i + 6).unwrap().0);
                    }
                }
                i = i + 6;
            } else {
                let ec = escape_char(e);
                match ec {
                    None => {
                        return None;
                    },
                    Some(c3) => {
                        let ghost out_before = out@;
                        out.push(c3);
                        proof {
                            if parse_chars_spec(s@, i + 2) is Some {
                                assert(out_before + (seq![c3] + parse_chars_spec(
                                    s@,
                                    i + 2,
                                ).unwrap().0) =~= out@ + parse_chars_spec(s@, i + 2).unwrap().0);
                            }
                        }
                        i = i + 2;
                    },
                }
            }
        } else {
            let ghost out_before = out@;
            out.push(c);
            proof {
                if parse_chars_spec(s@, i + 1) is Some {
                    assert(out_before + (seq![c] + parse_chars_spec(s@, i + 1).unwrap().0)
                        =~= out@ + parse_chars_spec(s@, i + 1).unwrap().0);
                }
            }
            i = i + 1;
        }
    }
}

proof fn lemma_number_end_ge(s: Seq<char>, i: int)
    ensures
        number_end_spec(s, i) >= i,
    decreases s.len() - i,
{
    if 0 <= i < s.len() && is_number_char(s[i]) {
        lemma_number_end_ge(s, i + 1);
    }
}

fn is_number_char_at(s: &Vec<char>, j: usize) -> (r: bool)
    requires
        j < s@.len(),
    ensures
        r == is_number_char(s@[j as int]),
{
    let c = s[j];
    ('0' <= c && c <= '9') || c == '-' || c == '+' || c == '.' || c == 'e' || c == 'E'
}

/// The number lexeme beginning at `i`, which must hold a number character.
fn parse_number(s: &Vec<char>, start: usize) -> (r: (Vec<char>, usize))
    requires
        start <= s@.len(),
    ensures
        r.1 as int == number_end_spec(s@, start as int),
        r.0@ == s@.subrange(start as int, r.1 as int),
        start <= r.1 <= s@.len(),
{
    let mut j = start;
    while j < s.len() && is_number_char_at(s, j)
        invariant
            start <= j <= s@.len(),
            number_end_spec(s@, start as int) == number_end_spec(s@, j as int),
        decreases s@.len() - j,
    {
        j = j + 1;
    }
    let mut lex: Vec<char> = Vec::new();
    let mut k = start;
    while k < j
        invariant
            start <= k <= j <= s@.len(),
            lex@ == s@.subrange(start as int, k as int),
        decreases j - k,
    {
        lex.push(s[k]);
        proof {
            assert(s@.subrange(start as int, k as int).push(s@[k as int]) =~= s@.subrange(
                start as int,
                k + 1,
            ));
        }
        k = k + 1;
    }
    (lex, j)
}

/// One JSON value beginning at `i`, which must not be whitespace.
fn parse_value(s: &Vec<char>, i: usize) -> (r: Option<(JsonValue, usize)>)
    requires
        i <= s@.len(),
    ensures
        match r {
            Some(p) => parse_value_spec(s@, i as int) == Some((p.0@, p.1 as int)) && i < p.1
                <= s@.len(),
            None => parse_value_spec(s@, i as int) is None,
        },
    decreases s@.len() - i,
{
    if i >= s.len() {
        return None;
    }
    let c = s[i];
    if c == 'n' {
        if s.len() - i >= 4 && s[i + 1] == 'u' && s[i + 2] == 'l' && s[i + 3] == 'l' {
            Some((JsonValue::Null, i + 4))
        } else {
            None
        }
    } else if c == 't' {
        if s.len() - i >= 4 && s[i + 1] == 'r' && s[i + 2] == 'u' && s[i + 3] == 'e' {
            Some((JsonValue::Bool(true), i + 4))
        } else {
            None
        }
    } else if c == 'f' {
        if s.len() - i >= 5 && s[i + 1] == 'a' && s[i + 2] == 'l' && s[i + 3] == 's' && s[i + 4]
            == 'e' {
            Some((JsonValue::Bool(false), i + 5))
        } else {
            None
        }
    } else if c == '"' {
        match parse_string_chars(s, i + 1) {
            Some(p) => Some((JsonValue::Text(p.0), p.1)),
            None => None,
        }
    } else if c == '[' {
        let j = skip_ws(s, i + 1);
        if j < s.len() && s[j] == ']' {
            return Some((JsonValue::Array(Vec::new()), j + 1));
        }
        let mut items: Vec<JsonValue> = Vec::new();
        let mut pos = j;
        proof {
            assert(json_models_of(items@) + parse_elements_spec(s@, j as int).unwrap().0
                =~= parse_elements_spec(s@, j as int).unwrap().0) by {
                if parse_elements_spec(s@, j as int) is Some {
                }
            }
        }
        loop
            invariant
                i < j <= pos <= s@.len(),
                s@.len() == s.len(),
                parse_value_spec(s@, i as int) == (match parse_elements_spec(s@, j as int) {
                    Some(q) => Some((JsonModel::Array(q.0), q.1)),
                    None => None::<(JsonModel, int)>,
                }),
                match parse_elements_spec(s@, pos as int) {
                    Some(p) => parse_elements_spec(s@, j as int) == Some(
                        (json_models_of(items@) + p.0, p.1),
                    ),
                    None => parse_elements_spec(s@, j as int) is None,
                },
            decreases s@.len() - pos,
        {
            match parse_value(s, pos) {
                None => {
                    return None;
                },
                Some(p) => {
                    let (v, jv) = p;
                    let j2 = skip_ws(s, jv);
                    if j2 < s.len() && s[j2] == ']' {
                        let ghost items_before = items@;
                        items.push(v);
                        proof {
                            lemma_json_models_push(items_before, v);
                            assert(json_models_of(items_before) + seq![json_model_of(v)]
                                =~= json_models_of(items@));
                        }
                        return Some((JsonValue::Array(items), j2 + 1));
                    } else if j2 < s.len() && s[j2] == ',' {
                        let j3 = skip_ws(s, j2 + 1);
                        let ghost items_before = items@;
                        items.push(v);
                        proof {
                            lemma_json_models_push(items_before, v);
                            if parse_elements_spec(s@, j3 as int) is Some {
                                assert(json_models_of(items_before) + (seq![json_model_of(v)]
                                    + parse_elements_spec(s@, j3 as int).unwrap().0)
                                    =~= json_models_of(items@) + parse_elements_spec(
                                    s@,
                                    j3 as int,
                                ).unwrap().0);
                            }
                        }
                        pos = j3;
                    } else {
                        return None;
                    }
                },
            }
        }
    } else if c == '{' {
        let j = skip_ws(s, i + 1);
        if j < s.len() && s[j] == '}' {
            return Some((JsonValue::Object(Vec::new()), j + 1));
        }
        let mut fields: Vec<(Vec<char>, JsonValue)> = Vec::new();
        let mut pos = j;
        proof {
            assert(json_field_models_of(fields@) + parse_members_spec(s@, j as int).unwrap().0
                =~= parse_members_spec(s@, j as int).unwrap().0) by {
                if parse_members_spec(s@, j as int) is Some {
                }
            }
        }
        loop
            invariant
                i < j <= pos <= s@.len(),
                s@.len() == s.len(),
                parse_value_spec(s@, i as int) == (match parse_members_spec(s@, j as int) {
                    Some(q) => Some((JsonModel::Object(q.0), q.1)),
                    None => None::<(JsonModel, int)>,
                }),
                match parse_members_spec(s@, pos as int) {
                    Some(p) => parse_members_spec(s@, j as int) == Some(
                        (json_field_models_of(fields@) + p.0, p.1),
                    ),
                    None => parse_members_spec(s@, j as int) is None,
                },
            decreases s@.len() - pos,
        {
            if !(pos < s.len() && s[pos] == '"') {
                return None;
            }
            match parse_string_chars(s, pos + 1) {
                None => {
                    return None;
                },
                Some(kp) => {
                    let (key, jk) = kp;
                    let jc = skip_ws(s, jk);
                    if !(jc < s.len() && s[jc] == ':') {
                        return None;
                    }
                    let jv0 = skip_ws(s, jc + 1);
                    match parse_value(s, jv0) {
                        None => {
                            return None;
                        },
                        Some(p) => {
                            let (v, jv) = p;
                            let j2 = skip_ws(s, jv);
                            if j2 < s.len() && s[j2] == '}' {
                                let ghost fields_before = fields@;
                                fields.push((key, v));
                                proof {
                                    lemma_json_field_models_push(
                                        fields_before,
                                        fields@[fields@.len() - 1],
                                    );
                                    assert(json_field_models_of(fields_before) + seq![
                                        (fields@[fields@.len() - 1].0@, json_model_of(
                                            fields@[fields@.len() - 1].1,
                                        )),
                                    ] =~= json_field_models_of(fields@));
                                }
                                return Some((JsonValue::Object(fields), j2 + 1));
                            } else if j2 < s.len() && s[j2] == ',' {
                                let j3 = skip_ws(s, j2 + 1);
                                let ghost fields_before = fields@;
                                fields.push((key, v));
                                proof {
                                    lemma_json_field_models_push(
                                        fields_before,
                                        fields@[fields@.len() - 1],
                                    );
                                    if parse_members_spec(s@, j3 as int) is Some {
                                        assert(json_field_models_of(fields_before) + (seq![
                                            (fields@[fields@.len() - 1].0@, json_model_of(
                                                fields@[fields@.len() - 1].1,
                                            )),
                                        ] + parse_members_spec(s@, j3 as int).unwrap().0)
                                            =~= json_field_models_of(fields@)
                                            + parse_members_spec(s@, j3 as int).unwrap().0);
                                    }
                                }
                                pos = j3;
                            } else {
                                return None;
                            }
                        },
                    }
                },
            }
        }
    } else if c == '-' || ('0' <= c && c <= '9') {
        let p = parse_number(s, i);
        let (lex, end) = p;
        proof {
            lemma_number_end_ge(s@, i as int + 1);
            assert(number_end_spec(s@, i as int) == number_end_spec(s@, i as int + 1));
        }
        Some((JsonValue::Number(lex), end))
    } else {
        None
    }
}

/// The value of the last field named `key`, the occurrence that wins when a
/// key repeats.
pub open spec fn obj_lookup(fields: Seq<(Seq<char>, JsonModel)>, key: Seq<char>) -> Option<
    JsonModel,
>
    decreases fields.len(),
{
    if fields.len() == 0 {
        None
    } else if fields.last().0 == key {
        Some(fields.last().1)
    } else {
        obj_lookup(fields.drop_last(), key)
    }
}

/// Looking a key up in a value: only objects hold fields.
pub open spec fn json_get_spec(m: JsonModel, key: Seq<char>) -> Option<JsonModel> {
    match m {
        JsonModel::Object(fields) => obj_lookup(fields, key),
        _ => None,
    }
}

/// Field models line up with the fields, index by index.
pub proof fn lemma_json_field_models_index(s: Seq<(Vec<char>, JsonValue)>, k: int)
    ensures
        json_field_models_of(s).len() == s.len(),
        0 <= k < s.len() ==> json_field_models_of(s)[k] == (s[k].0@, json_model_of(s[k].1)),
    decreases s.len(),
{
    if s.len() > 0 {
        lemma_json_field_models_index(s.drop_first(), k - 1);
    }
}

/// Value models line up with the values, index by index.
pub proof fn lemma_json_models_index(s: Seq<JsonValue>, k: int)
    ensures
        json_models_of(s).len() == s.len(),
        0 <= k < s.len() ==> json_models_of(s)[k] == json_model_of(s[k]),
    decreases s.len(),
{
    if s.len() > 0 {
        lemma_json_models_index(s.drop_first(), k - 1);
    }
}

/// The value under `key`, when `v` is an object that holds it; the last
/// occurrence wins when a key repeats.
pub fn json_get<'a>(v: &'a JsonValue, key: &Vec<char>) -> (r: Option<&'a JsonValue>)
    ensures
        match r {
            Some(x) => json_get_spec(v@, key@) == Some(x@),
            None => json_get_spec(v@, key@) is None,
        },
{
    match v {
        JsonValue::Object(fields) => {
            let ghost models = json_field_models_of(fields@);
            proof {
                lemma_json_field_models_index(fields@, 0);
                assert(models.take(models.len() as int) =~= models);
            }
            let mut idx = fields.len();
            while idx > 0
                invariant
                    idx <= fields@.len(),
                    models == json_field_models_of(fields@),
                    models.len() == fields@.len(),
                    v@ == JsonModel::Object(models),
                    obj_lookup(models, key@) == obj_lookup(models.take(idx as int), key@),
                decreases idx,
            {
                proof {
                    lemma_json_field_models_index(fields@, idx as int - 1);
                    assert(models.take(idx as int).last() == models[idx as int - 1]);
                    assert(models.take(idx as int).drop_last() =~= models.take(idx as int - 1));
                }
                if crate::text::eq_chars(&fields[idx - 1].0, key) {
                    return Some(&fields[idx - 1].1);
                }
                idx = idx - 1;
            }
            proof {
                assert(models.take(0) =~= Seq::<(Seq<char>, JsonModel)>::empty());
            }
            None
        },
        _ => None,
    }
}

/// The sixteen hexadecimal digit characters.
pub open spec fn hex_digit_char(n: int) -> char {
    if n == 0 {
        '0'
    } else if n == 1 {
        '1'
    } else if n == 2 {
        '2'
    } else if n == 3 {
        '3'
    } else if n == 4 {
        '4'
    } else if n == 5 {
        '5'
    } else if n == 6 {
        '6'
    } else if n == 7 {
        '7'
    } else if n == 8 {
        '8'
    } else if n == 9 {
        '9'
    } else if n == 10 {
        'a'
    } else if n == 11 {
        'b'
    } else if n == 12 {
        'c'
    } else if n == 13 {
        'd'
    } else if n == 14 {
        'e'
    } else {
        'f'
    }
}

fn hex_digit_of(n: u32) -> (c: char)
    requires
        n < 16,
    ensures
        c == hex_digit_char(n as int),
{
    if n == 0 {
        '0'
    } else if n == 1 {
        '1'
    } else if n == 2 {
        '2'
    } else if n == 3 {
        '3'
    } else if n == 4 {
        '4'
    } else if n == 5 {
        '5'
    } else if n == 6 {
        '6'
    } else if n == 7 {
        '7'
    } else if n == 8 {
        '8'
    } else if n == 9 {
        '9'
    } else if n == 10 {
        'a'
    } else if n == 11 {
        'b'
    } else if n == 12 {
        'c'
    } else if n == 13 {
        'd'
    } else if n == 14 {
        'e'
    } else {
        'f'
    }
}

/// How one character stands inside a JSON string literal.
pub open spec fn escaped_json_char(c: char) -> Seq<char> {
    if c == '"' {
        seq!['\\', '"']
    } else if c == '\\' {
        seq!['\\', '\\']
    } else if c == '\n' {
        seq!['\\', 'n']
    } else if c == '\r' {
        seq!['\\', 'r']
    } else if c == '\t' {
        seq!['\\', 't']
    } else if (c as u32) < 0x20 {
        seq![
            '\\',
            'u',
            '0',
            '0',
            hex_digit_char(((c as u32) / 16) as int),
            hex_digit_char(((c as u32) % 16) as int),
        ]
    } else {
        seq![c]
    }
}

/// A sequence of characters as it stands inside a JSON string literal.
pub open spec fn escape_json_spec(s: Seq<char>) -> Seq<char>
    decreases s.len(),
{
    if s.len() == 0 {
        Seq::<char>::empty()
    } else {
        escaped_json_char(s[0]) + escape_json_spec(s.drop_first())
    }
}

/// Escapes a string for embedding in a JSON string literal.
pub fn escape_json(s: &str) -> (r: String)
    ensures
        r@ == escape_json_spec(s@),
{
    let cv = crate::text::str_chars(s);
    let mut out: Vec<char> = Vec::new();
    let mut i: usize = 0;
    proof {
        assert(cv@.skip(0) =~= cv@);
        assert(out@ + escape_json_spec(cv@.skip(0)) =~= escape_json_spec(cv@));
    }
    while i < cv.len()
        invariant
            i <= cv@.len(),
            escape_json_spec(cv@) == out@ + escape_json_spec(cv@.skip(i as int)),
        decreases cv@.len() - i,
    {
        let ghost out_before = out@;
        proof {
            assert(cv@.skip(i as int).drop_first() =~= cv@.skip(i as int + 1));
            assert(cv@.skip(i as int)[0] == cv@[i as int]);
        }
        let c = cv[i];
        if c == '"' {
            out.push('\\');
            out.push('"');
        } else if c == '\\' {
            out.push('\\');
            out.push('\\');
        } else if c == '\n' {
            out.push('\\');
            out.push('n');
        } else if c == '\r' {
            out.push('\\');
            out.push('r');
        } else if c == '\t' {
            out.push('\\');
            out.push('t');
        } else if (c as u32) < 0x20 {
            out.push('\\');
            out.push('u');
            out.push('0');
            out.push('0');
            out.push(hex_digit_of((c as u32) / 16));
            out.push(hex_digit_of((c as u32) % 16));
        } else {
            out.push(c);
        }
        proof {
            assert(out@ =~= out_before + escaped_json_char(cv@[i as int]));
            assert((out_before + escaped_json_char(cv@[i as int])) + escape_json_spec(
                cv@.skip(i as int + 1),
            ) =~= out_before + (escaped_json_char(cv@[i as int]) + escape_json_spec(
                cv@.skip(i as int + 1),
            )));
        }
        i = i + 1;
    }
    proof {
        assert(cv@.skip(cv@.len() as int) =~= Seq::<char>::empty());
        assert(out@ + Seq::<char>::empty() =~= out@);
    }
    crate::text::chars_to_string(&out)
}

/// Parses a whole document.  Returns exactly what [`parse_json_spec`] says.
pub fn parse_json_chars(s: &Vec<char>) -> (r: Option<JsonValue>)
    ensures
        match r {
            Some(v) => parse_json_spec(s@) == Some(v@),
            None => parse_json_spec(s@) is None,
        },
{
    let i0 = skip_ws(s, 0);
    match parse_value(s, i0) {
        Some(p) => {
            let (v, j) = p;
            let j2 = skip_ws(s, j);
            if j2 == s.len() {
                Some(v)
            } else {
                None
            }
        },
        None => None,
    }
}

} // verus!
