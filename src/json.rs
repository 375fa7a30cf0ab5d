//! A small, lenient JSON reader. Numbers are kept as the text they were
//! written with.
use vstd::prelude::*;
use vstd::string::*;
use crate::text::push_char;

verus! {

/// A JSON value. `Number` holds the number's text; `Object` holds its
/// members in order of first appearance, each key once.
#[derive(Debug)]
pub enum JsonValue {
    String(String),
    Number(String),
    Boolean(bool),
    Null,
    Array(Vec<JsonValue>),
    Object(Vec<(String, JsonValue)>),
}

/// Relies on `char::from_u32`: a character is returned exactly for the
/// Unicode scalar values (below 0xD800, or 0xE000 to 0x10FFFF), and it has
/// that value.
#[verifier::external_body]
fn char_from_u32(v: u32) -> (r: Option<char>)
    ensures
        r is Some <==> (v < 0xD800 || (0xE000 <= v && v <= 0x10FFFF)),
        r matches Some(c) ==> c as u32 == v,
{
    char::from_u32(v)
}

pub open spec fn is_space(c: char) -> bool {
    c == ' ' || c == '\n' || c == '\t' || c == '\r'
}

pub open spec fn is_separator(c: char) -> bool {
    is_space(c) || c == ','
}

pub open spec fn is_digit(c: char) -> bool {
    '0' <= c && c <= '9'
}

/// Characters that a number's text may hold (a sign only first).
pub open spec fn is_number_char(c: char) -> bool {
    is_digit(c) || c == '.' || c == 'e' || c == 'E'
}

/// The characters of a string.
pub fn chars_of(s: &str) -> (r: Vec<char>)
    ensures
        r@ == s@,
{
    let n = s.unicode_len();
    let mut v: Vec<char> = Vec::new();
    let mut i: usize = 0;
    while i < n
        invariant
            i <= n,
            n == s@.len(),
            v@ == s@.subrange(0, i as int),
        decreases n - i,
    {
        v.push(s.get_char(i));
        i = i + 1;
        proof {
            assert(v@ =~= s@.subrange(0, i as int));
        }
    }
    proof {
        assert(v@ =~= s@);
    }
    v
}

/// Where a parse that returned `r` stopped, if it succeeded.
pub open spec fn end_of<T>(r: Option<(T, usize)>) -> Option<int> {
    match r {
        Some((_, q)) => Some(q as int),
        None => None,
    }
}

/// The first position at or after `p` that does not hold a separator.
pub open spec fn separators_end(cs: Seq<char>, p: int) -> int
    decreases cs.len() - p,
{
    if 0 <= p < cs.len() && is_separator(cs[p]) {
        separators_end(cs, p + 1)
    } else {
        p
    }
}

/// The end of `w` if it stands at `p`.
pub open spec fn word_end(cs: Seq<char>, p: int, w: Seq<char>) -> Option<int> {
    if 0 <= p && p + w.len() <= cs.len() && cs.subrange(p, p + w.len()) == w {
        Some(p + w.len())
    } else {
        None
    }
}

/// The end of `true` or `false` at `p`.
pub open spec fn keyword_end(cs: Seq<char>, p: int) -> Option<int> {
    if word_end(cs, p, "true"@) is Some {
        word_end(cs, p, "true"@)
    } else {
        word_end(cs, p, "false"@)
    }
}

/// The first position at or after `p` that does not hold a number character.
pub open spec fn number_run_end(cs: Seq<char>, p: int) -> int
    decreases cs.len() - p,
{
    if 0 <= p < cs.len() && is_number_char(cs[p]) {
        number_run_end(cs, p + 1)
    } else {
        p
    }
}

/// The end of the number that starts at `p`: the first character, then the
/// run of number characters, which together must be a well-formed number.
pub open spec fn number_end(cs: Seq<char>, p: int) -> Option<int> {
    let e = number_run_end(cs, p + 1);
    if 0 <= p < e <= cs.len() && valid_number(cs.subrange(p, e)) {
        Some(e)
    } else {
        None
    }
}

/// The position of the first character at or after `pos` that is not a
/// separator (whitespace or comma).
fn skip_separators(cs: &Vec<char>, pos: usize) -> (r: usize)
    requires
        pos <= cs@.len(),
    ensures
        pos <= r <= cs@.len(),
        r == separators_end(cs@, pos as int),
{
    let mut p = pos;
    while p < cs.len() && (cs[p] == ' ' || cs[p] == '\n' || cs[p] == '\t' || cs[p] == '\r' || cs[p]
        == ',')
        invariant
            pos <= p <= cs@.len(),
            separators_end(cs@, p as int) == separators_end(cs@, pos as int),
        decreases cs@.len() - p,
    {
        p = p + 1;
    }
    p
}

/// Whether `word` stands in `cs` at `pos`.
fn word_at(cs: &Vec<char>, pos: usize, word: &str) -> (r: bool)
    ensures
        r == (pos + word@.len() <= cs@.len() && cs@.subrange(pos as int, pos + word@.len()) == word@),
{
    let n = word.unicode_len();
    let len = cs.len();
    if n > len || pos > len - n {
        return false;
    }
    let mut i: usize = 0;
    while i < n
        invariant
            i <= n,
            len == cs@.len(),
            n == word@.len(),
            pos + n <= cs@.len(),
            forall|j: int| 0 <= j < i ==> cs@[pos + j] == word@[j],
        decreases n - i,
    {
        if cs[pos + i] != word.get_char(i) {
            proof {
                assert(cs@.subrange(pos as int, pos + n)[i as int] != word@[i as int]);
            }
            return false;
        }
        i = i + 1;
    }
    proof {
        assert(cs@.subrange(pos as int, pos + n) =~= word@);
    }
    true
}

/// `true` or `false` at `pos`.
fn parse_bool(cs: &Vec<char>, pos: usize) -> (r: Option<(JsonValue, usize)>)
    requires
        pos <= cs@.len(),
    ensures
        r matches Some((v, q)) ==> q <= cs@.len() && ((v == JsonValue::Boolean(true) && q == pos
            + 4 && cs@.subrange(pos as int, q as int) == "true"@) || (v == JsonValue::Boolean(false)
            && q == pos + 5 && cs@.subrange(pos as int, q as int) == "false"@)),
        r is None ==> !(pos + 4 <= cs@.len() && cs@.subrange(pos as int, pos + 4) == "true"@) && !(
        pos + 5 <= cs@.len() && cs@.subrange(pos as int, pos + 5) == "false"@),
        end_of(r) == keyword_end(cs@, pos as int),
{
    let _len = cs.len();
    proof {
        reveal_strlit("true");
        reveal_strlit("false");
    }
    if word_at(cs, pos, "true") {
        Some((JsonValue::Boolean(true), pos + 4))
    } else if word_at(cs, pos, "false") {
        Some((JsonValue::Boolean(false), pos + 5))
    } else {
        None
    }
}

/// `null` at `pos`.
fn parse_null(cs: &Vec<char>, pos: usize) -> (r: Option<(JsonValue, usize)>)
    requires
        pos <= cs@.len(),
    ensures
        r matches Some((v, q)) ==> v == JsonValue::Null && q == pos + 4 && q <= cs@.len()
            && cs@.subrange(pos as int, q as int) == "null"@,
        r is None ==> !(pos + 4 <= cs@.len() && cs@.subrange(pos as int, pos + 4) == "null"@),
        end_of(r) == word_end(cs@, pos as int, "null"@),
{
    let _len = cs.len();
    proof {
        reveal_strlit("null");
    }
    if word_at(cs, pos, "null") {
        Some((JsonValue::Null, pos + 4))
    } else {
        None
    }
}

/// One step of the recogniser of a number's text: states are 0 (start),
/// 1 (after a sign), 2 (integer digits), 3 (a `.` with no digit yet),
/// 4 (fraction digits), 5 (after `e`), 6 (exponent digits); -1 rejects.
pub open spec fn number_step(state: int, c: char) -> int {
    if state == 0 && (c == '-' || c == '+') {
        1
    } else if (state == 0 || state == 1 || state == 2) && is_digit(c) {
        2
    } else if (state == 0 || state == 1) && c == '.' {
        3
    } else if state == 2 && c == '.' {
        4
    } else if (state == 3 || state == 4) && is_digit(c) {
        4
    } else if (state == 2 || state == 4) && (c == 'e' || c == 'E') {
        5
    } else if (state == 5 || state == 6) && is_digit(c) {
        6
    } else {
        -1
    }
}

/// The recogniser's state after the first `n` characters of `t`.
pub open spec fn number_state(t: Seq<char>, n: nat) -> int
    decreases n,
{
    if n == 0 {
        0
    } else {
        number_step(number_state(t, (n - 1) as nat), t[n - 1])
    }
}

/// A number's text: an optional sign, digits with at most one `.` and at
/// least one digit, then optionally `e` or `E` and at least one digit.
pub open spec fn valid_number(t: Seq<char>) -> bool {
    let st = number_state(t, t.len());
    st == 2 || st == 4 || st == 6
}

fn number_text_ok(t: &String) -> (r: bool)
    ensures
        r == valid_number(t@),
{
    let cs = chars_of(t.as_str());
    let mut state: i8 = 0;
    let mut i: usize = 0;
    while i < cs.len()
        invariant
            i <= cs@.len(),
            cs@ == t@,
            state == number_state(t@, i as nat) || (state == -1 && number_state(t@, i as nat) == -1),
            -1 <= state <= 6,
        decreases cs@.len() - i,
    {
        let c = cs[i];
        let digit = '0' <= c && c <= '9';
        state = if state == 0 && (c == '-' || c == '+') {
            1
        } else if (state == 0 || state == 1 || state == 2) && digit {
            2
        } else if (state == 0 || state == 1) && c == '.' {
            3
        } else if state == 2 && c == '.' {
            4
        } else if (state == 3 || state == 4) && digit {
            4
        } else if (state == 2 || state == 4) && (c == 'e' || c == 'E') {
            5
        } else if (state == 5 || state == 6) && digit {
            6
        } else {
            -1
        };
        i = i + 1;
    }
    state == 2 || state == 4 || state == 6
}

/// The number whose text starts at `pos`: a sign, then digits, `.`, `e`, `E`.
fn parse_number(cs: &Vec<char>, pos: usize) -> (r: Option<(JsonValue, usize)>)
    requires
        pos < cs@.len(),
        is_digit(cs@[pos as int]) || cs@[pos as int] == '-',
    ensures
        r matches Some((JsonValue::Number(t), q)) ==> pos < q <= cs@.len() && t@ == cs@.subrange(
            pos as int,
            q as int,
        ) && valid_number(t@),
        r matches Some((v, _)) ==> v is Number,
        end_of(r) == number_end(cs@, pos as int),
{
    let len = cs.len();
    let mut p = pos + 1;
    while p < len && (('0' <= cs[p] && cs[p] <= '9') || cs[p] == '.' || cs[p] == 'e' || cs[p]
        == 'E')
        invariant
            pos < p <= cs@.len(),
            len == cs@.len(),
            number_run_end(cs@, p as int) == number_run_end(cs@, pos + 1),
        decreases cs@.len() - p,
    {
        p = p + 1;
    }
    let mut text = String::new();
    let mut i = pos;
    while i < p
        invariant
            pos <= i <= p <= cs@.len(),
            text@ == cs@.subrange(pos as int, i as int),
        decreases p - i,
    {
        push_char(&mut text, cs[i]);
        i = i + 1;
        proof {
            assert(text@ =~= cs@.subrange(pos as int, i as int));
        }
    }
    if !number_text_ok(&text) {
        return None;
    }
    Some((JsonValue::Number(text), p))
}

/// The value of a hexadecimal digit.
pub open spec fn hex_digit(c: char) -> Option<nat> {
    if '0' <= c && c <= '9' {
        Some((c as nat - '0' as nat) as nat)
    } else if 'a' <= c && c <= 'f' {
        Some((c as nat - 'a' as nat + 10) as nat)
    } else if 'A' <= c && c <= 'F' {
        Some((c as nat - 'A' as nat + 10) as nat)
    } else {
        None
    }
}

/// The value of the four hexadecimal digits at `q`.
pub open spec fn hex4(cs: Seq<char>, q: int) -> Option<nat> {
    match (hex_digit(cs[q]), hex_digit(cs[q + 1]), hex_digit(cs[q + 2]), hex_digit(cs[q + 3])) {
        (Some(a), Some(b), Some(c), Some(d)) => Some(((a * 16 + b) * 16 + c) * 16 + d),
        _ => None,
    }
}

/// A Unicode scalar value.
pub open spec fn is_scalar(v: nat) -> bool {
    v < 0xD800 || (0xE000 <= v && v <= 0x10FFFF)
}

/// The character after `\` in a one-character escape.
pub open spec fn is_simple_escape(e: char) -> bool {
    e == '"' || e == '\\' || e == '/' || e == 'b' || e == 'f' || e == 'n' || e == 'r' || e == 't'
}

/// The position after the closing quote of a string whose contents start
/// at `q`: escapes are a simple escape or `u` with four hexadecimal digits
/// naming a scalar value.
pub open spec fn string_rest_end(cs: Seq<char>, q: int) -> Option<int>
    decreases cs.len() - q,
{
    if !(0 <= q < cs.len()) {
        None
    } else if cs[q] == '"' {
        Some(q + 1)
    } else if cs[q] == '\\' {
        if q + 1 >= cs.len() {
            None
        } else if is_simple_escape(cs[q + 1]) {
            string_rest_end(cs, q + 2)
        } else if cs[q + 1] == 'u' && q + 6 <= cs.len() && (hex4(cs, q + 2) matches Some(v)
            && is_scalar(v)) {
            string_rest_end(cs, q + 6)
        } else {
            None
        }
    } else {
        string_rest_end(cs, q + 1)
    }
}

/// The position after the string whose opening quote is at `p`.
pub open spec fn string_end(cs: Seq<char>, p: int) -> Option<int> {
    if 0 <= p < cs.len() && cs[p] == '"' {
        string_rest_end(cs, p + 1)
    } else {
        None
    }
}

fn hex_value(c: char) -> (r: Option<u32>)
    ensures
        r matches Some(v) ==> v < 16,
        match hex_digit(c) {
            Some(d) => r == Some(d as u32),
            None => r is None,
        },
{
    if '0' <= c && c <= '9' {
        Some((c as u32) - ('0' as u32))
    } else if 'a' <= c && c <= 'f' {
        Some((c as u32) - ('a' as u32) + 10)
    } else if 'A' <= c && c <= 'F' {
        Some((c as u32) - ('A' as u32) + 10)
    } else {
        None
    }
}

/// The string whose opening quote is at `pos`, with its escapes resolved,
/// and the position after its closing quote.
fn parse_string(cs: &Vec<char>, pos: usize) -> (r: Option<(String, usize)>)
    requires
        pos <= cs@.len(),
    ensures
        r matches Some((_, q)) ==> pos + 2 <= q <= cs@.len() && cs@[pos as int] == '"' && cs@[q - 1]
            == '"',
        pos < cs@.len() && cs@[pos as int] != '"' ==> r is None,
        end_of(r) == string_end(cs@, pos as int),
{
    let len = cs.len();
    if pos >= len || cs[pos] != '"' {
        return None;
    }
    let mut s = String::new();
    let mut p = pos + 1;
    while p < len
        invariant
            pos < p <= len,
            len == cs@.len(),
            cs@[pos as int] == '"',
            string_rest_end(cs@, p as int) == string_end(cs@, pos as int),
        decreases len - p,
    {
        let c = cs[p];
        p = p + 1;
        if c == '"' {
            return Some((s, p));
        } else if c == '\\' {
            if p >= len {
                return None;
            }
            let e = cs[p];
            p = p + 1;
            if e == '"' {
                push_char(&mut s, '"');
            } else if e == '\\' {
                push_char(&mut s, '\\');
            } else if e == '/' {
                push_char(&mut s, '/');
            } else if e == 'b' {
                push_char(&mut s, '\u{0008}');
            } else if e == 'f' {
                push_char(&mut s, '\u{000c}');
            } else if e == 'n' {
                push_char(&mut s, '\n');
            } else if e == 'r' {
                push_char(&mut s, '\r');
            } else if e == 't' {
                push_char(&mut s, '\t');
            } else if e == 'u' {
                if len - p < 4 {
                    return None;
                }
                let h0 = match hex_value(cs[p]) {
                    Some(h) => h,
                    None => return None,
                };
                let h1 = match hex_value(cs[p + 1]) {
                    Some(h) => h,
                    None => return None,
                };
                let h2 = match hex_value(cs[p + 2]) {
                    Some(h) => h,
                    None => return None,
                };
                let h3 = match hex_value(cs[p + 3]) {
                    Some(h) => h,
                    None => return None,
                };
                let v: u32 = ((h0 * 16 + h1) * 16 + h2) * 16 + h3;
                p = p + 4;
                match char_from_u32(v) {
                    Some(ch) => push_char(&mut s, ch),
                    None => {
                        return None;
                    },
                }
            } else {
                return None;
            }
        } else {
            push_char(&mut s, c);
        }
    }
    None
}

/// Where the value that starts at or after `p` ends: characters that
/// cannot start a value are skipped, a closing bracket fails.
pub open spec fn value_end(cs: Seq<char>, p: int) -> Option<int>
    decreases 3 * (cs.len() - p) + 2,
{
    if !(0 <= p < cs.len()) {
        None
    } else {
        let c = cs[p];
        if c == '{' {
            object_end(cs, p)
        } else if c == '}' || c == ']' {
            None
        } else if c == '[' {
            array_end(cs, p)
        } else if c == '"' {
            string_end(cs, p)
        } else if is_digit(c) || c == '-' {
            number_end(cs, p)
        } else if c == 't' || c == 'f' {
            keyword_end(cs, p)
        } else if c == 'n' {
            word_end(cs, p, "null"@)
        } else {
            value_end(cs, p + 1)
        }
    }
}

/// Where the array whose `[` is at `p` ends.
pub open spec fn array_end(cs: Seq<char>, p: int) -> Option<int>
    decreases 3 * (cs.len() - p) + 1,
{
    if 0 <= p < cs.len() {
        array_rest_end(cs, p + 1)
    } else {
        None
    }
}

/// Where an array ends whose elements continue at `q`: separators, then
/// `]` or an element and the rest.
pub open spec fn array_rest_end(cs: Seq<char>, q: int) -> Option<int>
    decreases 3 * (cs.len() - q) + 3,
{
    let q2 = separators_end(cs, q);
    if !(0 <= q <= q2 <= cs.len()) {
        None
    } else if q2 < cs.len() && cs[q2] == ']' {
        Some(q2 + 1)
    } else {
        match value_end(cs, q2) {
            Some(r) => if q < r <= cs.len() {
                array_rest_end(cs, r)
            } else {
                None
            },
            None => None,
        }
    }
}

/// Where the object whose `{` is at `p` ends.
pub open spec fn object_end(cs: Seq<char>, p: int) -> Option<int>
    decreases 3 * (cs.len() - p) + 1,
{
    if 0 <= p < cs.len() {
        object_rest_end(cs, p + 1)
    } else {
        None
    }
}

/// Where an object ends whose members continue at `q`: separators, then
/// `}` or a string key, `:` right after it, a value and the rest.
pub open spec fn object_rest_end(cs: Seq<char>, q: int) -> Option<int>
    decreases 3 * (cs.len() - q) + 3,
{
    let q2 = separators_end(cs, q);
    if !(0 <= q <= q2 <= cs.len()) {
        None
    } else if q2 < cs.len() && cs[q2] == '}' {
        Some(q2 + 1)
    } else {
        match string_end(cs, q2) {
            None => None,
            Some(k) => if !(q2 < k < cs.len()) || cs[k] != ':' {
                None
            } else {
                match value_end(cs, k + 1) {
                    Some(r) => if q < r <= cs.len() {
                        object_rest_end(cs, r)
                    } else {
                        None
                    },
                    None => None,
                }
            },
        }
    }
}

/// The value that starts at or after `pos` and the position after it.
/// Whitespace is skipped; so is any character that cannot start a value.
fn parse_value(cs: &Vec<char>, pos: usize) -> (r: Option<(JsonValue, usize)>)
    requires
        pos <= cs@.len(),
    ensures
        r matches Some((_, q)) ==> pos < q <= cs@.len(),
        end_of(r) == value_end(cs@, pos as int),
    decreases 2 * (cs@.len() - pos) + 1,
{
    let len = cs.len();
    let mut p = pos;
    while p < len
        invariant
            pos <= p <= len,
            len == cs@.len(),
            value_end(cs@, p as int) == value_end(cs@, pos as int),
        decreases len - p,
    {
        let c = cs[p];
        if c == '{' {
            return parse_object(cs, p);
        } else if c == '}' || c == ']' {
            return None;
        } else if c == '[' {
            return parse_array(cs, p);
        } else if c == '"' {
            return match parse_string(cs, p) {
                Some((s, q)) => Some((JsonValue::String(s), q)),
                None => None,
            };
        } else if ('0' <= c && c <= '9') || c == '-' {
            return parse_number(cs, p);
        } else if c == 't' || c == 'f' {
            return parse_bool(cs, p);
        } else if c == 'n' {
            return parse_null(cs, p);
        }
        p = p + 1;
    }
    None
}

/// The array whose `[` is at `pos`. Elements may be separated by any
/// run of whitespace and commas.
fn parse_array(cs: &Vec<char>, pos: usize) -> (r: Option<(JsonValue, usize)>)
    requires
        pos < cs@.len(),
        cs@[pos as int] == '[',
    ensures
        r matches Some((v, q)) ==> pos < q <= cs@.len() && v is Array,
        end_of(r) == array_end(cs@, pos as int),
    decreases 2 * (cs@.len() - pos),
{
    let len = cs.len();
    let mut items: Vec<JsonValue> = Vec::new();
    let mut p = pos + 1;
    while p <= len
        invariant
            pos < p <= len,
            len == cs@.len(),
            array_rest_end(cs@, p as int) == array_end(cs@, pos as int),
        decreases len + 1 - p,
    {
        p = skip_separators(cs, p);
        if p < len && cs[p] == ']' {
            return Some((JsonValue::Array(items), p + 1));
        }
        match parse_value(cs, p) {
            Some((v, q)) => {
                items.push(v);
                p = q;
            },
            None => {
                return None;
            },
        }
    }
    None
}

/// The index of the member with key `key`, if any.
fn find_key(members: &Vec<(String, JsonValue)>, key: &String) -> (r: Option<usize>)
    ensures
        r matches Some(i) ==> i < members@.len() && members@[i as int].0@ == key@,
        r is None ==> forall|i: int| 0 <= i < members@.len() ==> members@[i].0@ != key@,
{
    let mut i: usize = 0;
    while i < members.len()
        invariant
            i <= members@.len(),
            forall|j: int| 0 <= j < i ==> members@[j].0@ != key@,
        decreases members@.len() - i,
    {
        if members[i].0 == *key {
            return Some(i);
        }
        i = i + 1;
    }
    None
}

/// The object whose `{` is at `pos`. Members may be separated by any run
/// of whitespace and commas; the `:` must follow the key directly. A
/// repeated key replaces the earlier value.
fn parse_object(cs: &Vec<char>, pos: usize) -> (r: Option<(JsonValue, usize)>)
    requires
        pos < cs@.len(),
        cs@[pos as int] == '{',
    ensures
        r matches Some((v, q)) ==> pos < q <= cs@.len() && v is Object,
        end_of(r) == object_end(cs@, pos as int),
    decreases 2 * (cs@.len() - pos),
{
    let len = cs.len();
    let mut members: Vec<(String, JsonValue)> = Vec::new();
    let mut p = pos + 1;
    while p <= len
        invariant
            pos < p <= len,
            len == cs@.len(),
            object_rest_end(cs@, p as int) == object_end(cs@, pos as int),
        decreases len + 1 - p,
    {
        p = skip_separators(cs, p);
        if p < len && cs[p] == '}' {
            return Some((JsonValue::Object(members), p + 1));
        }
        let (key, q) = match parse_string(cs, p) {
            Some(k) => k,
            None => {
                return None;
            },
        };
        if q >= len || cs[q] != ':' {
            return None;
        }
        match parse_value(cs, q + 1) {
            Some((v, q2)) => {
                match find_key(&members, &key) {
                    Some(i) => {
                        members.set(i, (key, v));
                    },
                    None => {
                        members.push((key, v));
                    },
                }
                p = q2;
            },
            None => {
                return None;
            },
        }
    }
    None
}

/// The first value in `chars`, if there is one: `Some` exactly when
/// `value_end` finds a value from the start.
pub fn parse_json_from_iter(chars: &Vec<char>) -> (r: Option<JsonValue>)
    ensures
        r is Some <==> value_end(chars@, 0) is Some,
{
    match parse_value(chars, 0) {
        Some((v, _)) => Some(v),
        None => None,
    }
}

/// The first value in `json_str`, if there is one: `Some` exactly when
/// `value_end` finds a value from the start.
pub fn parse_json_from_str(json_str: &str) -> (r: Option<JsonValue>)
    ensures
        r is Some <==> value_end(json_str@, 0) is Some,
{
    let cs = chars_of(json_str);
    parse_json_from_iter(&cs)
}

} // verus!
