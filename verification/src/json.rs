use vstd::prelude::*;
use vstd::string::StrSliceExecFns;

verus! {

/// An in-memory JSON document: the shape in which the persisted
/// configuration and the MCP descriptor are built and read. Numbers keep
/// their raw token text; this library never interprets them.
pub enum JsonValue {
    Null,
    Bool(bool),
    Number(String),
    Str(String),
    Array(Vec<JsonValue>),
    Object(Vec<(String, JsonValue)>),
}

/// The mathematical shape of a JSON document, used by every contract.
pub enum JsonView {
    Null,
    Bool(bool),
    Number(Seq<char>),
    Str(Seq<char>),
    Array(Seq<JsonView>),
    Object(Seq<(Seq<char>, JsonView)>),
}

impl View for JsonValue {
    type V = JsonView;

    open spec fn view(&self) -> JsonView
        decreases self,
    {
        match self {
            JsonValue::Null => JsonView::Null,
            JsonValue::Bool(b) => JsonView::Bool(*b),
            JsonValue::Number(t) => JsonView::Number(t@),
            JsonValue::Str(t) => JsonView::Str(t@),
            JsonValue::Array(vs) => JsonView::Array(view_list(vs@)),
            JsonValue::Object(ms) => JsonView::Object(view_members(ms@)),
        }
    }
}

/// The views of a sequence of values, in order.
pub open spec fn view_list(vs: Seq<JsonValue>) -> Seq<JsonView>
    decreases vs,
{
    if vs.len() == 0 {
        Seq::<JsonView>::empty()
    } else {
        seq![vs[0]@] + view_list(vs.drop_first())
    }
}

/// The views of a sequence of members, in order.
pub open spec fn view_members(ms: Seq<(String, JsonValue)>) -> Seq<(Seq<char>, JsonView)>
    decreases ms,
{
    if ms.len() == 0 {
        Seq::<(Seq<char>, JsonView)>::empty()
    } else {
        seq![(ms[0].0@, ms[0].1@)] + view_members(ms.drop_first())
    }
}

/// The first value bound to key `k` in an object's member list, if any.
pub open spec fn spec_lookup(ms: Seq<(Seq<char>, JsonView)>, k: Seq<char>) -> Option<JsonView>
    decreases ms.len(),
{
    if ms.len() == 0 {
        None
    } else if ms[0].0 == k {
        Some(ms[0].1)
    } else {
        spec_lookup(ms.drop_first(), k)
    }
}

pub open spec fn is_digit(c: char) -> bool {
    48 <= c as u32 <= 57
}

pub open spec fn is_num_char(c: char) -> bool {
    is_digit(c) || c == '-' || c == '+' || c == '.' || c == 'e' || c == 'E'
}

/// A plausible JSON number token: digits and number punctuation, starting
/// with a digit or a minus sign followed by a digit.
pub open spec fn wf_number(t: Seq<char>) -> bool {
    &&& t.len() > 0
    &&& (is_digit(t[0]) || (t[0] == '-' && t.len() > 1 && is_digit(t[1])))
    &&& forall|i: int| 0 <= i < t.len() ==> is_num_char(#[trigger] t[i])
}

/// Well-formedness of a document: every number token in it is plausible.
pub open spec fn wf_json(v: JsonView) -> bool
    decreases v,
{
    match v {
        JsonView::Null => true,
        JsonView::Bool(_) => true,
        JsonView::Number(t) => wf_number(t),
        JsonView::Str(_) => true,
        JsonView::Array(vs) => forall|i: int| 0 <= i < vs.len() ==> wf_json(#[trigger] vs[i]),
        JsonView::Object(ms) => forall|i: int|
            0 <= i < ms.len() ==> wf_json(#[trigger] ms[i].1),
    }
}

// ------------------------------------------------------------------
// Rendering: the stable, human-readable serialized form.
// ------------------------------------------------------------------

/// The lower-case hex digit for a value below 16.
pub open spec fn hex_char(n: int) -> char {
    if n == 0 { '0' } else if n == 1 { '1' } else if n == 2 { '2' } else if n == 3 { '3' }
    else if n == 4 { '4' } else if n == 5 { '5' } else if n == 6 { '6' } else if n == 7 { '7' }
    else if n == 8 { '8' } else if n == 9 { '9' } else if n == 10 { 'a' } else if n == 11 { 'b' }
    else if n == 12 { 'c' } else if n == 13 { 'd' } else if n == 14 { 'e' } else { 'f' }
}

/// How a single character appears inside a rendered JSON string literal.
pub open spec fn spec_escape_char(c: char) -> Seq<char> {
    if c == '"' { seq!['\\', '"'] }
    else if c == '\\' { seq!['\\', '\\'] }
    else if c == '\u{8}' { seq!['\\', 'b'] }
    else if c == '\t' { seq!['\\', 't'] }
    else if c == '\n' { seq!['\\', 'n'] }
    else if c == '\u{c}' { seq!['\\', 'f'] }
    else if c == '\r' { seq!['\\', 'r'] }
    else if (c as u32) < 0x20 {
        seq!['\\', 'u', '0', '0', hex_char((c as u32) as int / 16), hex_char((c as u32) as int % 16)]
    } else {
        seq![c]
    }
}

pub open spec fn spec_escape(t: Seq<char>) -> Seq<char>
    decreases t.len(),
{
    if t.len() == 0 {
        Seq::<char>::empty()
    } else {
        spec_escape_char(t[0]) + spec_escape(t.drop_first())
    }
}

/// The canonical rendering of a document: single line, `", "` between
/// members and elements, `": "` after each key.
pub open spec fn spec_render(v: JsonView) -> Seq<char>
    decreases v,
{
    match v {
        JsonView::Null => seq!['n', 'u', 'l', 'l'],
        JsonView::Bool(b) => if b {
            seq!['t', 'r', 'u', 'e']
        } else {
            seq!['f', 'a', 'l', 's', 'e']
        },
        JsonView::Number(t) => t,
        JsonView::Str(t) => seq!['"'] + spec_escape(t) + seq!['"'],
        JsonView::Array(vs) => seq!['['] + spec_render_elems(vs) + seq![']'],
        JsonView::Object(ms) => seq!['{'] + spec_render_members(ms) + seq!['}'],
    }
}

pub open spec fn spec_render_elems(vs: Seq<JsonView>) -> Seq<char>
    decreases vs,
{
    if vs.len() == 0 {
        Seq::<char>::empty()
    } else if vs.len() == 1 {
        spec_render(vs[0])
    } else {
        spec_render(vs[0]) + seq![',', ' '] + spec_render_elems(vs.drop_first())
    }
}

pub open spec fn spec_render_members(ms: Seq<(Seq<char>, JsonView)>) -> Seq<char>
    decreases ms,
{
    if ms.len() == 0 {
        Seq::<char>::empty()
    } else {
        let head = seq!['"'] + spec_escape(ms[0].0) + seq!['"', ':', ' '] + spec_render(ms[0].1);
        if ms.len() == 1 {
            head
        } else {
            head + seq![',', ' '] + spec_render_members(ms.drop_first())
        }
    }
}

// ------------------------------------------------------------------
// Parsing: the meaning of a serialized document.
// ------------------------------------------------------------------

pub open spec fn is_ws(c: char) -> bool {
    c == ' ' || c == '\t' || c == '\n' || c == '\r'
}

/// The number of characters at or after `pos`: the termination measure of
/// every parsing function.
pub open spec fn rem(s: Seq<char>, pos: int) -> int {
    if pos <= s.len() {
        s.len() - pos
    } else {
        0
    }
}

/// The first position at or after `pos` holding a non-whitespace character.
pub open spec fn sp_ws(s: Seq<char>, pos: int) -> int
    decreases rem(s, pos),
{
    if 0 <= pos < s.len() && is_ws(s[pos]) {
        sp_ws(s, pos + 1)
    } else {
        pos
    }
}

pub open spec fn is_hex(c: char) -> bool {
    is_digit(c) || (97 <= c as u32 <= 102) || (65 <= c as u32 <= 70)
}

/// The value of a hex digit character.
pub open spec fn hex_val(c: char) -> int {
    if is_digit(c) {
        c as u32 - 48
    } else if 97 <= c as u32 <= 102 {
        c as u32 - 87
    } else {
        c as u32 - 55
    }
}

/// The value of the four hex digits at `pos`, if they are there.
pub open spec fn sp_hex4(s: Seq<char>, pos: int) -> Option<int> {
    if 0 <= pos && pos + 4 <= s.len() && is_hex(s[pos]) && is_hex(s[pos + 1]) && is_hex(s[pos + 2])
        && is_hex(s[pos + 3]) {
        Some(hex_val(s[pos]) * 4096 + hex_val(s[pos + 1]) * 256 + hex_val(s[pos + 2]) * 16
            + hex_val(s[pos + 3]))
    } else {
        None
    }
}

pub open spec fn str_cons(c: char, rest: Option<(Seq<char>, int)>) -> Option<(Seq<char>, int)> {
    match rest {
        None => None,
        Some((t, p)) => Some((seq![c] + t, p)),
    }
}

/// Reads a string literal's body starting just after the opening quote;
/// yields the decoded content and the position just after the closing quote.
pub open spec fn sp_string(s: Seq<char>, pos: int) -> Option<(Seq<char>, int)>
    decreases rem(s, pos),
{
    if pos < 0 || pos >= s.len() {
        None
    } else if s[pos] == '"' {
        Some((Seq::<char>::empty(), pos + 1))
    } else if s[pos] == '\\' {
        if pos + 1 >= s.len() {
            None
        } else {
            let e = s[pos + 1];
            if e == '"' || e == '\\' || e == '/' {
                str_cons(e, sp_string(s, pos + 2))
            } else if e == 'b' {
                str_cons('\u{8}', sp_string(s, pos + 2))
            } else if e == 't' {
                str_cons('\t', sp_string(s, pos + 2))
            } else if e == 'n' {
                str_cons('\n', sp_string(s, pos + 2))
            } else if e == 'f' {
                str_cons('\u{c}', sp_string(s, pos + 2))
            } else if e == 'r' {
                str_cons('\r', sp_string(s, pos + 2))
            } else if e == 'u' {
                match sp_hex4(s, pos + 2) {
                    None => None,
                    Some(hi) => if hi < 0xD800 || hi >= 0xE000 {
                        str_cons(((hi as u32) as char), sp_string(s, pos + 6))
                    } else if hi < 0xDC00 {
                        if pos + 8 <= s.len() && s[pos + 6] == '\\' && s[pos + 7] == 'u' {
                            match sp_hex4(s, pos + 8) {
                                None => None,
                                Some(lo) => if 0xDC00 <= lo < 0xE000 {
                                    str_cons(
                                        (((0x10000 + (hi - 0xD800) * 0x400 + (lo - 0xDC00)) as u32)
                                            as char),
                                        sp_string(s, pos + 12),
                                    )
                                } else {
                                    None
                                },
                            }
                        } else {
                            None
                        }
                    } else {
                        None
                    },
                }
            } else {
                None
            }
        }
    } else if (s[pos] as u32) < 0x20 {
        None
    } else {
        str_cons(s[pos], sp_string(s, pos + 1))
    }
}

/// Collects the maximal run of number characters starting at `pos`.
pub open spec fn sp_number(s: Seq<char>, pos: int) -> (Seq<char>, int)
    decreases rem(s, pos),
{
    if 0 <= pos < s.len() && is_num_char(s[pos]) {
        let (t, p) = sp_number(s, pos + 1);
        (seq![s[pos]] + t, p)
    } else {
        (Seq::<char>::empty(), pos)
    }
}

/// A strictly larger position than `lo`, normally `p` itself: every parsing
/// step consumes at least one character, so along any reachable parse `p`
/// already exceeds `lo` and this is the identity on it.
pub open spec fn bump(lo: int, p: int) -> int {
    if p > lo {
        p
    } else {
        lo + 1
    }
}

/// Reads one JSON value starting exactly at `pos` (no leading whitespace).
pub open spec fn sp_value(s: Seq<char>, pos: int) -> Option<(JsonView, int)>
    decreases rem(s, pos), 0int,
{
    if pos < 0 || pos >= s.len() {
        None
    } else {
        let c = s[pos];
        if c == 'n' {
            if pos + 4 <= s.len() && s[pos + 1] == 'u' && s[pos + 2] == 'l' && s[pos + 3] == 'l' {
                Some((JsonView::Null, pos + 4))
            } else {
                None
            }
        } else if c == 't' {
            if pos + 4 <= s.len() && s[pos + 1] == 'r' && s[pos + 2] == 'u' && s[pos + 3] == 'e' {
                Some((JsonView::Bool(true), pos + 4))
            } else {
                None
            }
        } else if c == 'f' {
            if pos + 5 <= s.len() && s[pos + 1] == 'a' && s[pos + 2] == 'l' && s[pos + 3] == 's'
                && s[pos + 4] == 'e' {
                Some((JsonView::Bool(false), pos + 5))
            } else {
                None
            }
        } else if c == '"' {
            match sp_string(s, pos + 1) {
                None => None,
                Some((t, p)) => Some((JsonView::Str(t), p)),
            }
        } else if c == '-' || is_digit(c) {
            let (t, p) = sp_number(s, pos);
            if wf_number(t) {
                Some((JsonView::Number(t), p))
            } else {
                None
            }
        } else if c == '[' {
            let p1 = sp_ws(s, pos + 1);
            if p1 < s.len() && s[p1] == ']' {
                Some((JsonView::Array(Seq::<JsonView>::empty()), p1 + 1))
            } else {
                match sp_elems(s, bump(pos, p1)) {
                    None => None,
                    Some((vs, p2)) => if p2 < s.len() && s[p2] == ']' {
                        Some((JsonView::Array(vs), p2 + 1))
                    } else {
                        None
                    },
                }
            }
        } else if c == '{' {
            let p1 = sp_ws(s, pos + 1);
            if p1 < s.len() && s[p1] == '}' {
                Some((JsonView::Object(Seq::<(Seq<char>, JsonView)>::empty()), p1 + 1))
            } else {
                match sp_members(s, bump(pos, p1)) {
                    None => None,
                    Some((ms, p2)) => if p2 < s.len() && s[p2] == '}' {
                        Some((JsonView::Object(ms), p2 + 1))
                    } else {
                        None
                    },
                }
            }
        } else {
            None
        }
    }
}

/// Reads a comma-separated list of values; stops at the first non-whitespace
/// character after the list, which the caller expects to be `]`.
pub open spec fn sp_elems(s: Seq<char>, pos: int) -> Option<(Seq<JsonView>, int)>
    decreases rem(s, pos), 1int,
{
    if pos < 0 || pos >= s.len() {
        None
    } else {
        match sp_value(s, pos) {
        None => None,
        Some((v, p1)) => {
            let p2 = sp_ws(s, p1);
            if p2 < s.len() && s[p2] == ',' {
                let p3 = sp_ws(s, p2 + 1);
                match sp_elems(s, bump(pos, p3)) {
                    None => None,
                    Some((vs, p4)) => Some((seq![v] + vs, p4)),
                }
            } else {
                Some((seq![v], p2))
            }
        },
        }
    }
}

/// Reads a comma-separated list of `"key": value` members; stops at the
/// first non-whitespace character after the list, which the caller expects
/// to be `}`.
pub open spec fn sp_members(s: Seq<char>, pos: int) -> Option<(Seq<(Seq<char>, JsonView)>, int)>
    decreases rem(s, pos), 1int,
{
    if 0 <= pos < s.len() && s[pos] == '"' {
        match sp_string(s, pos + 1) {
            None => None,
            Some((k, p1)) => {
                let p2 = sp_ws(s, p1);
                if p2 < s.len() && s[p2] == ':' {
                    let p3 = sp_ws(s, p2 + 1);
                    match sp_value(s, bump(pos, p3)) {
                        None => None,
                        Some((v, p4)) => {
                            let p5 = sp_ws(s, p4);
                            if p5 < s.len() && s[p5] == ',' {
                                let p6 = sp_ws(s, p5 + 1);
                                match sp_members(s, bump(pos, p6)) {
                                    None => None,
                                    Some((ms, p7)) => Some((seq![(k, v)] + ms, p7)),
                                }
                            } else {
                                Some((seq![(k, v)], p5))
                            }
                        },
                    }
                } else {
                    None
                }
            },
        }
    } else {
        None
    }
}

/// The document denoted by a whole text: one value, possibly surrounded by
/// whitespace, with nothing after it.
pub open spec fn spec_parse(s: Seq<char>) -> Option<JsonView> {
    let p0 = sp_ws(s, 0);
    match sp_value(s, p0) {
        None => None,
        Some((v, p)) => {
            let p2 = sp_ws(s, p);
            if p2 == s.len() {
                Some(v)
            } else {
                None
            }
        },
    }
}


// ------------------------------------------------------------------
// Executable code.
// ------------------------------------------------------------------

/// Relies on String::push: appends the given character to the string.
#[verifier::external_body]
fn push_char(s: &mut String, c: char)
    ensures
        final(s)@ == old(s)@.push(c),
{
    s.push(c)
}

/// Relies on char::from_u32: yields the character with the given code point
/// exactly when the value is a Unicode scalar (not a surrogate, at most
/// 0x10FFFF), and nothing otherwise.
#[verifier::external_body]
fn char_from_u32(u: u32) -> (r: Option<char>)
    ensures
        (u < 0xD800 || (0xE000 <= u && u <= 0x10FFFF)) ==> r == Some(u as char),
        !(u < 0xD800 || (0xE000 <= u && u <= 0x10FFFF)) ==> r is None,
{
    char::from_u32(u)
}

/// The characters of a string, as a vector.
fn str_to_chars(s: &str) -> (r: Vec<char>)
    ensures
        r@ == s@,
{
    let n = s.unicode_len();
    let mut r: Vec<char> = Vec::new();
    let mut i: usize = 0;
    while i < n
        invariant
            n == s@.len(),
            0 <= i <= n,
            r@ == s@.take(i as int),
        decreases n - i,
    {
        r.push(s.get_char(i));
        i = i + 1;
        proof {
            assert(r@ =~= s@.take(i as int));
        }
    }
    proof {
        assert(r@ =~= s@);
    }
    r
}

/// A string holding exactly the given characters.
fn chars_to_string(v: &Vec<char>) -> (r: String)
    ensures
        r@ == v@,
{
    let mut r = String::new();
    let mut i: usize = 0;
    while i < v.len()
        invariant
            0 <= i <= v@.len(),
            r@ == v@.take(i as int),
        decreases v@.len() - i,
    {
        push_char(&mut r, v[i]);
        i = i + 1;
        proof {
            assert(r@ =~= v@.take(i as int));
        }
    }
    proof {
        assert(r@ =~= v@);
    }
    r
}

fn char_is_ws(c: char) -> (b: bool)
    ensures
        b == is_ws(c),
{
    c == ' ' || c == '\t' || c == '\n' || c == '\r'
}

fn char_is_digit(c: char) -> (b: bool)
    ensures
        b == is_digit(c),
{
    let u = c as u32;
    48 <= u && u <= 57
}

fn char_is_num(c: char) -> (b: bool)
    ensures
        b == is_num_char(c),
{
    char_is_digit(c) || c == '-' || c == '+' || c == '.' || c == 'e' || c == 'E'
}

/// The value of one hex digit, if the character is one.
fn hex_value(c: char) -> (r: Option<u32>)
    ensures
        r is Some <==> is_hex(c),
        r matches Some(v) ==> v as int == hex_val(c) && v < 16,
{
    let u = c as u32;
    if 48 <= u && u <= 57 {
        Some(u - 48)
    } else if 97 <= u && u <= 102 {
        Some(u - 87)
    } else if 65 <= u && u <= 70 {
        Some(u - 55)
    } else {
        None
    }
}

fn parse_ws(s: &Vec<char>, pos: usize) -> (r: usize)
    requires
        pos <= s@.len(),
    ensures
        r as int == sp_ws(s@, pos as int),
        pos <= r <= s@.len(),
    decreases s@.len() - pos,
{
    if pos < s.len() && char_is_ws(s[pos]) {
        parse_ws(s, pos + 1)
    } else {
        pos
    }
}

fn parse_hex4(s: &Vec<char>, pos: usize) -> (r: Option<u32>)
    requires
        pos <= s@.len(),
    ensures
        r is Some <==> sp_hex4(s@, pos as int) is Some,
        r matches Some(v) ==> sp_hex4(s@, pos as int) == Some(v as int) && v < 0x10000,
{
    if s.len() - pos >= 4 {
        let h0 = hex_value(s[pos]);
        let h1 = hex_value(s[pos + 1]);
        let h2 = hex_value(s[pos + 2]);
        let h3 = hex_value(s[pos + 3]);
        match (h0, h1, h2, h3) {
            (Some(a), Some(b), Some(c), Some(d)) => Some(a * 4096 + b * 256 + c * 16 + d),
            _ => None,
        }
    } else {
        None
    }
}

/// Maps an optional decoded tail to its view, pairing the content with the
/// position reached.
spec fn lift_chars(r: Option<(Vec<char>, usize)>) -> Option<(Seq<char>, int)> {
    match r {
        None => None,
        Some((t, p)) => Some((t@, p as int)),
    }
}

fn parse_string(s: &Vec<char>, pos: usize) -> (r: Option<(Vec<char>, usize)>)
    requires
        pos <= s@.len(),
    ensures
        lift_chars(r) == sp_string(s@, pos as int),
        r matches Some((t, p)) ==> pos < p <= s@.len(),
    decreases s@.len() - pos,
{
    if pos >= s.len() {
        None
    } else {
        let c = s[pos];
        if c == '"' {
            Some((Vec::new(), pos + 1))
        } else if c == '\\' {
            if s.len() - pos < 2 {
                None
            } else {
                let e = s[pos + 1];
                if e == '"' || e == '\\' || e == '/' {
                    prepend(e, parse_string(s, pos + 2))
                } else if e == 'b' {
                    prepend('\u{8}', parse_string(s, pos + 2))
                } else if e == 't' {
                    prepend('\t', parse_string(s, pos + 2))
                } else if e == 'n' {
                    prepend('\n', parse_string(s, pos + 2))
                } else if e == 'f' {
                    prepend('\u{c}', parse_string(s, pos + 2))
                } else if e == 'r' {
                    prepend('\r', parse_string(s, pos + 2))
                } else if e == 'u' {
                    match parse_hex4(s, pos + 2) {
                        None => None,
                        Some(hi) => {
                            if hi < 0xD800 || hi >= 0xE000 {
                                match char_from_u32(hi) {
                                    None => None,
                                    Some(ch) => prepend(ch, parse_string(s, pos + 6)),
                                }
                            } else if hi < 0xDC00 {
                                if s.len() - pos >= 8 && s[pos + 6] == '\\' && s[pos + 7] == 'u' {
                                    match parse_hex4(s, pos + 8) {
                                        None => None,
                                        Some(lo) => {
                                            if 0xDC00 <= lo && lo < 0xE000 {
                                                let combined = 0x10000 + (hi - 0xD800) * 0x400 + (
                                                lo - 0xDC00);
                                                match char_from_u32(combined) {
                                                    None => None,
                                                    Some(ch) => prepend(
                                                        ch,
                                                        parse_string(s, pos + 12),
                                                    ),
                                                }
                                            } else {
                                                None
                                            }
                                        },
                                    }
                                } else {
                                    None
                                }
                            } else {
                                None
                            }
                        },
                    }
                } else {
                    None
                }
            }
        } else if (c as u32) < 0x20 {
            None
        } else {
            prepend(c, parse_string(s, pos + 1))
        }
    }
}

/// Pushes a decoded character onto the front of a decoded tail.
fn prepend(c: char, r: Option<(Vec<char>, usize)>) -> (res: Option<(Vec<char>, usize)>)
    ensures
        lift_chars(res) == str_cons(c, lift_chars(r)),
{
    match r {
        None => None,
        Some((mut t, p)) => {
            let ghost t0 = t@;
            t.insert(0, c);
            proof {
                assert(t@ =~= seq![c] + t0);
            }
            Some((t, p))
        },
    }
}

fn parse_number(s: &Vec<char>, pos: usize) -> (r: (Vec<char>, usize))
    requires
        pos <= s@.len(),
    ensures
        r.0@ == sp_number(s@, pos as int).0,
        r.1 as int == sp_number(s@, pos as int).1,
        pos <= r.1 <= s@.len(),
        r.1 as int == pos + r.0@.len(),
    decreases s@.len() - pos,
{
    if pos < s.len() && char_is_num(s[pos]) {
        let (mut t, p) = parse_number(s, pos + 1);
        let ghost t0 = t@;
        let c = s[pos];
        t.insert(0, c);
        proof {
            assert(t@ =~= seq![c] + t0);
        }
        (t, p)
    } else {
        (Vec::new(), pos)
    }
}

fn number_ok(t: &Vec<char>) -> (b: bool)
    ensures
        b == wf_number(t@),
{
    if t.len() == 0 {
        return false;
    }
    let first = char_is_digit(t[0]) || (t[0] == '-' && t.len() > 1 && char_is_digit(t[1]));
    if !first {
        return false;
    }
    let mut i: usize = 0;
    while i < t.len()
        invariant
            0 <= i <= t@.len(),
            forall|j: int| 0 <= j < i ==> is_num_char(#[trigger] t@[j]),
        decreases t@.len() - i,
    {
        if !char_is_num(t[i]) {
            return false;
        }
        i = i + 1;
    }
    true
}


// ------------------------------------------------------------------
// View lemmas.
// ------------------------------------------------------------------

pub proof fn lemma_view_list_props(vs: Seq<JsonValue>)
    ensures
        view_list(vs).len() == vs.len(),
        forall|i: int| 0 <= i < vs.len() ==> view_list(vs)[i] == #[trigger] vs[i]@,
    decreases vs.len(),
{
    if vs.len() > 0 {
        lemma_view_list_props(vs.drop_first());
        assert(view_list(vs) == seq![vs[0]@] + view_list(vs.drop_first()));
        assert forall|i: int| 0 <= i < vs.len() implies view_list(vs)[i] == #[trigger] vs[i]@ by {
            if i > 0 {
                assert(view_list(vs)[i] == view_list(vs.drop_first())[i - 1]);
                assert(vs.drop_first()[i - 1] == vs[i]);
            }
        }
    }
}

pub proof fn lemma_view_list_cons(v: JsonValue, vs: Seq<JsonValue>)
    ensures
        view_list(seq![v] + vs) == seq![v@] + view_list(vs),
{
    let all = seq![v] + vs;
    assert(all.drop_first() =~= vs);
    assert(all[0] == v);
    assert(view_list(all) == seq![v@] + view_list(vs));
}

pub proof fn lemma_view_members_props(ms: Seq<(String, JsonValue)>)
    ensures
        view_members(ms).len() == ms.len(),
        forall|i: int| 0 <= i < ms.len() ==> view_members(ms)[i] == (
        #[trigger] ms[i].0@,
        ms[i].1@,
        ),
    decreases ms.len(),
{
    if ms.len() > 0 {
        lemma_view_members_props(ms.drop_first());
        assert(view_members(ms) == seq![(ms[0].0@, ms[0].1@)] + view_members(ms.drop_first()));
        assert forall|i: int|
            0 <= i < ms.len() implies view_members(ms)[i] == (#[trigger] ms[i].0@, ms[i].1@) by {
            if i > 0 {
                assert(view_members(ms)[i] == view_members(ms.drop_first())[i - 1]);
                assert(ms.drop_first()[i - 1] == ms[i]);
            }
        }
    }
}

pub proof fn lemma_view_members_cons(m: (String, JsonValue), ms: Seq<(String, JsonValue)>)
    ensures
        view_members(seq![m] + ms) == seq![(m.0@, m.1@)] + view_members(ms),
{
    let all = seq![m] + ms;
    assert(all.drop_first() =~= ms);
    assert(all[0] == m);
    assert(view_members(all) == seq![(m.0@, m.1@)] + view_members(ms));
}

// ------------------------------------------------------------------
// The value parser.
// ------------------------------------------------------------------

spec fn lift_val(r: Option<(JsonValue, usize)>) -> Option<(JsonView, int)> {
    match r {
        None => None,
        Some((v, p)) => Some((v@, p as int)),
    }
}

spec fn lift_list(r: Option<(Vec<JsonValue>, usize)>) -> Option<(Seq<JsonView>, int)> {
    match r {
        None => None,
        Some((vs, p)) => Some((view_list(vs@), p as int)),
    }
}

spec fn lift_members(r: Option<(Vec<(String, JsonValue)>, usize)>) -> Option<
    (Seq<(Seq<char>, JsonView)>, int),
> {
    match r {
        None => None,
        Some((ms, p)) => Some((view_members(ms@), p as int)),
    }
}

fn parse_value(s: &Vec<char>, pos: usize) -> (r: Option<(JsonValue, usize)>)
    requires
        pos <= s@.len(),
    ensures
        lift_val(r) == sp_value(s@, pos as int),
        r matches Some((v, p)) ==> pos < p <= s@.len(),
    decreases s@.len() - pos, 0int,
{
    if pos >= s.len() {
        None
    } else {
        let c = s[pos];
        if c == 'n' {
            if s.len() - pos >= 4 && s[pos + 1] == 'u' && s[pos + 2] == 'l' && s[pos + 3] == 'l' {
                Some((JsonValue::Null, pos + 4))
            } else {
                None
            }
        } else if c == 't' {
            if s.len() - pos >= 4 && s[pos + 1] == 'r' && s[pos + 2] == 'u' && s[pos + 3] == 'e' {
                Some((JsonValue::Bool(true), pos + 4))
            } else {
                None
            }
        } else if c == 'f' {
            if s.len() - pos >= 5 && s[pos + 1] == 'a' && s[pos + 2] == 'l' && s[pos + 3] == 's'
                && s[pos + 4] == 'e' {
                Some((JsonValue::Bool(false), pos + 5))
            } else {
                None
            }
        } else if c == '"' {
            match parse_string(s, pos + 1) {
                None => None,
                Some((tv, p)) => Some((JsonValue::Str(chars_to_string(&tv)), p)),
            }
        } else if c == '-' || char_is_digit(c) {
            let (tv, p) = parse_number(s, pos);
            if number_ok(&tv) {
                Some((JsonValue::Number(chars_to_string(&tv)), p))
            } else {
                None
            }
        } else if c == '[' {
            let p1 = parse_ws(s, pos + 1);
            if p1 < s.len() && s[p1] == ']' {
                let out: Vec<JsonValue> = Vec::new();
                Some((JsonValue::Array(out), p1 + 1))
            } else {
                proof {
                    assert(bump(pos as int, p1 as int) == p1 as int);
                }
                match parse_elems(s, p1) {
                    None => None,
                    Some((vs, p2)) => {
                        if p2 < s.len() && s[p2] == ']' {
                            Some((JsonValue::Array(vs), p2 + 1))
                        } else {
                            None
                        }
                    },
                }
            }
        } else if c == '{' {
            let p1 = parse_ws(s, pos + 1);
            if p1 < s.len() && s[p1] == '}' {
                let out: Vec<(String, JsonValue)> = Vec::new();
                Some((JsonValue::Object(out), p1 + 1))
            } else {
                proof {
                    assert(bump(pos as int, p1 as int) == p1 as int);
                }
                match parse_members(s, p1) {
                    None => None,
                    Some((ms, p2)) => {
                        if p2 < s.len() && s[p2] == '}' {
                            Some((JsonValue::Object(ms), p2 + 1))
                        } else {
                            None
                        }
                    },
                }
            }
        } else {
            None
        }
    }
}

fn parse_elems(s: &Vec<char>, pos: usize) -> (r: Option<(Vec<JsonValue>, usize)>)
    requires
        pos <= s@.len(),
    ensures
        lift_list(r) == sp_elems(s@, pos as int),
        r matches Some((vs, p)) ==> pos < p <= s@.len(),
    decreases s@.len() - pos, 1int,
{
    match parse_value(s, pos) {
        None => None,
        Some((v, p1)) => {
            let p2 = parse_ws(s, p1);
            if p2 < s.len() && s[p2] == ',' {
                let p3 = parse_ws(s, p2 + 1);
                proof {
                    assert(bump(pos as int, p3 as int) == p3 as int);
                }
                match parse_elems(s, p3) {
                    None => None,
                    Some((vs2, p4)) => {
                        let mut out = vs2;
                        let ghost vs0 = out@;
                        out.insert(0, v);
                        proof {
                            assert(out@ =~= seq![v] + vs0);
                            lemma_view_list_cons(v, vs0);
                        }
                        Some((out, p4))
                    },
                }
            } else {
                let mut out: Vec<JsonValue> = Vec::new();
                out.push(v);
                proof {
                    assert(out@ =~= seq![v] + Seq::<JsonValue>::empty());
                    lemma_view_list_cons(v, Seq::<JsonValue>::empty());
                    assert(seq![v@] + view_list(Seq::<JsonValue>::empty()) =~= seq![v@]);
                }
                Some((out, p2))
            }
        },
    }
}

fn parse_members(s: &Vec<char>, pos: usize) -> (r: Option<(Vec<(String, JsonValue)>, usize)>)
    requires
        pos <= s@.len(),
    ensures
        lift_members(r) == sp_members(s@, pos as int),
        r matches Some((ms, p)) ==> pos < p <= s@.len(),
    decreases s@.len() - pos, 1int,
{
    if pos < s.len() && s[pos] == '"' {
        match parse_string(s, pos + 1) {
            None => None,
            Some((kv, p1)) => {
                let k = chars_to_string(&kv);
                let p2 = parse_ws(s, p1);
                if p2 < s.len() && s[p2] == ':' {
                    let p3 = parse_ws(s, p2 + 1);
                    proof {
                        assert(bump(pos as int, p3 as int) == p3 as int);
                    }
                    match parse_value(s, p3) {
                        None => None,
                        Some((v, p4)) => {
                            let p5 = parse_ws(s, p4);
                            if p5 < s.len() && s[p5] == ',' {
                                let p6 = parse_ws(s, p5 + 1);
                                proof {
                                    assert(bump(pos as int, p6 as int) == p6 as int);
                                }
                                match parse_members(s, p6) {
                                    None => None,
                                    Some((ms2, p7)) => {
                                        let mut out = ms2;
                                        let ghost ms0 = out@;
                                        out.insert(0, (k, v));
                                        proof {
                                            assert(out@ =~= seq![(k, v)] + ms0);
                                            lemma_view_members_cons((k, v), ms0);
                                        }
                                        Some((out, p7))
                                    },
                                }
                            } else {
                                let mut out: Vec<(String, JsonValue)> = Vec::new();
                                out.push((k, v));
                                proof {
                                    assert(out@ =~= seq![(k, v)] + Seq::<(String, JsonValue)>::empty());
                                    lemma_view_members_cons((k, v), Seq::<(String, JsonValue)>::empty());
                                    assert(seq![(k@, v@)] + view_members(Seq::<(String, JsonValue)>::empty())
                                        =~= seq![(k@, v@)]);
                                }
                                Some((out, p5))
                            }
                        },
                    }
                } else {
                    None
                }
            },
        }
    } else {
        None
    }
}

/// Parses a whole text as one JSON document.
pub fn parse_json(s: &str) -> (r: Option<JsonValue>)
    ensures
        r matches Some(v) ==> spec_parse(s@) == Some(v@),
        r is None ==> spec_parse(s@) is None,
{
    let chars = str_to_chars(s);
    let p0 = parse_ws(&chars, 0);
    match parse_value(&chars, p0) {
        None => None,
        Some((v, p)) => {
            let p2 = parse_ws(&chars, p);
            if p2 == chars.len() {
                Some(v)
            } else {
                None
            }
        },
    }
}


// ------------------------------------------------------------------
// The renderer.
// ------------------------------------------------------------------

pub proof fn lemma_escape_concat(a: Seq<char>, b: Seq<char>)
    ensures
        spec_escape(a + b) == spec_escape(a) + spec_escape(b),
    decreases a.len(),
{
    if a.len() == 0 {
        assert(a + b =~= b);
        assert(spec_escape(a) + spec_escape(b) =~= spec_escape(b));
    } else {
        assert((a + b).drop_first() =~= a.drop_first() + b);
        assert((a + b)[0] == a[0]);
        lemma_escape_concat(a.drop_first(), b);
        assert(spec_escape_char(a[0]) + (spec_escape(a.drop_first()) + spec_escape(b)) =~= (
        spec_escape_char(a[0]) + spec_escape(a.drop_first())) + spec_escape(b));
    }
}

fn hex_char_of(n: u32) -> (r: char)
    requires
        n < 16,
    ensures
        r == hex_char(n as int),
{
    if n == 0 { '0' } else if n == 1 { '1' } else if n == 2 { '2' } else if n == 3 { '3' }
    else if n == 4 { '4' } else if n == 5 { '5' } else if n == 6 { '6' } else if n == 7 { '7' }
    else if n == 8 { '8' } else if n == 9 { '9' } else if n == 10 { 'a' } else if n == 11 { 'b' }
    else if n == 12 { 'c' } else if n == 13 { 'd' } else if n == 14 { 'e' } else { 'f' }
}

fn push_escaped_char(out: &mut Vec<char>, c: char)
    ensures
        final(out)@ == old(out)@.add(spec_escape_char(c)),
{
    let ghost pre = out@;
    if c == '"' {
        out.push('\\');
        out.push('"');
    } else if c == '\\' {
        out.push('\\');
        out.push('\\');
    } else if c == '\u{8}' {
        out.push('\\');
        out.push('b');
    } else if c == '\t' {
        out.push('\\');
        out.push('t');
    } else if c == '\n' {
        out.push('\\');
        out.push('n');
    } else if c == '\u{c}' {
        out.push('\\');
        out.push('f');
    } else if c == '\r' {
        out.push('\\');
        out.push('r');
    } else if (c as u32) < 0x20 {
        let u = c as u32;
        out.push('\\');
        out.push('u');
        out.push('0');
        out.push('0');
        out.push(hex_char_of(u / 16));
        out.push(hex_char_of(u % 16));
    } else {
        out.push(c);
    }
    proof {
        assert(out@ =~= pre + spec_escape_char(c));
    }
}

fn push_escaped_str(out: &mut Vec<char>, s: &str)
    ensures
        final(out)@ == old(out)@.add(spec_escape(s@)),
{
    let n = s.unicode_len();
    let mut i: usize = 0;
    while i < n
        invariant
            n == s@.len(),
            0 <= i <= n,
            out@ == old(out)@.add(spec_escape(s@.take(i as int))),
        decreases n - i,
    {
        let c = s.get_char(i);
        push_escaped_char(out, c);
        proof {
            assert(s@.take(i + 1 as int) =~= s@.take(i as int) + seq![s@[i as int]]);
            lemma_escape_concat(s@.take(i as int), seq![s@[i as int]]);
            assert(seq![s@[i as int]].drop_first() =~= Seq::<char>::empty());
            assert(spec_escape(Seq::<char>::empty()) =~= Seq::<char>::empty());
            assert(spec_escape(seq![s@[i as int]]) == spec_escape_char(seq![s@[i as int]][0])
                + spec_escape(seq![s@[i as int]].drop_first()));
            assert(spec_escape_char(s@[i as int]) + Seq::<char>::empty() =~= spec_escape_char(
                s@[i as int],
            ));
            assert(spec_escape(seq![s@[i as int]]) =~= spec_escape_char(s@[i as int]));
            assert(old(out)@ + spec_escape(s@.take(i as int)) + spec_escape_char(s@[i as int]) =~= old(
                out,
            )@ + (spec_escape(s@.take(i as int)) + spec_escape_char(s@[i as int])));
        }
        i = i + 1;
    }
    proof {
        assert(s@.take(n as int) =~= s@);
    }
}

fn push_raw_str(out: &mut Vec<char>, s: &str)
    ensures
        final(out)@ == old(out)@.add(s@),
{
    let n = s.unicode_len();
    let mut i: usize = 0;
    while i < n
        invariant
            n == s@.len(),
            0 <= i <= n,
            out@ == old(out)@.add(s@.take(i as int)),
        decreases n - i,
    {
        out.push(s.get_char(i));
        i = i + 1;
        proof {
            assert(out@ =~= old(out)@ + s@.take(i as int));
        }
    }
    proof {
        assert(s@.take(n as int) =~= s@);
    }
}

fn render_value(out: &mut Vec<char>, v: &JsonValue)
    ensures
        final(out)@ == old(out)@.add(spec_render(v@)),
    decreases v, 0int, 0int,
{
    let ghost pre = out@;
    match v {
        JsonValue::Null => {
            out.push('n');
            out.push('u');
            out.push('l');
            out.push('l');
            proof {
                assert(out@ =~= pre + spec_render(v@));
            }
        },
        JsonValue::Bool(b) => {
            if *b {
                out.push('t');
                out.push('r');
                out.push('u');
                out.push('e');
            } else {
                out.push('f');
                out.push('a');
                out.push('l');
                out.push('s');
                out.push('e');
            }
            proof {
                assert(out@ =~= pre + spec_render(v@));
            }
        },
        JsonValue::Number(tx) => {
            push_raw_str(out, tx.as_str());
        },
        JsonValue::Str(tx) => {
            out.push('"');
            push_escaped_str(out, tx.as_str());
            out.push('"');
            proof {
                assert(out@ =~= pre + spec_render(v@));
            }
        },
        JsonValue::Array(vs) => {
            out.push('[');
            if vs.len() > 0 {
                render_elems(out, vs, 0);
                proof {
                    assert(view_list(vs@).skip(0) =~= view_list(vs@));
                }
            }
            out.push(']');
            proof {
                if vs@.len() == 0 {
                    assert(view_list(vs@) =~= Seq::<JsonView>::empty());
                }
                assert(out@ =~= pre + spec_render(v@));
            }
        },
        JsonValue::Object(ms) => {
            out.push('{');
            if ms.len() > 0 {
                render_members(out, ms, 0);
                proof {
                    assert(view_members(ms@).skip(0) =~= view_members(ms@));
                }
            }
            out.push('}');
            proof {
                if ms@.len() == 0 {
                    assert(view_members(ms@) =~= Seq::<(Seq<char>, JsonView)>::empty());
                }
                assert(out@ =~= pre + spec_render(v@));
            }
        },
    }
}

fn render_elems(out: &mut Vec<char>, vs: &Vec<JsonValue>, idx: usize)
    requires
        idx < vs@.len(),
    ensures
        final(out)@ == old(out)@.add(spec_render_elems(view_list(vs@).skip(idx as int))),
    decreases vs@, vs@.len() - idx, 1int,
{
    let ghost pre = out@;
    let ghost w = view_list(vs@);
    proof {
        lemma_view_list_props(vs@);
    }
    render_value(out, &vs[idx]);
    if vs.len() - idx > 1 {
        out.push(',');
        out.push(' ');
        render_elems(out, vs, idx + 1);
        proof {
            assert(w.skip(idx as int).drop_first() =~= w.skip(idx + 1 as int));
            assert(w.skip(idx as int)[0] == w[idx as int]);
            assert(w.skip(idx as int).len() == vs@.len() - idx);
            assert(out@ =~= pre + spec_render_elems(w.skip(idx as int)));
        }
    } else {
        proof {
            assert(w.skip(idx as int).len() == 1);
            assert(w.skip(idx as int)[0] == w[idx as int]);
            assert(out@ =~= pre + spec_render_elems(w.skip(idx as int)));
        }
    }
}

fn render_members(out: &mut Vec<char>, ms: &Vec<(String, JsonValue)>, idx: usize)
    requires
        idx < ms@.len(),
    ensures
        final(out)@ == old(out)@.add(spec_render_members(view_members(ms@).skip(idx as int))),
    decreases ms@, ms@.len() - idx, 1int,
{
    let ghost pre = out@;
    let ghost w = view_members(ms@);
    proof {
        lemma_view_members_props(ms@);
    }
    out.push('"');
    push_escaped_str(out, ms[idx].0.as_str());
    out.push('"');
    out.push(':');
    out.push(' ');
    render_value(out, &ms[idx].1);
    if ms.len() - idx > 1 {
        out.push(',');
        out.push(' ');
        render_members(out, ms, idx + 1);
        proof {
            assert(w.skip(idx as int).drop_first() =~= w.skip(idx + 1 as int));
            assert(w.skip(idx as int)[0] == w[idx as int]);
            assert(w.skip(idx as int).len() == ms@.len() - idx);
            assert(out@ =~= pre + spec_render_members(w.skip(idx as int)));
        }
    } else {
        proof {
            assert(w.skip(idx as int).len() == 1);
            assert(w.skip(idx as int)[0] == w[idx as int]);
            assert(out@ =~= pre + spec_render_members(w.skip(idx as int)));
        }
    }
}

/// Renders a document in the canonical serialized form.
pub fn render_json(v: &JsonValue) -> (r: String)
    ensures
        r@ == spec_render(v@),
{
    let mut out: Vec<char> = Vec::new();
    render_value(&mut out, v);
    chars_to_string(&out)
}

// ------------------------------------------------------------------
// Reading an object.
// ------------------------------------------------------------------

/// Character-for-character string comparison.
pub fn str_eq(a: &str, b: &str) -> (r: bool)
    ensures
        r == (a@ == b@),
{
    let na = a.unicode_len();
    let nb = b.unicode_len();
    if na != nb {
        return false;
    }
    let mut i: usize = 0;
    while i < na
        invariant
            na == a@.len(),
            nb == b@.len(),
            na == nb,
            0 <= i <= na,
            forall|j: int| 0 <= j < i ==> a@[j] == b@[j],
        decreases na - i,
    {
        if a.get_char(i) != b.get_char(i) {
            return false;
        }
        i = i + 1;
    }
    proof {
        assert(a@ =~= b@);
    }
    true
}

/// The value bound to key `k` in an object member list, if any: the first
/// binding wins.
pub fn lookup_member<'a>(ms: &'a Vec<(String, JsonValue)>, k: &str) -> (r: Option<&'a JsonValue>)
    ensures
        r matches Some(v) ==> spec_lookup(view_members(ms@), k@) == Some(v@),
        r is None ==> spec_lookup(view_members(ms@), k@) is None,
{
    let ghost w = view_members(ms@);
    proof {
        lemma_view_members_props(ms@);
    }
    let mut i: usize = 0;
    proof {
        assert(w.skip(0) =~= w);
    }
    while i < ms.len()
        invariant
            0 <= i <= ms@.len(),
            w == view_members(ms@),
            w.len() == ms@.len(),
            forall|j: int| 0 <= j < ms@.len() ==> w[j] == (#[trigger] ms@[j].0@, ms@[j].1@),
            spec_lookup(w, k@) == spec_lookup(w.skip(i as int), k@),
        decreases ms@.len() - i,
    {
        if str_eq(ms[i].0.as_str(), k) {
            proof {
                assert(w.skip(i as int)[0] == w[i as int]);
            }
            return Some(&ms[i].1);
        }
        proof {
            assert(w.skip(i as int)[0] == w[i as int]);
            assert(w.skip(i as int).drop_first() =~= w.skip(i + 1 as int));
        }
        i = i + 1;
    }
    proof {
        assert(w.skip(i as int).len() == 0);
    }
    None
}


// ------------------------------------------------------------------
// Decoding inverts escaping.
// ------------------------------------------------------------------


/// Every hex digit this library writes reads back as its own value.
proof fn lemma_hex_char_val(n: int)
    requires
        0 <= n < 16,
    ensures
        is_hex(hex_char(n)),
        hex_val(hex_char(n)) == n,
{
}

/// A `\u00XX` escape for a control character reads back as that character.
#[verifier::rlimit(60)]
proof fn lemma_sp_string_control_escape(s: Seq<char>, pos: int, c: char)
    requires
        0 <= pos,
        pos + 6 <= s.len(),
        (c as u32) < 0x20,
        s[pos] == '\\',
        s[pos + 1] == 'u',
        s[pos + 2] == '0',
        s[pos + 3] == '0',
        s[pos + 4] == hex_char((c as u32) as int / 16),
        s[pos + 5] == hex_char((c as u32) as int % 16),
    ensures
        sp_string(s, pos) == str_cons(c, sp_string(s, pos + 6)),
{
    let cu = (c as u32) as int;
    assert(0 <= cu / 16 < 16 && 0 <= cu % 16 < 16);
    lemma_hex_char_val(cu / 16);
    lemma_hex_char_val(cu % 16);
    assert(is_hex('0') && hex_val('0') == 0);
    assert(sp_hex4(s, pos + 2) == Some(
        hex_val(s[pos + 2]) * 4096 + hex_val(s[pos + 3]) * 256 + hex_val(s[pos + 4]) * 16
            + hex_val(s[pos + 5]),
    ));
    assert(hex_val(s[pos + 2]) * 4096 + hex_val(s[pos + 3]) * 256 + hex_val(s[pos + 4]) * 16
        + hex_val(s[pos + 5]) == (cu / 16) * 16 + cu % 16);
    assert((cu / 16) * 16 + cu % 16 == cu);
    assert(sp_hex4(s, pos + 2) == Some(cu));
    assert(cu < 0xD800);
    assert(((cu as u32) as char) == c);
}

/// Reading a string literal body that holds the escaped form of `t`,
/// followed by the closing quote, yields exactly `t` and stops just after
/// that quote: one direction of the round trip, for string contents.
#[verifier::rlimit(100)]
pub proof fn lemma_string_round_trip(s: Seq<char>, pos: int, t: Seq<char>)
    requires
        0 <= pos,
        pos + spec_escape(t).len() + 1 <= s.len(),
        s.subrange(pos, pos + spec_escape(t).len() + 1) == spec_escape(t) + seq!['"'],
    ensures
        sp_string(s, pos) == Some((t, pos + spec_escape(t).len() + 1)),
    decreases t.len(),
{
    let esc = spec_escape(t);
    let sub = esc + seq!['"'];
    assert forall|i: int| 0 <= i < sub.len() implies s[pos + i] == sub[i] by {
        assert(s.subrange(pos, pos + esc.len() + 1)[i] == s[pos + i]);
    }
    if t.len() == 0 {
        assert(esc =~= Seq::<char>::empty());
        assert(s[pos + 0] == sub[0]);
        assert(sub[0] == '"');
    } else {
        let c = t[0];
        let t1 = t.drop_first();
        let e = spec_escape_char(c);
        let el = e.len();
        assert(esc == e + spec_escape(t1));
        assert(seq![c] + t1 =~= t);
        assert forall|i: int| 0 <= i < el implies s[pos + i] == e[i] by {
            assert(sub[i] == e[i]);
        }
        assert(sub =~= e + (spec_escape(t1) + seq!['"']));
        assert forall|j: int| 0 <= j < spec_escape(t1).len() + 1 implies s[pos + el + j] == (
        spec_escape(t1) + seq!['"'])[j] by {
            assert(sub[el + j] == (spec_escape(t1) + seq!['"'])[j]);
        }
        assert(s.subrange(pos + el, pos + el + spec_escape(t1).len() + 1) =~= spec_escape(t1)
            + seq!['"']);
        lemma_string_round_trip(s, pos + el, t1);
        if c == '"' {
            assert(s[pos] == '\\' && s[pos + 1] == '"');
            assert(sp_string(s, pos) == str_cons('"', sp_string(s, pos + 2)));
        } else if c == '\\' {
            assert(s[pos] == '\\' && s[pos + 1] == '\\');
            assert(sp_string(s, pos) == str_cons('\\', sp_string(s, pos + 2)));
        } else if c == '\u{8}' {
            assert(s[pos] == '\\' && s[pos + 1] == 'b');
            assert(sp_string(s, pos) == str_cons('\u{8}', sp_string(s, pos + 2)));
        } else if c == '\t' {
            assert(s[pos] == '\\' && s[pos + 1] == 't');
            assert(sp_string(s, pos) == str_cons('\t', sp_string(s, pos + 2)));
        } else if c == '\n' {
            assert(s[pos] == '\\' && s[pos + 1] == 'n');
            assert(sp_string(s, pos) == str_cons('\n', sp_string(s, pos + 2)));
        } else if c == '\u{c}' {
            assert(s[pos] == '\\' && s[pos + 1] == 'f');
            assert(sp_string(s, pos) == str_cons('\u{c}', sp_string(s, pos + 2)));
        } else if c == '\r' {
            assert(s[pos] == '\\' && s[pos + 1] == 'r');
            assert(sp_string(s, pos) == str_cons('\r', sp_string(s, pos + 2)));
        } else if (c as u32) < 0x20 {
            let cu = (c as u32) as int;
            assert(e == seq!['\\', 'u', '0', '0', hex_char(cu / 16), hex_char(cu % 16)]);
            assert(s[pos] == '\\' && s[pos + 1] == 'u');
            assert(s[pos + 2] == '0' && s[pos + 3] == '0');
            assert(s[pos + 4] == hex_char(cu / 16) && s[pos + 5] == hex_char(cu % 16));
            assert(pos + 6 <= s.len());
            lemma_sp_string_control_escape(s, pos, c);
        } else {
            assert(e == seq![c]);
            assert(s[pos] == c);
            assert(c != '"' && c != '\\' && !((c as u32) < 0x20));
            assert(sp_string(s, pos) == str_cons(c, sp_string(s, pos + 1)));
        }
        assert(sp_string(s, pos) == Some((t, pos + esc.len() + 1)));
    }
}


/// A document with no nesting and no number token: what the settings record
/// is made of.
pub open spec fn is_leaf(v: JsonView) -> bool {
    v is Null || v is Bool || v is Str
}

/// Reading text that holds the rendering of a leaf document yields exactly
/// that document and stops just after it.
pub proof fn lemma_sp_value_leaf(s: Seq<char>, pos: int, v: JsonView)
    requires
        0 <= pos,
        is_leaf(v),
        pos + spec_render(v).len() <= s.len(),
        s.subrange(pos, pos + spec_render(v).len()) == spec_render(v),
    ensures
        sp_value(s, pos) == Some((v, pos + spec_render(v).len())),
{
    let rv = spec_render(v);
    assert forall|i: int| 0 <= i < rv.len() implies s[pos + i] == rv[i] by {
        assert(s.subrange(pos, pos + rv.len())[i] == s[pos + i]);
    }
    match v {
        JsonView::Null => {
            assert(s[pos + 0] == 'n' && s[pos + 1] == 'u' && s[pos + 2] == 'l' && s[pos + 3]
                == 'l');
        },
        JsonView::Bool(b) => {
            if b {
                assert(s[pos + 0] == 't' && s[pos + 1] == 'r' && s[pos + 2] == 'u' && s[pos + 3]
                    == 'e');
            } else {
                assert(s[pos + 0] == 'f' && s[pos + 1] == 'a' && s[pos + 2] == 'l' && s[pos + 3]
                    == 's' && s[pos + 4] == 'e');
            }
        },
        JsonView::Str(tx) => {
            assert(rv == seq!['"'] + spec_escape(tx) + seq!['"']);
            assert(s[pos + 0] == rv[0]);
            assert(rv[0] == (seq!['"'] + spec_escape(tx))[0]);
            assert(rv[0] == '"');
            assert(s[pos + 0] == '"');
            assert(rv.len() == spec_escape(tx).len() + 2);
            assert forall|j: int| 0 <= j < spec_escape(tx).len() + 1 implies s[pos + 1 + j] == (
            spec_escape(tx) + seq!['"'])[j] by {
                assert(rv =~= seq!['"'] + (spec_escape(tx) + seq!['"']));
                assert(s[pos + (1 + j)] == rv[1 + j]);
            }
            assert(s.subrange(pos + 1, pos + 1 + spec_escape(tx).len() + 1) =~= spec_escape(tx)
                + seq!['"']);
            lemma_string_round_trip(s, pos + 1, tx);
        },
        _ => {},
    }
}


proof fn lemma_leaf_first_char(v: JsonView)
    requires
        is_leaf(v),
    ensures
        spec_render(v).len() > 0,
        !is_ws(spec_render(v)[0]),
        spec_render(v)[0] != ',',
{
    match v {
        JsonView::Str(tx) => {
            assert(spec_render(v) == seq!['"'] + spec_escape(tx) + seq!['"']);
            assert(spec_render(v)[0] == (seq!['"'] + spec_escape(tx))[0]);
        },
        _ => {},
    }
}

pub proof fn lemma_members_first_char(ms: Seq<(Seq<char>, JsonView)>)
    requires
        ms.len() > 0,
    ensures
        spec_render_members(ms).len() > 0,
        spec_render_members(ms)[0] == '"',
{
    let ke = spec_escape(ms[0].0);
    let head = seq!['"'] + ke + seq!['"', ':', ' '] + spec_render(ms[0].1);
    assert(head[0] == ((seq!['"'] + ke) + seq!['"', ':', ' '])[0]);
    assert(head[0] == (seq!['"'] + ke)[0]);
    assert(head[0] == '"');
    if ms.len() > 1 {
        assert(spec_render_members(ms)[0] == (head + seq![',', ' '])[0]);
    }
}

/// Reading text that holds the rendering of a nonempty member list of leaf
/// values, followed by a terminator that is neither whitespace nor a comma,
/// yields exactly those members and stops at the terminator.
#[verifier::rlimit(100)]
pub proof fn lemma_sp_members_round(s: Seq<char>, pos: int, ms: Seq<(Seq<char>, JsonView)>)
    requires
        0 <= pos,
        ms.len() > 0,
        forall|i: int| 0 <= i < ms.len() ==> is_leaf(#[trigger] ms[i].1),
        pos + spec_render_members(ms).len() < s.len(),
        s.subrange(pos, pos + spec_render_members(ms).len()) == spec_render_members(ms),
        !is_ws(s[pos + spec_render_members(ms).len()]),
        s[pos + spec_render_members(ms).len()] != ',',
    ensures
        sp_members(s, pos) == Some((ms, pos + spec_render_members(ms).len())),
    decreases ms.len(),
{
    let m = spec_render_members(ms);
    let k = ms[0].0;
    let v = ms[0].1;
    let ke = spec_escape(k);
    let rv = spec_render(v);
    let head = seq!['"'] + ke + seq!['"', ':', ' '] + rv;
    let hl = head.len() as int;
    let kl = ke.len() as int;
    let rl = rv.len() as int;
    assert(hl == kl + 4 + rl);
    assert forall|i: int| 0 <= i < m.len() implies s[pos + i] == m[i] by {
        assert(s.subrange(pos, pos + m.len())[i] == s[pos + i]);
    }
    assert forall|i: int| 0 <= i < hl implies m[i] == head[i] by {
        if ms.len() > 1 {
            assert(m == head + seq![',', ' '] + spec_render_members(ms.drop_first()));
            assert(m =~= (head + seq![',', ' ']) + spec_render_members(ms.drop_first()));
            assert(m[i] == (head + seq![',', ' '])[i]);
        }
    }
    assert(head =~= seq!['"'] + (ke + (seq!['"', ':', ' '] + rv)));
    // The key string literal.
    assert(head[0] == '"');
    assert(s[pos + 0] == '"');
    assert forall|j: int| 0 <= j < ke.len() + 1 implies s[pos + 1 + j] == (ke + seq!['"'])[j] by {
        assert(s[pos + (1 + j)] == m[1 + j]);
        assert(m[1 + j] == head[1 + j]);
        assert(head[1 + j] == (ke + (seq!['"', ':', ' '] + rv))[j]);
        if j < ke.len() {
            assert((ke + (seq!['"', ':', ' '] + rv))[j] == ke[j]);
        } else {
            assert((ke + (seq!['"', ':', ' '] + rv))[j] == (seq!['"', ':', ' '] + rv)[0]);
        }
    }
    assert(s.subrange(pos + 1, pos + 1 + ke.len() + 1) =~= ke + seq!['"']);
    lemma_string_round_trip(s, pos + 1, k);
    let q = pos + 1 + kl + 1;
    assert(sp_string(s, pos + 1) == Some((k, q)));
    // The colon and the single space after it.
    assert(head[kl + 2] == (ke + (seq!['"', ':', ' '] + rv))[kl + 1]);
    assert(head[kl + 2] == (seq!['"', ':', ' '] + rv)[1]);
    assert(s[q] == m[kl + 2]);
    assert(s[q] == ':');
    assert(sp_ws(s, q) == q);
    assert(head[kl + 3] == (seq!['"', ':', ' '] + rv)[2]);
    assert(s[q + 1] == m[kl + 3]);
    assert(s[q + 1] == ' ');
    lemma_leaf_first_char(v);
    assert(head[kl + 4] == (ke + (seq!['"', ':', ' '] + rv))[kl + 3]);
    assert(head[kl + 4] == (seq!['"', ':', ' '] + rv)[3]);
    assert(head[kl + 4] == rv[0]);
    assert(s[q + 2] == m[kl + 4]);
    assert(s[q + 2] == rv[0]);
    assert(sp_ws(s, q + 1) == sp_ws(s, q + 2));
    assert(sp_ws(s, q + 2) == q + 2);
    let p3 = q + 2;
    assert(bump(pos, p3) == p3);
    // The member's value.
    assert forall|j: int| 0 <= j < rv.len() implies s[p3 + j] == rv[j] by {
        assert(s[pos + (kl + 4 + j)] == m[kl + 4 + j]);
        assert(m[kl + 4 + j] == head[kl + 4 + j]);
        assert(head =~= (seq!['"'] + ke + seq!['"', ':', ' ']) + rv);
        assert(head[kl + 4 + j] == rv[j]);
    }
    assert(s.subrange(p3, p3 + rv.len()) =~= rv);
    lemma_sp_value_leaf(s, p3, v);
    let p4 = p3 + rl;
    assert(p4 == pos + hl);
    assert(sp_value(s, p3) == Some((v, p4)));
    if ms.len() == 1 {
        assert(m == head);
        assert(p4 == pos + m.len());
        assert(sp_ws(s, p4) == p4);
        assert(s[p4] != ',');
        assert(seq![(k, v)] =~= ms);
        assert(sp_members(s, pos) == Some((ms, p4)));
    } else {
        let ms1 = ms.drop_first();
        let rest = spec_render_members(ms1);
        assert(m == head + seq![',', ' '] + rest);
        assert(m =~= head + (seq![',', ' '] + rest));
        assert(m.len() == hl + 2 + rest.len() as int);
        assert(m[hl] == (seq![',', ' '] + rest)[0]);
        assert(s[p4] == m[hl]);
        assert(s[p4] == ',');
        assert(sp_ws(s, p4) == p4);
        assert(m[hl + 1] == (seq![',', ' '] + rest)[1]);
        assert(s[p4 + 1] == m[hl + 1]);
        assert(s[p4 + 1] == ' ');
        lemma_members_first_char(ms1);
        assert(m[hl + 2] == (seq![',', ' '] + rest)[2]);
        assert(m[hl + 2] == rest[0]);
        assert(s[p4 + 2] == m[hl + 2]);
        assert(s[p4 + 2] == '"');
        assert(sp_ws(s, p4 + 1) == sp_ws(s, p4 + 2));
        assert(sp_ws(s, p4 + 2) == p4 + 2);
        let p6 = p4 + 2;
        assert(bump(pos, p6) == p6);
        assert forall|j: int| 0 <= j < rest.len() implies s[p6 + j] == rest[j] by {
            assert(s[pos + (hl + 2 + j)] == m[hl + 2 + j]);
            assert(m =~= (head + seq![',', ' ']) + rest);
            assert(m[hl + 2 + j] == rest[j]);
        }
        assert(s.subrange(p6, p6 + rest.len()) =~= rest);
        assert(p6 + rest.len() == pos + m.len());
        assert forall|i: int| 0 <= i < ms1.len() implies is_leaf(#[trigger] ms1[i].1) by {
            assert(ms1[i] == ms[i + 1]);
        }
        lemma_sp_members_round(s, p6, ms1);
        assert(sp_members(s, p6) == Some((ms1, pos + m.len())));
        assert(seq![(k, v)] + ms1 =~= ms);
        assert(sp_members(s, pos) == Some((ms, pos + m.len())));
    }
}

} // verus!
