//! A recursive-descent parser for the textual tag grammar of components.
use vstd::prelude::*;
use crate::chars::{is_digit, is_space, is_whitespace};
use crate::content::{
    Content, ContentModel, NbtSource, Object, ObjectModel, ObjectPlayer, PlayerModel, PlayerProperties, Resolvable, ResolvableModel,
    SourceModel, entity_separator_model, nbt_separator_model,
};
use crate::custom::{CustomData, Payload};
use crate::format::{Color, Format, FormatModel, empty_format, hex_color, parse_hex_color};
use crate::interactivity::{ClickEvent, ClickModel, HoverEvent, HoverModel, Interactivity, InteractivityModel, empty_interactions};
use crate::text::{is_word, owned, string_of};
use crate::translation::{MessageModel, TranslatedMessage};
use crate::{ComponentModel, Modifier, TextComponent, content_only};

verus! {

/// Why a text could not be read as a component. Positions count characters from the start.
#[derive(Debug)]
pub enum SnbtError {
    EndedAbruptely(usize),
    UnfinishedComponent(usize),
    WrongContentType(String),
    UnknownKey(String),
    MissingContent,
    UnknownColor(String),
    NumberOverflow(String, String),
    Required(String, String),
}

/// The outcome of a parsing step: a value and the position after it.
pub type SnbtResult<T> = Result<T, SnbtError>;

/// The first position at or after `p` that is not white space.
pub open spec fn skip_space(t: Seq<char>, p: int) -> int
    decreases t.len() - p,
{
    if p >= t.len() || !is_space(t[p]) {
        p
    } else {
        skip_space(t, p + 1)
    }
}

proof fn lemma_skip_space_bounds(t: Seq<char>, p: int)
    requires
        0 <= p <= t.len(),
    ensures
        p <= skip_space(t, p) <= t.len(),
        skip_space(t, p) < t.len() ==> !is_space(t[skip_space(t, p)]),
    decreases t.len() - p,
{
    if p < t.len() && is_space(t[p]) {
        lemma_skip_space_bounds(t, p + 1);
    }
}

/// Skips white space.
pub fn skip_ws(t: &Vec<char>, p: usize) -> (q: usize)
    requires
        p <= t@.len(),
    ensures
        q == skip_space(t@, p as int),
        p <= q <= t@.len(),
        q < t@.len() ==> !is_space(t@[q as int]),
{
    proof {
        lemma_skip_space_bounds(t@, p as int);
    }
    let mut q = p;
    while q < t.len() && is_whitespace(t[q])
        invariant
            p <= q <= t@.len(),
            skip_space(t@, q as int) == skip_space(t@, p as int),
        decreases t@.len() - q,
    {
        q += 1;
    }
    q
}

/// The text of a quoted string whose body starts at `p` and which ends at the next unescaped
/// `opener`, with the position after the closing quote. A backslash keeps a following `"`,
/// `'` or `\`, turns `n` into a line feed and drops any other character.
pub open spec fn quoted(t: Seq<char>, p: int, opener: char) -> Option<(Seq<char>, int)>
    decreases t.len() - p,
{
    if p < 0 || p >= t.len() {
        None
    } else if t[p] == opener {
        Some((Seq::empty(), p + 1))
    } else if t[p] == '\\' && p + 1 < t.len() {
        let e = t[p + 1];
        match quoted(t, p + 2, opener) {
            Some((rest, q)) => Some((
                if e == '"' || e == '\'' || e == '\\' {
                    seq![e] + rest
                } else if e == 'n' {
                    seq!['\n'] + rest
                } else {
                    rest
                },
                q,
            )),
            None => None,
        }
    } else {
        match quoted(t, p + 1, opener) {
            Some((rest, q)) => Some((seq![t[p]] + rest, q)),
            None => None,
        }
    }
}

proof fn lemma_quoted_bounds(t: Seq<char>, p: int, opener: char)
    ensures
        quoted(t, p, opener) matches Some((_, q)) ==> p < q <= t.len(),
    decreases t.len() - p,
{
    if 0 <= p < t.len() && t[p] != opener {
        if t[p] == '\\' && p + 1 < t.len() {
            lemma_quoted_bounds(t, p + 2, opener);
        } else {
            lemma_quoted_bounds(t, p + 1, opener);
        }
    }
}

/// Reads a quoted string whose opening quote has been consumed.
pub fn parse_string(t: &Vec<char>, p: usize, opener: char) -> (r: SnbtResult<(String, usize)>)
    requires
        p <= t@.len(),
    ensures
        match r {
            Ok((s, q)) => quoted(t@, p as int, opener) == Some((s@, q as int)) && p < q <= t@.len(),
            Err(e) => quoted(t@, p as int, opener) is None && e is EndedAbruptely,
        },
{
    proof {
        lemma_quoted_bounds(t@, p as int, opener);
    }
    let mut out: Vec<char> = Vec::new();
    let mut i = p;
    while i < t.len()
        invariant
            p <= i <= t@.len(),
            forall|rest: Seq<char>, q: int| quoted(t@, i as int, opener) == Some((rest, q))
                ==> #[trigger] quoted(t@, p as int, opener) == Some((out@ + rest, q)),
            quoted(t@, i as int, opener) is None ==> quoted(t@, p as int, opener) is None,
        decreases t@.len() - i,
    {
        let c = t[i];
        if c == opener {
            proof {
                assert(quoted(t@, i as int, opener) == Some((Seq::<char>::empty(), i + 1)));
                assert(out@ + Seq::<char>::empty() =~= out@);
            }
            return Ok((string_of(&out), i + 1));
        }
        if c == '\\' && i + 1 < t.len() {
            let e = t[i + 1];
            let ghost before = out@;
            if e == '"' || e == '\'' || e == '\\' {
                out.push(e);
            } else if e == 'n' {
                out.push('\n');
            }
            proof {
                assert forall|rest: Seq<char>, q: int| quoted(t@, i + 2, opener) == Some((rest, q))
                    implies #[trigger] quoted(t@, p as int, opener) == Some((out@ + rest, q)) by {
                    if e == '"' || e == '\'' || e == '\\' {
                        assert(before + (seq![e] + rest) =~= out@ + rest);
                    } else if e == 'n' {
                        assert(before + (seq!['\n'] + rest) =~= out@ + rest);
                    } else {
                        assert(before + rest =~= out@ + rest);
                    }
                }
            }
            i += 2;
        } else {
            let ghost before = out@;
            out.push(c);
            proof {
                assert forall|rest: Seq<char>, q: int| quoted(t@, i + 1, opener) == Some((rest, q))
                    implies #[trigger] quoted(t@, p as int, opener) == Some((out@ + rest, q)) by {
                    assert(before + (seq![c] + rest) =~= out@ + rest);
                }
            }
            i += 1;
        }
    }
    Err(SnbtError::EndedAbruptely(i))
}


/// The value of a string of ASCII digits.
pub open spec fn digits_value(s: Seq<char>) -> nat
    decreases s.len(),
{
    if s.len() == 0 {
        0
    } else {
        digits_value(s.drop_last()) * 10 + (s.last() as int - '0' as int) as nat
    }
}

/// Whether every character of `s` from `from` on is an ASCII digit.
pub open spec fn digits_from(s: Seq<char>, from: int) -> bool {
    forall|i: int| from <= i < s.len() ==> is_digit(#[trigger] s[i])
}

/// The integer an optional `-` followed by ASCII digits denotes.
pub open spec fn int_literal(s: Seq<char>) -> Option<int> {
    if s.len() > 1 && s[0] == '-' && digits_from(s, 1) {
        Some(-(digits_value(s.subrange(1, s.len() as int)) as int))
    } else if s.len() > 0 && digits_from(s, 0) {
        Some(digits_value(s) as int)
    } else {
        None
    }
}

/// A bound beyond every integer width the grammar uses.
pub open spec fn literal_cap() -> int {
    18446744073709551616
}

/// `v` limited to plus or minus [literal_cap].
pub open spec fn capped(v: int) -> int {
    if v > literal_cap() {
        literal_cap()
    } else if v < -literal_cap() {
        -literal_cap()
    } else {
        v
    }
}

/// `v` limited to the range of `i64`.
pub open spec fn saturate_i64(v: int) -> int {
    if v > i64::MAX {
        i64::MAX as int
    } else if v < i64::MIN {
        i64::MIN as int
    } else {
        v
    }
}

fn digits_capped(s: &Vec<char>, from: usize) -> (r: u128)
    requires
        from <= s@.len(),
        digits_from(s@, from as int),
    ensures
        r == if digits_value(s@.subrange(from as int, s@.len() as int)) > literal_cap() {
            literal_cap()
        } else {
            digits_value(s@.subrange(from as int, s@.len() as int)) as int
        },
{
    let mut acc: u128 = 0;
    let mut i = from;
    while i < s.len()
        invariant
            from <= i <= s@.len(),
            digits_from(s@, from as int),
            acc == if digits_value(s@.subrange(from as int, i as int)) > literal_cap() {
                literal_cap()
            } else {
                digits_value(s@.subrange(from as int, i as int)) as int
            },
        decreases s@.len() - i,
    {
        let d = (s[i] as u32 - '0' as u32) as u128;
        proof {
            assert(is_digit(s@[i as int]));
            assert(s@.subrange(from as int, i + 1).drop_last() =~= s@.subrange(from as int, i as int));
            assert(s@.subrange(from as int, i + 1).last() == s@[i as int]);
        }
        if acc >= 18446744073709551616u128 {
            acc = 18446744073709551616u128;
        } else {
            let n = acc * 10 + d;
            acc = if n > 18446744073709551616u128 { 18446744073709551616u128 } else { n };
        }
        i += 1;
    }
    acc
}

/// The value of an integer literal, limited to plus or minus [literal_cap].
pub fn literal_value(s: &Vec<char>) -> (r: Option<i128>)
    ensures
        r == match int_literal(s@) {
            Some(v) => Some(capped(v) as i128),
            None => None::<i128>,
        },
{
    let n = s.len();
    if n > 1 && s[0] == '-' {
        let mut i: usize = 1;
        while i < n
            invariant
                n == s@.len(),
                1 <= i <= n,
                digits_from(s@.subrange(0, i as int), 1),
            decreases n - i,
        {
            if !('0' <= s[i] && s[i] <= '9') {
                proof {
                    assert(!digits_from(s@, 1));
                }
                return None;
            }
            proof {
                assert forall|j: int| 1 <= j < i + 1 implies is_digit(#[trigger] s@.subrange(0, i + 1)[j]) by {
                    if j < i {
                        assert(s@.subrange(0, i as int)[j] == s@[j]);
                    }
                }
            }
            i += 1;
        }
        assert(s@.subrange(0, n as int) =~= s@);
        let v = digits_capped(s, 1);
        return Some(-(v as i128));
    }
    let mut i: usize = 0;
    while i < n
        invariant
            n == s@.len(),
            i <= n,
            !(n > 1 && s@[0] == '-'),
            digits_from(s@.subrange(0, i as int), 0),
        decreases n - i,
    {
        if !('0' <= s[i] && s[i] <= '9') {
            proof {
                assert(!digits_from(s@, 0));
                assert(!(n > 1 && s@[0] == '-' && digits_from(s@, 1)));
            }
            return None;
        }
        proof {
            assert forall|j: int| 0 <= j < i + 1 implies is_digit(#[trigger] s@.subrange(0, i + 1)[j]) by {
                if j < i {
                    assert(s@.subrange(0, i as int)[j] == s@[j]);
                }
            }
        }
        i += 1;
    }
    assert(s@.subrange(0, n as int) =~= s@);
    if n == 0 {
        return None;
    }
    let v = digits_capped(s, 0);
    assert(s@.subrange(0, n as int) =~= s@);
    assert(!(n > 1 && s@[0] == '-' && digits_from(s@, 1))) by {
        if n > 1 && s@[0] == '-' {
            assert(!is_digit(s@[0]));
        }
    }
    Some(v as i128)
}

/// A number of the tag grammar, by its width. A float or double literal of this grammar is
/// always an integer numeral; it is held as that integer, limited to the range of `i64`.
#[derive(Debug, Clone, Copy, PartialEq, Eq, Structural)]
pub enum Num {
    I8(i8),
    I16(i16),
    I32(i32),
    I64(i64),
    F32(i64),
    F64(i64),
}

/// The value of a number.
pub open spec fn num_value(n: Num) -> int {
    match n {
        Num::I8(v) => v as int,
        Num::I16(v) => v as int,
        Num::I32(v) => v as int,
        Num::I64(v) => v as int,
        Num::F32(v) | Num::F64(v) => v as int,
    }
}

/// A number as an `i32`: wide integers wrap, floats saturate.
pub open spec fn num_i32(n: Num) -> i32 {
    match n {
        Num::I8(v) => v as i32,
        Num::I16(v) => v as i32,
        Num::I32(v) => v,
        Num::I64(v) => v as i32,
        Num::F32(v) | Num::F64(v) => if v > i32::MAX { i32::MAX } else if v < i32::MIN { i32::MIN } else { v as i32 },
    }
}

impl Num {
    /// The value as an `i32`: wide integers wrap, floats saturate.
    pub fn as_i32(self) -> (r: i32)
        ensures
            r == num_i32(self),
    {
        match self {
            Num::I8(n) => n as i32,
            Num::I16(n) => n as i32,
            Num::I32(n) => n,
            Num::I64(n) => #[verifier::truncate] (n as i32),
            Num::F32(n) | Num::F64(n) => if n > i32::MAX as i64 { i32::MAX } else if n < i32::MIN as i64 { i32::MIN } else { n as i32 },
        }
    }

    /// The value as an `i64`.
    pub fn as_i64(self) -> (r: i64)
        ensures
            r == num_value(self),
    {
        match self {
            Num::I8(n) => n as i64,
            Num::I16(n) => n as i64,
            Num::I32(n) => n as i64,
            Num::I64(n) => n,
            Num::F32(n) | Num::F64(n) => n,
        }
    }
}

/// Whether `c` may continue a numeral.
pub open spec fn numeral_char(c: char) -> bool {
    is_digit(c) || c == '-'
}

/// The end of the numeral that continues at `p`.
pub open spec fn numeral_end(t: Seq<char>, p: int) -> int
    decreases t.len() - p,
{
    if p < 0 || p >= t.len() || !numeral_char(t[p]) {
        p
    } else {
        numeral_end(t, p + 1)
    }
}

proof fn lemma_numeral_end(t: Seq<char>, p: int)
    requires
        0 <= p <= t.len(),
    ensures
        p <= numeral_end(t, p) <= t.len(),
        forall|i: int| p <= i < numeral_end(t, p) ==> numeral_char(#[trigger] t[i]),
        numeral_end(t, p) < t.len() ==> !numeral_char(t[numeral_end(t, p)]),
    decreases t.len() - p,
{
    if p < t.len() && numeral_char(t[p]) {
        lemma_numeral_end(t, p + 1);
    }
}

/// The suffix letter `c` stands for, ignoring case.
pub open spec fn suffix_of(c: char) -> char {
    if c == 'B' { 'b' } else if c == 'S' { 's' } else if c == 'L' { 'l' } else if c == 'F' { 'f' } else if c == 'D' { 'd' } else { c }
}

/// The number that starts with `first` and continues at `p`, with the position after it:
/// digits and `-` are collected, then a suffix `b`, `s`, `l`, `f` or `d` (any case) picks the
/// width and is consumed; with no suffix the number is an `int`.
pub open spec fn numeral(t: Seq<char>, p: int, first: char) -> Option<(Num, int)> {
    let q = numeral_end(t, p);
    let tok = seq![first] + t.subrange(p, q);
    if !numeral_char(first) || q >= t.len() {
        None
    } else {
        match int_literal(tok) {
            None => None,
            Some(v) => {
                let s = suffix_of(t[q]);
                if s == 'b' {
                    if i8::MIN <= v <= i8::MAX { Some((Num::I8(v as i8), q + 1)) } else { None }
                } else if s == 's' {
                    if i16::MIN <= v <= i16::MAX { Some((Num::I16(v as i16), q + 1)) } else { None }
                } else if s == 'l' {
                    if i64::MIN <= v <= i64::MAX { Some((Num::I64(v as i64), q + 1)) } else { None }
                } else if s == 'f' {
                    Some((Num::F32(saturate_i64(v) as i64), q + 1))
                } else if s == 'd' {
                    Some((Num::F64(saturate_i64(v) as i64), q + 1))
                } else {
                    if i32::MIN <= v <= i32::MAX { Some((Num::I32(v as i32), q)) } else { None }
                }
            },
        }
    }
}

/// Reads a number whose first character `first` has been consumed.
pub fn parse_num(first: char, t: &Vec<char>, p: usize, content_type: &str) -> (r: SnbtResult<(Num, usize)>)
    requires
        p <= t@.len(),
    ensures
        match r {
            Ok((n, q)) => numeral(t@, p as int, first) == Some((n, q as int)) && p <= q <= t@.len(),
            Err(e) => numeral(t@, p as int, first) is None && (e is WrongContentType || e is NumberOverflow),
        },
{
    proof {
        lemma_numeral_end(t@, p as int);
    }
    if !(('0' <= first && first <= '9') || first == '-') {
        return Err(SnbtError::WrongContentType(owned(content_type)));
    }
    let mut tok: Vec<char> = Vec::new();
    tok.push(first);
    let mut q = p;
    while q < t.len() && (('0' <= t[q] && t[q] <= '9') || t[q] == '-')
        invariant
            p <= q <= numeral_end(t@, p as int),
            numeral_end(t@, p as int) <= t@.len(),
            tok@ == seq![first] + t@.subrange(p as int, q as int),
            q < numeral_end(t@, p as int) ==> q < t@.len(),
            forall|i: int| p <= i < numeral_end(t@, p as int) ==> numeral_char(#[trigger] t@[i]),
            numeral_end(t@, p as int) < t@.len() ==> !numeral_char(t@[numeral_end(t@, p as int)]),
        decreases t@.len() - q,
    {
        tok.push(t[q]);
        assert(tok@ =~= seq![first] + t@.subrange(p as int, q + 1));
        q += 1;
    }
    if q >= t.len() {
        return Err(SnbtError::WrongContentType(owned(content_type)));
    }
    let c = t[q];
    let s = if c == 'B' { 'b' } else if c == 'S' { 's' } else if c == 'L' { 'l' } else if c == 'F' { 'f' } else if c == 'D' { 'd' } else { c };
    let v = match literal_value(&tok) {
        Some(v) => v,
        None => {
            let width = if s == 'b' { "byte" } else if s == 's' { "short" } else if s == 'l' { "long" } else if s == 'f' {
                "float"
            } else if s == 'd' { "double" } else { "int" };
            return Err(SnbtError::NumberOverflow(owned(content_type), owned(width)));
        },
    };
    if s == 'b' {
        if -128 <= v && v <= 127 { Ok((Num::I8(v as i8), q + 1)) } else { Err(SnbtError::NumberOverflow(owned(content_type), owned("byte"))) }
    } else if s == 's' {
        if -32768 <= v && v <= 32767 { Ok((Num::I16(v as i16), q + 1)) } else { Err(SnbtError::NumberOverflow(owned(content_type), owned("short"))) }
    } else if s == 'l' {
        if i64::MIN as i128 <= v && v <= i64::MAX as i128 { Ok((Num::I64(v as i64), q + 1)) } else { Err(SnbtError::NumberOverflow(owned(content_type), owned("long"))) }
    } else if s == 'f' || s == 'd' {
        let w: i64 = if v > i64::MAX as i128 { i64::MAX } else if v < i64::MIN as i128 { i64::MIN } else { v as i64 };
        if s == 'f' { Ok((Num::F32(w), q + 1)) } else { Ok((Num::F64(w), q + 1)) }
    } else {
        if i32::MIN as i128 <= v && v <= i32::MAX as i128 { Ok((Num::I32(v as i32), q)) } else { Err(SnbtError::NumberOverflow(owned(content_type), owned("int"))) }
    }
}

/// The boolean that starts with `first` and continues at `p`: a byte number (true unless
/// zero), or the word `true` or `false`.
pub open spec fn boolean(t: Seq<char>, p: int, first: char) -> Option<(bool, int)> {
    if numeral_char(first) {
        match numeral(t, p, first) {
            Some((Num::I8(n), q)) => Some((n != 0, q)),
            _ => None,
        }
    } else if first == 't' && p + 3 <= t.len() && t.subrange(p, p + 3) == seq!['r', 'u', 'e'] {
        Some((true, p + 3))
    } else if first == 'f' && p + 4 <= t.len() && t.subrange(p, p + 4) == seq!['a', 'l', 's', 'e'] {
        Some((false, p + 4))
    } else {
        None
    }
}

/// Reads a boolean whose first character `first` has been consumed.
pub fn parse_bool(first: char, t: &Vec<char>, p: usize, content_type: &str) -> (r: SnbtResult<(bool, usize)>)
    requires
        p <= t@.len(),
    ensures
        match r {
            Ok((b, q)) => boolean(t@, p as int, first) == Some((b, q as int)) && p <= q <= t@.len(),
            Err(_) => boolean(t@, p as int, first) is None,
        },
{
    if ('0' <= first && first <= '9') || first == '-' {
        return match parse_num(first, t, p, content_type) {
            Ok((Num::I8(n), q)) => Ok((n != 0, q)),
            Ok(_) => Err(SnbtError::WrongContentType(owned(content_type))),
            Err(e) => Err(e),
        };
    }
    if first == 't' && t.len() >= 3 && p <= t.len() - 3 && t[p] == 'r' && t[p + 1] == 'u' && t[p + 2] == 'e' {
        assert(t@.subrange(p as int, p + 3) =~= seq!['r', 'u', 'e']);
        return Ok((true, p + 3));
    }
    if first == 'f' && t.len() >= 4 && p <= t.len() - 4 && t[p] == 'a' && t[p + 1] == 'l' && t[p + 2] == 's' && t[p + 3] == 'e' {
        assert(t@.subrange(p as int, p + 4) =~= seq!['a', 'l', 's', 'e']);
        return Ok((false, p + 4));
    }
    proof {
        if first == 't' && p + 3 <= t@.len() && t@.subrange(p as int, p + 3) == seq!['r', 'u', 'e'] {
            assert(t@[p as int] == t@.subrange(p as int, p + 3)[0]);
            assert(t@[p + 1] == t@.subrange(p as int, p + 3)[1]);
            assert(t@[p + 2] == t@.subrange(p as int, p + 3)[2]);
        }
        if first == 'f' && p + 4 <= t@.len() && t@.subrange(p as int, p + 4) == seq!['a', 'l', 's', 'e'] {
            assert(t@[p as int] == t@.subrange(p as int, p + 4)[0]);
            assert(t@[p + 1] == t@.subrange(p as int, p + 4)[1]);
            assert(t@[p + 2] == t@.subrange(p as int, p + 4)[2]);
            assert(t@[p + 3] == t@.subrange(p as int, p + 4)[3]);
        }
    }
    Err(SnbtError::WrongContentType(owned(content_type)))
}


/// What a compound holds next: its end, or a key whose `:` has been consumed.
pub enum KeyStep {
    End,
    Key(Vec<char>),
}

/// The next key of a compound read from position `q`, where `name` has been collected so
/// far and `in_name` says whether bare characters are still taken as part of it: white space
/// is skipped; `}` ends the compound (`None`); `,` opens a new key; a quoted string replaces
/// the key; `:` gives the key; any other character extends a bare key or is an error.
/// Also the position after what was read.
pub open spec fn key_scan(t: Seq<char>, q: int, name: Seq<char>, in_name: bool) -> Option<(Option<Seq<char>>, int)>
    decreases t.len() - q,
{
    let q1 = skip_space(t, q);
    if q < 0 || q1 < q || q1 >= t.len() {
        None
    } else {
        let c = t[q1];
        if c == '}' {
            Some((None, q1 + 1))
        } else if c == ',' {
            key_scan(t, q1 + 1, name, true)
        } else if c == '"' || c == '\'' {
            match quoted(t, q1 + 1, c) {
                Some((k, q2)) => if q < q2 <= t.len() {
                    key_scan(t, q2, k, false)
                } else {
                    None
                },
                None => None,
            }
        } else if c == ':' {
            Some((Some(name), q1 + 1))
        } else if in_name {
            key_scan(t, q1 + 1, name.push(c), true)
        } else {
            None
        }
    }
}

proof fn lemma_skip_space_at_least(t: Seq<char>, p: int)
    requires
        0 <= p,
    ensures
        p <= skip_space(t, p),
    decreases t.len() - p,
{
    if p < t.len() && is_space(t[p]) {
        lemma_skip_space_at_least(t, p + 1);
    }
}

/// Reads up to the next key of a compound, or its closing brace.
fn read_key(t: &Vec<char>, p: usize, expecting: bool) -> (r: SnbtResult<(KeyStep, usize)>)
    requires
        p <= t@.len(),
    ensures
        r matches Ok((_, q)) ==> p < q <= t@.len(),
        match r {
            Ok((KeyStep::End, q)) => key_scan(t@, p as int, Seq::empty(), expecting) == Some((None::<Seq<char>>, q as int)),
            Ok((KeyStep::Key(k), q)) => key_scan(t@, p as int, Seq::empty(), expecting) == Some((Some(k@), q as int)),
            Err(_) => key_scan(t@, p as int, Seq::empty(), expecting) is None,
        },
{
    let mut name: Vec<char> = Vec::new();
    let mut in_name = expecting;
    let mut q = p;
    loop
        invariant
            p <= q <= t@.len(),
            key_scan(t@, p as int, Seq::empty(), expecting) == key_scan(t@, q as int, name@, in_name),
        decreases t@.len() - q,
    {
        let q0 = q;
        q = skip_ws(t, q);
        if q >= t.len() {
            return Err(SnbtError::EndedAbruptely(q));
        }
        let c = t[q];
        q += 1;
        if c == '}' {
            return Ok((KeyStep::End, q));
        } else if c == ',' {
            in_name = true;
        } else if c == '"' || c == '\'' {
            in_name = false;
            let (s, q2) = parse_quoted(t, q, c)?;
            name = s;
            q = q2;
        } else if c == ':' {
            return Ok((KeyStep::Key(name), q));
        } else if in_name {
            name.push(c);
        } else {
            return Err(SnbtError::UnfinishedComponent(q - 1));
        }
        assert(q > q0);
    }
}

/// A value of a flat compound: a quoted string or a number.
#[derive(Debug)]
pub enum EntryValue {
    Text(String),
    Number(Num),
}

/// The mathematical value of an [EntryValue].
pub enum ValueModel {
    Text(Seq<char>),
    Number(Num),
}

impl View for EntryValue {
    type V = ValueModel;

    open spec fn view(&self) -> ValueModel {
        match self {
            EntryValue::Text(s) => ValueModel::Text(s@),
            EntryValue::Number(n) => ValueModel::Number(*n),
        }
    }
}

/// The value that starts with `first` and continues at `q`: a quoted string, or a number.
pub open spec fn entry_value(t: Seq<char>, q: int, first: char) -> Option<(ValueModel, int)> {
    if first == '"' || first == '\'' {
        match quoted(t, q, first) {
            Some((s, q2)) => Some((ValueModel::Text(s), q2)),
            None => None,
        }
    } else {
        match numeral(t, q, first) {
            Some((n, q2)) => Some((ValueModel::Number(n), q2)),
            None => None,
        }
    }
}

/// The entries of a flat compound read from `q` up to and including its closing brace, and
/// the position after it: each key (see [key_scan]) is followed by a string or number value.
pub open spec fn flat_entries(t: Seq<char>, q: int, expecting: bool) -> Option<(Seq<(Seq<char>, ValueModel)>, int)>
    decreases t.len() - q,
{
    match key_scan(t, q, Seq::empty(), expecting) {
        None => None,
        Some((None, q2)) => Some((Seq::empty(), q2)),
        Some((Some(k), q2)) => {
            let q3 = skip_space(t, q2);
            if q3 < q || q3 >= t.len() {
                None
            } else {
                match entry_value(t, q3 + 1, t[q3]) {
                    None => None,
                    Some((v, q4)) => if q < q4 <= t.len() {
                        match flat_entries(t, q4, false) {
                            Some((rest, q5)) => Some((seq![(k, v)] + rest, q5)),
                            None => None,
                        }
                    } else {
                        None
                    },
                }
            }
        },
    }
}

/// The models of read entries.
pub open spec fn entries_model(v: Vec<(Vec<char>, EntryValue)>) -> Seq<(Seq<char>, ValueModel)> {
    Seq::new(v@.len(), |i: int| (v@[i].0@, v@[i].1@))
}

/// Reads the entries of a flat compound whose `{` has been consumed.
pub fn read_entries(t: &Vec<char>, p: usize) -> (r: SnbtResult<(Vec<(Vec<char>, EntryValue)>, usize)>)
    requires
        p <= t@.len(),
    ensures
        match r {
            Ok((es, q)) => flat_entries(t@, p as int, true) == Some((entries_model(es), q as int)) && p < q <= t@.len(),
            Err(_) => flat_entries(t@, p as int, true) is None,
        },
{
    let mut out: Vec<(Vec<char>, EntryValue)> = Vec::new();
    let mut q = p;
    let mut expecting = true;
    loop
        invariant
            p <= q <= t@.len(),
            q == p ==> expecting,
            forall|rest: Seq<(Seq<char>, ValueModel)>, qe: int| flat_entries(t@, q as int, expecting) == Some((rest, qe))
                ==> #[trigger] flat_entries(t@, p as int, true) == Some((entries_model(out) + rest, qe)),
            flat_entries(t@, q as int, expecting) is None ==> flat_entries(t@, p as int, true) is None,
        decreases t@.len() - q,
    {
        let (step, q2) = read_key(t, q, expecting)?;
        match step {
            KeyStep::End => {
                proof {
                    assert(flat_entries(t@, q as int, expecting) == Some((Seq::<(Seq<char>, ValueModel)>::empty(), q2 as int)));
                    assert(entries_model(out) + Seq::<(Seq<char>, ValueModel)>::empty() =~= entries_model(out));
                }
                return Ok((out, q2));
            },
            KeyStep::Key(k) => {
                let (c, q3) = next_char(t, q2)?;
                let (v, q4) = if c == '"' || c == '\'' {
                    let (s, q4) = parse_string(t, q3, c)?;
                    (EntryValue::Text(s), q4)
                } else {
                    let (n, q4) = parse_num(c, t, q3, "value")?;
                    (EntryValue::Number(n), q4)
                };
                if q4 <= q {
                    return Err(SnbtError::UnfinishedComponent(q4));
                }
                let ghost before = entries_model(out);
                let ghost kv = (k@, v@);
                proof {
                    assert(entry_value(t@, q3 as int, c) == Some((v@, q4 as int)));
                    assert forall|rest: Seq<(Seq<char>, ValueModel)>, qe: int| flat_entries(t@, q4 as int, false) == Some((rest, qe))
                        implies #[trigger] flat_entries(t@, p as int, true) == Some((before + seq![kv] + rest, qe)) by {
                        assert(flat_entries(t@, q as int, expecting) == Some((seq![kv] + rest, qe)));
                        assert(before + (seq![kv] + rest) =~= before + seq![kv] + rest);
                    }
                }
                out.push((k, v));
                assert(entries_model(out) =~= before + seq![kv]);
                q = q4;
                expecting = false;
            },
        }
    }
}

/// The next character that is not white space, consumed.
fn next_char(t: &Vec<char>, p: usize) -> (r: SnbtResult<(char, usize)>)
    requires
        p <= t@.len(),
    ensures
        match r {
            Ok((c, q)) => q - 1 == skip_space(t@, p as int) && q <= t@.len() && c == t@[q - 1] && p < q,
            Err(e) => skip_space(t@, p as int) >= t@.len() && e is EndedAbruptely,
        },
{
    let q = skip_ws(t, p);
    if q >= t.len() {
        return Err(SnbtError::EndedAbruptely(q));
    }
    Ok((t[q], q + 1))
}

/// Reads a quoted string, as characters, whose opening quote has been consumed.
pub fn parse_quoted(t: &Vec<char>, p: usize, opener: char) -> (r: SnbtResult<(Vec<char>, usize)>)
    requires
        p <= t@.len(),
    ensures
        match r {
            Ok((s, q)) => quoted(t@, p as int, opener) == Some((s@, q as int)) && p < q <= t@.len(),
            Err(e) => quoted(t@, p as int, opener) is None && e is EndedAbruptely,
        },
{
    match parse_string(t, p, opener) {
        Ok((s, q)) => Ok((crate::text::chars_of(s.as_str()), q)),
        Err(e) => Err(e),
    }
}

/// Reads a string value whose first character `first` has been consumed; anything but a
/// quote is the wrong type for the field `field`.
fn string_value(first: char, t: &Vec<char>, p: usize, field: &str) -> (r: SnbtResult<(String, usize)>)
    requires
        p <= t@.len(),
    ensures
        match r {
            Ok((s, q)) => (first == '"' || first == '\'') && quoted(t@, p as int, first) == Some((s@, q as int))
                && p < q <= t@.len(),
            Err(e) => !(first == '"' || first == '\'') || quoted(t@, p as int, first) is None,
        },
{
    if first == '"' || first == '\'' {
        parse_string(t, p, first)
    } else {
        Err(SnbtError::WrongContentType(owned(field)))
    }
}

fn required(what: &str, field: &str) -> (r: SnbtError)
    ensures
        r matches SnbtError::Required(a, b) && a@ == what@ && b@ == field@,
{
    SnbtError::Required(owned(what), owned(field))
}

/// The named colour that `s` spells, if any.
pub open spec fn named_color(s: Seq<char>) -> Option<Color> {
    if s == "aqua"@ { Some(Color::Aqua) }
    else if s == "black"@ { Some(Color::Black) }
    else if s == "blue"@ { Some(Color::Blue) }
    else if s == "dark_aqua"@ { Some(Color::DarkAqua) }
    else if s == "dark_blue"@ { Some(Color::DarkBlue) }
    else if s == "dark_gray"@ { Some(Color::DarkGray) }
    else if s == "dark_green"@ { Some(Color::DarkGreen) }
    else if s == "dark_purple"@ { Some(Color::DarkPurple) }
    else if s == "dark_red"@ { Some(Color::DarkRed) }
    else if s == "gold"@ { Some(Color::Gold) }
    else if s == "gray"@ { Some(Color::Gray) }
    else if s == "green"@ { Some(Color::Green) }
    else if s == "light_purple"@ { Some(Color::LightPurple) }
    else if s == "red"@ { Some(Color::Red) }
    else if s == "white"@ { Some(Color::White) }
    else if s == "yellow"@ { Some(Color::Yellow) }
    else { None }
}

/// The colour a name or `#rrggbb` stands for.
pub open spec fn color_of(s: Seq<char>) -> Option<Color> {
    match named_color(s) {
        Some(c) => Some(c),
        None => hex_color(s),
    }
}

/// Reads a colour name or `#rrggbb`.
pub fn color_from_name(s: &Vec<char>) -> (r: Option<Color>)
    ensures
        r == color_of(s@),
{
    if is_word(s, "aqua") { Some(Color::Aqua) }
    else if is_word(s, "black") { Some(Color::Black) }
    else if is_word(s, "blue") { Some(Color::Blue) }
    else if is_word(s, "dark_aqua") { Some(Color::DarkAqua) }
    else if is_word(s, "dark_blue") { Some(Color::DarkBlue) }
    else if is_word(s, "dark_gray") { Some(Color::DarkGray) }
    else if is_word(s, "dark_green") { Some(Color::DarkGreen) }
    else if is_word(s, "dark_purple") { Some(Color::DarkPurple) }
    else if is_word(s, "dark_red") { Some(Color::DarkRed) }
    else if is_word(s, "gold") { Some(Color::Gold) }
    else if is_word(s, "gray") { Some(Color::Gray) }
    else if is_word(s, "green") { Some(Color::Green) }
    else if is_word(s, "light_purple") { Some(Color::LightPurple) }
    else if is_word(s, "red") { Some(Color::Red) }
    else if is_word(s, "white") { Some(Color::White) }
    else if is_word(s, "yellow") { Some(Color::Yellow) }
    else { parse_hex_color(s) }
}

/// The 128-bit value of a textual uuid, as its high and low halves, if the text is one.
pub uninterp spec fn uuid_value(s: Seq<char>) -> Option<(u64, u64)>;

/// Relies on `uuid::Uuid::parse_str`, converted by `Uuid::as_u64_pair`: the value of a uuid
/// written in any of the forms that crate reads, or nothing.
#[verifier::external_body]
fn parse_uuid(s: &str) -> (r: Option<(u64, u64)>)
    ensures
        r == uuid_value(s@),
{
    match uuid::Uuid::parse_str(s) {
        Ok(u) => Some(u.as_u64_pair()),
        Err(_) => None,
    }
}

/// A uuid as four `i32`, most significant first.
pub open spec fn uuid_ints(hi: u64, lo: u64) -> [i32; 4] {
    [(hi >> 32u64) as u32 as i32, hi as u32 as i32, (lo >> 32u64) as u32 as i32, lo as u32 as i32]
}

fn split_uuid(hi: u64, lo: u64) -> (r: [i32; 4])
    ensures
        r == uuid_ints(hi, lo),
{
    let a = #[verifier::truncate] ((hi >> 32u64) as u32);
    let b = #[verifier::truncate] (hi as u32);
    let c = #[verifier::truncate] ((lo >> 32u64) as u32);
    let d = #[verifier::truncate] (lo as u32);
    [#[verifier::truncate] (a as i32), #[verifier::truncate] (b as i32), #[verifier::truncate] (c as i32), #[verifier::truncate] (d as i32)]
}

/// The four ints of a textual uuid, if the text is one.
pub fn parse_uuid_text(s: &String) -> (r: Option<[i32; 4]>)
    ensures
        match uuid_value(s@) {
            Some((hi, lo)) => r == Some(uuid_ints(hi, lo)),
            None => r is None,
        },
{
    match parse_uuid(s.as_str()) {
        Some((hi, lo)) => Some(split_uuid(hi, lo)),
        None => None,
    }
}


/// The last value given for key `k`.
pub open spec fn last_value(es: Seq<(Seq<char>, ValueModel)>, k: Seq<char>) -> Option<ValueModel>
    decreases es.len(),
{
    if es.len() == 0 {
        None
    } else if es.last().0 == k {
        Some(es.last().1)
    } else {
        last_value(es.drop_last(), k)
    }
}

proof fn lemma_last_value_is_entry(es: Seq<(Seq<char>, ValueModel)>, k: Seq<char>)
    ensures
        last_value(es, k) matches Some(v) ==> exists|i: int| 0 <= i < es.len() && #[trigger] es[i] == (k, v),
    decreases es.len(),
{
    if es.len() > 0 && es.last().0 != k {
        lemma_last_value_is_entry(es.drop_last(), k);
        if let Some(v) = last_value(es, k) {
            let i = choose|i: int| 0 <= i < es.drop_last().len() && #[trigger] es.drop_last()[i] == (k, v);
            assert(es[i] == (k, v));
        }
    }
}

/// The last string given for key `k`, if that value is a string.
pub open spec fn text_field(es: Seq<(Seq<char>, ValueModel)>, k: Seq<char>) -> Option<Seq<char>> {
    match last_value(es, k) {
        Some(ValueModel::Text(s)) => Some(s),
        _ => None,
    }
}

/// Whether every entry has one of the keys `keys` and a string value.
pub open spec fn text_entries(es: Seq<(Seq<char>, ValueModel)>, keys: Seq<Seq<char>>) -> bool {
    forall|i: int| #![trigger es[i]] 0 <= i < es.len() ==> keys.contains(es[i].0) && es[i].1 is Text
}

fn last_entry<'a>(es: &'a Vec<(Vec<char>, EntryValue)>, k: &str) -> (r: Option<&'a EntryValue>)
    ensures
        match r {
            Some(v) => last_value(entries_model(*es), k@) == Some(v@),
            None => last_value(entries_model(*es), k@) is None,
        },
{
    let ghost em = entries_model(*es);
    let mut i = es.len();
    assert(em.subrange(0, i as int) =~= em);
    while i > 0
        invariant
            i <= es@.len(),
            em == entries_model(*es),
            last_value(em, k@) == last_value(em.subrange(0, i as int), k@),
        decreases i,
    {
        let ghost pre = em.subrange(0, i as int);
        assert(pre.drop_last() =~= em.subrange(0, i - 1));
        i -= 1;
        if is_word(&es[i].0, k) {
            return Some(&es[i].1);
        }
    }
    None
}

fn last_text(es: &Vec<(Vec<char>, EntryValue)>, k: &str) -> (r: Option<String>)
    ensures
        crate::text::opt_view(r) == text_field(entries_model(*es), k@),
{
    match last_entry(es, k) {
        Some(EntryValue::Text(s)) => Some(crate::text::copy_string(s)),
        _ => None,
    }
}

/// The characters of each of a list of words.
pub open spec fn str_views(keys: Seq<&str>) -> Seq<Seq<char>> {
    keys.map_values(|k: &str| k@)
}

/// Whether `k` is one of `keys`.
fn key_among(k: &Vec<char>, keys: &Vec<&str>) -> (r: bool)
    ensures
        r == str_views(keys@).contains(k@),
{
    let ghost kv = str_views(keys@);
    let mut j: usize = 0;
    while j < keys.len()
        invariant
            j <= keys@.len(),
            kv == str_views(keys@),
            forall|m: int| 0 <= m < j ==> kv[m] != k@,
        decreases keys@.len() - j,
    {
        if is_word(k, keys[j]) {
            assert(kv[j as int] == k@);
            return true;
        }
        j += 1;
    }
    false
}

/// Checks that every entry has one of the keys `keys` (else an unknown key) and a string
/// value (else the wrong type).
fn check_text_entries(es: &Vec<(Vec<char>, EntryValue)>, keys: &Vec<&str>) -> (r: SnbtResult<()>)
    ensures
        r is Ok <==> text_entries(entries_model(*es), str_views(keys@)),
{
    let ghost em = entries_model(*es);
    let ghost kv = str_views(keys@);
    let mut i: usize = 0;
    while i < es.len()
        invariant
            i <= es@.len(),
            em == entries_model(*es),
            em.len() == es@.len(),
            kv == str_views(keys@),
            forall|j: int| #![trigger em[j]] 0 <= j < i ==> kv.contains(em[j].0) && em[j].1 is Text,
        decreases es@.len() - i,
    {
        assert(em[i as int] == (es@[i as int].0@, es@[i as int].1@));
        if !key_among(&es[i].0, keys) {
            assert(!(kv.contains(em[i as int].0) && em[i as int].1 is Text));
            return Err(SnbtError::UnknownKey(string_of(&es[i].0)));
        }
        if let EntryValue::Number(_) = &es[i].1 {
            assert(!(kv.contains(em[i as int].0) && em[i as int].1 is Text));
            return Err(SnbtError::WrongContentType(string_of(&es[i].0)));
        }
        i += 1;
    }
    Ok(())
}

/// The entries of the flat compound read from `p`, or none.
pub open spec fn flat_of(t: Seq<char>, p: int) -> Seq<(Seq<char>, ValueModel)> {
    match flat_entries(t, p, true) {
        Some((es, _)) => es,
        None => Seq::empty(),
    }
}

/// The scoreboard a flat compound describes: only `name` and `objective`, as strings, both
/// present.
pub open spec fn scoreboard_from(es: Seq<(Seq<char>, ValueModel)>) -> Option<ResolvableModel> {
    if text_entries(es, seq!["name"@, "objective"@]) && text_field(es, "name"@) is Some && text_field(es, "objective"@) is Some {
        Some(ResolvableModel::Scoreboard { selector: text_field(es, "name"@)->0, objective: text_field(es, "objective"@)->0 })
    } else {
        None
    }
}

/// Reads a scoreboard compound whose `{` has been consumed.
pub fn parse_scoreboard(t: &Vec<char>, p: usize) -> (r: SnbtResult<(Resolvable, usize)>)
    requires
        p <= t@.len(),
    ensures
        match r {
            Ok((sc, q)) => flat_entries(t@, p as int, true) matches Some((es, q0)) && q0 == q
                && scoreboard_from(es) == Some(sc@) && sc is Scoreboard && p < q <= t@.len(),
            Err(_) => flat_entries(t@, p as int, true) matches Some((es, _)) ==> scoreboard_from(es) is None,
        },
        flat_entries(t@, p as int, true) is Some && text_entries(flat_of(t@, p as int), seq!["name"@, "objective"@])
            && text_field(flat_of(t@, p as int), "name"@) is None ==> (r matches Err(SnbtError::Required(a, b))
            && a@ == "Scoreboards"@ && b@ == "name"@),
        flat_entries(t@, p as int, true) is Some && text_entries(flat_of(t@, p as int), seq!["name"@, "objective"@])
            && text_field(flat_of(t@, p as int), "name"@) is Some && text_field(flat_of(t@, p as int), "objective"@) is None
            ==> (r matches Err(SnbtError::Required(a, b)) && a@ == "Scoreboards"@ && b@ == "objective"@),
{
    let (es, q) = read_entries(t, p)?;
    let keys = vec!["name", "objective"];
    proof {
        assert(str_views(keys@) =~= seq!["name"@, "objective"@]);
    }
    check_text_entries(&es, &keys)?;
    let selector = match last_text(&es, "name") {
        Some(s) => s,
        None => return Err(required("Scoreboards", "name")),
    };
    let objective = match last_text(&es, "objective") {
        Some(o) => o,
        None => return Err(required("Scoreboards", "objective")),
    };
    Ok((Resolvable::Scoreboard { selector, objective }, q))
}

/// The skin property a flat compound describes: only `name`, `value` and `signature`, as
/// strings, with `name` and `value` present.
pub open spec fn property_from(es: Seq<(Seq<char>, ValueModel)>) -> Option<crate::content::PropertyModel> {
    if text_entries(es, seq!["name"@, "value"@, "signature"@]) && text_field(es, "name"@) is Some
        && text_field(es, "value"@) is Some {
        Some(crate::content::PropertyModel {
            name: text_field(es, "name"@)->0,
            value: text_field(es, "value"@)->0,
            signature: text_field(es, "signature"@),
        })
    } else {
        None
    }
}

/// Reads a skin property compound whose `{` has been consumed.
fn parse_player_property(t: &Vec<char>, p: usize) -> (r: SnbtResult<(PlayerProperties, usize)>)
    requires
        p <= t@.len(),
    ensures
        match r {
            Ok((pr, q)) => flat_entries(t@, p as int, true) matches Some((es, q0)) && q0 == q
                && property_from(es) == Some(pr@) && p < q <= t@.len(),
            Err(_) => flat_entries(t@, p as int, true) matches Some((es, _)) ==> property_from(es) is None,
        },
{
    let (es, q) = read_entries(t, p)?;
    let keys = vec!["name", "value", "signature"];
    proof {
        assert(str_views(keys@) =~= seq!["name"@, "value"@, "signature"@]);
    }
    check_text_entries(&es, &keys)?;
    let name = match last_text(&es, "name") {
        Some(n) => n,
        None => return Err(required("Player property", "name")),
    };
    let value = match last_text(&es, "value") {
        Some(v) => v,
        None => return Err(required("Player property", "value")),
    };
    Ok((PlayerProperties { name, value, signature: last_text(&es, "signature") }, q))
}

/// The ints of a list read from `q` up to and including its `]`: `int` numerals separated
/// by commas.
pub open spec fn int_items(t: Seq<char>, q: int) -> Option<(Seq<i32>, int)>
    decreases t.len() - q,
{
    let q1 = skip_space(t, q);
    if q < 0 || q1 < q || q1 >= t.len() {
        None
    } else {
        let c = t[q1];
        if c == ']' {
            Some((Seq::empty(), q1 + 1))
        } else if c == ',' {
            int_items(t, q1 + 1)
        } else {
            match numeral(t, q1 + 1, c) {
                Some((Num::I32(n), q2)) => if q < q2 <= t.len() {
                    match int_items(t, q2) {
                        Some((rest, q3)) => Some((seq![n] + rest, q3)),
                        None => None,
                    }
                } else {
                    None
                },
                _ => None,
            }
        }
    }
}

/// The ints of a list whose `[` has been consumed, optionally marked `I;`.
pub open spec fn int_list(t: Seq<char>, p: int) -> Option<(Seq<i32>, int)> {
    let q = skip_space(t, p);
    int_items(t, if q + 1 < t.len() && t[q] == 'I' && t[q + 1] == ';' { q + 2 } else { q })
}

/// Reads a list of `int` numbers, optionally marked `I;`, whose `[` has been consumed.
fn parse_int_vec(t: &Vec<char>, p: usize, content_type: &str) -> (r: SnbtResult<(Vec<i32>, usize)>)
    requires
        p <= t@.len(),
    ensures
        match r {
            Ok((v, q)) => int_list(t@, p as int) == Some((v@, q as int)) && p < q <= t@.len(),
            Err(_) => int_list(t@, p as int) is None,
        },
{
    let mut nums: Vec<i32> = Vec::new();
    let mut q = skip_ws(t, p);
    if t.len() - q > 1 && t[q] == 'I' && t[q + 1] == ';' {
        q = q + 2;
    }
    assert(nums@ + Seq::<i32>::empty() =~= nums@);
    loop
        invariant
            p <= q <= t@.len(),
            forall|rest: Seq<i32>, qe: int| int_items(t@, q as int) == Some((rest, qe))
                ==> #[trigger] int_list(t@, p as int) == Some((nums@ + rest, qe)),
            int_items(t@, q as int) is None ==> int_list(t@, p as int) is None,
        decreases t@.len() - q,
    {
        let q0 = q;
        q = skip_ws(t, q);
        if q >= t.len() {
            return Err(SnbtError::EndedAbruptely(q));
        }
        let c = t[q];
        q += 1;
        if c == ']' {
            assert(nums@ + Seq::<i32>::empty() =~= nums@);
            return Ok((nums, q));
        } else if c != ',' {
            match parse_num(c, t, q, content_type)? {
                (Num::I32(n), q2) => {
                    if q2 <= q0 {
                        return Err(SnbtError::UnfinishedComponent(q2));
                    }
                    let ghost before = nums@;
                    nums.push(n);
                    proof {
                        assert forall|rest: Seq<i32>, qe: int| int_items(t@, q2 as int) == Some((rest, qe))
                            implies #[trigger] int_list(t@, p as int) == Some((nums@ + rest, qe)) by {
                            assert(int_items(t@, q0 as int) == Some((seq![n] + rest, qe)));
                            assert(before + (seq![n] + rest) =~= nums@ + rest);
                        }
                    }
                    q = q2;
                },
                _ => {
                    return Err(required(content_type, "ints"));
                },
            }
        }
    }
}

/// The skin properties of a list read from `q` up to and including its `]`: property
/// compounds separated by commas.
pub open spec fn property_items(t: Seq<char>, q: int) -> Option<(Seq<crate::content::PropertyModel>, int)>
    decreases t.len() - q,
{
    let q1 = skip_space(t, q);
    if q < 0 || q1 < q || q1 >= t.len() {
        None
    } else {
        let c = t[q1];
        if c == ']' {
            Some((Seq::empty(), q1 + 1))
        } else if c == ',' {
            property_items(t, q1 + 1)
        } else if c == '{' {
            match flat_entries(t, q1 + 1, true) {
                Some((es, q2)) => match property_from(es) {
                    Some(pr) => if q < q2 <= t.len() {
                        match property_items(t, q2) {
                            Some((rest, q3)) => Some((seq![pr] + rest, q3)),
                            None => None,
                        }
                    } else {
                        None
                    },
                    None => None,
                },
                None => None,
            }
        } else {
            None
        }
    }
}

/// The models of a list of skin properties.
pub open spec fn properties_model(v: Vec<PlayerProperties>) -> Seq<crate::content::PropertyModel> {
    v@.map_values(|x: PlayerProperties| x@)
}

/// Reads a list of skin property compounds whose `[` has been consumed.
fn parse_property_list(t: &Vec<char>, p: usize) -> (r: SnbtResult<(Vec<PlayerProperties>, usize)>)
    requires
        p <= t@.len(),
    ensures
        match r {
            Ok((v, q)) => property_items(t@, p as int) == Some((properties_model(v), q as int))
                && p < q <= t@.len(),
            Err(_) => property_items(t@, p as int) is None,
        },
{
    let mut props: Vec<PlayerProperties> = Vec::new();
    let mut q = p;
    assert(properties_model(props) =~= Seq::<crate::content::PropertyModel>::empty());
    loop
        invariant
            p <= q <= t@.len(),
            forall|rest: Seq<crate::content::PropertyModel>, qe: int| property_items(t@, q as int) == Some((rest, qe))
                ==> #[trigger] property_items(t@, p as int) == Some((properties_model(props) + rest, qe)),
            property_items(t@, q as int) is None ==> property_items(t@, p as int) is None,
        decreases t@.len() - q,
    {
        let q0 = q;
        q = skip_ws(t, q);
        if q >= t.len() {
            return Err(SnbtError::EndedAbruptely(q));
        }
        let c = t[q];
        q += 1;
        if c == ']' {
            assert(properties_model(props) + Seq::<crate::content::PropertyModel>::empty()
                =~= properties_model(props));
            return Ok((props, q));
        } else if c == '{' {
            let (prop, q2) = parse_player_property(t, q)?;
            let ghost before = properties_model(props);
            let ghost pm = prop@;
            props.push(prop);
            assert(properties_model(props) =~= before + seq![pm]);
            proof {
                assert forall|rest: Seq<crate::content::PropertyModel>, qe: int| property_items(t@, q2 as int) == Some((rest, qe))
                    implies #[trigger] property_items(t@, p as int) == Some((before + seq![pm] + rest, qe)) by {
                    assert(property_items(t@, q0 as int) == Some((seq![pm] + rest, qe)));
                    assert(before + (seq![pm] + rest) =~= before + seq![pm] + rest);
                }
            }
            q = q2;
        } else if c != ',' {
            return Err(SnbtError::UnfinishedComponent(q - 1));
        }
    }
}

/// The player reference with nothing set.
pub open spec fn no_player() -> PlayerModel {
    PlayerModel { name: None, id: None, texture: None, properties: Seq::empty() }
}

/// The player compound read from `q` with `pl` gathered so far: `name` and `texture` take a
/// string, `id` a list of four ints, `properties` a list of skin properties; the last value of
/// a key wins; at the closing brace the player must be identified somehow.
pub open spec fn player_scan(t: Seq<char>, q: int, expecting: bool, pl: PlayerModel) -> Option<(PlayerModel, int)>
    decreases t.len() - q,
{
    match key_scan(t, q, Seq::empty(), expecting) {
        None => None,
        Some((None, q2)) => if pl.is_empty() { None } else { Some((pl, q2)) },
        Some((Some(k), q2)) => {
            let q3 = skip_space(t, q2);
            if q3 < q || q3 >= t.len() {
                None
            } else {
                let c = t[q3];
                let next: Option<(PlayerModel, int)> = if c == '"' || c == '\'' {
                    match quoted(t, q3 + 1, c) {
                        Some((s, q4)) => if k == "name"@ {
                            Some((PlayerModel { name: Some(s), ..pl }, q4))
                        } else if k == "texture"@ {
                            Some((PlayerModel { texture: Some(s), ..pl }, q4))
                        } else {
                            None
                        },
                        None => None,
                    }
                } else if c == '[' {
                    if k == "id"@ {
                        match int_list(t, q3 + 1) {
                            Some((v, q4)) => if v.len() == 4 {
                                Some((PlayerModel { id: Some([v[0], v[1], v[2], v[3]]), ..pl }, q4))
                            } else {
                                None
                            },
                            None => None,
                        }
                    } else if k == "properties"@ {
                        match property_items(t, q3 + 1) {
                            Some((ps, q4)) => Some((PlayerModel { properties: ps, ..pl }, q4)),
                            None => None,
                        }
                    } else {
                        None
                    }
                } else {
                    None
                };
                match next {
                    Some((pl2, q4)) => if q < q4 <= t.len() {
                        player_scan(t, q4, false, pl2)
                    } else {
                        None
                    },
                    None => None,
                }
            }
        },
    }
}

/// Reads a player compound whose `{` has been consumed.
pub fn parse_player(t: &Vec<char>, p: usize) -> (r: SnbtResult<(ObjectPlayer, usize)>)
    requires
        p <= t@.len(),
    ensures
        match r {
            Ok((pl, q)) => player_scan(t@, p as int, true, no_player()) == Some((pl@, q as int)) && !pl@.is_empty()
                && p < q <= t@.len(),
            Err(_) => player_scan(t@, p as int, true, no_player()) is None,
        },
{
    let mut player = ObjectPlayer { name: None, id: None, texture: None, properties: Vec::new() };
    let mut q = p;
    let mut expecting = true;
    assert(player@.properties =~= Seq::<crate::content::PropertyModel>::empty());
    assert(player@ == no_player());
    loop
        invariant
            p <= q <= t@.len(),
            player_scan(t@, p as int, true, no_player()) == player_scan(t@, q as int, expecting, player@),
        decreases t@.len() - q,
    {
        let (step, q2) = read_key(t, q, expecting)?;
        match step {
            KeyStep::End => {
                if player.is_empty() {
                    return Err(required("Player object", "name\", \"id\", \"texture\", or \"properties"));
                }
                return Ok((player, q2));
            },
            KeyStep::Key(name) => {
                let (c, q3) = next_char(t, q2)?;
                let ghost before = player@;
                let q4 = if c == '"' || c == '\'' {
                    let (v, q4) = parse_string(t, q3, c)?;
                    if is_word(&name, "name") {
                        player.name = Some(v);
                    } else if is_word(&name, "texture") {
                        player.texture = Some(v);
                    } else {
                        return Err(SnbtError::UnknownKey(string_of(&name)));
                    }
                    q4
                } else if c == '[' {
                    if is_word(&name, "id") {
                        let (nums, q4) = parse_int_vec(t, q3, "Player id")?;
                        if nums.len() != 4 {
                            return Err(SnbtError::UnfinishedComponent(q4 - 1));
                        }
                        player.id = Some([nums[0], nums[1], nums[2], nums[3]]);
                        q4
                    } else if is_word(&name, "properties") {
                        let (props, q4) = parse_property_list(t, q3)?;
                        player.properties = props;
                        q4
                    } else {
                        return Err(SnbtError::UnknownKey(string_of(&name)));
                    }
                } else {
                    return Err(SnbtError::UnfinishedComponent(q3 - 1));
                };
                if q4 <= q {
                    return Err(SnbtError::UnfinishedComponent(q4));
                }
                q = q4;
                expecting = false;
            },
        }
    }
}

/// The custom content a flat compound describes: only `id`, a string, present.
pub open spec fn custom_from(es: Seq<(Seq<char>, ValueModel)>) -> Option<crate::custom::CustomModel> {
    if text_entries(es, seq!["id"@]) && text_field(es, "id"@) is Some {
        Some(crate::custom::CustomModel { id: text_field(es, "id"@)->0, payload: Payload::Empty })
    } else {
        None
    }
}

/// Reads a custom-content compound whose `{` has been consumed.
pub fn parse_custom(t: &Vec<char>, p: usize) -> (r: SnbtResult<(CustomData, usize)>)
    requires
        p <= t@.len(),
    ensures
        match r {
            Ok((d, q)) => flat_entries(t@, p as int, true) matches Some((es, q0)) && q0 == q
                && custom_from(es) == Some(d@) && p < q <= t@.len(),
            Err(_) => flat_entries(t@, p as int, true) matches Some((es, _)) ==> custom_from(es) is None,
        },
        flat_entries(t@, p as int, true) is Some && text_entries(flat_of(t@, p as int), seq!["id"@])
            && text_field(flat_of(t@, p as int), "id"@) is None ==> (r matches Err(SnbtError::Required(a, b))
            && a@ == "Custom"@ && b@ == "id"@),
{
    let (es, q) = read_entries(t, p)?;
    let keys = vec!["id"];
    proof {
        assert(str_views(keys@) =~= seq!["id"@]);
    }
    check_text_entries(&es, &keys)?;
    match last_text(&es, "id") {
        Some(id) => Ok((CustomData { id, payload: Payload::Empty }, q)),
        None => Err(required("Custom", "id")),
    }
}

/// The string keys of a click event compound.
pub open spec fn click_text_keys() -> Seq<Seq<char>> {
    seq!["action"@, "url"@, "path"@, "command"@, "value"@, "dialog"@, "id"@, "payload"@]
}

/// Whether every entry of a click event compound is known: `page` with a number from 0 to
/// `u32::MAX`, and `action`, `url`, `path`, `command`, `value`, `dialog`, `id`, `payload`
/// with strings.
pub open spec fn click_entries(es: Seq<(Seq<char>, ValueModel)>) -> bool {
    forall|i: int| 0 <= i < es.len() ==> if (#[trigger] es[i]).0 == "page"@ {
        es[i].1 matches ValueModel::Number(n) && 0 <= num_value(n) <= u32::MAX
    } else {
        click_text_keys().contains(es[i].0) && es[i].1 is Text
    }
}

/// The click event a flat compound describes: `action` names it and the field it needs must
/// be given.
pub open spec fn click_from(es: Seq<(Seq<char>, ValueModel)>) -> Option<ClickModel> {
    let a = match text_field(es, "action"@) { Some(a) => a, None => Seq::empty() };
    if !click_entries(es) {
        None
    } else if a == "open_url"@ {
        match text_field(es, "url"@) { Some(url) => Some(ClickModel::OpenUrl { url }), None => None }
    } else if a == "open_file"@ {
        match text_field(es, "path"@) { Some(path) => Some(ClickModel::OpenFile { path }), None => None }
    } else if a == "run_command"@ {
        match text_field(es, "command"@) { Some(command) => Some(ClickModel::RunCommand { command }), None => None }
    } else if a == "suggest_command"@ {
        match text_field(es, "command"@) { Some(command) => Some(ClickModel::SuggestCommand { command }), None => None }
    } else if a == "change_page"@ {
        match last_value(es, "page"@) {
            Some(ValueModel::Number(n)) => Some(ClickModel::ChangePage { page: num_value(n) as u32 }),
            _ => None,
        }
    } else if a == "copy_to_clipboard"@ {
        match text_field(es, "value"@) { Some(value) => Some(ClickModel::CopyToClipboard { value }), None => None }
    } else if a == "show_dialog"@ {
        match text_field(es, "dialog"@) { Some(dialog) => Some(ClickModel::ShowDialog { dialog }), None => None }
    } else if a == "custom"@ {
        match text_field(es, "id"@) { Some(id) => Some(ClickModel::Custom { id, payload: text_field(es, "payload"@) }), None => None }
    } else {
        None
    }
}

fn check_click_entries(es: &Vec<(Vec<char>, EntryValue)>) -> (r: SnbtResult<()>)
    ensures
        r is Ok <==> click_entries(entries_model(*es)),
{
    let ghost em = entries_model(*es);
    let keys = vec!["action", "url", "path", "command", "value", "dialog", "id", "payload"];
    assert(str_views(keys@) =~= click_text_keys());
    let mut i: usize = 0;
    while i < es.len()
        invariant
            i <= es@.len(),
            em == entries_model(*es),
            em.len() == es@.len(),
            str_views(keys@) == click_text_keys(),
            forall|j: int| 0 <= j < i ==> if (#[trigger] em[j]).0 == "page"@ {
                em[j].1 matches ValueModel::Number(n) && 0 <= num_value(n) <= u32::MAX
            } else {
                click_text_keys().contains(em[j].0) && em[j].1 is Text
            },
        decreases es@.len() - i,
    {
        assert(em[i as int] == (es@[i as int].0@, es@[i as int].1@));
        if is_word(&es[i].0, "page") {
            match &es[i].1 {
                EntryValue::Number(n) => {
                    let v = n.as_i64();
                    if v < 0 || v > u32::MAX as i64 {
                        return Err(SnbtError::WrongContentType(owned("page")));
                    }
                },
                EntryValue::Text(_) => return Err(SnbtError::WrongContentType(owned("page"))),
            }
        } else {
            if !key_among(&es[i].0, &keys) {
                assert(!(click_text_keys().contains(em[i as int].0)));
                return Err(SnbtError::UnknownKey(string_of(&es[i].0)));
            }
            if let EntryValue::Number(_) = &es[i].1 {
                assert(!(em[i as int].1 is Text));
                return Err(SnbtError::WrongContentType(string_of(&es[i].0)));
            }
        }
        i += 1;
    }
    Ok(())
}

/// Reads a click event compound whose `{` has been consumed.
pub fn parse_click(t: &Vec<char>, p: usize) -> (r: SnbtResult<(ClickEvent, usize)>)
    requires
        p <= t@.len(),
    ensures
        match r {
            Ok((c, q)) => flat_entries(t@, p as int, true) matches Some((es, q0)) && q0 == q
                && click_from(es) == Some(c@) && p < q <= t@.len(),
            Err(_) => flat_entries(t@, p as int, true) matches Some((es, _)) ==> click_from(es) is None,
        },
{
    let (es, q) = read_entries(t, p)?;
    check_click_entries(&es)?;
    let action = match last_text(&es, "action") {
        Some(a) => crate::text::chars_of(a.as_str()),
        None => Vec::new(),
    };
    let ghost em = entries_model(es);
    let ev = if is_word(&action, "open_url") {
        match last_text(&es, "url") { Some(url) => Ok(ClickEvent::OpenUrl { url }), None => Err(required("\"open_url\"", "url")) }
    } else if is_word(&action, "open_file") {
        match last_text(&es, "path") { Some(path) => Ok(ClickEvent::OpenFile { path }), None => Err(required("\"open_file\"", "path")) }
    } else if is_word(&action, "run_command") {
        match last_text(&es, "command") { Some(command) => Ok(ClickEvent::RunCommand { command }), None => Err(required("\"run_command\"", "command")) }
    } else if is_word(&action, "suggest_command") {
        match last_text(&es, "command") { Some(command) => Ok(ClickEvent::SuggestCommand { command }), None => Err(required("\"suggest_command\"", "command")) }
    } else if is_word(&action, "change_page") {
        match last_entry(&es, "page") {
            Some(EntryValue::Number(n)) => {
                let v = n.as_i64();
                proof {
                    lemma_last_value_is_entry(em, "page"@);
                }
                if v < 0 || v > u32::MAX as i64 {
                    Err(SnbtError::WrongContentType(owned("page")))
                } else {
                    Ok(ClickEvent::ChangePage { page: v as u32 })
                }
            },
            _ => Err(required("\"change_page\"", "page")),
        }
    } else if is_word(&action, "copy_to_clipboard") {
        match last_text(&es, "value") { Some(value) => Ok(ClickEvent::CopyToClipboard { value }), None => Err(required("\"copy_to_clipboard\"", "value")) }
    } else if is_word(&action, "show_dialog") {
        match last_text(&es, "dialog") { Some(dialog) => Ok(ClickEvent::ShowDialog { dialog }), None => Err(required("\"show_dialog\"", "dialog")) }
    } else if is_word(&action, "custom") {
        match last_text(&es, "id") { Some(id) => Ok(ClickEvent::Custom { id, payload: last_text(&es, "payload") }), None => Err(required("\"custom\"", "id")) }
    } else {
        Err(SnbtError::WrongContentType(owned("action")))
    };
    match ev {
        Ok(e) => Ok((e, q)),
        Err(e) => Err(e),
    }
}

/// The content slots of a compound being read. Keys may arrive in any order, so each slot
/// is filled in place as its keys come, and the slot to use is picked at the end.
pub struct CompoundParts {
    pub content: Vec<char>,
    pub object: Vec<char>,
    pub text: Option<Content>,
    pub translate: Option<Content>,
    pub score: Option<Content>,
    pub selector: Option<Content>,
    pub keybind: Option<Content>,
    pub nbt_path: Option<Content>,
    pub atlas: Option<Content>,
    pub player: Option<Content>,
    pub custom: Option<Content>,
    pub nbt: Vec<char>,
    pub entity_source: Option<NbtSource>,
    pub block_source: Option<NbtSource>,
    pub storage_source: Option<NbtSource>,
}

impl CompoundParts {
    /// Slots with nothing filled.
    pub fn new() -> (r: CompoundParts)
        ensures
            r@ == no_parts(),
    {
        CompoundParts {
            content: Vec::new(),
            object: Vec::new(),
            text: None,
            translate: None,
            score: None,
            selector: None,
            keybind: None,
            nbt_path: None,
            atlas: None,
            player: None,
            custom: None,
            nbt: Vec::new(),
            entity_source: None,
            block_source: None,
            storage_source: None,
        }
    }
}

/// The text that marks a field not given yet.
pub open spec fn unset_marker() -> Seq<char> {
    seq!['-', 'N', 'o', 'n', 'e', '-']
}

fn unset() -> (r: String)
    ensures
        r@ == unset_marker(),
{
    let s = owned("-None-");
    proof {
        reveal_strlit("-None-");
    }
    assert(s@ =~= unset_marker());
    s
}

fn is_unset(s: &String) -> (r: bool)
    ensures
        r == (s@ == unset_marker()),
{
    let cs = crate::text::chars_of(s.as_str());
    let r = is_word(&cs, "-None-");
    proof {
        reveal_strlit("-None-");
    }
    assert("-None-"@ =~= unset_marker());
    r
}

fn message_slot(slot: &mut Option<Content>) -> (r: TranslatedMessage)
    ensures
        *final(slot) is None,
        r@ == message_of(opt_content(*old(slot))),
{
    match slot.take() {
        Some(Content::Translate(m)) => m,
        _ => TranslatedMessage { key: String::new(), fallback: None, args: None },
    }
}

fn nbt_slot(slot: &mut Option<Content>) -> (r: (String, Option<bool>, Box<TextComponent>, NbtSource))
    ensures
        *final(slot) is None,
        (r.0@, r.1, Box::new(r.2@), r.3@) == nbt_parts(opt_content(*old(slot))),
{
    match slot.take() {
        Some(Content::Resolvable(Resolvable::NBT { path, interpret, separator, source })) => (path, interpret, separator, source),
        _ => (unset(), None, Resolvable::nbt_separator(), NbtSource::Block(String::new())),
    }
}

fn atlas_slot(slot: &mut Option<Content>) -> (r: (Option<String>, String))
    ensures
        *final(slot) is None,
        (crate::text::opt_view(r.0), r.1@) == atlas_parts(opt_content(*old(slot))),
{
    match slot.take() {
        Some(Content::Object(Object::Atlas { atlas, sprite })) => (atlas, sprite),
        _ => (None, unset()),
    }
}

fn player_slot(slot: &mut Option<Content>) -> (r: (ObjectPlayer, bool))
    ensures
        *final(slot) is None,
        (r.0@, r.1) == player_parts(opt_content(*old(slot))),
{
    match slot.take() {
        Some(Content::Object(Object::Player { player, hat })) => (player, hat),
        _ => {
            let p = ObjectPlayer { name: None, id: None, texture: None, properties: Vec::new() };
            assert(p@.properties =~= Seq::<crate::content::PropertyModel>::empty());
            (p, true)
        },
    }
}

/// Whether `k` is a key of the content namespace.
pub open spec fn is_content_key(k: Seq<char>) -> bool {
    content_key_index(k) != -1
}

/// Whether `k` is a key of the format namespace.
pub open spec fn is_format_key(k: Seq<char>) -> bool {
    format_key_index(k) != -1
}

/// Whether `k` is a key of the interaction namespace.
pub open spec fn is_interaction_key(k: Seq<char>) -> bool {
    interaction_key_index(k) != -1
}

fn content_key(k: &Vec<char>) -> (r: bool)
    ensures
        r == is_content_key(k@),
{
    is_word(k, "type") || is_word(k, "text") || is_word(k, "translate") || is_word(k, "fallback")
        || is_word(k, "with") || is_word(k, "score") || is_word(k, "selector") || is_word(k, "separator")
        || is_word(k, "keybind") || is_word(k, "source") || is_word(k, "nbt") || is_word(k, "interpret")
        || is_word(k, "entity") || is_word(k, "block") || is_word(k, "storage") || is_word(k, "object")
        || is_word(k, "atlas") || is_word(k, "sprite") || is_word(k, "player") || is_word(k, "hat")
        || is_word(k, "custom")
}

fn format_key(k: &Vec<char>) -> (r: bool)
    ensures
        r == is_format_key(k@),
{
    is_word(k, "color") || is_word(k, "font") || is_word(k, "bold") || is_word(k, "italic")
        || is_word(k, "underlined") || is_word(k, "strikethrough") || is_word(k, "obfuscated")
        || is_word(k, "shadow_color")
}

fn interaction_key(k: &Vec<char>) -> (r: bool)
    ensures
        r == is_interaction_key(k@),
{
    is_word(k, "insertion") || is_word(k, "click_event") || is_word(k, "hover_event")
}

/// The mathematical value of a [CompoundParts].
pub struct PartsModel {
    pub content: Seq<char>,
    pub object: Seq<char>,
    pub text: Option<ContentModel>,
    pub translate: Option<ContentModel>,
    pub score: Option<ContentModel>,
    pub selector: Option<ContentModel>,
    pub keybind: Option<ContentModel>,
    pub nbt_path: Option<ContentModel>,
    pub atlas: Option<ContentModel>,
    pub player: Option<ContentModel>,
    pub custom: Option<ContentModel>,
    pub nbt: Seq<char>,
    pub entity_source: Option<SourceModel>,
    pub block_source: Option<SourceModel>,
    pub storage_source: Option<SourceModel>,
}

impl View for CompoundParts {
    type V = PartsModel;

    open spec fn view(&self) -> PartsModel {
        PartsModel {
            content: self.content@,
            object: self.object@,
            text: opt_content(self.text),
            translate: opt_content(self.translate),
            score: opt_content(self.score),
            selector: opt_content(self.selector),
            keybind: opt_content(self.keybind),
            nbt_path: opt_content(self.nbt_path),
            atlas: opt_content(self.atlas),
            player: opt_content(self.player),
            custom: opt_content(self.custom),
            nbt: self.nbt@,
            entity_source: opt_source(self.entity_source),
            block_source: opt_source(self.block_source),
            storage_source: opt_source(self.storage_source),
        }
    }
}

/// Slots with nothing filled.
pub open spec fn no_parts() -> PartsModel {
    PartsModel {
        content: Seq::empty(),
        object: Seq::empty(),
        text: None,
        translate: None,
        score: None,
        selector: None,
        keybind: None,
        nbt_path: None,
        atlas: None,
        player: None,
        custom: None,
        nbt: Seq::empty(),
        entity_source: None,
        block_source: None,
        storage_source: None,
    }
}

/// The message a translation slot holds so far.
pub open spec fn message_of(slot: Option<ContentModel>) -> MessageModel {
    match slot {
        Some(ContentModel::Translate(m)) => m,
        _ => MessageModel { key: Seq::empty(), fallback: None, args: None },
    }
}

/// The path, interpretation, separator and source an NBT slot holds so far.
pub open spec fn nbt_parts(slot: Option<ContentModel>) -> (Seq<char>, Option<bool>, Box<ComponentModel>, SourceModel) {
    match slot {
        Some(ContentModel::Resolvable(ResolvableModel::NBT { path, interpret, separator, source })) => (path, interpret, separator, source),
        _ => (unset_marker(), None, Box::new(nbt_separator_model()), SourceModel::Block(Seq::empty())),
    }
}

/// The atlas and sprite an atlas slot holds so far.
pub open spec fn atlas_parts(slot: Option<ContentModel>) -> (Option<Seq<char>>, Seq<char>) {
    match slot {
        Some(ContentModel::Object(ObjectModel::Atlas { atlas, sprite })) => (atlas, sprite),
        _ => (None, unset_marker()),
    }
}

/// The player and hat flag a player-head slot holds so far.
pub open spec fn player_parts(slot: Option<ContentModel>) -> (PlayerModel, bool) {
    match slot {
        Some(ContentModel::Object(ObjectModel::Player { player, hat })) => (player, hat),
        _ => (no_player(), true),
    }
}

/// The selector and separator an entity slot holds so far.
pub open spec fn entity_parts(slot: Option<ContentModel>) -> (Seq<char>, Box<ComponentModel>) {
    match slot {
        Some(ContentModel::Resolvable(ResolvableModel::Entity { selector, separator })) => (selector, separator),
        _ => (unset_marker(), Box::new(entity_separator_model())),
    }
}

/// The component a text describes from position `p`: a quoted string is plain text, `[` a
/// list of children under an empty parent, `{` a compound. `first`, when given, is the
/// character before `p` that has already been consumed; otherwise white space is skipped.
pub open spec fn body_m(t: Seq<char>, p: int, first: Option<char>) -> Option<(ComponentModel, int)>
    decreases t.len() - p, if first is Some { 3nat } else { 1nat },
{
    if p < 0 || p > t.len() {
        None
    } else {
        let q0 = skip_space(t, p);
        let ok = first is Some || (p <= q0 < t.len());
        let c = match first { Some(c) => c, None => t[q0] };
        let q = match first { Some(_) => p, None => q0 + 1 };
        if !ok {
            None
        } else if c == '"' || c == '\'' {
            match quoted(t, q, c) {
                Some((s, q2)) => Some((content_only(ContentModel::Text(s)), q2)),
                None => None,
            }
        } else if c == '[' {
            match vec_m(t, q) {
                Some((kids, q2)) => Some((ComponentModel { children: kids, ..content_only(ContentModel::Text(Seq::empty())) }, q2)),
                None => None,
            }
        } else if c == '{' {
            compound_scan(t, q, true, no_parts(), empty_format(), empty_interactions(), Seq::empty())
        } else {
            None
        }
    }
}

/// The components of a list whose `[` has been consumed: none before `]`, else components
/// separated by commas.
pub open spec fn vec_m(t: Seq<char>, p: int) -> Option<(Seq<ComponentModel>, int)>
    decreases t.len() - p, 2nat,
{
    let q0 = skip_space(t, p);
    if p < 0 || p > t.len() || q0 < p {
        None
    } else if q0 < t.len() && t[q0] == ']' {
        Some((Seq::empty(), q0 + 1))
    } else {
        match body_m(t, p, None) {
            Some((item, q1)) => if p < q1 <= t.len() {
                match vec_rest(t, q1) {
                    Some((rest, q2)) => Some((seq![item] + rest, q2)),
                    None => None,
                }
            } else {
                None
            },
            None => None,
        }
    }
}

/// The rest of a list after an item: `]`, or a comma and another component.
pub open spec fn vec_rest(t: Seq<char>, q: int) -> Option<(Seq<ComponentModel>, int)>
    decreases t.len() - q, 0nat,
{
    let q1 = skip_space(t, q);
    if q < 0 || q1 < q || q1 >= t.len() {
        None
    } else if t[q1] == ']' {
        Some((Seq::empty(), q1 + 1))
    } else if t[q1] == ',' {
        match body_m(t, q1 + 1, None) {
            Some((item, q2)) => if q1 + 1 < q2 <= t.len() {
                match vec_rest(t, q2) {
                    Some((rest, q3)) => Some((seq![item] + rest, q3)),
                    None => None,
                }
            } else {
                None
            },
            None => None,
        }
    } else {
        None
    }
}

/// A compound read from `q` with the slots, format, interactions and children gathered so
/// far: each key's value fills what the key names; at the closing brace the content is
/// picked from the slots.
pub open spec fn compound_scan(
    t: Seq<char>,
    q: int,
    expecting: bool,
    parts: PartsModel,
    format: FormatModel,
    inter: InteractivityModel,
    children: Seq<ComponentModel>,
) -> Option<(ComponentModel, int)>
    decreases t.len() - q, 1nat,
{
    match key_scan(t, q, Seq::empty(), expecting) {
        None => None,
        Some((None, q2)) => match retrieved(parts) {
            Some(content) => Some((ComponentModel { content, children, format, interactions: inter }, q2)),
            None => None,
        },
        Some((Some(k), q2)) => {
            let q3 = skip_space(t, q2);
            if q3 < q || q3 >= t.len() {
                None
            } else {
                match compound_next(k, t[q3], t, q3 + 1, parts, format, inter, children) {
                    Some((pm, f, i, kids, q4)) => if q < q4 <= t.len() {
                        compound_scan(t, q4, false, pm, f, i, kids)
                    } else {
                        None
                    },
                    None => None,
                }
            }
        },
    }
}

/// What a compound holds after the value of key `k`, whose first character `c` has been
/// consumed and which continues at `p`: a content key fills the slots, a format key the
/// format, an interaction key the interactions, `extra` (a list) the children.
pub open spec fn compound_next(
    k: Seq<char>,
    c: char,
    t: Seq<char>,
    p: int,
    parts: PartsModel,
    format: FormatModel,
    inter: InteractivityModel,
    children: Seq<ComponentModel>,
) -> Option<(PartsModel, FormatModel, InteractivityModel, Seq<ComponentModel>, int)>
    decreases t.len() - p, 5nat,
{
    if content_key_index(k) != -1 {
        match content_step(k, parts, c, t, p) {
            Some((pm, q)) => Some((pm, format, inter, children, q)),
            None => None,
        }
    } else if format_key_index(k) != -1 {
        match format_step(k, format, c, t, p) {
            Some((f, q)) => Some((parts, f, inter, children, q)),
            None => None,
        }
    } else if interaction_key_index(k) != -1 {
        match interaction_step(k, inter, c, t, p) {
            Some((i, q)) => Some((parts, format, i, children, q)),
            None => None,
        }
    } else if k == "extra"@ && c == '[' {
        match vec_m(t, p) {
            Some((kids, q)) => Some((parts, format, inter, kids, q)),
            None => None,
        }
    } else {
        None
    }
}

/// The slots after the value of content key `k`, whose first character `c` has been
/// consumed and which continues at `p`.
pub open spec fn content_step(k: Seq<char>, pm: PartsModel, c: char, t: Seq<char>, p: int) -> Option<(PartsModel, int)>
    decreases t.len() - p, 4nat,
{
    let i = content_key_index(k);
    if p < 0 || p > t.len() {
        None
    } else if i == 4 {
        if c != '[' {
            None
        } else {
            match vec_m(t, p) {
                Some((args, q)) => Some((PartsModel {
                    translate: Some(ContentModel::Translate(MessageModel { args: Some(args), ..message_of(pm.translate) })),
                    ..pm
                }, q)),
                None => None,
            }
        }
    } else if i == 5 {
        if c != '{' {
            None
        } else {
            match flat_entries(t, p, true) {
                Some((es, q)) => match scoreboard_from(es) {
                    Some(sc) => Some((PartsModel { score: Some(ContentModel::Resolvable(sc)), ..pm }, q)),
                    None => None,
                },
                None => None,
            }
        }
    } else if i == 7 {
        match body_m(t, p, Some(c)) {
            Some((sep, q)) => {
                let n = nbt_parts(pm.nbt_path);
                Some((PartsModel {
                    selector: Some(ContentModel::Resolvable(ResolvableModel::Entity {
                        selector: entity_parts(pm.selector).0,
                        separator: Box::new(sep),
                    })),
                    nbt_path: Some(ContentModel::Resolvable(ResolvableModel::NBT {
                        path: n.0,
                        interpret: n.1,
                        separator: Box::new(sep),
                        source: n.3,
                    })),
                    ..pm
                }, q))
            },
            None => None,
        }
    } else if i == 11 {
        match boolean(t, p, c) {
            Some((b, q)) => {
                let n = nbt_parts(pm.nbt_path);
                Some((PartsModel {
                    nbt_path: Some(ContentModel::Resolvable(ResolvableModel::NBT { path: n.0, interpret: Some(b), separator: n.2, source: n.3 })),
                    ..pm
                }, q))
            },
            None => None,
        }
    } else if i == 18 {
        if c != '{' {
            None
        } else {
            match player_scan(t, p, true, no_player()) {
                Some((pl, q)) => Some((PartsModel {
                    player: Some(ContentModel::Object(ObjectModel::Player { player: pl, hat: player_parts(pm.player).1 })),
                    ..pm
                }, q)),
                None => None,
            }
        }
    } else if i == 19 {
        match boolean(t, p, c) {
            Some((b, q)) => Some((PartsModel {
                player: Some(ContentModel::Object(ObjectModel::Player { player: player_parts(pm.player).0, hat: b })),
                ..pm
            }, q)),
            None => None,
        }
    } else if i == 20 {
        if c != '{' {
            None
        } else {
            match flat_entries(t, p, true) {
                Some((es, q)) => match custom_from(es) {
                    Some(d) => Some((PartsModel { custom: Some(ContentModel::Custom(d)), ..pm }, q)),
                    None => None,
                },
                None => None,
            }
        }
    } else if i == -1 {
        None
    } else {
        match quoted_value(t, p, c) {
            None => None,
            Some((s, q)) => if i == 0 {
                Some((PartsModel { content: s, ..pm }, q))
            } else if i == 1 {
                Some((PartsModel { text: Some(ContentModel::Text(s)), ..pm }, q))
            } else if i == 2 {
                Some((PartsModel {
                    translate: Some(ContentModel::Translate(MessageModel { key: s, ..message_of(pm.translate) })),
                    ..pm
                }, q))
            } else if i == 3 {
                Some((PartsModel {
                    translate: Some(ContentModel::Translate(MessageModel { fallback: Some(s), ..message_of(pm.translate) })),
                    ..pm
                }, q))
            } else if i == 6 {
                Some((PartsModel {
                    selector: Some(ContentModel::Resolvable(ResolvableModel::Entity { selector: s, separator: entity_parts(pm.selector).1 })),
                    ..pm
                }, q))
            } else if i == 8 {
                Some((PartsModel { keybind: Some(ContentModel::Keybind(s)), ..pm }, q))
            } else if i == 9 {
                if s == "block"@ || s == "entity"@ || s == "storage"@ {
                    Some((PartsModel { nbt: s, ..pm }, q))
                } else {
                    None
                }
            } else if i == 10 {
                let n = nbt_parts(pm.nbt_path);
                Some((PartsModel {
                    nbt_path: Some(ContentModel::Resolvable(ResolvableModel::NBT { path: s, interpret: n.1, separator: n.2, source: n.3 })),
                    ..pm
                }, q))
            } else if i == 12 {
                Some((PartsModel { entity_source: Some(SourceModel::Entity(s)), ..pm }, q))
            } else if i == 13 {
                Some((PartsModel { block_source: Some(SourceModel::Block(s)), ..pm }, q))
            } else if i == 14 {
                Some((PartsModel { storage_source: Some(SourceModel::Storage(s)), ..pm }, q))
            } else if i == 15 {
                if s == "player"@ || s == "atlas"@ {
                    Some((PartsModel { object: s, ..pm }, q))
                } else {
                    None
                }
            } else if i == 16 {
                Some((PartsModel {
                    atlas: Some(ContentModel::Object(ObjectModel::Atlas { atlas: Some(s), sprite: atlas_parts(pm.atlas).1 })),
                    ..pm
                }, q))
            } else {
                Some((PartsModel {
                    atlas: Some(ContentModel::Object(ObjectModel::Atlas { atlas: atlas_parts(pm.atlas).0, sprite: s })),
                    ..pm
                }, q))
            },
        }
    }
}

/// The integer part of a channel fraction, and what follows it: digits and dots, then an
/// optional `f` or `d` suffix in any case.
pub open spec fn fraction_end(t: Seq<char>, q: int) -> int
    decreases t.len() - q,
{
    if q < 0 || q >= t.len() || !(is_digit(t[q]) || t[q] == '.') {
        q
    } else {
        fraction_end(t, q + 1)
    }
}

/// The shadow colour of a channel list read from `q`, with the channels read so far: each
/// channel a fraction whose whole part is 0 or 1 (giving 0 or 255), four channels red, green,
/// blue and alpha packed as ARGB at the `]`.
pub open spec fn shadow_scan(t: Seq<char>, q: int, chans: Seq<u32>) -> Option<(u32, int)>
    decreases t.len() - q,
{
    let q1 = skip_space(t, q);
    if q < 0 || q1 < q || q1 >= t.len() {
        None
    } else if t[q1] == ']' {
        if chans.len() == 4 {
            Some(((chans[3] * 16777216 + chans[0] * 65536 + chans[1] * 256 + chans[2]) as u32, q1 + 1))
        } else {
            None
        }
    } else if t[q1] == ',' {
        shadow_scan(t, q1 + 1, chans)
    } else if !is_digit(t[q1]) || chans.len() >= 4 || !(t[q1] == '0' || t[q1] == '1') {
        None
    } else {
        let e = fraction_end(t, q1 + 1);
        let e2 = if 0 <= e < t.len() && (t[e] == 'f' || t[e] == 'F' || t[e] == 'd' || t[e] == 'D') { e + 1 } else { e };
        if q < e2 <= t.len() {
            shadow_scan(t, e2, chans.push(if t[q1] == '1' { 255u32 } else { 0u32 }))
        } else {
            None
        }
    }
}

/// The format after the value of format key `k`, whose first character `c` has been consumed
/// and which continues at `p`.
pub open spec fn format_step(k: Seq<char>, f: FormatModel, c: char, t: Seq<char>, p: int) -> Option<(FormatModel, int)> {
    let i = format_key_index(k);
    if i == 0 {
        match quoted_value(t, p, c) {
            Some((s, q)) => match color_of(s) {
                Some(col) => Some((FormatModel { color: Some(col), ..f }, q)),
                None => None,
            },
            None => None,
        }
    } else if i == 1 {
        match quoted_value(t, p, c) {
            Some((s, q)) => Some((FormatModel { font: Some(s), ..f }, q)),
            None => None,
        }
    } else if 2 <= i <= 6 {
        match boolean(t, p, c) {
            Some((b, q)) => Some((with_flag(f, i, b), q)),
            None => None,
        }
    } else if i == 7 {
        if c == '[' {
            match shadow_scan(t, p, Seq::empty()) {
                Some((v, q)) => Some((FormatModel { shadow_color: Some(v), ..f }, q)),
                None => None,
            }
        } else {
            match numeral(t, p, c) {
                Some((n, q)) => Some((FormatModel { shadow_color: Some((num_value(n) as i64) as u32), ..f }, q)),
                None => None,
            }
        }
    } else {
        None
    }
}

/// The overlay after the value of interaction key `k`, whose first character `c` has been
/// consumed and which continues at `p`.
pub open spec fn interaction_step(k: Seq<char>, i: InteractivityModel, c: char, t: Seq<char>, p: int) -> Option<(InteractivityModel, int)>
    decreases t.len() - p, 4nat,
{
    let x = interaction_key_index(k);
    if x == 0 {
        match quoted_value(t, p, c) {
            Some((s, q)) => Some((InteractivityModel { insertion: Some(s), ..i }, q)),
            None => None,
        }
    } else if x == 1 && c == '{' {
        match flat_entries(t, p, true) {
            Some((es, q)) => match click_from(es) {
                Some(cm) => Some((InteractivityModel { click: Some(cm), ..i }, q)),
                None => None,
            },
            None => None,
        }
    } else if x == 2 && c == '{' {
        match hover_scan(t, p, true, Seq::empty(), None, None, None, None, None, None) {
            Some((h, q)) => Some((InteractivityModel { hover: Some(h), ..i }, q)),
            None => None,
        }
    } else {
        None
    }
}

/// The hover event that the gathered fields describe at the closing brace.
pub open spec fn hover_final(
    action: Seq<char>,
    value: Option<ComponentModel>,
    id: Option<Seq<char>>,
    count: Option<i32>,
    components: Option<Seq<char>>,
    name: Option<Seq<char>>,
    uuid: Option<[i32; 4]>,
) -> Option<HoverModel> {
    if action == "show_text"@ {
        match value {
            Some(v) => Some(HoverModel::ShowText { value: Box::new(v) }),
            None => None,
        }
    } else if action == "show_item"@ {
        match id {
            Some(id) => Some(HoverModel::ShowItem { id, count, components }),
            None => None,
        }
    } else if action == "show_entity"@ {
        match (id, uuid) {
            (Some(id), Some(u)) => if u@[0] == 0 && u@[1] == 0 && u@[2] == 0 && u@[3] == 0 {
                None
            } else {
                Some(HoverModel::ShowEntity { name, id, uuid: u })
            },
            _ => None,
        }
    } else {
        None
    }
}

/// A hover event compound read from `q` with the fields gathered so far: `action`, `id`,
/// `components` and `name` take strings, `value` a component, `count` a number, `uuid` a uuid
/// string or four ints.
pub open spec fn hover_scan(
    t: Seq<char>,
    q: int,
    expecting: bool,
    action: Seq<char>,
    value: Option<ComponentModel>,
    id: Option<Seq<char>>,
    count: Option<i32>,
    components: Option<Seq<char>>,
    name: Option<Seq<char>>,
    uuid: Option<[i32; 4]>,
) -> Option<(HoverModel, int)>
    decreases t.len() - q, 2nat,
{
    match key_scan(t, q, Seq::empty(), expecting) {
        None => None,
        Some((None, q2)) => match hover_final(action, value, id, count, components, name, uuid) {
            Some(h) => Some((h, q2)),
            None => None,
        },
        Some((Some(k), q2)) => {
            let q3 = skip_space(t, q2);
            if q3 < q || q3 >= t.len() {
                None
            } else {
                let c = t[q3];
                let p4 = q3 + 1;
                if k == "action"@ {
                    match quoted_value(t, p4, c) {
                        Some((s, q4)) => if q < q4 <= t.len() {
                            hover_scan(t, q4, false, s, value, id, count, components, name, uuid)
                        } else {
                            None
                        },
                        None => None,
                    }
                } else if k == "value"@ {
                    match body_m(t, p4, Some(c)) {
                        Some((v, q4)) => if q < q4 <= t.len() {
                            hover_scan(t, q4, false, action, Some(v), id, count, components, name, uuid)
                        } else {
                            None
                        },
                        None => None,
                    }
                } else if k == "id"@ {
                    match quoted_value(t, p4, c) {
                        Some((s, q4)) => if q < q4 <= t.len() {
                            hover_scan(t, q4, false, action, value, Some(s), count, components, name, uuid)
                        } else {
                            None
                        },
                        None => None,
                    }
                } else if k == "count"@ {
                    match numeral(t, p4, c) {
                        Some((n, q4)) => if q < q4 <= t.len() {
                            hover_scan(t, q4, false, action, value, id, Some(num_i32(n)), components, name, uuid)
                        } else {
                            None
                        },
                        None => None,
                    }
                } else if k == "components"@ {
                    match quoted_value(t, p4, c) {
                        Some((s, q4)) => if q < q4 <= t.len() {
                            hover_scan(t, q4, false, action, value, id, count, Some(s), name, uuid)
                        } else {
                            None
                        },
                        None => None,
                    }
                } else if k == "name"@ {
                    match quoted_value(t, p4, c) {
                        Some((s, q4)) => if q < q4 <= t.len() {
                            hover_scan(t, q4, false, action, value, id, count, components, Some(s), uuid)
                        } else {
                            None
                        },
                        None => None,
                    }
                } else if k == "uuid"@ {
                    let u: Option<([i32; 4], int)> = if c == '"' || c == '\'' {
                        match quoted(t, p4, c) {
                            Some((s, q4)) => match uuid_value(s) {
                                Some((hi, lo)) => Some((uuid_ints(hi, lo), q4)),
                                None => None,
                            },
                            None => None,
                        }
                    } else if c == '[' {
                        match int_list(t, p4) {
                            Some((v, q4)) => if v.len() == 4 { Some(([v[0], v[1], v[2], v[3]], q4)) } else { None },
                            None => None,
                        }
                    } else {
                        None
                    };
                    match u {
                        Some((uv, q4)) => if q < q4 <= t.len() {
                            hover_scan(t, q4, false, action, value, id, count, components, name, Some(uv))
                        } else {
                            None
                        },
                        None => None,
                    }
                } else {
                    None
                }
            }
        },
    }
}

/// The content a compound's slots give: see [retrieve_content].
pub open spec fn retrieved(parts: PartsModel) -> Option<ContentModel> {
    if slot_of(parts.content, parts.object) == Some(9int) {
        None
    } else {
        first_complete(parts, 0)
    }
}

/// Which content key `k` is, by its place in this list: `type`, `text`, `translate`,
/// `fallback`, `with`, `score`, `selector`, `separator`, `keybind`, `source`, `nbt`,
/// `interpret`, `entity`, `block`, `storage`, `object`, `atlas`, `sprite`, `player`, `hat`,
/// `custom` (0 to 20), or -1 for none of them.
pub open spec fn content_key_index(k: Seq<char>) -> int {
    if k == "type"@ { 0 }
    else if k == "text"@ { 1 }
    else if k == "translate"@ { 2 }
    else if k == "fallback"@ { 3 }
    else if k == "with"@ { 4 }
    else if k == "score"@ { 5 }
    else if k == "selector"@ { 6 }
    else if k == "separator"@ { 7 }
    else if k == "keybind"@ { 8 }
    else if k == "source"@ { 9 }
    else if k == "nbt"@ { 10 }
    else if k == "interpret"@ { 11 }
    else if k == "entity"@ { 12 }
    else if k == "block"@ { 13 }
    else if k == "storage"@ { 14 }
    else if k == "object"@ { 15 }
    else if k == "atlas"@ { 16 }
    else if k == "sprite"@ { 17 }
    else if k == "player"@ { 18 }
    else if k == "hat"@ { 19 }
    else if k == "custom"@ { 20 }
    else { -1 }
}

/// Reads the value of a content key whose first character `first` has been consumed, and
/// fills the slot it belongs to in place, keeping what earlier keys put there; only that
/// slot changes (`separator` fills both the selector and the NBT slot).
pub fn match_content(name: &Vec<char>, parts: &mut CompoundParts, first: char, t: &Vec<char>, p: usize) -> (r: SnbtResult<usize>)
    requires
        p <= t@.len(),
    ensures
        match r {
            Ok(q) => content_step(name@, old(parts)@, first, t@, p as int) == Some((final(parts)@, q as int)) && p <= q <= t@.len(),
            Err(_) => content_step(name@, old(parts)@, first, t@, p as int) is None,
        },
    decreases t@.len() - p, 4nat,
{
    if is_word(name, "type") {
        let (v, q) = parse_quoted_value(first, t, p, "type")?;
        parts.content = v;
        Ok(q)
    } else if is_word(name, "text") {
        let (v, q) = string_value(first, t, p, "text")?;
        parts.text = Some(Content::Text(v));
        Ok(q)
    } else if is_word(name, "translate") {
        let (v, q) = string_value(first, t, p, "translate")?;
        let mut m = message_slot(&mut parts.translate);
        m.key = v;
        parts.translate = Some(Content::Translate(m));
        Ok(q)
    } else if is_word(name, "fallback") {
        let (v, q) = string_value(first, t, p, "fallback")?;
        let mut m = message_slot(&mut parts.translate);
        m.fallback = Some(v);
        parts.translate = Some(Content::Translate(m));
        Ok(q)
    } else if is_word(name, "with") {
        if first != '[' {
            return Err(SnbtError::WrongContentType(owned("with")));
        }
        let (args, q) = parse_vec(t, p)?;
        let mut m = message_slot(&mut parts.translate);
        m.args = Some(args);
        parts.translate = Some(Content::Translate(m));
        Ok(q)
    } else if is_word(name, "score") {
        if first != '{' {
            return Err(SnbtError::WrongContentType(owned("score")));
        }
        let (sc, q) = parse_scoreboard(t, p)?;
        parts.score = Some(Content::Resolvable(sc));
        Ok(q)
    } else if is_word(name, "selector") {
        let (v, q) = string_value(first, t, p, "selector")?;
        let separator = match parts.selector.take() {
            Some(Content::Resolvable(Resolvable::Entity { separator, .. })) => separator,
            _ => Resolvable::entity_separator(),
        };
        parts.selector = Some(Content::Resolvable(Resolvable::Entity { selector: v, separator }));
        Ok(q)
    } else if is_word(name, "separator") {
        let (sep, q) = parse_body(t, p, Some(first))?;
        let sep2 = sep.copy();
        let selector = match parts.selector.take() {
            Some(Content::Resolvable(Resolvable::Entity { selector, .. })) => selector,
            _ => unset(),
        };
        parts.selector = Some(Content::Resolvable(Resolvable::Entity { selector, separator: Box::new(sep) }));
        let (path, interpret, _, source) = nbt_slot(&mut parts.nbt_path);
        parts.nbt_path = Some(Content::Resolvable(Resolvable::NBT { path, interpret, separator: Box::new(sep2), source }));
        Ok(q)
    } else if is_word(name, "keybind") {
        let (v, q) = string_value(first, t, p, "keybind")?;
        parts.keybind = Some(Content::Keybind(v));
        Ok(q)
    } else if is_word(name, "source") {
        let (v, q) = parse_quoted_value(first, t, p, "source")?;
        if !(is_word(&v, "block") || is_word(&v, "entity") || is_word(&v, "storage")) {
            return Err(SnbtError::UnknownKey(string_of(&v)));
        }
        parts.nbt = v;
        Ok(q)
    } else if is_word(name, "nbt") {
        let (v, q) = string_value(first, t, p, "nbt")?;
        let (_, interpret, separator, source) = nbt_slot(&mut parts.nbt_path);
        parts.nbt_path = Some(Content::Resolvable(Resolvable::NBT { path: v, interpret, separator, source }));
        Ok(q)
    } else if is_word(name, "interpret") {
        let (b, q) = parse_bool(first, t, p, "interpret")?;
        let (path, _, separator, source) = nbt_slot(&mut parts.nbt_path);
        parts.nbt_path = Some(Content::Resolvable(Resolvable::NBT { path, interpret: Some(b), separator, source }));
        Ok(q)
    } else if is_word(name, "entity") {
        let (v, q) = string_value(first, t, p, "entity")?;
        parts.entity_source = Some(NbtSource::Entity(v));
        Ok(q)
    } else if is_word(name, "block") {
        let (v, q) = string_value(first, t, p, "block")?;
        parts.block_source = Some(NbtSource::Block(v));
        Ok(q)
    } else if is_word(name, "storage") {
        let (v, q) = string_value(first, t, p, "storage")?;
        parts.storage_source = Some(NbtSource::Storage(v));
        Ok(q)
    } else if is_word(name, "object") {
        let (v, q) = parse_quoted_value(first, t, p, "object")?;
        if !(is_word(&v, "player") || is_word(&v, "atlas")) {
            return Err(SnbtError::UnknownKey(string_of(&v)));
        }
        parts.object = v;
        Ok(q)
    } else if is_word(name, "atlas") {
        let (v, q) = string_value(first, t, p, "atlas")?;
        let (_, sprite) = atlas_slot(&mut parts.atlas);
        parts.atlas = Some(Content::Object(Object::Atlas { atlas: Some(v), sprite }));
        Ok(q)
    } else if is_word(name, "sprite") {
        let (v, q) = string_value(first, t, p, "sprite")?;
        let (atlas, _) = atlas_slot(&mut parts.atlas);
        parts.atlas = Some(Content::Object(Object::Atlas { atlas, sprite: v }));
        Ok(q)
    } else if is_word(name, "player") {
        if first != '{' {
            return Err(SnbtError::WrongContentType(owned("player")));
        }
        let (pl, q) = parse_player(t, p)?;
        let (_, hat) = player_slot(&mut parts.player);
        parts.player = Some(Content::Object(Object::Player { player: pl, hat }));
        Ok(q)
    } else if is_word(name, "hat") {
        let (b, q) = parse_bool(first, t, p, "hat")?;
        let (pl, _) = player_slot(&mut parts.player);
        parts.player = Some(Content::Object(Object::Player { player: pl, hat: b }));
        Ok(q)
    } else if is_word(name, "custom") {
        if first != '{' {
            return Err(SnbtError::WrongContentType(owned("custom")));
        }
        let (d, q) = parse_custom(t, p)?;
        parts.custom = Some(Content::Custom(d));
        Ok(q)
    } else {
        Err(SnbtError::UnknownKey(string_of(name)))
    }
}

/// Reads a quoted value as characters; anything but a quote is the wrong type for `field`.
fn parse_quoted_value(first: char, t: &Vec<char>, p: usize, field: &str) -> (r: SnbtResult<(Vec<char>, usize)>)
    requires
        p <= t@.len(),
    ensures
        match r {
            Ok((s, q)) => (first == '"' || first == '\'') && quoted(t@, p as int, first) == Some((s@, q as int))
                && p < q <= t@.len(),
            Err(_) => !(first == '"' || first == '\'') || quoted(t@, p as int, first) is None,
        },
{
    if first == '"' || first == '\'' {
        parse_quoted(t, p, first)
    } else {
        Err(SnbtError::WrongContentType(owned(field)))
    }
}

/// The model of an optional source.
pub open spec fn opt_source(o: Option<NbtSource>) -> Option<SourceModel> {
    match o {
        Some(s) => Some(s@),
        None => None,
    }
}

/// A filled slot once checked: a translation needs a key, an entity list a selector, an
/// atlas a sprite, a player head something that identifies the player, NBT content a path
/// and a source (the one `nbt` names, or else the first of entity, block and storage given,
/// or else the one it has). `None` when the slot is incomplete.
pub open spec fn completed(
    c: ContentModel,
    nbt: Seq<char>,
    entity: Option<SourceModel>,
    block: Option<SourceModel>,
    storage: Option<SourceModel>,
) -> Option<ContentModel> {
    match c {
        ContentModel::Translate(m) => if m.key.len() > 0 { Some(c) } else { None },
        ContentModel::Resolvable(ResolvableModel::Entity { selector, .. }) => if selector != unset_marker() { Some(c) } else { None },
        ContentModel::Resolvable(ResolvableModel::NBT { path, interpret, separator, source }) => {
            let src = if nbt == "entity"@ {
                entity
            } else if nbt == "block"@ {
                block
            } else if nbt == "storage"@ {
                storage
            } else {
                Some(match (entity, block, storage) {
                    (Some(x), _, _) => x,
                    (None, Some(x), _) => x,
                    (None, None, Some(x)) => x,
                    (None, None, None) => source,
                })
            };
            match src {
                Some(sm) => if path != unset_marker() {
                    Some(ContentModel::Resolvable(ResolvableModel::NBT { path, interpret, separator, source: sm }))
                } else {
                    None
                },
                None => None,
            }
        },
        ContentModel::Object(ObjectModel::Atlas { sprite, .. }) => if sprite != unset_marker() { Some(c) } else { None },
        ContentModel::Object(ObjectModel::Player { player, .. }) => if !player.is_empty() { Some(c) } else { None },
        _ => Some(c),
    }
}

/// Checks that a filled slot is complete, and gives an NBT placeholder its source.
pub fn match_content_type(content: Content, parts: &CompoundParts) -> (r: SnbtResult<Content>)
    ensures
        match r {
            Ok(c) => completed(content@, parts.nbt@, opt_source(parts.entity_source), opt_source(parts.block_source),
                opt_source(parts.storage_source)) == Some(c@),
            Err(e) => completed(content@, parts.nbt@, opt_source(parts.entity_source), opt_source(parts.block_source),
                opt_source(parts.storage_source)) is None && e is Required,
        },
{
    match content {
        Content::Translate(m) => {
            if m.key.as_str().unicode_len() > 0 {
                Ok(Content::Translate(m))
            } else {
                Err(required("Translations", "key"))
            }
        },
        Content::Resolvable(Resolvable::Entity { selector, separator }) => {
            if !is_unset(&selector) {
                Ok(Content::Resolvable(Resolvable::Entity { selector, separator }))
            } else {
                Err(required("Entities", "selector"))
            }
        },
        Content::Resolvable(Resolvable::NBT { path, interpret, separator, source }) => {
            let source = if is_word(&parts.nbt, "entity") {
                match &parts.entity_source {
                    Some(s) => s.copy(),
                    None => return Err(required("Nbt", "entity")),
                }
            } else if is_word(&parts.nbt, "block") {
                match &parts.block_source {
                    Some(s) => s.copy(),
                    None => return Err(required("Nbt", "block")),
                }
            } else if is_word(&parts.nbt, "storage") {
                match &parts.storage_source {
                    Some(s) => s.copy(),
                    None => return Err(required("Nbt", "storage")),
                }
            } else {
                match (&parts.entity_source, &parts.block_source, &parts.storage_source) {
                    (Some(s), _, _) => s.copy(),
                    (None, Some(s), _) => s.copy(),
                    (None, None, Some(s)) => s.copy(),
                    (None, None, None) => source,
                }
            };
            if !is_unset(&path) {
                Ok(Content::Resolvable(Resolvable::NBT { path, interpret, separator, source }))
            } else {
                Err(required("Nbt", "entity, \"block, or \"storage"))
            }
        },
        Content::Object(Object::Atlas { atlas, sprite }) => {
            if !is_unset(&sprite) {
                Ok(Content::Object(Object::Atlas { atlas, sprite }))
            } else {
                Err(required("Atlas object", "sprite"))
            }
        },
        Content::Object(Object::Player { player, hat }) => {
            if !player.is_empty() {
                Ok(Content::Object(Object::Player { player, hat }))
            } else {
                Err(required("Player object", "player"))
            }
        },
        other => Ok(other),
    }
}

/// The slot a `type` key names: 0 text, 1 translation, 2 score, 3 selector, 4 keybind,
/// 5 nbt, 6 atlas, 7 player head, 8 custom; `None` when no type was given, `Some(9)` for
/// an unknown type.
pub open spec fn slot_of(content: Seq<char>, object: Seq<char>) -> Option<int> {
    if content == "text"@ { Some(0) }
    else if content == "translatable"@ { Some(1) }
    else if content == "score"@ { Some(2) }
    else if content == "selector"@ { Some(3) }
    else if content == "keybind"@ { Some(4) }
    else if content == "nbt"@ { Some(5) }
    else if content == "object"@ { if object == "player"@ { Some(7) } else { Some(6) } }
    else if content == "custom"@ { Some(8) }
    else if content.len() == 0 { None }
    else { Some(9) }
}

fn slot_index(parts: &CompoundParts) -> (r: Option<usize>)
    ensures
        match r {
            Some(i) => slot_of(parts.content@, parts.object@) == Some(i as int),
            None => slot_of(parts.content@, parts.object@) is None,
        },
{
    let c = &parts.content;
    if is_word(c, "text") { Some(0) }
    else if is_word(c, "translatable") { Some(1) }
    else if is_word(c, "score") { Some(2) }
    else if is_word(c, "selector") { Some(3) }
    else if is_word(c, "keybind") { Some(4) }
    else if is_word(c, "nbt") { Some(5) }
    else if is_word(c, "object") { if is_word(&parts.object, "player") { Some(7) } else { Some(6) } }
    else if is_word(c, "custom") { Some(8) }
    else if c.len() == 0 { None }
    else { Some(9) }
}

fn take_slot(parts: &mut CompoundParts, i: usize) -> (r: Option<Content>)
    requires
        i < 9,
    ensures
        final(parts).content == old(parts).content,
        final(parts).object == old(parts).object,
        final(parts).nbt == old(parts).nbt,
        i == 0 ==> r == old(parts).text,
        i == 1 ==> r == old(parts).translate,
        i == 2 ==> r == old(parts).score,
        i == 3 ==> r == old(parts).selector,
        i == 4 ==> r == old(parts).keybind,
        i == 5 ==> r == old(parts).nbt_path,
        i == 6 ==> r == old(parts).atlas,
        i == 7 ==> r == old(parts).player,
        i == 8 ==> r == old(parts).custom,
        i != 0 ==> final(parts).text == old(parts).text,
        i != 1 ==> final(parts).translate == old(parts).translate,
        i != 2 ==> final(parts).score == old(parts).score,
        i != 3 ==> final(parts).selector == old(parts).selector,
        i != 4 ==> final(parts).keybind == old(parts).keybind,
        i != 5 ==> final(parts).nbt_path == old(parts).nbt_path,
        i != 6 ==> final(parts).atlas == old(parts).atlas,
        i != 7 ==> final(parts).player == old(parts).player,
        i != 8 ==> final(parts).custom == old(parts).custom,
        final(parts).entity_source == old(parts).entity_source,
        final(parts).block_source == old(parts).block_source,
        final(parts).storage_source == old(parts).storage_source,
{
    if i == 0 { parts.text.take() }
    else if i == 1 { parts.translate.take() }
    else if i == 2 { parts.score.take() }
    else if i == 3 { parts.selector.take() }
    else if i == 4 { parts.keybind.take() }
    else if i == 5 { parts.nbt_path.take() }
    else if i == 6 { parts.atlas.take() }
    else if i == 7 { parts.player.take() }
    else { parts.custom.take() }
}

/// The model of an optional content slot.
pub open spec fn opt_content(o: Option<Content>) -> Option<ContentModel> {
    match o {
        Some(c) => Some(c@),
        None => None,
    }
}

/// The content slot `i` of a compound.
pub open spec fn slot(parts: PartsModel, i: int) -> Option<ContentModel> {
    if i == 0 { parts.text }
    else if i == 1 { parts.translate }
    else if i == 2 { parts.score }
    else if i == 3 { parts.selector }
    else if i == 4 { parts.keybind }
    else if i == 5 { parts.nbt_path }
    else if i == 6 { parts.atlas }
    else if i == 7 { parts.player }
    else { parts.custom }
}

/// Whether slot `i` may give the content: the `type` key names it or names none, and it is
/// not the atlas slot of a player object.
pub open spec fn slot_allowed(parts: PartsModel, i: int) -> bool {
    (match slot_of(parts.content, parts.object) {
        Some(k) => k == i,
        None => true,
    }) && !(i == 6 && parts.object == "player"@)
}

/// The first allowed, filled and complete slot from `i` on, completed.
pub open spec fn first_complete(parts: PartsModel, i: int) -> Option<ContentModel>
    decreases 9 - i,
{
    if i < 0 || i >= 9 {
        None
    } else if slot_allowed(parts, i) && slot(parts, i) is Some && completed(slot(parts, i)->0, parts.nbt,
        parts.entity_source, parts.block_source, parts.storage_source) is Some {
        completed(slot(parts, i)->0, parts.nbt, parts.entity_source, parts.block_source, parts.storage_source)
    } else {
        first_complete(parts, i + 1)
    }
}

/// Whether none of the first `n` slots is both allowed and filled.
pub open spec fn no_filled_slot(parts: PartsModel, n: int) -> bool {
    forall|i: int| 0 <= i < n ==> !(slot_allowed(parts, i) && #[trigger] slot(parts, i) is Some)
}

/// Picks the content of a compound: the first allowed, filled and complete slot in the order
/// text, translation, score, selector, keybind, nbt, atlas, player head, custom. An unknown
/// type is an unknown key; with no such slot the last problem found is reported, or missing
/// content when no allowed slot was filled.
pub fn retrieve_content(compound: CompoundParts) -> (r: SnbtResult<Content>)
    ensures
        slot_of(compound.content@, compound.object@) == Some(9int) ==> (r matches Err(SnbtError::UnknownKey(k))
            && k@ == compound.content@),
        slot_of(compound.content@, compound.object@) != Some(9int) ==> match r {
            Ok(c) => first_complete(compound@, 0) == Some(c@),
            Err(e) => first_complete(compound@, 0) is None && (e is MissingContent || e is Required)
                && (e is MissingContent <==> no_filled_slot(compound@, 9)),
        },
        match r {
            Ok(c) => retrieved(compound@) == Some(c@),
            Err(_) => retrieved(compound@) is None,
        },
{
    let mut parts = compound;
    let pos = slot_index(&parts);
    if let Some(9) = pos {
        return Err(SnbtError::UnknownKey(string_of(&parts.content)));
    }
    let player_object = is_word(&parts.object, "player");
    let mut error = SnbtError::MissingContent;
    let mut i: usize = 0;
    while i < 9
        invariant
            i <= 9,
            parts.content == compound.content,
            parts.object == compound.object,
            parts.nbt == compound.nbt,
            parts.entity_source == compound.entity_source,
            parts.block_source == compound.block_source,
            parts.storage_source == compound.storage_source,
            match pos {
                Some(k) => slot_of(compound.content@, compound.object@) == Some(k as int),
                None => slot_of(compound.content@, compound.object@) is None,
            },
            pos != Some(9usize),
            player_object == (compound.object@ == "player"@),
            i <= 0 ==> parts.text == compound.text,
            i <= 1 ==> parts.translate == compound.translate,
            i <= 2 ==> parts.score == compound.score,
            i <= 3 ==> parts.selector == compound.selector,
            i <= 4 ==> parts.keybind == compound.keybind,
            i <= 5 ==> parts.nbt_path == compound.nbt_path,
            i <= 6 ==> parts.atlas == compound.atlas,
            i <= 7 ==> parts.player == compound.player,
            i <= 8 ==> parts.custom == compound.custom,
            first_complete(compound@, 0) == first_complete(compound@, i as int),
            error is MissingContent || error is Required,
            error is MissingContent <==> no_filled_slot(compound@, i as int),
        decreases 9 - i,
    {
        let skip = match pos {
            Some(k) => k != i,
            None => false,
        } || (i == 6 && player_object);
        assert(slot_allowed(compound@, i as int) == !skip);
        if !skip {
            if let Some(content) = take_slot(&mut parts, i) {
                assert(slot(compound@, i as int) == Some(content@));
                match match_content_type(content, &parts) {
                    Ok(c) => return Ok(c),
                    Err(e) => error = e,
                }
            }
        }
        i += 1;
    }
    Err(error)
}

/// Which format key `k` is: 0 `color`, 1 `font`, 2 `bold`, 3 `italic`, 4 `underlined`,
/// 5 `strikethrough`, 6 `obfuscated`, 7 `shadow_color`, or -1 for none of them.
pub open spec fn format_key_index(k: Seq<char>) -> int {
    if k == "color"@ { 0 }
    else if k == "font"@ { 1 }
    else if k == "bold"@ { 2 }
    else if k == "italic"@ { 3 }
    else if k == "underlined"@ { 4 }
    else if k == "strikethrough"@ { 5 }
    else if k == "obfuscated"@ { 6 }
    else if k == "shadow_color"@ { 7 }
    else { -1 }
}

/// `f` with the flag that format key `i` (2 to 6) names set to `b`.
pub open spec fn with_flag(f: FormatModel, i: int, b: bool) -> FormatModel {
    if i == 2 { FormatModel { bold: Some(b), ..f } }
    else if i == 3 { FormatModel { italic: Some(b), ..f } }
    else if i == 4 { FormatModel { underline: Some(b), ..f } }
    else if i == 5 { FormatModel { strikethrough: Some(b), ..f } }
    else { FormatModel { obfuscated: Some(b), ..f } }
}

/// The quoted string that starts with `first` and continues at `p`.
pub open spec fn quoted_value(t: Seq<char>, p: int, first: char) -> Option<(Seq<char>, int)> {
    if first == '"' || first == '\'' { quoted(t, p, first) } else { None }
}

/// The text of the quoted string that starts with `first` and continues at `p`, if any.
pub open spec fn quoted_text(t: Seq<char>, p: int, first: char) -> Seq<char> {
    match quoted_value(t, p, first) {
        Some((s, _)) => s,
        None => Seq::empty(),
    }
}

/// Reads the value of a format key whose first character `first` has been consumed: a
/// colour name or `#rrggbb`, a font string, a boolean for the five flags, a number or a list
/// of four channel fractions for the shadow colour. Only the field the key names changes.
pub fn match_format(name: &Vec<char>, format: &mut Format, first: char, t: &Vec<char>, p: usize) -> (r: SnbtResult<usize>)
    requires
        p <= t@.len(),
    ensures
        match r {
            Ok(q) => format_step(name@, old(format)@, first, t@, p as int) == Some((final(format)@, q as int)) && p <= q <= t@.len(),
            Err(_) => format_step(name@, old(format)@, first, t@, p as int) is None,
        },
        format_key_index(name@) == 0 && quoted_value(t@, p as int, first) is Some
            && color_of(quoted_text(t@, p as int, first)) is None ==> (r matches Err(SnbtError::UnknownColor(x))
            && x@ == quoted_text(t@, p as int, first)),
{
    if is_word(name, "color") {
        let (v, q) = parse_quoted_value(first, t, p, "color")?;
        match color_from_name(&v) {
            Some(c) => {
                format.color = Some(c);
                Ok(q)
            },
            None => Err(SnbtError::UnknownColor(string_of(&v))),
        }
    } else if is_word(name, "font") {
        let (v, q) = string_value(first, t, p, "font")?;
        format.font = Some(v);
        Ok(q)
    } else if is_word(name, "bold") {
        let (b, q) = parse_bool(first, t, p, "bold")?;
        format.bold = Some(b);
        Ok(q)
    } else if is_word(name, "italic") {
        let (b, q) = parse_bool(first, t, p, "italic")?;
        format.italic = Some(b);
        Ok(q)
    } else if is_word(name, "underlined") {
        let (b, q) = parse_bool(first, t, p, "underlined")?;
        format.underline = Some(b);
        Ok(q)
    } else if is_word(name, "strikethrough") {
        let (b, q) = parse_bool(first, t, p, "strikethrough")?;
        format.strikethrough = Some(b);
        Ok(q)
    } else if is_word(name, "obfuscated") {
        let (b, q) = parse_bool(first, t, p, "obfuscated")?;
        format.obfuscated = Some(b);
        Ok(q)
    } else if is_word(name, "shadow_color") {
        if first == '[' {
            let (v, q) = parse_shadow_list(t, p)?;
            format.shadow_color = Some(v);
            Ok(q)
        } else {
            let (n, q) = parse_num(first, t, p, "shadow_color")?;
            let v = n.as_i64();
            format.shadow_color = Some(#[verifier::truncate] (v as u32));
            Ok(q)
        }
    } else {
        Err(SnbtError::UnknownKey(string_of(name)))
    }
}

/// Reads a shadow colour written as four channel fractions `[r, g, b, a]`, whose `[` has been
/// consumed; see [shadow_scan].
fn parse_shadow_list(t: &Vec<char>, p: usize) -> (r: SnbtResult<(u32, usize)>)
    requires
        p <= t@.len(),
    ensures
        match r {
            Ok((v, q)) => shadow_scan(t@, p as int, Seq::empty()) == Some((v, q as int)) && p < q <= t@.len(),
            Err(_) => shadow_scan(t@, p as int, Seq::empty()) is None,
        },
{
    let mut chans: Vec<u32> = Vec::new();
    let mut q = p;
    loop
        invariant
            p <= q <= t@.len(),
            chans@.len() <= 4,
            forall|j: int| 0 <= j < chans@.len() ==> #[trigger] chans@[j] <= 255,
            shadow_scan(t@, p as int, Seq::empty()) == shadow_scan(t@, q as int, chans@),
        decreases t@.len() - q,
    {
        let q0 = q;
        q = skip_ws(t, q);
        if q >= t.len() {
            return Err(SnbtError::EndedAbruptely(q));
        }
        let c = t[q];
        q += 1;
        if c == ']' {
            if chans.len() != 4 {
                return Err(SnbtError::WrongContentType(owned("shadow_color")));
            }
            let v: u32 = chans[3] * 16777216 + chans[0] * 65536 + chans[1] * 256 + chans[2];
            return Ok((v, q));
        } else if c != ',' {
            if !('0' <= c && c <= '9') || chans.len() >= 4 || !(c == '0' || c == '1') {
                return Err(SnbtError::WrongContentType(owned("shadow_color")));
            }
            let start = q;
            while q < t.len() && (('0' <= t[q] && t[q] <= '9') || t[q] == '.')
                invariant
                    start <= q <= t@.len(),
                    fraction_end(t@, start as int) == fraction_end(t@, q as int),
                decreases t@.len() - q,
            {
                q += 1;
            }
            if q < t.len() && (t[q] == 'f' || t[q] == 'F' || t[q] == 'd' || t[q] == 'D') {
                q += 1;
            }
            chans.push(if c == '1' { 255 } else { 0 });
        }
    }
}

/// Which interaction key `k` is: 0 `insertion`, 1 `click_event`, 2 `hover_event`, or -1.
pub open spec fn interaction_key_index(k: Seq<char>) -> int {
    if k == "insertion"@ { 0 }
    else if k == "click_event"@ { 1 }
    else if k == "hover_event"@ { 2 }
    else { -1 }
}

/// Reads the value of an interaction key whose first character `first` has been consumed:
/// an insertion string, or a click or hover event compound. Only the field the key names
/// changes.
pub fn match_interactions(name: &Vec<char>, interactions: &mut Interactivity, first: char, t: &Vec<char>, p: usize) -> (r: SnbtResult<usize>)
    requires
        p <= t@.len(),
    ensures
        match r {
            Ok(q) => interaction_step(name@, old(interactions)@, first, t@, p as int) == Some((final(interactions)@, q as int))
                && p <= q <= t@.len(),
            Err(_) => interaction_step(name@, old(interactions)@, first, t@, p as int) is None,
        },
    decreases t@.len() - p, 4nat,
{
    if is_word(name, "insertion") {
        let (v, q) = string_value(first, t, p, "insertion")?;
        interactions.insertion = Some(v);
        Ok(q)
    } else if is_word(name, "click_event") {
        if first != '{' {
            return Err(SnbtError::WrongContentType(owned("click_event")));
        }
        let (c, q) = parse_click(t, p)?;
        interactions.click = Some(c);
        Ok(q)
    } else if is_word(name, "hover_event") {
        if first != '{' {
            return Err(SnbtError::WrongContentType(owned("hover_event")));
        }
        let (h, q) = parse_hover(t, p)?;
        interactions.hover = Some(h);
        Ok(q)
    } else {
        Err(SnbtError::UnknownKey(string_of(name)))
    }
}

/// Reads a hover event compound whose `{` has been consumed: `action` names the event;
/// `show_text` needs `value`, `show_item` needs `id`, `show_entity` needs `id` and a non-nil
/// `uuid` (a uuid string or four ints).
pub fn parse_hover(t: &Vec<char>, p: usize) -> (r: SnbtResult<(HoverEvent, usize)>)
    requires
        p <= t@.len(),
    ensures
        match r {
            Ok((h, q)) => hover_scan(t@, p as int, true, Seq::empty(), None, None, None, None, None, None) == Some((h@, q as int))
                && p < q <= t@.len(),
            Err(_) => hover_scan(t@, p as int, true, Seq::empty(), None, None, None, None, None, None) is None,
        },
    decreases t@.len() - p, 2nat,
{
    let mut action: Vec<char> = Vec::new();
    let mut value: Option<TextComponent> = None;
    let mut id: Option<String> = None;
    let mut count: Option<i32> = None;
    let mut components: Option<String> = None;
    let mut ename: Option<String> = None;
    let mut uuid: Option<[i32; 4]> = None;
    let mut q = p;
    let mut expecting = true;
    loop
        invariant
            p <= q <= t@.len(),
            q == p ==> expecting,
            hover_scan(t@, p as int, true, Seq::empty(), None, None, None, None, None, None) == hover_scan(t@, q as int,
                expecting, action@, crate::decode::opt_component(value), crate::text::opt_view(id), count,
                crate::text::opt_view(components), crate::text::opt_view(ename), uuid),
        decreases t@.len() - q,
    {
        let (step, q2) = read_key(t, q, expecting)?;
        expecting = false;
        match step {
            KeyStep::End => {
                let r = if is_word(&action, "show_text") {
                    match value {
                        Some(v) => Ok(HoverEvent::ShowText { value: Box::new(v) }),
                        None => Err(required("\"show_text\"", "value")),
                    }
                } else if is_word(&action, "show_item") {
                    match id {
                        Some(id) => Ok(HoverEvent::ShowItem { id, count, components }),
                        None => Err(required("\"show_item\"", "id")),
                    }
                } else if is_word(&action, "show_entity") {
                    match (id, uuid) {
                        (Some(id), Some(u)) => {
                            if u[0] == 0 && u[1] == 0 && u[2] == 0 && u[3] == 0 {
                                Err(required("\"show_entity\"", "uuid"))
                            } else {
                                Ok(HoverEvent::ShowEntity { name: ename, id, uuid: u })
                            }
                        },
                        (None, _) => Err(required("\"show_entity\"", "id")),
                        (Some(_), None) => Err(required("\"show_entity\"", "uuid")),
                    }
                } else {
                    Err(SnbtError::WrongContentType(owned("action")))
                };
                return match r {
                    Ok(h) => Ok((h, q2)),
                    Err(e) => Err(e),
                };
            },
            KeyStep::Key(name) => {
                let (c, q3) = next_char(t, q2)?;
                if is_word(&name, "action") {
                    let (v, q4) = parse_quoted_value(c, t, q3, "action")?;
                    action = v;
                    q = q4;
                } else if is_word(&name, "value") {
                    let (v, q4) = parse_body(t, q3, Some(c))?;
                    value = Some(v);
                    q = q4;
                } else if is_word(&name, "id") {
                    let (v, q4) = string_value(c, t, q3, "id")?;
                    id = Some(v);
                    q = q4;
                } else if is_word(&name, "count") {
                    let (n, q4) = parse_num(c, t, q3, "count")?;
                    count = Some(n.as_i32());
                    q = q4;
                } else if is_word(&name, "components") {
                    let (v, q4) = string_value(c, t, q3, "components")?;
                    components = Some(v);
                    q = q4;
                } else if is_word(&name, "name") {
                    let (v, q4) = string_value(c, t, q3, "name")?;
                    ename = Some(v);
                    q = q4;
                } else if is_word(&name, "uuid") {
                    if c == '"' || c == '\'' {
                        let (v, q4) = parse_string(t, q3, c)?;
                        match parse_uuid_text(&v) {
                            Some(u) => uuid = Some(u),
                            None => return Err(SnbtError::WrongContentType(owned("uuid"))),
                        }
                        q = q4;
                    } else if c == '[' {
                        let (nums, q4) = parse_int_vec(t, q3, "uuid")?;
                        if nums.len() != 4 {
                            return Err(SnbtError::WrongContentType(owned("uuid")));
                        }
                        uuid = Some([nums[0], nums[1], nums[2], nums[3]]);
                        q = q4;
                    } else {
                        return Err(SnbtError::WrongContentType(owned("uuid")));
                    }
                } else {
                    return Err(SnbtError::UnknownKey(string_of(&name)));
                }
            },
        }
    }
}

/// Reads a component: a quoted string is plain text, `[` a list of children under an empty
/// parent, `{` a compound. `first`, when given, has already been consumed.
pub fn parse_body(t: &Vec<char>, p: usize, first: Option<char>) -> (r: SnbtResult<(TextComponent, usize)>)
    requires
        p <= t@.len(),
    ensures
        match r {
            Ok((c, q)) => body_m(t@, p as int, first) == Some((c@, q as int)) && p <= q <= t@.len()
                && (first is None ==> p < q),
            Err(_) => body_m(t@, p as int, first) is None,
        },
    decreases t@.len() - p, if first is Some { 3nat } else { 1nat },
{
    let (c, q) = match first {
        Some(c) => (c, p),
        None => next_char(t, p)?,
    };
    if c == '"' || c == '\'' {
        let (s, q2) = parse_string(t, q, c)?;
        Ok((TextComponent::with_content(Content::Text(s)), q2))
    } else if c == '[' {
        let (children, q2) = parse_vec(t, q)?;
        Ok((TextComponent::new().add_children(children), q2))
    } else if c == '{' {
        parse_compound(t, q)
    } else {
        Err(SnbtError::EndedAbruptely(q))
    }
}

/// Reads a list of components, separated by commas, whose `[` has been consumed.
pub fn parse_vec(t: &Vec<char>, p: usize) -> (r: SnbtResult<(Vec<TextComponent>, usize)>)
    requires
        p <= t@.len(),
    ensures
        match r {
            Ok((v, q)) => vec_m(t@, p as int) == Some((crate::components_view(v), q as int)) && p < q <= t@.len(),
            Err(_) => vec_m(t@, p as int) is None,
        },
    decreases t@.len() - p, 2nat,
{
    let mut items: Vec<TextComponent> = Vec::new();
    let q0 = skip_ws(t, p);
    if q0 < t.len() && t[q0] == ']' {
        assert(crate::components_view(items) =~= Seq::<ComponentModel>::empty());
        return Ok((items, q0 + 1));
    }
    let (first, mut q) = parse_body(t, p, None)?;
    let ghost first_model = first@;
    items.push(first);
    proof {
        assert(crate::components_view(items) =~= seq![first_model]);
    }
    loop
        invariant
            p < q <= t@.len(),
            forall|rest: Seq<ComponentModel>, qe: int| vec_rest(t@, q as int) == Some((rest, qe))
                ==> #[trigger] vec_m(t@, p as int) == Some((crate::components_view(items) + rest, qe)),
            vec_rest(t@, q as int) is None ==> vec_m(t@, p as int) is None,
        decreases t@.len() - q,
    {
        let q_start = q;
        q = skip_ws(t, q);
        if q >= t.len() {
            return Err(SnbtError::EndedAbruptely(q));
        }
        let c = t[q];
        q += 1;
        if c == ']' {
            proof {
                assert(vec_rest(t@, q_start as int) == Some((Seq::<ComponentModel>::empty(), q as int)));
                assert(crate::components_view(items) + Seq::<ComponentModel>::empty() =~= crate::components_view(items));
            }
            return Ok((items, q));
        } else if c == ',' {
            let (item, q2) = parse_body(t, q, None)?;
            let ghost before = crate::components_view(items);
            let ghost im = item@;
            items.push(item);
            proof {
                assert(crate::components_view(items) =~= before + seq![im]);
                assert forall|rest: Seq<ComponentModel>, qe: int| vec_rest(t@, q2 as int) == Some((rest, qe))
                    implies #[trigger] vec_m(t@, p as int) == Some((crate::components_view(items) + rest, qe)) by {
                    assert(vec_rest(t@, q_start as int) == Some((seq![im] + rest, qe)));
                    assert(before + (seq![im] + rest) =~= before + seq![im] + rest);
                }
            }
            q = q2;
        } else {
            return Err(SnbtError::UnfinishedComponent(q - 1));
        }
    }
}

/// Reads the value of key `name`, whose first character `c` has been consumed, into the
/// compound being read; see [compound_next].
fn apply_key(
    name: &Vec<char>,
    c: char,
    t: &Vec<char>,
    p: usize,
    parts: &mut CompoundParts,
    format: &mut Format,
    interactions: &mut Interactivity,
    children: &mut Vec<TextComponent>,
) -> (r: SnbtResult<usize>)
    requires
        p <= t@.len(),
    ensures
        match r {
            Ok(q) => compound_next(name@, c, t@, p as int, old(parts)@, old(format)@, old(interactions)@,
                crate::components_view(*old(children))) == Some((final(parts)@, final(format)@, final(interactions)@,
                crate::components_view(*final(children)), q as int)) && p <= q <= t@.len(),
            Err(_) => compound_next(name@, c, t@, p as int, old(parts)@, old(format)@, old(interactions)@,
                crate::components_view(*old(children))) is None,
        },
    decreases t@.len() - p, 5nat,
{
    if content_key(name) {
        match_content(name, parts, c, t, p)
    } else if format_key(name) {
        match_format(name, format, c, t, p)
    } else if interaction_key(name) {
        match_interactions(name, interactions, c, t, p)
    } else if is_word(name, "extra") {
        if c != '[' {
            return Err(SnbtError::WrongContentType(owned("extra")));
        }
        let (kids, q) = parse_vec(t, p)?;
        *children = kids;
        Ok(q)
    } else {
        Err(SnbtError::UnknownKey(string_of(name)))
    }
}

/// Reads a compound whose `{` has been consumed: each `key: value` pair fills the content
/// slots, the format, the interactions or (for `extra`) the children; an unknown key fails.
pub fn parse_compound(t: &Vec<char>, p: usize) -> (r: SnbtResult<(TextComponent, usize)>)
    requires
        p <= t@.len(),
    ensures
        match r {
            Ok((c, q)) => compound_scan(t@, p as int, true, no_parts(), empty_format(), empty_interactions(), Seq::empty())
                == Some((c@, q as int)) && p < q <= t@.len(),
            Err(_) => compound_scan(t@, p as int, true, no_parts(), empty_format(), empty_interactions(), Seq::empty()) is None,
        },
    decreases t@.len() - p, 2nat,
{
    let mut parts = CompoundParts::new();
    let mut format = Format::new();
    let mut interactions = Interactivity::new();
    let mut children: Vec<TextComponent> = Vec::new();
    let mut q = p;
    let mut expecting = true;
    assert(crate::components_view(children) =~= Seq::<ComponentModel>::empty());
    loop
        invariant
            p <= q <= t@.len(),
            q == p ==> expecting,
            compound_scan(t@, p as int, true, no_parts(), empty_format(), empty_interactions(), Seq::empty())
                == compound_scan(t@, q as int, expecting, parts@, format@, interactions@, crate::components_view(children)),
        decreases t@.len() - q,
    {
        let (step, q2) = read_key(t, q, expecting)?;
        match step {
            KeyStep::End => {
                let content = retrieve_content(parts)?;
                return Ok((TextComponent { content, children, format, interactions }, q2));
            },
            KeyStep::Key(name) => {
                let (c, q3) = next_char(t, q2)?;
                let q4 = apply_key(&name, c, t, q3, &mut parts, &mut format, &mut interactions, &mut children)?;
                q = q4;
                expecting = false;
            },
        }
    }
}

impl TextComponent {
    /// Reads a component from its textual tag form, as [body_m] describes it from the start of
    /// the text; text after the component is ignored.
    pub fn from_snbt(string: &str) -> (r: SnbtResult<TextComponent>)
        ensures
            match r {
                Ok(c) => body_m(string@, 0, None) matches Some((m, _)) && c@ == m,
                Err(_) => body_m(string@, 0, None) is None,
            },
    {
        let t = crate::text::chars_of(string);
        match parse_body(&t, 0, None) {
            Ok((x, _)) => Ok(x),
            Err(e) => Err(e),
        }
    }
}

} // verus!
