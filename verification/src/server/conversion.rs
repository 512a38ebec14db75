//! Reading property values from their text form.
use vstd::prelude::*;
use crate::shared::types::Color;
use crate::shared::property::PropertyValue;
use crate::text::{str_eq, str_contains, has_substring};
use crate::text_parse::{parse_u64, spec_parse_u64};

verus! {

broadcast use vstd::string::group_string_axioms;

/// Whether `c` has the Unicode `White_Space` property (what `char::is_whitespace` tests).
pub open spec fn is_space(c: char) -> bool {
    ('\u{9}' <= c && c <= '\u{d}') || c == ' ' || c == '\u{85}' || c == '\u{a0}' || c == '\u{1680}'
        || ('\u{2000}' <= c && c <= '\u{200a}') || c == '\u{2028}' || c == '\u{2029}' || c == '\u{202f}'
        || c == '\u{205f}' || c == '\u{3000}'
}

fn space(c: char) -> (r: bool)
    ensures
        r == is_space(c),
{
    ('\u{9}' <= c && c <= '\u{d}') || c == ' ' || c == '\u{85}' || c == '\u{a0}' || c == '\u{1680}'
        || ('\u{2000}' <= c && c <= '\u{200a}') || c == '\u{2028}' || c == '\u{2029}' || c == '\u{202f}'
        || c == '\u{205f}' || c == '\u{3000}'
}

/// The index of the first character at or after `i` that is not white space
/// (the length when there is none).
pub open spec fn start_at(s: Seq<char>, i: int) -> int
    decreases s.len() - i,
{
    if i >= s.len() {
        s.len() as int
    } else if is_space(s[i]) {
        start_at(s, i + 1)
    } else {
        i
    }
}

/// The end of `s` once the white space before position `j` (down to `lo`) is dropped.
pub open spec fn end_at(s: Seq<char>, lo: int, j: int) -> int
    decreases j - lo,
{
    if j <= lo {
        lo
    } else if is_space(s[j - 1]) {
        end_at(s, lo, j - 1)
    } else {
        j
    }
}

/// `s` without its leading and trailing white space (what `str::trim` gives).
pub open spec fn trim(s: Seq<char>) -> Seq<char> {
    let lo = start_at(s, 0);
    s.subrange(lo, end_at(s, lo, s.len() as int))
}

/// The index of the first `=` at or after `i` (the length when there is none).
pub open spec fn eq_from(s: Seq<char>, i: int) -> int
    decreases s.len() - i,
{
    if i >= s.len() {
        s.len() as int
    } else if s[i] == '=' {
        i
    } else {
        eq_from(s, i + 1)
    }
}

/// The pieces of `s` between commas, in order (what `str::split(',')` gives).
pub open spec fn split_commas(s: Seq<char>) -> Seq<Seq<char>>
    decreases s.len(),
{
    if s.len() == 0 {
        seq![Seq::<char>::empty()]
    } else {
        let prev = split_commas(s.drop_last());
        if s.last() == ',' {
            prev.push(Seq::empty())
        } else {
            prev.update(prev.len() - 1, prev.last().push(s.last()))
        }
    }
}

/// The colour after one piece `NAME=VALUE` is read: a channel named `R`, `G`,
/// `B` or `A` takes the value when it reads as a `u8`; anything else changes nothing.
pub open spec fn apply_part(c: Color, part: Seq<char>) -> Color {
    let p = trim(part);
    let e = eq_from(p, 0);
    if e >= p.len() {
        c
    } else {
        let name = trim(p.subrange(0, e));
        match spec_parse_u64(p.subrange(e + 1, p.len() as int)) {
            Ok(v) => if v > 255 {
                c
            } else if name == "R"@ {
                Color { r: v as u8, ..c }
            } else if name == "G"@ {
                Color { g: v as u8, ..c }
            } else if name == "B"@ {
                Color { b: v as u8, ..c }
            } else if name == "A"@ {
                Color { a: v as u8, ..c }
            } else {
                c
            },
            Err(_) => c,
        }
    }
}

/// The colour after the pieces are read in order, from black with full alpha.
pub open spec fn color_fold(parts: Seq<Seq<char>>) -> Color
    decreases parts.len(),
{
    if parts.len() == 0 {
        Color { r: 0, g: 0, b: 0, a: 255 }
    } else {
        apply_part(color_fold(parts.drop_last()), parts.last())
    }
}

/// The colour that text `(R=..,G=..,B=..,A=..)` denotes.
pub open spec fn spec_parse_color(s: Seq<char>) -> Color {
    color_fold(split_commas(s.subrange(1, s.len() - 1)))
}

proof fn lemma_split_nonempty(s: Seq<char>)
    ensures
        split_commas(s).len() >= 1,
    decreases s.len(),
{
    if s.len() > 0 {
        lemma_split_nonempty(s.drop_last());
    }
}

fn trimmed(s: &str) -> (r: &str)
    ensures
        r@ == trim(s@),
{
    let n = s.unicode_len();
    let mut lo: usize = 0;
    while lo < n && space(s.get_char(lo))
        invariant
            n == s@.len(),
            lo <= n,
            start_at(s@, 0) == start_at(s@, lo as int),
        decreases n - lo,
    {
        lo = lo + 1;
    }
    let mut hi: usize = n;
    while hi > lo && space(s.get_char(hi - 1))
        invariant
            n == s@.len(),
            lo <= hi <= n,
            lo == start_at(s@, 0),
            end_at(s@, lo as int, n as int) == end_at(s@, lo as int, hi as int),
        decreases hi - lo,
    {
        hi = hi - 1;
    }
    s.substring_char(lo, hi)
}

fn find_eq(s: &str) -> (r: usize)
    ensures
        r == eq_from(s@, 0),
{
    let n = s.unicode_len();
    let mut i: usize = 0;
    while i < n && s.get_char(i) != '='
        invariant
            n == s@.len(),
            i <= n,
            eq_from(s@, 0) == eq_from(s@, i as int),
        decreases n - i,
    {
        i = i + 1;
    }
    i
}

fn apply_piece(c: Color, part: &str) -> (r: Color)
    ensures
        r == apply_part(c, part@),
{
    let p = trimmed(part);
    let e = find_eq(p);
    let n = p.unicode_len();
    if e >= n {
        return c;
    }
    let name = trimmed(p.substring_char(0, e));
    let value = p.substring_char(e + 1, n);
    match parse_u64(value) {
        Ok(v) => if v > 255 {
            c
        } else if str_eq(name, "R") {
            Color { r: v as u8, ..c }
        } else if str_eq(name, "G") {
            Color { g: v as u8, ..c }
        } else if str_eq(name, "B") {
            Color { b: v as u8, ..c }
        } else if str_eq(name, "A") {
            Color { a: v as u8, ..c }
        } else {
            c
        },
        Err(_) => c,
    }
}

/// Reads a colour from text like `(R=255,G=128,B=64,A=255)`: each piece between
/// commas sets the channel it names when its value reads as a `u8`; channels
/// left unset are 0, and alpha 255.
pub fn parse_color(value_str: &str) -> (r: PropertyValue)
    requires
        value_str@.len() >= 2,
        value_str@[0] == '(',
        value_str@.last() == ')',
    ensures
        r == PropertyValue::Color(spec_parse_color(value_str@)),
{
    let n = value_str.unicode_len();
    let content = value_str.substring_char(1, n - 1);
    let ghost cs = content@;
    let m = content.unicode_len();
    let mut color = Color { r: 0, g: 0, b: 0, a: 255 };
    let mut start: usize = 0;
    let mut i: usize = 0;
    proof {
        assert(cs.take(0) =~= Seq::<char>::empty());
        assert(split_commas(cs.take(0)).drop_last() =~= Seq::<Seq<char>>::empty());
        assert(cs.subrange(0, 0) =~= Seq::<char>::empty());
    }
    while i < m
        invariant
            m == cs.len(),
            cs == content@,
            start <= i <= m,
            split_commas(cs.take(i as int)).len() >= 1,
            color == color_fold(split_commas(cs.take(i as int)).drop_last()),
            split_commas(cs.take(i as int)).last() == cs.subrange(start as int, i as int),
        decreases m - i,
    {
        let ghost prev = split_commas(cs.take(i as int));
        proof {
            assert(cs.take(i + 1).drop_last() =~= cs.take(i as int));
            assert(cs.take(i + 1).last() == cs[i as int]);
        }
        if content.get_char(i) == ',' {
            let piece = content.substring_char(start, i);
            color = apply_piece(color, piece);
            proof {
                let next = split_commas(cs.take(i + 1));
                assert(next == prev.push(Seq::<char>::empty()));
                assert(next.drop_last() =~= prev);
                assert(prev =~= prev.drop_last().push(prev.last()));
                assert(cs.subrange(i + 1, i + 1) =~= Seq::<char>::empty());
            }
            start = i + 1;
        } else {
            proof {
                let next = split_commas(cs.take(i + 1));
                assert(next == prev.update(prev.len() - 1, prev.last().push(cs[i as int])));
                assert(next.drop_last() =~= prev.drop_last());
                assert(cs.subrange(start as int, i + 1) =~= cs.subrange(start as int, i as int).push(cs[i as int]));
            }
        }
        i = i + 1;
    }
    let last = content.substring_char(start, m);
    color = apply_piece(color, last);
    proof {
        assert(cs.take(m as int) =~= cs);
        let parts = split_commas(cs);
        assert(parts =~= parts.drop_last().push(parts.last()));
    }
    PropertyValue::Color(color)
}

/// The form of a property value written as text, as its type is guessed
/// from it.
#[derive(Debug, Clone, Copy, PartialEq, Eq, Structural)]
pub enum ValueForm {
    /// Empty text.
    Null,
    /// `true` or `false`.
    Bool(bool),
    /// A whole number that fits an `i32`.
    Int32(i32),
    /// A number that reads as an `f32` (and not as an `i32`).
    Float,
    /// A framed `(X=..,Y=..,Z=..)`.
    Vector,
    /// A framed `(Pitch=..,Yaw=..,Roll=..)`.
    Rotator,
    /// A framed `(R=..,G=..,B=..)`.
    Color,
    /// Anything else: the text itself.
    Text,
}

/// Whether text starts with `(` and ends with `)`.
pub open spec fn framed(s: Seq<char>) -> bool {
    s.len() > 0 && s[0] == '(' && s.last() == ')'
}

/// The form of text `s`, given what reading it as an `i32` gave (`int_value`)
/// and whether it reads as an `f32` (`is_float`): empty text is null, then
/// `true` and `false`, then a whole number, then a float, then the framed
/// vector, rotator and colour forms (by the names of their parts), and
/// otherwise the text itself.
pub open spec fn spec_value_form(s: Seq<char>, int_value: Option<i32>, is_float: bool) -> ValueForm {
    if s.len() == 0 {
        ValueForm::Null
    } else if s == "true"@ {
        ValueForm::Bool(true)
    } else if s == "false"@ {
        ValueForm::Bool(false)
    } else if int_value is Some {
        ValueForm::Int32(int_value->0)
    } else if is_float {
        ValueForm::Float
    } else if framed(s) && has_substring(s, "X="@) && has_substring(s, "Y="@) && has_substring(s, "Z="@) {
        ValueForm::Vector
    } else if framed(s) && has_substring(s, "Pitch="@) && has_substring(s, "Yaw="@)
        && has_substring(s, "Roll="@) {
        ValueForm::Rotator
    } else if framed(s) && has_substring(s, "R="@) && has_substring(s, "G="@) && has_substring(s, "B="@) {
        ValueForm::Color
    } else {
        ValueForm::Text
    }
}

fn is_framed(s: &str) -> (r: bool)
    ensures
        r == framed(s@),
{
    let n = s.unicode_len();
    n > 0 && s.get_char(0) == '(' && s.get_char(n - 1) == ')'
}

/// Guess the form of a property value written as text (see
/// `spec_value_form`); reading the text as a number is the caller's.
pub fn value_form(value_str: &str, int_value: Option<i32>, is_float: bool) -> (r: ValueForm)
    ensures
        r == spec_value_form(value_str@, int_value, is_float),
{
    if value_str.unicode_len() == 0 {
        return ValueForm::Null;
    }
    if str_eq(value_str, "true") {
        return ValueForm::Bool(true);
    }
    if str_eq(value_str, "false") {
        return ValueForm::Bool(false);
    }
    if let Some(i) = int_value {
        return ValueForm::Int32(i);
    }
    if is_float {
        return ValueForm::Float;
    }
    let f = is_framed(value_str);
    if f && str_contains(value_str, "X=") && str_contains(value_str, "Y=") && str_contains(value_str, "Z=") {
        return ValueForm::Vector;
    }
    if f && str_contains(value_str, "Pitch=") && str_contains(value_str, "Yaw=") && str_contains(value_str, "Roll=") {
        return ValueForm::Rotator;
    }
    if f && str_contains(value_str, "R=") && str_contains(value_str, "G=") && str_contains(value_str, "B=") {
        return ValueForm::Color;
    }
    ValueForm::Text
}

} // verus!
