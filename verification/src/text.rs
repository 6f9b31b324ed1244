//! Character-level scanning: white space, fields and separators.

use std::num::ParseIntError;
use vstd::prelude::*;

verus! {

/// The characters that carry the Unicode `White_Space` property.
pub open spec fn is_space(c: char) -> bool {
    let n = c as u32;
    ||| 0x09 <= n <= 0x0D
    ||| n == 0x20
    ||| n == 0x85
    ||| n == 0xA0
    ||| n == 0x1680
    ||| 0x2000 <= n <= 0x200A
    ||| n == 0x2028
    ||| n == 0x2029
    ||| n == 0x202F
    ||| n == 0x205F
    ||| n == 0x3000
}

/// Tells whether `c` is white space.
pub fn char_is_space(c: char) -> (b: bool)
    ensures
        b == is_space(c),
{
    let n: u32 = c as u32;
    (0x09 <= n && n <= 0x0D) || n == 0x20 || n == 0x85 || n == 0xA0 || n == 0x1680 || (0x2000 <= n
        && n <= 0x200A) || n == 0x2028 || n == 0x2029 || n == 0x202F || n == 0x205F || n == 0x3000
}

/// The first position at or after `from` that holds no white space, or the
/// length of `s` if there is none.
pub open spec fn skip_spaces(s: Seq<char>, from: int) -> int
    decreases s.len() - from,
{
    if 0 <= from < s.len() && is_space(s[from]) {
        skip_spaces(s, from + 1)
    } else {
        from
    }
}

/// The first position at or after `from` that holds white space, or the length
/// of `s` if there is none.
pub open spec fn skip_word(s: Seq<char>, from: int) -> int
    decreases s.len() - from,
{
    if 0 <= from < s.len() && !is_space(s[from]) {
        skip_word(s, from + 1)
    } else {
        from
    }
}

/// The end of `s.take(to)` once trailing white space is cut off.
pub open spec fn trim_end(s: Seq<char>, to: int) -> int
    decreases to,
{
    if 0 < to <= s.len() && is_space(s[to - 1]) {
        trim_end(s, to - 1)
    } else {
        to
    }
}

/// `s` without leading and trailing white space.
pub open spec fn trim(s: Seq<char>) -> Seq<char> {
    let a = skip_spaces(s, 0);
    let b = trim_end(s, s.len() as int);
    if a < b {
        s.subrange(a, b)
    } else {
        Seq::empty()
    }
}

/// The maximal runs of characters other than white space in `s`, from
/// position `from` on, in order.
pub open spec fn fields_from(s: Seq<char>, from: int) -> Seq<Seq<char>>
    decreases s.len() - from,
    when from >= 0
{
    let a = skip_spaces(s, from);
    let b = skip_word(s, a);
    if from <= a < b <= s.len() {
        seq![s.subrange(a, b)] + fields_from(s, b)
    } else {
        Seq::empty()
    }
}

/// The fields of `s`: its maximal runs of characters other than white space.
pub open spec fn fields(s: Seq<char>) -> Seq<Seq<char>> {
    fields_from(s, 0)
}

pub proof fn lemma_skip_spaces(s: Seq<char>, from: int)
    requires
        0 <= from <= s.len(),
    ensures
        from <= skip_spaces(s, from) <= s.len(),
        forall|i: int| from <= i < skip_spaces(s, from) ==> is_space(#[trigger] s[i]),
        skip_spaces(s, from) < s.len() ==> !is_space(s[skip_spaces(s, from)]),
    decreases s.len() - from,
{
    if from < s.len() && is_space(s[from]) {
        lemma_skip_spaces(s, from + 1);
    }
}

pub proof fn lemma_skip_word(s: Seq<char>, from: int)
    requires
        0 <= from <= s.len(),
    ensures
        from <= skip_word(s, from) <= s.len(),
        forall|i: int| from <= i < skip_word(s, from) ==> !is_space(#[trigger] s[i]),
        skip_word(s, from) < s.len() ==> is_space(s[skip_word(s, from)]),
    decreases s.len() - from,
{
    if from < s.len() && !is_space(s[from]) {
        lemma_skip_word(s, from + 1);
    }
}

/// The characters of `text`, one by one.
pub fn to_chars(text: &str) -> (chars: Vec<char>)
    ensures
        chars@ == text@,
{
    let mut chars: Vec<char> = Vec::new();
    broadcast use vstd::string::axiom_spec_iter;

    for c in it: text.chars()
        invariant
            it.seq() == text@,
            chars@ == it.history(),
    {
        chars.push(c);
    }
    assert(chars@ =~= text@);
    chars
}

/// The first position at or after `from` that holds `c`, or the length of `s`
/// if there is none.
pub open spec fn find_char(s: Seq<char>, c: char, from: int) -> int
    decreases s.len() - from,
{
    if 0 <= from < s.len() && s[from] != c {
        find_char(s, c, from + 1)
    } else {
        from
    }
}

/// The pieces into which the occurrences of `c` cut `s` from position `from`
/// on. There is always at least one piece; pieces may be empty.
pub open spec fn pieces_from(s: Seq<char>, c: char, from: int) -> Seq<Seq<char>>
    decreases s.len() - from,
    when 0 <= from <= s.len()
{
    let b = find_char(s, c, from);
    if from <= b < s.len() {
        seq![s.subrange(from, b)] + pieces_from(s, c, b + 1)
    } else {
        seq![s.subrange(from, s.len() as int)]
    }
}

/// The pieces into which the occurrences of `c` cut `s`.
pub open spec fn pieces(s: Seq<char>, c: char) -> Seq<Seq<char>> {
    pieces_from(s, c, 0)
}

/// The character sequences that a list of strings holds.
pub open spec fn texts(v: Seq<String>) -> Seq<Seq<char>> {
    Seq::new(v.len(), |i: int| v[i]@)
}

/// Whether `c` is one of the ten ASCII digits.
pub open spec fn is_digit(c: char) -> bool {
    0x30 <= c as u32 <= 0x39
}

/// The number that a run of digits writes in base ten.
pub open spec fn digits_value(s: Seq<char>) -> int
    decreases s.len(),
{
    if s.len() == 0 {
        0
    } else {
        10 * digits_value(s.drop_last()) + (s.last() as u32 - 0x30)
    }
}

/// Whether `s` is a run of one or more digits.
pub open spec fn is_digits(s: Seq<char>) -> bool {
    s.len() > 0 && forall|i: int| 0 <= i < s.len() ==> is_digit(#[trigger] s[i])
}

/// The integer that `s` writes: an optional sign, then one or more digits and
/// nothing else.
pub open spec fn signed_value(s: Seq<char>) -> Option<int> {
    if s.len() > 0 && s[0] == '-' {
        if is_digits(s.drop_first()) {
            Some(-digits_value(s.drop_first()))
        } else {
            None
        }
    } else if s.len() > 0 && s[0] == '+' {
        if is_digits(s.drop_first()) {
            Some(digits_value(s.drop_first()))
        } else {
            None
        }
    } else if is_digits(s) {
        Some(digits_value(s))
    } else {
        None
    }
}

/// The 32-bit signed integer that `s` writes, if it writes one that fits.
pub open spec fn i32_literal(s: Seq<char>) -> Option<i32> {
    match signed_value(s) {
        Some(v) => if i32::MIN <= v <= i32::MAX {
            Some(v as i32)
        } else {
            None
        },
        None => None,
    }
}

/// `str::parse::<i32>`: succeeds exactly on an optional sign followed by one
/// or more ASCII digits whose value fits 32 bits, and then gives that value.
#[verifier::external_body]
pub(crate) fn parse_i32(text: &str) -> (r: Result<i32, ParseIntError>)
    ensures
        r is Ok <==> i32_literal(text@) is Some,
        r is Ok ==> i32_literal(text@) == Some(r->Ok_0),
{
    text.parse::<i32>()
}

/// The position of the first character at or after `from` that is no white
/// space.
pub fn scan_spaces(chars: &Vec<char>, from: usize) -> (to: usize)
    requires
        from <= chars.len(),
    ensures
        to == skip_spaces(chars@, from as int),
        from <= to <= chars.len(),
{
    let mut to = from;
    while to < chars.len() && char_is_space(chars[to])
        invariant
            from <= to <= chars.len(),
            skip_spaces(chars@, from as int) == skip_spaces(chars@, to as int),
        decreases chars.len() - to,
    {
        to += 1;
    }
    to
}

/// The position of the first white space at or after `from`.
pub fn scan_word(chars: &Vec<char>, from: usize) -> (to: usize)
    requires
        from <= chars.len(),
    ensures
        to == skip_word(chars@, from as int),
        from <= to <= chars.len(),
{
    let mut to = from;
    while to < chars.len() && !char_is_space(chars[to])
        invariant
            from <= to <= chars.len(),
            skip_word(chars@, from as int) == skip_word(chars@, to as int),
        decreases chars.len() - to,
    {
        to += 1;
    }
    to
}

/// The end of the first `to` characters once trailing white space is cut off.
pub fn scan_back(chars: &Vec<char>, to: usize) -> (end: usize)
    requires
        to <= chars.len(),
    ensures
        end == trim_end(chars@, to as int),
        end <= to,
{
    let mut end = to;
    while end > 0 && char_is_space(chars[end - 1])
        invariant
            end <= to <= chars.len(),
            trim_end(chars@, to as int) == trim_end(chars@, end as int),
        decreases end,
    {
        end -= 1;
    }
    end
}

/// The position of the first `c` at or after `from`.
pub fn scan_char(chars: &Vec<char>, c: char, from: usize) -> (to: usize)
    requires
        from <= chars.len(),
    ensures
        to == find_char(chars@, c, from as int),
        from <= to <= chars.len(),
{
    let mut to = from;
    while to < chars.len() && chars[to] != c
        invariant
            from <= to <= chars.len(),
            find_char(chars@, c, from as int) == find_char(chars@, c, to as int),
        decreases chars.len() - to,
    {
        to += 1;
    }
    to
}

/// `text` without leading and trailing white space.
pub fn trim_str(text: &str) -> (r: &str)
    ensures
        r@ == trim(text@),
{
    let chars = to_chars(text);
    let a = scan_spaces(&chars, 0);
    let b = scan_back(&chars, chars.len());
    if a < b {
        text.substring_char(a, b)
    } else {
        let r = text.substring_char(0, 0);
        assert(r@ =~= Seq::<char>::empty());
        r
    }
}

/// The fields of `text`, each as a string of its own.
pub fn split_fields(text: &str) -> (out: Vec<String>)
    ensures
        texts(out@) == fields(text@),
{
    let chars = to_chars(text);
    let mut out: Vec<String> = Vec::new();
    let mut pos: usize = 0;
    assert(texts(out@) + fields_from(chars@, 0) =~= fields(chars@));
    loop
        invariant
            chars@ == text@,
            pos <= chars.len(),
            texts(out@) + fields_from(chars@, pos as int) == fields(chars@),
        ensures
            texts(out@) == fields(text@),
        decreases chars.len() - pos,
    {
        let a = scan_spaces(&chars, pos);
        if a >= chars.len() {
            proof {
                lemma_skip_word(chars@, a as int);
                assert(texts(out@) + Seq::<Seq<char>>::empty() =~= texts(out@));
            }
            break ;
        }
        let b = scan_word(&chars, a);
        proof {
            lemma_skip_spaces(chars@, pos as int);
            lemma_skip_word(chars@, a as int);
            assert(!is_space(chars@[a as int]));
            assert(b > a);
        }
        let ghost before = texts(out@);
        let field = String::from_str(text.substring_char(a, b));
        out.push(field);
        proof {
            assert(texts(out@) =~= before.push(chars@.subrange(a as int, b as int)));
            assert(before.push(chars@.subrange(a as int, b as int)) + fields_from(
                chars@,
                b as int,
            ) =~= before + (seq![chars@.subrange(a as int, b as int)] + fields_from(
                chars@,
                b as int,
            )));
        }
        pos = b;
    }
    out
}

/// The pieces into which the occurrences of `sep` cut `text`, each as a string
/// of its own.
pub fn split_pieces(text: &str, sep: char) -> (out: Vec<String>)
    ensures
        texts(out@) == pieces(text@, sep),
        out.len() >= 1,
{
    let chars = to_chars(text);
    let mut out: Vec<String> = Vec::new();
    let mut pos: usize = 0;
    assert(texts(out@) + pieces_from(chars@, sep, 0) =~= pieces(chars@, sep));
    loop
        invariant_except_break
            texts(out@) + pieces_from(chars@, sep, pos as int) == pieces(chars@, sep),
        invariant
            chars@ == text@,
            pos <= chars.len(),
        ensures
            texts(out@) == pieces(text@, sep),
            out.len() >= 1,
        decreases chars.len() - pos,
    {
        let b = scan_char(&chars, sep, pos);
        let ghost before = texts(out@);
        let end = if b < chars.len() { b } else { chars.len() };
        let piece = String::from_str(text.substring_char(pos, end));
        out.push(piece);
        proof {
            assert(texts(out@) =~= before.push(chars@.subrange(pos as int, end as int)));
        }
        if b >= chars.len() {
            proof {
                assert(before.push(chars@.subrange(pos as int, end as int)) =~= before
                    + seq![chars@.subrange(pos as int, chars@.len() as int)]);
            }
            break ;
        }
        proof {
            assert(before.push(chars@.subrange(pos as int, b as int)) + pieces_from(
                chars@,
                sep,
                b + 1,
            ) =~= before + (seq![chars@.subrange(pos as int, b as int)] + pieces_from(
                chars@,
                sep,
                b + 1,
            )));
        }
        pos = b + 1;
    }
    out
}

/// Tells whether two strings hold the same characters.
pub fn same_text(a: &str, b: &str) -> (r: bool)
    ensures
        r == (a@ == b@),
{
    let x = to_chars(a);
    let y = to_chars(b);
    if x.len() != y.len() {
        return false;
    }
    let mut i: usize = 0;
    while i < x.len()
        invariant
            i <= x.len(),
            x.len() == y.len(),
            x@ == a@,
            y@ == b@,
            forall|k: int| 0 <= k < i ==> x@[k] == y@[k],
        decreases x.len() - i,
    {
        if x[i] != y[i] {
            return false;
        }
        i += 1;
    }
    assert(a@ =~= b@);
    true
}

} // verus!
