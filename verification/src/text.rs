//! Text as a sequence of characters: decimal numbers and white space.
//!
//! Sensor files hold short ASCII texts. The functions here read them without
//! going through the standard library's parsers, so that what they accept is
//! stated in full: `unsigned_number` says which texts are numbers and which
//! value each has, `trimmed` says what is left of a text once the white space
//! at both ends is gone.

use vstd::prelude::*;
use vstd::slice::slice_subrange;

verus! {

/// Whether `c` is one of the ten ASCII digits.
pub open spec fn is_digit(c: char) -> bool {
    0x30 <= c as u32 && c as u32 <= 0x39
}

/// The value of the digit `c`, from 0 to 9.
pub open spec fn digit_value(c: char) -> nat {
    (c as u32 - 0x30) as nat
}

/// The number that the digits of `s` write in base ten, most significant
/// digit first. The empty text has the value 0.
pub open spec fn decimal_value(s: Seq<char>) -> nat
    decreases s.len(),
{
    if s.len() == 0 {
        0
    } else {
        decimal_value(s.drop_last()) * 10 + digit_value(s.last())
    }
}

/// The index of the first character at or after `from` that is no digit, or
/// the length of `s` where only digits follow.
pub open spec fn digits_end(s: Seq<char>, from: int) -> int
    decreases s.len() - from,
{
    if 0 <= from < s.len() && is_digit(s[from]) {
        digits_end(s, from + 1)
    } else {
        from
    }
}

/// Whether `s` is one digit or more and nothing else.
pub open spec fn is_digits(s: Seq<char>) -> bool {
    s.len() > 0 && digits_end(s, 0) == s.len()
}

/// `text` without a leading plus sign, if it has one.
pub open spec fn without_plus(s: Seq<char>) -> Seq<char> {
    if s.len() > 0 && s[0] == '+' {
        s.skip(1)
    } else {
        s
    }
}

/// The value of `s` read as a non-negative decimal number: an optional `+`,
/// then one digit or more. Any other text is no number.
pub open spec fn unsigned_number(s: Seq<char>) -> Option<nat> {
    if is_digits(without_plus(s)) {
        Some(decimal_value(without_plus(s)))
    } else {
        None
    }
}

/// `value` where it does not exceed `limit`.
pub open spec fn within(value: nat, limit: u64) -> Option<u64> {
    if value <= limit {
        Some(value as u64)
    } else {
        None
    }
}

/// Whether `c` is white space as Unicode defines it (the property
/// `White_Space`).
pub open spec fn is_whitespace(c: char) -> bool {
    let u = c as u32;
    (0x09 <= u && u <= 0x0D) || u == 0x20 || u == 0x85 || u == 0xA0 || u == 0x1680 || (0x2000 <= u
        && u <= 0x200A) || u == 0x2028 || u == 0x2029 || u == 0x202F || u == 0x205F || u == 0x3000
}

/// The index of the first character at or after `from` that is no white
/// space, or the length of `s`.
pub open spec fn space_end(s: Seq<char>, from: int) -> int
    decreases s.len() - from,
{
    if 0 <= from < s.len() && is_whitespace(s[from]) {
        space_end(s, from + 1)
    } else {
        from
    }
}

/// The least `end` between `low` and `to` such that only white space lies
/// between `end` and `to`.
pub open spec fn space_start(s: Seq<char>, low: int, to: int) -> int
    decreases to,
{
    if low < to <= s.len() && 0 < to && is_whitespace(s[to - 1]) {
        space_start(s, low, to - 1)
    } else {
        to
    }
}

/// `s` without the white space at its two ends.
pub open spec fn trimmed(s: Seq<char>) -> Seq<char> {
    let from = space_end(s, 0);
    s.subrange(from, space_start(s, from, s.len() as int))
}

/// What `space_end` finds: only white space lies between `from` and the
/// index found, and no white space stands at the index found.
pub proof fn lemma_space_end(s: Seq<char>, from: int)
    requires
        0 <= from <= s.len(),
    ensures
        from <= space_end(s, from) <= s.len(),
        forall|i: int| from <= i < space_end(s, from) ==> is_whitespace(s[i]),
        space_end(s, from) < s.len() ==> !is_whitespace(s[space_end(s, from)]),
    decreases s.len() - from,
{
    if from < s.len() && is_whitespace(s[from]) {
        lemma_space_end(s, from + 1);
    }
}

/// What `space_start` finds: only white space lies between the index found
/// and `to`, and no white space stands before the index found unless it is
/// `low`.
pub proof fn lemma_space_start(s: Seq<char>, low: int, to: int)
    requires
        0 <= low <= to <= s.len(),
    ensures
        low <= space_start(s, low, to) <= to,
        forall|i: int| space_start(s, low, to) <= i < to ==> is_whitespace(s[i]),
        low < space_start(s, low, to) ==> !is_whitespace(s[space_start(s, low, to) - 1]),
    decreases to,
{
    if low < to && is_whitespace(s[to - 1]) {
        lemma_space_start(s, low, to - 1);
    }
}

/// What trimming does: the text is white space, then the trimmed text, then
/// white space again, and the trimmed text neither begins nor ends with
/// white space.
pub proof fn lemma_trimmed(s: Seq<char>)
    ensures
        ({
            let from = space_end(s, 0);
            let to = space_start(s, from, s.len() as int);
            &&& 0 <= from <= to <= s.len()
            &&& trimmed(s) == s.subrange(from, to)
            &&& forall|i: int| 0 <= i < from ==> is_whitespace(s[i])
            &&& forall|i: int| to <= i < s.len() ==> is_whitespace(s[i])
            &&& trimmed(s).len() > 0 ==> !is_whitespace(trimmed(s).first()) && !is_whitespace(
                trimmed(s).last(),
            )
        }),
{
    lemma_space_end(s, 0);
    lemma_space_start(s, space_end(s, 0), s.len() as int);
}

/// A run of digits ends where the first character that is no digit stands:
/// if everything from `from` up to `end` is a digit and `end` is the end of
/// the text or no digit, then `end` is `digits_end(s, from)`.
pub proof fn lemma_digits_end_is(s: Seq<char>, from: int, end: int)
    requires
        0 <= from <= end <= s.len(),
        forall|i: int| from <= i < end ==> is_digit(s[i]),
        end < s.len() ==> !is_digit(s[end]),
    ensures
        digits_end(s, from) == end,
    decreases end - from,
{
    if from < end {
        lemma_digits_end_is(s, from + 1, end);
    }
}

/// Appending a digit multiplies the value by ten and adds the digit.
pub proof fn lemma_decimal_value_push(s: Seq<char>, c: char)
    ensures
        decimal_value(s.push(c)) == decimal_value(s) * 10 + digit_value(c),
{
    assert(s.push(c).drop_last() =~= s);
}

/// The digit of the value `d`.
pub open spec fn digit_char(d: nat) -> char {
    if d == 0 {
        '0'
    } else if d == 1 {
        '1'
    } else if d == 2 {
        '2'
    } else if d == 3 {
        '3'
    } else if d == 4 {
        '4'
    } else if d == 5 {
        '5'
    } else if d == 6 {
        '6'
    } else if d == 7 {
        '7'
    } else if d == 8 {
        '8'
    } else {
        '9'
    }
}

/// The number `n` written in base ten, without zeros before it.
pub open spec fn decimal_text(n: nat) -> Seq<char>
    decreases n,
{
    if n < 10 {
        seq![digit_char(n)]
    } else {
        decimal_text(n / 10).push(digit_char(n % 10))
    }
}

/// The text of a number is made of digits, one at least, and its value is
/// the number.
pub proof fn lemma_decimal_text(n: nat)
    ensures
        decimal_text(n).len() > 0,
        forall|i: int| 0 <= i < decimal_text(n).len() ==> is_digit(#[trigger] decimal_text(n)[i]),
        decimal_value(decimal_text(n)) == n,
    decreases n,
{
    if n < 10 {
        assert(seq![digit_char(n)].drop_last() =~= Seq::<char>::empty());
        assert(decimal_value(Seq::<char>::empty()) == 0);
        assert(digit_value(digit_char(n)) == n);
    } else {
        lemma_decimal_text(n / 10);
        lemma_decimal_value_push(decimal_text(n / 10), digit_char(n % 10));
        assert(digit_value(digit_char(n % 10)) == n % 10);
    }
}

/// The text of a number is read as that number.
pub proof fn lemma_number_text(n: nat)
    ensures
        unsigned_number(decimal_text(n)) == Some(n),
{
    let text = decimal_text(n);
    lemma_decimal_text(n);
    assert(is_digit(text[0]));
    assert(without_plus(text) == text);
    lemma_digits_end_is(text, 0, text.len() as int);
}

/// Returns the digit of the value `d` as a text.
fn digit_str(d: u64) -> (s: &'static str)
    requires
        d < 10,
    ensures
        s@ == seq![digit_char(d as nat)],
{
    proof {
        reveal_strlit("0");
        reveal_strlit("1");
        reveal_strlit("2");
        reveal_strlit("3");
        reveal_strlit("4");
        reveal_strlit("5");
        reveal_strlit("6");
        reveal_strlit("7");
        reveal_strlit("8");
        reveal_strlit("9");
    }
    let s = if d == 0 {
        "0"
    } else if d == 1 {
        "1"
    } else if d == 2 {
        "2"
    } else if d == 3 {
        "3"
    } else if d == 4 {
        "4"
    } else if d == 5 {
        "5"
    } else if d == 6 {
        "6"
    } else if d == 7 {
        "7"
    } else if d == 8 {
        "8"
    } else {
        "9"
    };
    assert(s@ =~= seq![digit_char(d as nat)]);
    s
}

/// Writes `n` in base ten behind what `out` holds.
pub fn push_decimal(out: &mut String, n: u64)
    ensures
        final(out)@ == old(out)@ + decimal_text(n as nat),
    decreases n,
{
    if n >= 10 {
        push_decimal(out, n / 10);
    }
    out.append(digit_str(n % 10));
    proof {
        if n >= 10 {
            assert(old(out)@ + decimal_text((n / 10) as nat) + seq![digit_char((n % 10) as nat)]
                =~= old(out)@ + decimal_text(n as nat));
        }
    }
}

/// Returns `n` written in base ten.
pub fn decimal_string(n: u64) -> (s: String)
    ensures
        s@ == decimal_text(n as nat),
{
    let mut s = String::new();
    push_decimal(&mut s, n);
    assert(Seq::<char>::empty() + decimal_text(n as nat) =~= decimal_text(n as nat));
    s
}

/// Copies the characters of `s` into a vector, in order.
pub fn chars_of(s: &str) -> (v: Vec<char>)
    ensures
        v@ == s@,
{
    let mut v: Vec<char> = Vec::new();
    for c in it: s.chars()
        invariant
            it.seq() == s@,
            v@ == s@.take(it.index()),
    {
        v.push(c);
        assert(v@ =~= s@.take(it.index() + 1));
    }
    assert(v@ =~= s@);
    v
}

/// Returns the value of `c` if it is a digit.
pub fn digit_of(c: char) -> (d: Option<u64>)
    ensures
        d is Some <==> is_digit(c),
        d is Some ==> d->0 == digit_value(c),
{
    let u: u32 = c as u32;
    if 0x30 <= u && u <= 0x39 {
        Some((u - 0x30) as u64)
    } else {
        None
    }
}

/// Tells whether `c` is white space.
pub fn whitespace(c: char) -> (b: bool)
    ensures
        b == is_whitespace(c),
{
    let u: u32 = c as u32;
    (0x09 <= u && u <= 0x0D) || u == 0x20 || u == 0x85 || u == 0xA0 || u == 0x1680 || (0x2000 <= u
        && u <= 0x200A) || u == 0x2028 || u == 0x2029 || u == 0x202F || u == 0x205F || u == 0x3000
}

/// Reads the run of digits that starts at `from`.
///
/// Returns the index at which the run ends and the value of the run, or no
/// value where it exceeds `limit`. An empty run has the value 0.
pub fn scan_digits(text: &[char], from: usize, limit: u64) -> (r: (usize, Option<u64>))
    requires
        from <= text@.len(),
    ensures
        r.0 == digits_end(text@, from as int),
        from <= r.0 <= text@.len(),
        r.1 == within(decimal_value(text@.subrange(from as int, r.0 as int)), limit),
{
    let mut i: usize = from;
    let mut value: u64 = 0;
    let mut fits: bool = true;
    let mut more: bool = true;
    assert(text@.subrange(from as int, from as int) =~= Seq::<char>::empty());
    while more && i < text.len()
        invariant
            from <= i <= text@.len(),
            forall|k: int| from <= k < i ==> is_digit(text@[k]),
            !more ==> i < text@.len() && !is_digit(text@[i as int]),
            fits ==> value == decimal_value(text@.subrange(from as int, i as int)),
            fits ==> value <= limit,
            !fits ==> decimal_value(text@.subrange(from as int, i as int)) > limit,
        decreases text@.len() - i, if more { 1int } else { 0int },
    {
        match digit_of(text[i]) {
            None => {
                more = false;
            },
            Some(digit) => {
                proof {
                    let before = text@.subrange(from as int, i as int);
                    assert(text@.subrange(from as int, i + 1) =~= before.push(text@[i as int]));
                    lemma_decimal_value_push(before, text@[i as int]);
                }
                if fits {
                    if digit > limit || value > (limit - digit) / 10 {
                        fits = false;
                    } else {
                        value = value * 10 + digit;
                    }
                }
                i = i + 1;
            },
        }
    }
    proof {
        lemma_digits_end_is(text@, from as int, i as int);
    }
    if fits {
        (i, Some(value))
    } else {
        (i, None)
    }
}

/// Reads `text` as a non-negative decimal number: an optional `+`, then one
/// digit or more, with a value of at most `limit`.
pub fn parse_unsigned(text: &[char], limit: u64) -> (r: Option<u64>)
    ensures
        r == match unsigned_number(text@) {
            Some(value) => within(value, limit),
            None => None,
        },
{
    let start: usize = if text.len() > 0 && text[0] == '+' {
        1
    } else {
        0
    };
    let body = slice_subrange(text, start, text.len());
    assert(body@ =~= without_plus(text@));
    let (end, value) = scan_digits(body, 0, limit);
    if end == 0 || end < body.len() {
        return None;
    }
    assert(body@.subrange(0, end as int) =~= body@);
    value
}

/// Finds the part of `text` that is left once the white space at both ends
/// is taken away, as a pair of indices.
pub fn trim_bounds(text: &[char]) -> (r: (usize, usize))
    ensures
        r.0 <= r.1 <= text@.len(),
        r.0 == space_end(text@, 0),
        r.1 == space_start(text@, r.0 as int, text@.len() as int),
        text@.subrange(r.0 as int, r.1 as int) == trimmed(text@),
{
    let mut from: usize = 0;
    while from < text.len() && whitespace(text[from])
        invariant
            from <= text@.len(),
            space_end(text@, 0) == space_end(text@, from as int),
        decreases text@.len() - from,
    {
        from = from + 1;
    }
    let mut to: usize = text.len();
    while from < to && whitespace(text[to - 1])
        invariant
            from <= to <= text@.len(),
            space_start(text@, from as int, text@.len() as int) == space_start(
                text@,
                from as int,
                to as int,
            ),
        decreases to,
    {
        to = to - 1;
    }
    (from, to)
}

/// Tells whether two runs of characters are the same.
pub fn same_chars(left: &[char], right: &[char]) -> (same: bool)
    ensures
        same == (left@ == right@),
{
    if left.len() != right.len() {
        return false;
    }
    let mut i: usize = 0;
    while i < left.len()
        invariant
            i <= left@.len(),
            left@.len() == right@.len(),
            forall|k: int| 0 <= k < i ==> left@[k] == right@[k],
        decreases left@.len() - i,
    {
        if left[i] != right[i] {
            return false;
        }
        i = i + 1;
    }
    assert(left@ =~= right@);
    true
}

/// Tells whether two texts are the same, character by character.
pub fn same_text(a: &str, b: &str) -> (same: bool)
    ensures
        same == (a@ == b@),
{
    let left = chars_of(a);
    let right = chars_of(b);
    same_chars(left.as_slice(), right.as_slice())
}

/// Tells whether `a`, without the white space at its ends, is the text `b`.
pub fn same_trimmed(a: &str, b: &str) -> (same: bool)
    ensures
        same == (trimmed(a@) == b@),
{
    let left = chars_of(a);
    let right = chars_of(b);
    let (from, to) = trim_bounds(left.as_slice());
    same_chars(slice_subrange(left.as_slice(), from, to), right.as_slice())
}

} // verus!
