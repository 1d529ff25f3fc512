//! Numeric ranges: the bound pair that queries carry, and the compact notation
//! (`N`, `N..`, `..=N`) that is turned into one.

use vstd::prelude::*;

verus! {

/// One end of a numeric range.
#[derive(Clone, Copy, Debug, PartialEq, Eq, Structural)]
pub enum Bound {
    Included(u32),
    Excluded(u32),
    Unbounded,
}

/// Whether `n` lies at or above the lower end `lower`.
pub open spec fn above_lower(lower: Bound, n: int) -> bool {
    match lower {
        Bound::Included(m) => m <= n,
        Bound::Excluded(m) => m < n,
        Bound::Unbounded => true,
    }
}

/// Whether `n` lies at or below the upper end `upper`.
pub open spec fn below_upper(upper: Bound, n: int) -> bool {
    match upper {
        Bound::Included(m) => n <= m,
        Bound::Excluded(m) => n < m,
        Bound::Unbounded => true,
    }
}

/// Whether `n` lies within the range from `range.0` to `range.1`.
pub open spec fn in_range(range: (Bound, Bound), n: int) -> bool {
    above_lower(range.0, n) && below_upper(range.1, n)
}

/// Tests `n` against both ends of `range`.
pub fn range_contains(range: &(Bound, Bound), n: u32) -> (r: bool)
    ensures
        r == in_range(*range, n as int),
{
    let low = match range.0 {
        Bound::Included(m) => m <= n,
        Bound::Excluded(m) => m < n,
        Bound::Unbounded => true,
    };
    let high = match range.1 {
        Bound::Included(m) => n <= m,
        Bound::Excluded(m) => n < m,
        Bound::Unbounded => true,
    };
    low && high
}

/// Tests a count, such as the size of a set, against both ends of `range`.
pub fn count_in_range(range: &(Bound, Bound), count: usize) -> (r: bool)
    ensures
        r == in_range(*range, count as int),
{
    let n: u64 = count as u64;
    let low = match range.0 {
        Bound::Included(m) => m as u64 <= n,
        Bound::Excluded(m) => (m as u64) < n,
        Bound::Unbounded => true,
    };
    let high = match range.1 {
        Bound::Included(m) => n <= m as u64,
        Bound::Excluded(m) => n < m as u64,
        Bound::Unbounded => true,
    };
    low && high
}

/// Why a text is not a range.
#[derive(Clone, Copy, Debug, PartialEq, Eq, Structural)]
pub enum RangeSyntaxError {
    /// The text has none of the three shapes `N`, `N..` and `..=N`.
    Malformed,
    /// The text has one of the shapes, but its number does not fit in `u32`.
    OutOfRange,
}

/// Which of the three shapes a text has.
#[derive(Clone, Copy, Debug, PartialEq, Eq, Structural)]
pub enum RangeForm {
    /// `N`: exactly `N`.
    Exactly,
    /// `N..`: `N` or more.
    AtLeast,
    /// `..=N`: `N` or less.
    AtMost,
}

/// Whether `c` is one of the decimal digits `0` to `9`.
pub open spec fn is_digit(c: char) -> bool {
    '0' <= c && c <= '9'
}

/// The number that a run of decimal digits writes; leading zeros count for nothing.
pub open spec fn decimal_value(digits: Seq<char>) -> nat
    decreases digits.len(),
{
    if digits.len() == 0 {
        0
    } else {
        (10 * decimal_value(digits.drop_last()) + (digits.last() as int - '0' as int)) as nat
    }
}

/// The first position at or after `from` that holds no space.
pub open spec fn spaces_end(text: Seq<char>, from: int) -> int
    decreases text.len() - from,
{
    if 0 <= from < text.len() && text[from] == ' ' {
        spaces_end(text, from + 1)
    } else {
        from
    }
}

/// The first position at or after `from` that holds no decimal digit.
pub open spec fn digits_end(text: Seq<char>, from: int) -> int
    decreases text.len() - from,
{
    if 0 <= from < text.len() && is_digit(text[from]) {
        digits_end(text, from + 1)
    } else {
        from
    }
}

/// The bound pair that a shape and its number stand for.
pub open spec fn bounds_of(form: RangeForm, n: u32) -> (Bound, Bound) {
    match form {
        RangeForm::Exactly => (Bound::Included(n), Bound::Included(n)),
        RangeForm::AtLeast => (Bound::Included(n), Bound::Unbounded),
        RangeForm::AtMost => (Bound::Unbounded, Bound::Included(n)),
    }
}

/// The outcome for a text of shape `form` whose digits write `value`.
pub open spec fn range_result(form: RangeForm, value: nat) -> Result<
    (Bound, Bound),
    RangeSyntaxError,
> {
    if value <= u32::MAX {
        Ok(bounds_of(form, value as u32))
    } else {
        Err(RangeSyntaxError::OutOfRange)
    }
}

/// What a text means as a range. Spaces may stand before and after, and between
/// the number and the range marker; the marker itself (`..` or `..=`) is unbroken.
pub open spec fn parse_range(text: Seq<char>) -> Result<(Bound, Bound), RangeSyntaxError> {
    let a = spaces_end(text, 0);
    if a < text.len() && is_digit(text[a]) {
        let b = digits_end(text, a);
        let c = spaces_end(text, b);
        let value = decimal_value(text.subrange(a, b));
        if c == text.len() {
            range_result(RangeForm::Exactly, value)
        } else if c + 2 <= text.len() && text[c] == '.' && text[c + 1] == '.' && spaces_end(
            text,
            c + 2,
        ) == text.len() {
            range_result(RangeForm::AtLeast, value)
        } else {
            Err(RangeSyntaxError::Malformed)
        }
    } else if a + 3 <= text.len() && text[a] == '.' && text[a + 1] == '.' && text[a + 2] == '=' {
        let b = spaces_end(text, a + 3);
        let c = digits_end(text, b);
        if b < c && spaces_end(text, c) == text.len() {
            range_result(RangeForm::AtMost, decimal_value(text.subrange(b, c)))
        } else {
            Err(RangeSyntaxError::Malformed)
        }
    } else {
        Err(RangeSyntaxError::Malformed)
    }
}

fn skip_spaces(text: &Vec<char>, from: usize) -> (end: usize)
    requires
        from <= text.len(),
    ensures
        end == spaces_end(text@, from as int),
        from <= end <= text.len(),
{
    let mut i: usize = from;
    while i < text.len() && text[i] == ' '
        invariant
            from <= i <= text.len(),
            spaces_end(text@, i as int) == spaces_end(text@, from as int),
        decreases text.len() - i,
    {
        i += 1;
    }
    i
}

fn is_digit_char(c: char) -> (r: bool)
    ensures
        r == is_digit(c),
{
    '0' <= c && c <= '9'
}

/// Reads the digits from `from` on. Gives where they end, and the number they
/// write if it fits in `u32`.
fn scan_number(text: &Vec<char>, from: usize) -> (r: (usize, Option<u32>))
    requires
        from <= text.len(),
    ensures
        r.0 == digits_end(text@, from as int),
        from <= r.0 <= text.len(),
        r.1 == if decimal_value(text@.subrange(from as int, r.0 as int)) <= u32::MAX {
            Some(decimal_value(text@.subrange(from as int, r.0 as int)) as u32)
        } else {
            None
        },
{
    let mut i: usize = from;
    let mut acc: Option<u32> = Some(0);
    while i < text.len() && is_digit_char(text[i])
        invariant
            from <= i <= text.len(),
            digits_end(text@, i as int) == digits_end(text@, from as int),
            acc == if decimal_value(text@.subrange(from as int, i as int)) <= u32::MAX {
                Some(decimal_value(text@.subrange(from as int, i as int)) as u32)
            } else {
                None
            },
        decreases text.len() - i,
    {
        let digit: u32 = text[i] as u32 - '0' as u32;
        proof {
            assert(text@.subrange(from as int, i + 1).drop_last() == text@.subrange(
                from as int,
                i as int,
            ));
        }
        acc = match acc {
            Some(v) => {
                let wide: u64 = v as u64 * 10 + digit as u64;
                if wide <= u32::MAX as u64 {
                    Some(wide as u32)
                } else {
                    None
                }
            },
            None => None,
        };
        i += 1;
    }
    (i, acc)
}

fn finish(form: RangeForm, number: Option<u32>) -> (r: Result<(Bound, Bound), RangeSyntaxError>)
    ensures
        r == match number {
            Some(n) => Ok(bounds_of(form, n)),
            None => Err(RangeSyntaxError::OutOfRange),
        },
{
    match number {
        Some(n) => Ok(
            match form {
                RangeForm::Exactly => (Bound::Included(n), Bound::Included(n)),
                RangeForm::AtLeast => (Bound::Included(n), Bound::Unbounded),
                RangeForm::AtMost => (Bound::Unbounded, Bound::Included(n)),
            },
        ),
        None => Err(RangeSyntaxError::OutOfRange),
    }
}

/// Reads a range from the characters of a text, in one pass from left to right.
pub fn parse_range_chars(text: &Vec<char>) -> (r: Result<(Bound, Bound), RangeSyntaxError>)
    ensures
        r == parse_range(text@),
{
    let len: usize = text.len();
    let a: usize = skip_spaces(text, 0);
    if a < len && is_digit_char(text[a]) {
        let (b, number) = scan_number(text, a);
        let c: usize = skip_spaces(text, b);
        if c == len {
            finish(RangeForm::Exactly, number)
        } else if len - c >= 2 && text[c] == '.' && text[c + 1] == '.' && skip_spaces(text, c + 2)
            == len {
            finish(RangeForm::AtLeast, number)
        } else {
            Err(RangeSyntaxError::Malformed)
        }
    } else if len - a >= 3 && text[a] == '.' && text[a + 1] == '.' && text[a + 2] == '=' {
        let b: usize = skip_spaces(text, a + 3);
        let (c, number) = scan_number(text, b);
        if b < c && skip_spaces(text, c) == len {
            finish(RangeForm::AtMost, number)
        } else {
            Err(RangeSyntaxError::Malformed)
        }
    } else {
        Err(RangeSyntaxError::Malformed)
    }
}

/// The characters of `src`, in order.
fn chars_of(src: &str) -> (text: Vec<char>)
    ensures
        text@ == src@,
{
    let mut text: Vec<char> = Vec::new();
    for c in it: src.chars()
        invariant
            text@ == it.seq().take(it.index() as int),
            it.seq() == src@,
    {
        text.push(c);
    }
    text
}

/// Reads a range written as `N` (exactly `N`), `N..` (`N` or more) or `..=N`
/// (`N` or less), `N` being a run of decimal digits.
pub fn range_syntax_parser(src: String) -> (r: Result<(Bound, Bound), RangeSyntaxError>)
    ensures
        r == parse_range(src@),
{
    let text = chars_of(src.as_str());
    parse_range_chars(&text)
}

/// What the three shapes mean: `N` holds of `N` alone, `N..` of `N` and all
/// above it, `..=N` of `N` and all below it.
pub proof fn lemma_range_meaning(form: RangeForm, n: u32, count: int)
    ensures
        in_range(bounds_of(form, n), count) <==> match form {
            RangeForm::Exactly => count == n,
            RangeForm::AtLeast => count >= n,
            RangeForm::AtMost => count <= n,
        },
{
}

/// A run of `n` spaces.
pub open spec fn spaces(n: nat) -> Seq<char> {
    Seq::new(n, |i: int| ' ')
}

/// Whether every character of `text` is a decimal digit.
pub open spec fn all_digits(text: Seq<char>) -> bool {
    forall|i: int| 0 <= i < text.len() ==> is_digit(#[trigger] text[i])
}

/// The two dots of the range marker.
pub open spec fn dots() -> Seq<char> {
    seq!['.', '.']
}

/// The range marker that includes its end.
pub open spec fn dots_equal() -> Seq<char> {
    seq!['.', '.', '=']
}

/// Whether `text` writes a range in the shape `form` with the number `digits`:
/// spaces, then the number and the marker in their order with spaces between
/// them, then spaces.
pub open spec fn writes_range(
    text: Seq<char>,
    form: RangeForm,
    digits: Seq<char>,
    before: nat,
    between: nat,
    after: nat,
) -> bool {
    &&& digits.len() > 0
    &&& all_digits(digits)
    &&& text == match form {
        RangeForm::Exactly => spaces(before) + digits + spaces(after),
        RangeForm::AtLeast => spaces(before) + digits + spaces(between) + dots() + spaces(after),
        RangeForm::AtMost => spaces(before) + dots_equal() + spaces(between) + digits + spaces(
            after,
        ),
    }
}

proof fn lemma_spaces_run(text: Seq<char>, from: int, n: nat)
    requires
        0 <= from,
        from + n <= text.len(),
        forall|i: int| from <= i < from + n ==> text[i] == ' ',
        from + n == text.len() || text[from + n] != ' ',
    ensures
        spaces_end(text, from) == from + n,
    decreases n,
{
    if n > 0 {
        lemma_spaces_run(text, from + 1, (n - 1) as nat);
    }
}

proof fn lemma_digits_run(text: Seq<char>, from: int, n: nat)
    requires
        0 <= from,
        from + n <= text.len(),
        forall|i: int| from <= i < from + n ==> is_digit(text[i]),
        from + n == text.len() || !is_digit(text[from + n]),
    ensures
        digits_end(text, from) == from + n,
    decreases n,
{
    if n > 0 {
        lemma_digits_run(text, from + 1, (n - 1) as nat);
    }
}

proof fn lemma_spaces_before_end(text: Seq<char>, from: int)
    requires
        0 <= from <= text.len(),
    ensures
        from <= spaces_end(text, from) <= text.len(),
        forall|i: int| from <= i < spaces_end(text, from) ==> text[i] == ' ',
        spaces_end(text, from) == text.len() || text[spaces_end(text, from)] != ' ',
    decreases text.len() - from,
{
    if from < text.len() && text[from] == ' ' {
        lemma_spaces_before_end(text, from + 1);
    }
}

proof fn lemma_digits_before_end(text: Seq<char>, from: int)
    requires
        0 <= from <= text.len(),
    ensures
        from <= digits_end(text, from) <= text.len(),
        forall|i: int| from <= i < digits_end(text, from) ==> is_digit(text[i]),
        digits_end(text, from) == text.len() || !is_digit(text[digits_end(text, from)]),
    decreases text.len() - from,
{
    if from < text.len() && is_digit(text[from]) {
        lemma_digits_before_end(text, from + 1);
    }
}

/// Every text that writes a range is read as that range: as the bounds that
/// its shape and its number stand for, or as out of range where the number
/// does not fit.
pub proof fn lemma_reads_what_is_written(
    text: Seq<char>,
    form: RangeForm,
    digits: Seq<char>,
    before: nat,
    between: nat,
    after: nat,
)
    requires
        writes_range(text, form, digits, before, between, after),
    ensures
        parse_range(text) == range_result(form, decimal_value(digits)),
{
    let a = before as int;
    let n = digits.len() as int;
    match form {
        RangeForm::Exactly => {
            assert forall|i: int| a <= i < a + n implies is_digit(text[i]) by {
                assert(text[i] == digits[i - a]);
            }
            lemma_spaces_run(text, 0, before);
            assert(text[a] == digits[0]);
            lemma_digits_run(text, a, digits.len());
            lemma_spaces_run(text, a + n, after);
            assert(text.subrange(a, a + n) =~= digits);
        },
        RangeForm::AtLeast => {
            let c = a + n + between;
            assert forall|i: int| a <= i < a + n implies is_digit(text[i]) by {
                assert(text[i] == digits[i - a]);
            }
            lemma_spaces_run(text, 0, before);
            assert(text[a] == digits[0]);
            assert(text[c] == dots()[0]);
            assert(text[c + 1] == dots()[1]);
            lemma_digits_run(text, a, digits.len());
            lemma_spaces_run(text, a + n, between);
            lemma_spaces_run(text, c + 2, after);
            assert(text.subrange(a, a + n) =~= digits);
        },
        RangeForm::AtMost => {
            let b = a + 3 + between;
            assert forall|i: int| b <= i < b + n implies is_digit(text[i]) by {
                assert(text[i] == digits[i - b]);
            }
            assert(text[a] == dots_equal()[0]);
            assert(text[a + 1] == dots_equal()[1]);
            assert(text[a + 2] == dots_equal()[2]);
            lemma_spaces_run(text, 0, before);
            assert(text[b] == digits[0]);
            lemma_spaces_run(text, a + 3, between);
            lemma_digits_run(text, b, digits.len());
            lemma_spaces_run(text, b + n, after);
            assert(text.subrange(b, b + n) =~= digits);
        },
    }
}

/// Every text that is not rejected as malformed writes a range, in one of the
/// three shapes.
pub proof fn lemma_reads_nothing_else(text: Seq<char>)
    requires
        parse_range(text) != Err::<(Bound, Bound), RangeSyntaxError>(RangeSyntaxError::Malformed),
    ensures
        exists|form: RangeForm, digits: Seq<char>, before: nat, between: nat, after: nat|
            writes_range(text, form, digits, before, between, after),
{
    let len = text.len() as int;
    let a = spaces_end(text, 0);
    lemma_spaces_before_end(text, 0);
    if a < len && is_digit(text[a]) {
        let b = digits_end(text, a);
        lemma_digits_before_end(text, a);
        let c = spaces_end(text, b);
        lemma_spaces_before_end(text, b);
        let digits = text.subrange(a, b);
        if c == len {
            assert(text =~= spaces(a as nat) + digits + spaces((len - b) as nat));
            assert(writes_range(
                text,
                RangeForm::Exactly,
                digits,
                a as nat,
                0,
                (len - b) as nat,
            ));
        } else {
            lemma_spaces_before_end(text, c + 2);
            assert(text =~= spaces(a as nat) + digits + spaces((c - b) as nat) + dots() + spaces(
                (len - c - 2) as nat,
            ));
            assert(writes_range(
                text,
                RangeForm::AtLeast,
                digits,
                a as nat,
                (c - b) as nat,
                (len - c - 2) as nat,
            ));
        }
    } else {
        let b = spaces_end(text, a + 3);
        lemma_spaces_before_end(text, a + 3);
        let c = digits_end(text, b);
        lemma_digits_before_end(text, b);
        lemma_spaces_before_end(text, c);
        let digits = text.subrange(b, c);
        assert(text =~= spaces(a as nat) + dots_equal() + spaces((b - a - 3) as nat) + digits
            + spaces((len - c) as nat));
        assert(writes_range(
            text,
            RangeForm::AtMost,
            digits,
            a as nat,
            (b - a - 3) as nat,
            (len - c) as nat,
        ));
    }
}

} // verus!
