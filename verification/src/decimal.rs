//! Line numbers as text.

use vstd::prelude::*;

verus! {

/// Whether `c` is one of the ten ASCII digits.
pub open spec fn is_digit(c: char) -> bool {
    '0' <= c <= '9'
}

/// Whether `text` consists of ASCII digits alone. The empty text does.
pub open spec fn all_digits(text: Seq<char>) -> bool {
    forall|i: int| 0 <= i < text.len() ==> is_digit(#[trigger] text[i])
}

/// The number that a text of digits denotes in base ten.
pub open spec fn decimal_value(digits: Seq<char>) -> nat
    decreases digits.len(),
{
    if digits.len() == 0 {
        0
    } else {
        10 * decimal_value(digits.drop_last()) + (digits.last() as nat - '0' as nat) as nat
    }
}

/// The shortest text of digits that denotes `n`.
pub open spec fn decimal(n: nat) -> Seq<char>
    decreases n,
{
    if n < 10 {
        seq![digit_char(n)]
    } else {
        decimal(n / 10).push(digit_char(n % 10))
    }
}

/// The digit that denotes `d`.
pub open spec fn digit_char(d: nat) -> char
    recommends
        d < 10,
{
    ('0' as nat + d) as char
}

/// The digits of a number text: what is left of it without a leading plus sign.
pub open spec fn unsigned_digits(text: Seq<char>) -> Seq<char> {
    if text.len() > 0 && text[0] == '+' {
        text.skip(1)
    } else {
        text
    }
}

/// The number that `text` denotes: one or more digits, after a plus sign at
/// most, whose value a `usize` can hold.
pub open spec fn number_of(text: Seq<char>) -> Option<usize> {
    let digits = unsigned_digits(text);
    if digits.len() > 0 && all_digits(digits) && decimal_value(digits) <= usize::MAX {
        Some(decimal_value(digits) as usize)
    } else {
        None
    }
}

/// Dropping the last digit does not raise the value.
proof fn lemma_prefix_value(digits: Seq<char>, n: int)
    requires
        all_digits(digits),
        0 <= n <= digits.len(),
    ensures
        decimal_value(digits.take(n)) <= decimal_value(digits),
    decreases digits.len(),
{
    if n == digits.len() {
        assert(digits.take(n) =~= digits);
    } else {
        lemma_prefix_value(digits.drop_last(), n);
        assert(digits.drop_last().take(n) =~= digits.take(n));
    }
}

/// Reads a number in base ten, if `text` is one that a `usize` can hold.
pub fn parse_number(text: &str) -> (number: Option<usize>)
    ensures
        number == number_of(text@),
{
    let chars: Vec<char> = chars_of(text);
    let start: usize = if chars.len() > 0 && chars[0] == '+' { 1 } else { 0 };
    let ghost digits = unsigned_digits(text@);
    assert(digits =~= text@.skip(start as int));
    if start == chars.len() {
        return None;
    }
    let mut value: usize = 0;
    let mut i: usize = start;
    while i < chars.len()
        invariant
            chars@ == text@,
            start <= i <= chars.len(),
            digits == unsigned_digits(text@),
            digits == text@.skip(start as int),
            digits.len() > 0,
            all_digits(digits.take(i - start)),
            value == decimal_value(digits.take(i - start)),
        decreases chars.len() - i,
    {
        let c = chars[i];
        assert(digits[i - start] == c);
        if c < '0' || '9' < c {
            return None;
        }
        let ghost longer = digits.take(i - start + 1);
        assert(longer.drop_last() =~= digits.take(i - start));
        assert(longer.last() == c);
        assert forall|k: int| 0 <= k < longer.len() implies is_digit(#[trigger] longer[k]) by {
            if k < i - start {
                assert(digits.take(i - start)[k] == longer[k]);
            }
        }
        let digit: usize = (c as u32 - '0' as u32) as usize;
        proof {
            if all_digits(digits) {
                lemma_prefix_value(digits, i - start + 1);
            }
        }
        match value.checked_mul(10) {
            None => return None,
            Some(tens) => match tens.checked_add(digit) {
                None => return None,
                Some(sum) => value = sum,
            },
        }
        i = i + 1;
    }
    assert(digits.take(i - start) =~= digits);
    Some(value)
}

/// The shortest text of a number is made of digits, at least one, and denotes it.
pub(crate) proof fn lemma_decimal(n: nat)
    ensures
        decimal(n).len() > 0,
        all_digits(decimal(n)),
        decimal_value(decimal(n)) == n,
    decreases n,
{
    if n < 10 {
        assert(decimal(n).drop_last() =~= Seq::<char>::empty());
        assert(decimal_value(Seq::<char>::empty()) == 0);
    } else {
        lemma_decimal(n / 10);
        assert(decimal(n).drop_last() =~= decimal(n / 10));
    }
}

/// A number written in base ten is read back as that number.
pub proof fn law_number_reads_back(n: usize)
    ensures
        number_of(decimal(n as nat)) == Some(n),
{
    lemma_decimal(n as nat);
    assert(is_digit(decimal(n as nat)[0]));
}

/// The text of one digit.
fn digit_text(d: usize) -> (text: &'static str)
    requires
        d < 10,
    ensures
        text@ == seq![digit_char(d as nat)],
{
    proof {
        reveal_strlit("0");
        reveal_strlit("1");
        reveal_strlit("2");
        reveal_strlit("3");
        reveal_strlit("4");
        reveal_strlit("5");
        reveal_strlit("6");
        reveal_strlit("7");
        reveal_strlit("8");
        reveal_strlit("9");
    }
    let text = match d {
        0 => "0",
        1 => "1",
        2 => "2",
        3 => "3",
        4 => "4",
        5 => "5",
        6 => "6",
        7 => "7",
        8 => "8",
        _ => "9",
    };
    assert(text@ =~= seq![digit_char(d as nat)]);
    text
}

/// Writes `n` in base ten.
pub fn number_text(n: usize) -> (text: String)
    ensures
        text@ == decimal(n as nat),
    decreases n,
{
    if n < 10 {
        digit_text(n).to_owned()
    } else {
        let mut text = number_text(n / 10);
        text.append(digit_text(n % 10));
        assert(text@ =~= decimal(n as nat));
        text
    }
}

/// The characters of `text`, in order.
pub(crate) fn chars_of(text: &str) -> (chars: Vec<char>)
    ensures
        chars@ == text@,
{
    let mut chars: Vec<char> = Vec::new();
    for c in iter: text.chars()
        invariant
            chars@ == text@.take(iter.index() as int),
            iter.seq() == text@,
    {
        chars.push(c);
    }
    assert(text@.take(text@.len() as int) =~= text@);
    chars
}

/// A number is read digit by digit: each further digit makes it ten times as large
/// and adds its own value, as long as a `usize` can hold that.
pub proof fn law_number_digit_by_digit(digits: Seq<char>, c: char)
    requires
        digits.len() > 0,
        forall|i: int| 0 <= i < digits.len() ==> '0' <= #[trigger] digits[i] <= '9',
        '0' <= c <= '9',
    ensures
        number_of(seq![c]) == Some((c as u32 - '0' as u32) as usize),
        number_of(digits.push(c)) == (match number_of(digits) {
            Some(n) => if 10 * n + (c as u32 - '0' as u32) <= usize::MAX {
                Some((10 * n + (c as u32 - '0' as u32)) as usize)
            } else {
                None
            },
            None => None,
        }),
{
    let longer = digits.push(c);
    assert(seq![c].drop_last() =~= Seq::<char>::empty());
    assert(decimal_value(Seq::<char>::empty()) == 0);
    assert(is_digit(digits[0]) && is_digit(seq![c][0]));
    assert(longer[0] == digits[0]);
    assert(longer.drop_last() =~= digits);
    assert(all_digits(longer));
    assert(decimal_value(longer) == 10 * decimal_value(digits) + (c as nat - '0' as nat));
}

/// A text that is read as a number consists of digits, at least one of them, after
/// a plus sign at most, which does not change the number.
pub proof fn law_number_form(text: Seq<char>)
    ensures
        number_of(text) is Some ==> {
            &&& forall|i: int|
                0 <= i < text.len() ==> ('0' <= #[trigger] text[i] <= '9') || (i == 0 && text[i]
                    == '+')
            &&& exists|i: int| 0 <= i < text.len() && ('0' <= #[trigger] text[i] <= '9')
        },
        text.len() == 0 || text[0] != '+' ==> number_of(seq!['+'] + text) == number_of(text),
{
    if number_of(text) is Some {
        let digits = unsigned_digits(text);
        let skipped = text.len() - digits.len();
        assert(is_digit(digits[0]));
        assert(text[skipped] == digits[0]);
        assert forall|i: int| 0 <= i < text.len() implies ('0' <= #[trigger] text[i] <= '9') || (i
            == 0 && text[i] == '+') by {
            if i >= skipped {
                assert(is_digit(digits[i - skipped]));
            }
        }
    }
    assert((seq!['+'] + text).skip(1) =~= text);
}

/// A number is written digit by digit, the last one being what is left when the
/// others are divided off, and without a zero in front of other digits.
pub proof fn law_decimal_digit_by_digit(n: nat, d: nat)
    requires
        d < 10,
    ensures
        decimal(d).len() == 1,
        decimal(d)[0] as nat == '0' as nat + d,
        n > 0 ==> decimal(10 * n + d) == decimal(n) + decimal(d),
{
    if n > 0 {
        let whole = 10 * n + d;
        assert(whole / 10 == n && whole % 10 == d);
        assert(decimal(whole) =~= decimal(n) + decimal(d));
    }
}

} // verus!
