//! Keys as decimal text, the form in which headers carry them.
use vstd::prelude::*;

verus! {

/// `c` is a decimal digit.
pub open spec fn is_digit(c: char) -> bool {
    '0' <= c <= '9'
}

/// The digit for `d`, which is less than ten.
pub open spec fn digit(d: nat) -> char {
    ('0' as nat + d) as char
}

/// The decimal text of `n`, without leading zeros.
pub open spec fn decimal(n: nat) -> Seq<char>
    decreases n,
{
    if n < 10 {
        seq![digit(n)]
    } else {
        decimal(n / 10).push(digit(n % 10))
    }
}

/// The number that a row of digits stands for.
pub open spec fn number(digits: Seq<char>) -> nat
    decreases digits.len(),
{
    if digits.len() == 0 {
        0
    } else {
        (number(digits.drop_last()) * 10 + (digits.last() as nat - '0' as nat)) as nat
    }
}

/// `text` without the plus sign that it may start with.
pub open spec fn unsigned(text: Seq<char>) -> Seq<char> {
    if text.len() > 0 && text[0] == '+' {
        text.skip(1)
    } else {
        text
    }
}

/// `text` is all digits.
pub open spec fn all_digits(text: Seq<char>) -> bool {
    forall|i: int| 0 <= i < text.len() ==> is_digit(#[trigger] text[i])
}

/// The key that `text` stands for: digits, at least one of them, behind an
/// optional plus sign, of a number that fits in 32 bits. Anything else is no
/// key.
pub open spec fn key_of(text: Seq<char>) -> Option<u32> {
    let digits = unsigned(text);
    if digits.len() > 0 && all_digits(digits) && number(digits) <= u32::MAX {
        Some(number(digits) as u32)
    } else {
        None
    }
}

/// Reads a key from its text.
pub fn parse_key(text: &str) -> (key: Option<u32>)
    ensures
        key == key_of(text@),
{
    let mut value: u64 = 0;
    let mut first: bool = true;
    let mut some_digit: bool = false;
    for c in it: text.chars()
        invariant
            it.seq() == text@,
            first == (it.index() == 0),
            all_digits(unsigned(text@.take(it.index()))),
            value == number(unsigned(text@.take(it.index()))),
            value <= u32::MAX,
            some_digit == (unsigned(text@.take(it.index())).len() > 0),
    {
        let ghost n = it.index();
        let ghost seen = text@.take(n);
        let ghost next = text@.take(n + 1);
        assert(next =~= seen.push(c));
        if first && c == '+' {
            assert(unsigned(next) =~= Seq::<char>::empty());
        } else if c >= '0' && c <= '9' {
            assert(unsigned(next) =~= unsigned(seen).push(c));
            assert(unsigned(next).drop_last() =~= unsigned(seen));
            value = value * 10 + (c as u64 - '0' as u64);
            some_digit = true;
            if value > u32::MAX as u64 {
                proof {
                    assert(unsigned(text@).take(unsigned(next).len() as int) =~= unsigned(next));
                    if all_digits(unsigned(text@)) {
                        lemma_number_grows(unsigned(text@), unsigned(next).len() as int);
                    }
                }
                return None;
            }
        } else {
            assert(unsigned(text@)[unsigned(next).len() - 1] == c);
            return None;
        }
        first = false;
    }
    assert(text@.take(text@.len() as int) =~= text@);
    if some_digit {
        Some(value as u32)
    } else {
        None
    }
}

/// The text of the digit for `d`.
fn digit_text(d: u32) -> (text: &'static str)
    requires
        d < 10,
    ensures
        text@ == seq![digit(d as nat)],
{
    proof {
        reveal_strlit("0");
        reveal_strlit("1");
        reveal_strlit("2");
        reveal_strlit("3");
        reveal_strlit("4");
        reveal_strlit("5");
        reveal_strlit("6");
        reveal_strlit("7");
        reveal_strlit("8");
        reveal_strlit("9");
    }
    match d {
        0 => "0",
        1 => "1",
        2 => "2",
        3 => "3",
        4 => "4",
        5 => "5",
        6 => "6",
        7 => "7",
        8 => "8",
        _ => "9",
    }
}

/// The text of a key.
pub fn key_text(key: u32) -> (text: String)
    ensures
        text@ == decimal(key as nat),
    decreases key,
{
    if key < 10 {
        digit_text(key).to_owned()
    } else {
        let mut text: String = key_text(key / 10);
        text.append(digit_text(key % 10));
        assert(text@ =~= decimal(key as nat));
        text
    }
}

/// A row of digits stands for no less than its start.
proof fn lemma_number_grows(digits: Seq<char>, n: int)
    requires
        0 <= n <= digits.len(),
        all_digits(digits),
    ensures
        number(digits.take(n)) <= number(digits),
    decreases digits.len(),
{
    if n == digits.len() {
        assert(digits.take(n) =~= digits);
    } else {
        lemma_number_grows(digits.drop_last(), n);
        assert(digits.drop_last().take(n) =~= digits.take(n));
    }
}

/// The decimal text of `n` is digits, at least one, and stands for `n`.
proof fn lemma_number_of_decimal(n: nat)
    ensures
        decimal(n).len() > 0,
        all_digits(decimal(n)),
        number(decimal(n)) == n,
    decreases n,
{
    if n < 10 {
        reveal_with_fuel(number, 2);
        assert(decimal(n).drop_last() =~= Seq::<char>::empty());
    } else {
        lemma_number_of_decimal(n / 10);
        assert(decimal(n).drop_last() =~= decimal(n / 10));
    }
}

/// The text of a key has at most ten digits.
pub proof fn lemma_decimal_is_short(key: u32)
    ensures
        decimal(key as nat).len() <= 10,
{
    reveal_with_fuel(decimal, 11);
}

/// What a row of digits stands for, digit by digit: nothing is zero, and each
/// further digit counts ten times what came before and itself.
pub proof fn law_number_of_digits(digits: Seq<char>, last: char)
    requires
        '0' <= last <= '9',
    ensures
        number(Seq::empty()) == 0,
        number(digits.push(last)) == 10 * number(digits) + (last as int - '0' as int),
{
    assert(digits.push(last).drop_last() =~= digits);
}

/// A text is a key exactly where it is one digit or more, behind a plus sign or
/// not, and what the digits stand for is below 2^32. The key is that number.
pub proof fn law_texts_that_are_keys(digits: Seq<char>)
    requires
        digits.len() > 0 ==> digits[0] != '+',
    ensures
        key_of(seq!['+'] + digits) == key_of(digits),
        key_of(digits) is Some <==> digits.len() > 0 && number(digits) < 0x1_0000_0000 && forall|
            i: int,
        |
            0 <= i < digits.len() ==> '0' <= #[trigger] digits[i] <= '9',
        key_of(digits) is Some ==> key_of(digits)->0 as nat == number(digits),
        key_of(seq!['+', '+'] + digits) is None,
{
    assert((seq!['+'] + digits).skip(1) =~= digits);
    let twice = (seq!['+', '+'] + digits).skip(1);
    assert(twice[0] == '+');
}

/// The text of every key is digits, and it has no zero at its start but where it
/// is the zero alone: there is no shorter text that stands for the key.
pub proof fn law_key_text_is_plain(key: u32)
    ensures
        decimal(key as nat).len() > 0,
        forall|i: int|
            0 <= i < decimal(key as nat).len() ==> '0' <= #[trigger] decimal(key as nat)[i] <= '9',
        decimal(key as nat)[0] == '0' ==> decimal(key as nat).len() == 1,
        number(decimal(key as nat)) == key,
{
    lemma_number_of_decimal(key as nat);
    lemma_decimal_starts_plain(key as nat);
}

/// No decimal text starts with a zero but that of zero.
proof fn lemma_decimal_starts_plain(n: nat)
    ensures
        decimal(n).len() > 0,
        n > 0 ==> decimal(n)[0] != '0',
        n == 0 ==> decimal(n).len() == 1,
    decreases n,
{
    if n >= 10 {
        lemma_decimal_starts_plain(n / 10);
    }
}

/// Every key reads back from its text.
pub proof fn law_key_text_reads_back(key: u32)
    ensures
        key_of(decimal(key as nat)) == Some(key),
        all_digits(decimal(key as nat)),
{
    lemma_number_of_decimal(key as nat);
}

} // verus!
