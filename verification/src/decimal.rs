//! Natural numbers in decimal digits.
use vstd::prelude::*;

verus! {

/// The decimal digit of a number below ten.
pub open spec fn digit(number: nat) -> char {
    (number + 48) as char
}

/// A number in decimal digits, without leading zeros.
pub open spec fn decimal(number: nat) -> Seq<char>
    decreases number,
{
    if number < 10 {
        seq![digit(number)]
    } else {
        decimal(number / 10).push(digit(number % 10))
    }
}

/// Whether a character is an ASCII digit.
pub open spec fn is_digit(character: char) -> bool {
    '0' <= character <= '9'
}

/// Whether a text is made of ASCII digits, at least one.
pub open spec fn all_digits(text: Seq<char>) -> bool {
    &&& text.len() > 0
    &&& forall|i: int| 0 <= i < text.len() ==> is_digit(#[trigger] text[i])
}

/// The number that some decimal digits stand for.
pub open spec fn digits_value(digits: Seq<char>) -> nat
    decreases digits.len(),
{
    if digits.len() == 0 {
        0
    } else {
        (digits_value(digits.drop_last()) * 10 + (digits.last() as nat - 48)) as nat
    }
}

/// A text without one plus sign in front.
pub open spec fn without_plus(text: Seq<char>) -> Seq<char> {
    if text.len() > 0 && text.first() == '+' {
        text.drop_first()
    } else {
        text
    }
}

/// The number that a text stands for: decimal digits, with or without one plus sign in front.
pub open spec fn parsed_decimal(text: Seq<char>) -> Option<nat> {
    if all_digits(without_plus(text)) {
        Some(digits_value(without_plus(text)))
    } else {
        None
    }
}

/// The number that a text stands for, where it is not above `limit`.
pub open spec fn parsed_up_to(text: Seq<char>, limit: nat) -> Option<nat> {
    match parsed_decimal(text) {
        Some(number) => if number <= limit {
            Some(number)
        } else {
            None
        },
        None => None,
    }
}

/// The decimal digits of a number.
pub fn decimal_chars(number: u128) -> (result: Vec<char>)
    ensures
        result@ == decimal(number as nat),
    decreases number,
{
    if number < 10 {
        let mut result: Vec<char> = Vec::new();
        result.push((number as u8 + 48) as char);
        assert(result@ =~= decimal(number as nat));
        result
    } else {
        let mut result = decimal_chars(number / 10);
        result.push(((number % 10) as u8 + 48) as char);
        result
    }
}

proof fn lemma_value_of_prefix(digits: Seq<char>, size: int)
    requires
        forall|i: int| 0 <= i < digits.len() ==> is_digit(#[trigger] digits[i]),
        0 <= size <= digits.len(),
    ensures
        digits_value(digits.take(size)) <= digits_value(digits),
    decreases digits.len() - size,
{
    if size < digits.len() {
        let longer = digits.take(size + 1);
        assert(longer.drop_last() =~= digits.take(size));
        assert(longer.last() == digits[size]);
        assert(digits_value(longer) >= digits_value(longer.drop_last()) * 10);
        lemma_value_of_prefix(digits, size + 1);
    } else {
        assert(digits.take(size) =~= digits);
    }
}

/// Reads a number that is not above `limit`.
pub fn parse_decimal(chars: &[char], limit: u64) -> (result: Option<u64>)
    ensures
        match result {
            Some(number) => parsed_up_to(chars@, limit as nat) == Some(number as nat),
            None => parsed_up_to(chars@, limit as nat) is None,
        },
{
    let ghost digits = without_plus(chars@);
    let mut start: usize = 0;
    if chars.len() > 0 && chars[0] == '+' {
        start = 1;
    }
    if start == chars.len() {
        return None;
    }
    let mut number: u64 = 0;
    let mut i: usize = start;
    while i < chars.len()
        invariant
            start <= i <= chars@.len(),
            start < chars@.len(),
            digits == without_plus(chars@),
            digits == chars@.skip(start as int),
            forall|j: int| 0 <= j < i - start ==> is_digit(#[trigger] digits[j]),
            number == digits_value(digits.take(i - start)),
            number <= limit,
        decreases chars@.len() - i,
    {
        let character = chars[i];
        assert(digits[i - start] == character);
        if character < '0' || '9' < character {
            return None;
        }
        let value: u64 = (character as u32 - 48) as u64;
        proof {
            let longer = digits.take(i - start + 1);
            assert(longer.drop_last() =~= digits.take(i - start));
            assert(longer.last() == character);
            assert(digits_value(longer) == number * 10 + value);
        }
        let next: u128 = number as u128 * 10 + value as u128;
        if next > limit as u128 {
            proof {
                if all_digits(digits) {
                    lemma_value_of_prefix(digits, i - start + 1);
                }
            }
            return None;
        }
        number = next as u64;
        i += 1;
    }
    assert(digits.take(i - start) =~= digits);
    Some(number)
}

/// The decimal digits of a number are ASCII digits and stand for the number.
pub proof fn lemma_decimal(number: nat)
    ensures
        all_digits(decimal(number)),
        digits_value(decimal(number)) == number,
        decimal(number).first() != '+',
    decreases number,
{
    if number < 10 {
        let text = decimal(number);
        assert(text.drop_last() =~= Seq::<char>::empty());
        assert(digits_value(text.drop_last()) == 0);
        assert(text.last() == digit(number));
    } else {
        lemma_decimal(number / 10);
        let text = decimal(number);
        assert(text.drop_last() =~= decimal(number / 10));
        assert(text.last() == digit(number % 10));
        assert forall|i: int| 0 <= i < text.len() implies is_digit(#[trigger] text[i]) by {
            if i < text.len() - 1 {
                assert(text[i] == decimal(number / 10)[i]);
            }
        }
        assert(text.first() == decimal(number / 10).first());
    }
}

/// Reading the decimal digits of a number gives the number back.
pub proof fn decimal_reads_back(number: nat)
    ensures
        parsed_decimal(decimal(number)) == Some(number),
{
    lemma_decimal(number);
}

/// Two numbers with the same decimal digits are the same.
pub proof fn decimal_is_injective(left: nat, right: nat)
    requires
        decimal(left) == decimal(right),
    ensures
        left == right,
{
    lemma_decimal(left);
    lemma_decimal(right);
}

/// A number below ten has one digit, which stands as far behind `0` as the number says; a larger
/// one has the digits of its tens and then that of its ones.
pub proof fn decimal_has_the_digits_of_its_tens(tens: nat, ones: nat)
    requires
        ones < 10,
    ensures
        decimal(ones).len() == 1,
        decimal(ones)[0] as int == '0' as int + ones,
        tens > 0 ==> decimal(10 * tens + ones) == decimal(tens) + decimal(ones),
        tens > 0 ==> decimal(tens)[0] != '0',
    decreases tens,
{
    if tens > 0 {
        assert((10 * tens + ones) / 10 == tens && (10 * tens + ones) % 10 == ones)
            by (nonlinear_arith)
            requires
                ones < 10,
        ;
        assert(decimal(10 * tens + ones) =~= decimal(tens) + decimal(ones));
        if tens >= 10 {
            decimal_has_the_digits_of_its_tens(tens / 10, tens % 10);
            lemma_decimal(tens / 10);
            assert(10 * (tens / 10) + tens % 10 == tens);
            assert(decimal(tens)[0] == decimal(tens / 10)[0]);
        }
    }
}

proof fn lemma_value_behind_zero(digits: Seq<char>)
    ensures
        digits_value(seq!['0'] + digits) == digits_value(digits),
    decreases digits.len(),
{
    let longer = seq!['0'] + digits;
    if digits.len() == 0 {
        assert(longer.drop_last() =~= Seq::<char>::empty());
        assert(digits =~= Seq::<char>::empty());
        assert(digits_value(longer.drop_last()) == 0);
        assert(longer.last() == '0');
    } else {
        assert(longer.drop_last() =~= seq!['0'] + digits.drop_last());
        assert(longer.last() == digits.last());
        lemma_value_behind_zero(digits.drop_last());
    }
}

/// A number is read back from its digits, also with a plus sign or a zero in front of them, unless it
/// is above the limit.
pub proof fn number_reads_back_up_to_its_limit(
    number: nat,
    chars: &[char],
    limit: u64,
    read: Option<u64>,
)
    requires
        call_ensures(parse_decimal, (chars, limit), read),
        chars@ == decimal(number) || chars@ == seq!['+'] + decimal(number) || chars@ == seq!['0']
            + decimal(number),
    ensures
        number <= limit ==> read is Some && read->0 == number,
        number > limit ==> read is None,
{
    lemma_decimal(number);
    let digits = decimal(number);
    assert((seq!['+'] + digits).drop_first() =~= digits);
    lemma_value_behind_zero(digits);
    let padded = seq!['0'] + digits;
    assert forall|i: int| 0 <= i < padded.len() implies is_digit(#[trigger] padded[i]) by {
        if i > 0 {
            assert(padded[i] == digits[i - 1]);
        }
    }
}

/// A text without digits, or with anything but digits behind its first character, or that begins
/// with anything but a digit or a plus sign, is no number.
pub proof fn only_digits_are_a_number(chars: &[char], limit: u64, at: int, read: Option<u64>)
    requires
        call_ensures(parse_decimal, (chars, limit), read),
        chars@.len() == 0 || chars@ == seq!['+'] || (0 <= at < chars@.len() && !('0' <= chars@[at]
            <= '9') && !(at == 0 && chars@[0] == '+')),
    ensures
        read is None,
{
    let digits = without_plus(chars@);
    if 0 <= at < chars@.len() && !('0' <= chars@[at] <= '9') {
        if chars@[0] == '+' {
            if at > 0 {
                assert(digits[at - 1] == chars@[at]);
            }
        } else {
            assert(digits[at] == chars@[at]);
        }
    }
}

} // verus!
