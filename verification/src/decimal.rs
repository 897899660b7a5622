//! Unsigned decimal numbers: how they are written and how they are read.
use vstd::prelude::*;

verus! {

/// Why a text is not a number.
#[derive(Debug, Clone, Copy, PartialEq, Eq, Structural)]
pub enum NumberError {
    Empty,
    InvalidDigit,
    TooLarge,
}

impl NumberError {
    /// The error in words.
    pub open spec fn message_spec(self) -> Seq<char> {
        match self {
            NumberError::Empty => "cannot parse integer from empty string"@,
            NumberError::InvalidDigit => "invalid digit found in string"@,
            NumberError::TooLarge => "number too large to fit in target type"@,
        }
    }

    /// The error in words.
    pub fn message(&self) -> (text: &'static str)
        ensures
            text@ == self.message_spec(),
    {
        match self {
            NumberError::Empty => "cannot parse integer from empty string",
            NumberError::InvalidDigit => "invalid digit found in string",
            NumberError::TooLarge => "number too large to fit in target type",
        }
    }
}

/// The byte is an ASCII digit.
pub open spec fn is_digit(byte: u8) -> bool {
    48 <= byte <= 57
}

/// The decimal digits of a number, without leading zeros.
pub open spec fn decimal_digits(n: nat) -> Seq<u8>
    decreases n,
{
    if n < 10 {
        seq![(48 + n) as u8]
    } else {
        decimal_digits(n / 10).push((48 + n % 10) as u8)
    }
}

/// The number that some digits stand for.
pub open spec fn decimal_value(digits: Seq<u8>) -> nat
    decreases digits.len(),
{
    if digits.len() == 0 {
        0
    } else {
        decimal_value(digits.drop_last()) * 10 + (digits.last() - 48) as nat
    }
}

/// Reads digits from the left onto a number that has been read already.
pub open spec fn digits_onto(number: nat, digits: Seq<u8>, max: nat) -> Result<nat, NumberError>
    decreases digits.len(),
{
    if digits.len() == 0 {
        Ok(number)
    } else if !is_digit(digits[0]) {
        Err(NumberError::InvalidDigit)
    } else if number * 10 + (digits[0] - 48) > max {
        Err(NumberError::TooLarge)
    } else {
        digits_onto((number * 10 + (digits[0] - 48)) as nat, digits.drop_first(), max)
    }
}

/// The digits behind a leading plus sign.
pub open spec fn unsigned_part(text: Seq<u8>) -> Seq<u8> {
    if text.len() > 0 && text[0] == 43 {
        text.drop_first()
    } else {
        text
    }
}

/// The number up to `max` that a text stands for: digits, perhaps with a plus sign in front.
pub open spec fn decimal_number(text: Seq<u8>, max: nat) -> Result<nat, NumberError> {
    if text.len() == 0 {
        Err(NumberError::Empty)
    } else if unsigned_part(text).len() == 0 {
        Err(NumberError::InvalidDigit)
    } else {
        digits_onto(0, unsigned_part(text), max)
    }
}

/// The decimal digits of a number.
pub fn write_decimal(n: usize) -> (digits: Vec<u8>)
    ensures
        digits@ == decimal_digits(n as nat),
    decreases n,
{
    if n < 10 {
        let mut digits: Vec<u8> = Vec::new();
        digits.push(48 + n as u8);
        digits
    } else {
        let mut digits: Vec<u8> = write_decimal(n / 10);
        digits.push(48 + (n % 10) as u8);
        digits
    }
}

/// Reads a number up to `max`.
pub fn read_decimal(text: &[u8], max: u64) -> (result: Result<u64, NumberError>)
    ensures
        match result {
            Ok(n) => n <= max && decimal_number(text@, max as nat) is Ok && decimal_number(
                text@,
                max as nat,
            )->Ok_0 == n,
            Err(error) => decimal_number(text@, max as nat) is Err && decimal_number(
                text@,
                max as nat,
            )->Err_0 == error,
        },
{
    if text.len() == 0 {
        return Err(NumberError::Empty);
    }
    let mut at: usize = if text[0] == 43 {
        1
    } else {
        0
    };
    if at == text.len() {
        return Err(NumberError::InvalidDigit);
    }
    let mut number: u64 = 0;
    assert(text@.skip(at as int) =~= unsigned_part(text@));
    while at < text.len()
        invariant
            at <= text.len(),
            text.len() > 0,
            unsigned_part(text@).len() > 0,
            number <= max,
            decimal_number(text@, max as nat) == digits_onto(
                number as nat,
                text@.skip(at as int),
                max as nat,
            ),
        decreases text.len() - at,
    {
        let byte = text[at];
        let ghost rest = text@.skip(at as int);
        assert(rest[0] == byte);
        assert(rest.drop_first() =~= text@.skip(at + 1));
        if byte < 48 || byte > 57 {
            return Err(NumberError::InvalidDigit);
        }
        let digit: u64 = (byte - 48) as u64;
        if number > max / 10 || (number == max / 10 && digit > max % 10) {
            return Err(NumberError::TooLarge);
        }
        number = number * 10 + digit;
        at = at + 1;
    }
    Ok(number)
}

/// Reading more digits goes on where reading the first ones has ended.
proof fn lemma_digits_push(number: nat, digits: Seq<u8>, last: u8, max: nat)
    requires
        digits_onto(number, digits, max) is Ok,
    ensures
        digits_onto(number, digits.push(last), max) == digits_onto(
            digits_onto(number, digits, max)->Ok_0,
            seq![last],
            max,
        ),
    decreases digits.len(),
{
    let all = digits.push(last);
    if digits.len() == 0 {
        assert(all =~= seq![last]);
    } else {
        assert(all[0] == digits[0]);
        assert(all.drop_first() =~= digits.drop_first().push(last));
        lemma_digits_push(
            (number * 10 + (digits[0] - 48)) as nat,
            digits.drop_first(),
            last,
            max,
        );
    }
}

/// Reading a single digit.
proof fn lemma_one_digit(number: nat, last: u8, max: nat)
    ensures
        digits_onto(number, seq![last], max) == if !is_digit(last) {
            Err::<nat, NumberError>(NumberError::InvalidDigit)
        } else if number * 10 + (last - 48) > max {
            Err(NumberError::TooLarge)
        } else {
            Ok((number * 10 + (last - 48)) as nat)
        },
{
    reveal_with_fuel(digits_onto, 2);
    let one = seq![last];
    assert(one.drop_first().len() == 0);
}

/// The digits of a number are digits.
pub proof fn lemma_decimal_digits(n: nat)
    ensures
        decimal_digits(n).len() > 0,
        forall|i: int| 0 <= i < decimal_digits(n).len() ==> is_digit(#[trigger] decimal_digits(n)[i]),
    decreases n,
{
    if n >= 10 {
        lemma_decimal_digits(n / 10);
    }
}

proof fn lemma_digits_read_back(n: nat, max: nat)
    requires
        n <= max,
    ensures
        digits_onto(0, decimal_digits(n), max) == Ok::<nat, NumberError>(n),
    decreases n,
{
    if n < 10 {
        lemma_one_digit(0, (48 + n) as u8, max);
    } else {
        lemma_digits_read_back(n / 10, max);
        let last = (48 + n % 10) as u8;
        lemma_digits_push(0, decimal_digits(n / 10), last, max);
        lemma_one_digit(n / 10, last, max);
        assert((n / 10) * 10 + n % 10 == n);
    }
}

/// A number that has been written is read back unchanged.
pub proof fn law_written_number_is_read_back(n: nat, max: nat)
    requires
        n <= max,
    ensures
        decimal_number(decimal_digits(n), max) == Ok::<nat, NumberError>(n),
{
    lemma_decimal_digits(n);
    lemma_digits_read_back(n, max);
}

proof fn lemma_digits_value(digits: Seq<u8>, max: nat)
    ensures
        digits_onto(0, digits, max) matches Ok(n) ==> n == decimal_value(digits) && n <= max,
        (forall|i: int| 0 <= i < digits.len() ==> is_digit(#[trigger] digits[i])) && decimal_value(
            digits,
        ) <= max <==> digits_onto(0, digits, max) is Ok,
    decreases digits.len(),
{
    if digits.len() > 0 {
        let front = digits.drop_last();
        let last = digits.last();
        assert(front.push(last) =~= digits);
        lemma_digits_value(front, max);
        if digits_onto(0, front, max) is Ok {
            lemma_digits_push(0, front, last, max);
            lemma_one_digit(digits_onto(0, front, max)->Ok_0, last, max);
            assert forall|i: int| 0 <= i < digits.len() && is_digit(last) implies is_digit(
                #[trigger] digits[i],
            ) by {
                if i < front.len() {
                    assert(is_digit(front[i]));
                }
            }
        } else {
            lemma_digits_stay_refused(0, front, last, max);
            if forall|i: int| 0 <= i < digits.len() ==> is_digit(#[trigger] digits[i]) {
                assert forall|i: int| 0 <= i < front.len() implies is_digit(#[trigger] front[i]) by {
                    assert(is_digit(digits[i]));
                }
            }
        }
    }
}

proof fn lemma_digits_stay_refused(number: nat, digits: Seq<u8>, last: u8, max: nat)
    requires
        digits_onto(number, digits, max) is Err,
    ensures
        digits_onto(number, digits.push(last), max) is Err,
    decreases digits.len(),
{
    let all = digits.push(last);
    if digits.len() > 0 {
        assert(all[0] == digits[0]);
        assert(all.drop_first() =~= digits.drop_first().push(last));
        if is_digit(digits[0]) && number * 10 + (digits[0] - 48) <= max {
            lemma_digits_stay_refused(
                (number * 10 + (digits[0] - 48)) as nat,
                digits.drop_first(),
                last,
                max,
            );
        }
    }
}

/// A text is a number exactly where it is one digit or more, perhaps behind a plus sign, that
/// stand for at most `max`; it is then what the digits stand for.
pub proof fn law_number_is_value_of_digits(text: Seq<u8>, max: nat)
    ensures
        decimal_number(text, max) is Ok <==> unsigned_part(text).len() > 0 && (forall|i: int|
            0 <= i < unsigned_part(text).len() ==> is_digit(#[trigger] unsigned_part(text)[i]))
            && decimal_value(unsigned_part(text)) <= max,
        decimal_number(text, max) is Ok ==> decimal_number(text, max)->Ok_0 == decimal_value(
            unsigned_part(text),
        ),
{
    lemma_digits_value(unsigned_part(text), max);
}

/// The value of digits is built up from the left, digit by digit.
pub proof fn law_value_grows_with_each_digit(digits: Seq<u8>, last: u8)
    requires
        48 <= last <= 57,
    ensures
        decimal_value(seq![]) == 0,
        decimal_value(digits.push(last)) == decimal_value(digits) * 10 + (last - 48),
        is_digit(last),
{
    assert(digits.push(last).drop_last() =~= digits);
}

/// The digits of a number stand for the number, and there is no zero in front of others.
pub proof fn law_digits_stand_for_the_number(n: nat)
    ensures
        decimal_value(decimal_digits(n)) == n,
        decimal_digits(n).len() > 0,
        forall|i: int|
            0 <= i < decimal_digits(n).len() ==> 48 <= #[trigger] decimal_digits(n)[i] <= 57,
        decimal_digits(n)[0] == 48 <==> n == 0,
    decreases n,
{
    lemma_decimal_digits(n);
    assert forall|i: int| 0 <= i < decimal_digits(n).len() implies 48 <= #[trigger] decimal_digits(
        n,
    )[i] <= 57 by {
        assert(is_digit(decimal_digits(n)[i]));
    }
    if n < 10 {
        reveal_with_fuel(decimal_value, 2);
        let digits = decimal_digits(n);
        assert(digits.drop_last().len() == 0);
    } else {
        law_digits_stand_for_the_number(n / 10);
        law_value_grows_with_each_digit(decimal_digits(n / 10), (48 + n % 10) as u8);
        assert((n / 10) * 10 + n % 10 == n);
        assert(decimal_digits(n)[0] == decimal_digits(n / 10)[0]);
    }
}

/// A plus sign in front of digits makes no difference.
pub proof fn law_plus_sign_makes_no_difference(digits: Seq<u8>, max: nat)
    requires
        digits.len() > 0,
        digits[0] != 43,
    ensures
        decimal_number(seq![43u8] + digits, max) == decimal_number(digits, max),
{
    let text = seq![43u8] + digits;
    assert(text.drop_first() =~= digits);
}

/// A text is no number for its reason: because it is empty, because something else than a digit
/// comes behind digits that are still in range, or because the digits stand for too much.
pub proof fn law_text_is_no_number_for_its_reason(
    digits: Seq<u8>,
    other: u8,
    rest: Seq<u8>,
    max: nat,
)
    requires
        forall|i: int| 0 <= i < digits.len() ==> 48 <= #[trigger] digits[i] <= 57,
        !(48 <= other <= 57),
    ensures
        decimal_number(seq![], max) == Err::<nat, NumberError>(NumberError::Empty),
        digits.len() > 0 && decimal_value(digits) > max ==> decimal_number(digits, max) == Err::<
            nat,
            NumberError,
        >(NumberError::TooLarge),
        digits.len() > 0 && decimal_value(digits) <= max ==> decimal_number(
            digits + seq![other] + rest,
            max,
        ) == Err::<nat, NumberError>(NumberError::InvalidDigit),
{
    assert forall|i: int| 0 <= i < digits.len() implies is_digit(#[trigger] digits[i]) by {}
    if digits.len() > 0 {
        lemma_digits_value(digits, max);
        if decimal_value(digits) > max {
            lemma_only_too_large(0, digits, max);
        } else {
            lemma_refused_behind(0, digits, other, rest, max);
        }
    }
}

/// Digits alone are refused only because they stand for too much.
proof fn lemma_only_too_large(number: nat, digits: Seq<u8>, max: nat)
    requires
        forall|i: int| 0 <= i < digits.len() ==> is_digit(#[trigger] digits[i]),
        digits_onto(number, digits, max) is Err,
    ensures
        digits_onto(number, digits, max)->Err_0 == NumberError::TooLarge,
    decreases digits.len(),
{
    if digits.len() > 0 {
        assert(is_digit(digits[0]));
        let rest = digits.drop_first();
        assert forall|i: int| 0 <= i < rest.len() implies is_digit(#[trigger] rest[i]) by {
            assert(is_digit(digits[i + 1]));
        }
        if number * 10 + (digits[0] - 48) <= max {
            lemma_only_too_large((number * 10 + (digits[0] - 48)) as nat, rest, max);
        }
    }
}

/// Something else than a digit behind digits that were read is refused.
proof fn lemma_refused_behind(number: nat, digits: Seq<u8>, other: u8, rest: Seq<u8>, max: nat)
    requires
        digits_onto(number, digits, max) is Ok,
        !is_digit(other),
    ensures
        digits_onto(number, digits + seq![other] + rest, max) == Err::<nat, NumberError>(
            NumberError::InvalidDigit,
        ),
    decreases digits.len(),
{
    let all = digits + seq![other] + rest;
    if digits.len() > 0 {
        assert(all[0] == digits[0]);
        assert(all.drop_first() =~= digits.drop_first() + seq![other] + rest);
        lemma_refused_behind(
            (number * 10 + (digits[0] - 48)) as nat,
            digits.drop_first(),
            other,
            rest,
            max,
        );
    } else {
        assert(all[0] == other);
    }
}

} // verus!
