//! Counts written in decimal digits.

use vstd::prelude::*;
use vstd::string::StringExecFns;
use crate::text::chars_of;

verus! {

/// Why a text is not a count.
#[derive(Debug, Clone, Copy, PartialEq, Eq, Structural)]
pub enum CountError {
    /// The text is empty.
    Empty,
    /// The text holds something else than digits after an optional `+`, or
    /// no digit at all.
    InvalidDigit,
    /// The digits stand for a number beyond the largest count.
    TooLarge,
}

impl CountError {
    /// The text of the message, as a sequence of characters.
    pub open spec fn message_text(self) -> Seq<char> {
        match self {
            CountError::Empty => "cannot parse integer from empty string"@,
            CountError::InvalidDigit => "invalid digit found in string"@,
            CountError::TooLarge => "number too large to fit in target type"@,
        }
    }

    /// A one-line message for the user.
    pub fn message(&self) -> (text: String)
        ensures
            text@ == self.message_text(),
    {
        match self {
            CountError::Empty => String::from_str("cannot parse integer from empty string"),
            CountError::InvalidDigit => String::from_str("invalid digit found in string"),
            CountError::TooLarge => String::from_str("number too large to fit in target type"),
        }
    }
}

/// Whether a character is one of the ten decimal digits.
pub open spec fn is_digit(c: char) -> bool {
    '0' <= c <= '9'
}

/// What a digit stands for; 0 for any other character.
pub open spec fn digit_value(c: char) -> nat {
    if is_digit(c) {
        (c as u32 - 0x30) as nat
    } else {
        0
    }
}

/// Whether a text holds digits only.
pub open spec fn all_digits(s: Seq<char>) -> bool {
    forall|i: int| 0 <= i < s.len() ==> is_digit(#[trigger] s[i])
}

/// The number that a text of digits stands for.
pub open spec fn decimal(s: Seq<char>) -> nat
    decreases s.len(),
{
    if s.len() == 0 {
        0
    } else {
        decimal(s.drop_last()) * 10 + digit_value(s.last())
    }
}

/// A text without the `+` that may stand before its digits.
pub open spec fn unsigned_part(s: Seq<char>) -> Seq<char> {
    if s.len() > 0 && s.first() == '+' {
        s.drop_first()
    } else {
        s
    }
}

/// Whether the digits at the start of a text, read up to some point, already
/// stand for more than the largest count.
pub open spec fn overflows(body: Seq<char>) -> bool {
    exists|k: int|
        0 <= k <= body.len() && all_digits(#[trigger] body.take(k)) && decimal(body.take(k))
            > usize::MAX
}

/// The count that a text stands for, or the reason why it stands for none.
///
/// A count is one or more digits, with an optional `+` before them and
/// nothing else around them. Reading from the left, a number that grows too
/// large is reported before a character that is no digit further on.
pub open spec fn count_outcome(s: Seq<char>) -> Result<usize, CountError> {
    let body = unsigned_part(s);
    if s.len() == 0 {
        Err(CountError::Empty)
    } else if overflows(body) {
        Err(CountError::TooLarge)
    } else if body.len() == 0 || !all_digits(body) {
        Err(CountError::InvalidDigit)
    } else {
        Ok(decimal(body) as usize)
    }
}

/// A longer start of a text stands for no smaller a number.
pub proof fn lemma_decimal_grows(s: Seq<char>, k: int, j: int)
    requires
        0 <= k <= j <= s.len(),
    ensures
        decimal(s.take(k)) <= decimal(s.take(j)),
    decreases j - k,
{
    if k < j {
        lemma_decimal_grows(s, k, j - 1);
        assert(s.take(j).drop_last() =~= s.take(j - 1));
    }
}

/// Reads a count.
pub fn parse_count(s: &str) -> (r: Result<usize, CountError>)
    ensures
        r == count_outcome(s@),
{
    let v = chars_of(s);
    let n = v.len();
    if n == 0 {
        return Err(CountError::Empty);
    }
    let first: usize = if v[0] == '+' {
        1
    } else {
        0
    };
    let ghost body = unsigned_part(v@);
    assert(body =~= v@.subrange(first as int, n as int));
    if first == n {
        assert(body.take(0) =~= body);
        assert(!overflows(body)) by {
            assert forall|k: int| 0 <= k <= body.len() implies decimal(#[trigger] body.take(k))
                <= usize::MAX by {
                assert(body.take(k) =~= body);
            }
        }
        return Err(CountError::InvalidDigit);
    }
    let mut value: usize = 0;
    let mut i: usize = first;
    assert(body.take(0) =~= Seq::<char>::empty());
    while i < n
        invariant
            first <= i <= n,
            n == v@.len(),
            n > 0,
            v@ == s@,
            body == unsigned_part(s@),
            body == v@.subrange(first as int, n as int),
            all_digits(body.take(i - first)),
            value == decimal(body.take(i - first)),
        decreases n - i,
    {
        let c = v[i];
        let ghost k = i - first;
        assert(body[k] == c);
        assert(body.take(k + 1).drop_last() =~= body.take(k));
        assert(body.take(k + 1).last() == c);
        if !(c >= '0' && c <= '9') {
            assert(!all_digits(body)) by {
                assert(!is_digit(body[k]));
            }
            assert(!overflows(body)) by {
                assert forall|j: int|
                    0 <= j <= body.len() && all_digits(#[trigger] body.take(j)) implies decimal(
                    body.take(j),
                ) <= usize::MAX by {
                    if j > k {
                        assert(body.take(j)[k] == body[k]);
                    } else {
                        lemma_decimal_grows(body, j, k);
                    }
                }
            }
            return Err(CountError::InvalidDigit);
        }
        let d: usize = (c as u32 - 0x30) as usize;
        assert(d == digit_value(c));
        let next = match value.checked_mul(10) {
            Some(tens) => tens.checked_add(d),
            None => None,
        };
        assert(all_digits(body.take(k + 1))) by {
            assert forall|j: int| 0 <= j < k + 1 implies is_digit(
                #[trigger] body.take(k + 1)[j],
            ) by {
                if j < k {
                    assert(body.take(k)[j] == body[j]);
                }
            }
        }
        match next {
            Some(sum) => {
                value = sum;
            },
            None => {
                assert(decimal(body.take(k + 1)) > usize::MAX);
                assert(overflows(body));
                return Err(CountError::TooLarge);
            },
        }
        i += 1;
    }
    assert(body.take(n - first) =~= body);
    assert(!overflows(body)) by {
        assert forall|j: int| 0 <= j <= body.len() implies decimal(#[trigger] body.take(j))
            <= usize::MAX by {
            lemma_decimal_grows(body, j, body.len() as int);
        }
    }
    Ok(value)
}

} // verus!
