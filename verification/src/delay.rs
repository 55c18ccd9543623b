use crate::text::{find_char, first_index_of, lemma_first_index_of, lemma_first_index_of_bounds};
use vstd::prelude::*;
use vstd::string::*;

verus! {

/// A delay in whole seconds: either a fixed value (`"5"`) or a half-open
/// range (`"1..5"`) from which a value is drawn at random each time.
#[derive(Debug, Clone, Copy, PartialEq, Eq, Structural)]
pub enum Delay {
    Fixed(u64),
    /// `Range(low, high)` stands for the seconds `low <= s < high`.
    Range(u64, u64),
}

/// Why a delay could not be read.
#[derive(Debug, Clone, Copy, PartialEq, Eq, Structural)]
pub enum DelayParseError {
    /// A part that should be a number is empty or holds a non-digit.
    InvalidNumber,
    /// A number does not fit in 64 bits.
    TooLarge,
    /// A range whose upper end is not above its lower end.
    EmptyRange,
}

pub open spec fn is_digit(c: char) -> bool {
    '0' <= c && c <= '9'
}

pub open spec fn digit_value(c: char) -> int {
    (c as int) - ('0' as int)
}

/// The value of a string of decimal digits, most significant first.
pub open spec fn decimal_value(s: Seq<char>) -> int
    decreases s.len(),
{
    if s.len() == 0 {
        0
    } else {
        decimal_value(s.drop_last()) * 10 + digit_value(s.last())
    }
}

/// The reading of a number of seconds: one or more decimal digits whose
/// value fits in 64 bits.
pub open spec fn spec_parse_seconds(s: Seq<char>) -> Result<u64, DelayParseError> {
    if s.len() == 0 || !(forall|i: int| 0 <= i < s.len() ==> is_digit(#[trigger] s[i])) {
        Err(DelayParseError::InvalidNumber)
    } else if decimal_value(s) > u64::MAX {
        Err(DelayParseError::TooLarge)
    } else {
        Ok(decimal_value(s) as u64)
    }
}

/// The reading of a delay: a number of seconds, or two numbers of seconds
/// joined by `..` whose first is below the second.
pub open spec fn spec_parse_delay(s: Seq<char>) -> Result<Delay, DelayParseError> {
    let k = first_index_of(s, '.');
    if k == s.len() {
        match spec_parse_seconds(s) {
            Ok(n) => Ok(Delay::Fixed(n)),
            Err(e) => Err(e),
        }
    } else if k + 1 < s.len() && s[k + 1] == '.' {
        match spec_parse_seconds(s.subrange(0, k)) {
            Err(e) => Err(e),
            Ok(low) => match spec_parse_seconds(s.subrange(k + 2, s.len() as int)) {
                Err(e) => Err(e),
                Ok(high) => if low < high {
                    Ok(Delay::Range(low, high))
                } else {
                    Err(DelayParseError::EmptyRange)
                },
            },
        }
    } else {
        Err(DelayParseError::InvalidNumber)
    }
}

/// The value of a digit string is never below that of any of its prefixes.
proof fn lemma_decimal_value_prefix(s: Seq<char>, i: int)
    requires
        0 <= i <= s.len(),
        forall|j: int| 0 <= j < s.len() ==> is_digit(#[trigger] s[j]),
    ensures
        0 <= decimal_value(s.take(i)) <= decimal_value(s),
    decreases s.len(),
{
    if i == s.len() {
        assert(s.take(i) =~= s);
        if s.len() > 0 {
            lemma_decimal_value_prefix(s.drop_last(), 0);
            assert(is_digit(s[s.len() - 1]));
        }
    } else {
        let t = s.drop_last();
        assert forall|j: int| 0 <= j < t.len() implies is_digit(#[trigger] t[j]) by {
            assert(t[j] == s[j]);
        }
        lemma_decimal_value_prefix(t, i);
        assert(t.take(i) =~= s.take(i));
        assert(is_digit(s[s.len() - 1]));
    }
}

/// Whether every character of `s` is a decimal digit.
pub open spec fn all_digits(s: Seq<char>) -> bool {
    forall|i: int| 0 <= i < s.len() ==> is_digit(#[trigger] s[i])
}

/// A non-empty digit string whose value fits in 64 bits reads as that value.
pub proof fn lemma_parse_seconds_reads_value(a: Seq<char>)
    requires
        a.len() > 0,
        all_digits(a),
        decimal_value(a) <= u64::MAX,
    ensures
        spec_parse_seconds(a) == Ok::<u64, DelayParseError>(decimal_value(a) as u64),
{
}

/// A digit string holds no dot.
proof fn lemma_digits_have_no_dot(a: Seq<char>)
    requires
        all_digits(a),
    ensures
        first_index_of(a, '.') == a.len(),
{
    assert forall|j: int| 0 <= j < a.len() implies a[j] != '.' by {
        assert(is_digit(a[j]));
    }
    lemma_first_index_of(a, '.', a.len() as int);
}

/// A number of seconds alone reads as a fixed delay of that many seconds.
pub proof fn lemma_parse_fixed_delay(a: Seq<char>)
    requires
        a.len() > 0,
        all_digits(a),
        decimal_value(a) <= u64::MAX,
    ensures
        spec_parse_delay(a) == Ok::<Delay, DelayParseError>(Delay::Fixed(decimal_value(a) as u64)),
{
    lemma_digits_have_no_dot(a);
    lemma_parse_seconds_reads_value(a);
}

/// Two numbers of seconds joined by `..` read as the range from the whole
/// first number to the whole second one, or as an empty range when the
/// first is not below the second.
pub proof fn lemma_parse_range_reads_both_ends(a: Seq<char>, b: Seq<char>)
    requires
        a.len() > 0,
        b.len() > 0,
        all_digits(a),
        all_digits(b),
        decimal_value(a) <= u64::MAX,
        decimal_value(b) <= u64::MAX,
    ensures
        decimal_value(a) < decimal_value(b) ==> spec_parse_delay(a + seq!['.', '.'] + b) == Ok::<Delay, DelayParseError>(
            Delay::Range(decimal_value(a) as u64, decimal_value(b) as u64),
        ),
        decimal_value(a) >= decimal_value(b) ==> spec_parse_delay(a + seq!['.', '.'] + b) == Err::<Delay, DelayParseError>(
            DelayParseError::EmptyRange,
        ),
{
    let s = a + seq!['.', '.'] + b;
    assert forall|j: int| 0 <= j < a.len() implies s[j] != '.' by {
        assert(s[j] == a[j]);
        assert(is_digit(a[j]));
    }
    assert(s[a.len() as int] == '.');
    assert(s[(a.len() + 1) as int] == '.');
    lemma_first_index_of(s, '.', a.len() as int);
    assert(s.subrange(0, a.len() as int) =~= a);
    assert(s.subrange((a.len() + 2) as int, s.len() as int) =~= b);
    lemma_decimal_value_prefix(a, 0);
    lemma_decimal_value_prefix(b, 0);
    lemma_parse_seconds_reads_value(a);
    lemma_parse_seconds_reads_value(b);
}

/// A delay that reads as a range is the text of its lower end, `..`, and the
/// text of its upper end, each of which reads as that end on its own.
pub proof fn lemma_parsed_range_splits(s: Seq<char>, low: u64, high: u64)
    requires
        spec_parse_delay(s) == Ok::<Delay, DelayParseError>(Delay::Range(low, high)),
    ensures
        exists|k: int|
            0 <= k && k + 2 <= s.len() && s.subrange(k, k + 2) == seq!['.', '.']
                && #[trigger] spec_parse_seconds(s.subrange(0, k)) == Ok::<u64, DelayParseError>(low) && spec_parse_seconds(
                s.subrange(k + 2, s.len() as int),
            ) == Ok::<u64, DelayParseError>(high),
        low < high,
{
    lemma_first_index_of_bounds(s, '.');
    let k = first_index_of(s, '.');
    assert(s.subrange(k, k + 2) =~= seq!['.', '.']);
}

/// Reads a number of seconds.
pub fn parse_seconds(s: &str) -> (r: Result<u64, DelayParseError>)
    ensures
        r == spec_parse_seconds(s@),
{
    let n = s.unicode_len();
    if n == 0 {
        return Err(DelayParseError::InvalidNumber);
    }
    let mut i: usize = 0;
    while i < n
        invariant
            n == s@.len(),
            i <= n,
            forall|j: int| 0 <= j < i ==> is_digit(#[trigger] s@[j]),
        decreases n - i,
    {
        let c = s.get_char(i);
        if !('0' <= c && c <= '9') {
            return Err(DelayParseError::InvalidNumber);
        }
        i = i + 1;
    }
    let mut acc: u64 = 0;
    let mut i: usize = 0;
    while i < n
        invariant
            n == s@.len(),
            i <= n,
            forall|j: int| 0 <= j < n ==> is_digit(#[trigger] s@[j]),
            acc == decimal_value(s@.take(i as int)),
        decreases n - i,
    {
        let c = s.get_char(i);
        assert(is_digit(s@[i as int]));
        let d: u32 = (c as u32) - ('0' as u32);
        assert(s@.take(i + 1).drop_last() =~= s@.take(i as int));
        let next: u128 = (acc as u128) * 10 + (d as u128);
        if next > u64::MAX as u128 {
            proof {
                lemma_decimal_value_prefix(s@, i + 1);
            }
            return Err(DelayParseError::TooLarge);
        }
        acc = next as u64;
        i = i + 1;
    }
    assert(s@.take(n as int) =~= s@);
    Ok(acc)
}

impl Delay {
    /// Whether the delay is usable: a range must not be empty.
    pub open spec fn wf(self) -> bool {
        match self {
            Delay::Fixed(_) => true,
            Delay::Range(low, high) => low < high,
        }
    }

    /// Whether `secs` is a value that this delay can take.
    pub open spec fn admits(self, secs: u64) -> bool {
        match self {
            Delay::Fixed(n) => secs == n,
            Delay::Range(low, high) => low <= secs && secs < high,
        }
    }

    /// Whether a value can be drawn from the delay.
    pub fn is_valid(&self) -> (valid: bool)
        ensures
            valid == self.wf(),
    {
        match self {
            Delay::Fixed(_) => true,
            Delay::Range(low, high) => *low < *high,
        }
    }

    /// Reads a delay written as `"N"` or `"LOW..HIGH"` (whole seconds).
    pub fn parse(s: &str) -> (r: Result<Delay, DelayParseError>)
        ensures
            r == spec_parse_delay(s@),
            r matches Ok(d) ==> d.wf(),
    {
        let n = s.unicode_len();
        match find_char(s, '.') {
            None => match parse_seconds(s) {
                Ok(v) => Ok(Delay::Fixed(v)),
                Err(e) => Err(e),
            },
            Some(k) => {
                if k + 1 < n && s.get_char(k + 1) == '.' {
                    let low_text = s.substring_char(0, k);
                    let high_text = s.substring_char(k + 2, n);
                    match parse_seconds(low_text) {
                        Err(e) => Err(e),
                        Ok(low) => match parse_seconds(high_text) {
                            Err(e) => Err(e),
                            Ok(high) => {
                                if low < high {
                                    Ok(Delay::Range(low, high))
                                } else {
                                    Err(DelayParseError::EmptyRange)
                                }
                            },
                        },
                    }
                } else {
                    Err(DelayParseError::InvalidNumber)
                }
            },
        }
    }

    /// The number of seconds to wait this time: the fixed value, or a value
    /// drawn at random from the range.
    pub fn get_value(&self) -> (secs: u64)
        requires
            self.wf(),
        ensures
            self.admits(secs),
    {
        match self {
            Delay::Fixed(n) => *n,
            Delay::Range(low, high) => random_seconds(*low, *high),
        }
    }
}

/// Draws a value from `low..high` with `rand::Rng::gen_range` on the
/// thread-local generator (`rand::thread_rng`). The crate documents that an
/// exclusive range yields a value within it and that an empty range panics,
/// which `requires` rules out. Which value comes out is left open.
#[verifier::external_body]
fn random_seconds(low: u64, high: u64) -> (secs: u64)
    requires
        low < high,
    ensures
        low <= secs < high,
{
    rand::Rng::gen_range(&mut rand::thread_rng(), low..high)
}

} // verus!
