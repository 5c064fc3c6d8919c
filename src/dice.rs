use vstd::prelude::*;

use crate::text::{
    all_digits, decimal_of, digit_char, digits_of, digits_value, is_all_digits, is_digit,
    lemma_digits_are_unsigned, lemma_non_digit_not_digits, parse_unsigned,
};

verus! {

/// Why a dice expression could not be evaluated.
#[derive(Debug, Clone, Copy, PartialEq, Eq, Structural)]
pub enum DiceError {
    /// The text is not `<count>d<sides>` with bare decimal digits on each side.
    Malformed,
    /// At least one die would be drawn, and the dice have no sides.
    InvalidSides,
    /// The largest possible sum, count times sides, does not fit in a `u32`.
    TooLarge,
}

/// Position `i` holds the one `d` of `s`.
pub open spec fn is_sole_d(s: Seq<char>, i: int) -> bool {
    &&& 0 <= i < s.len()
    &&& s[i] == 'd'
    &&& forall|j: int| 0 <= j < s.len() && j != i ==> s[j] != 'd'
}

/// The count and the number of sides that the dice notation `s` writes, when
/// `s` is `<count>d<sides>`: one `d` with bare base-10 digits on each side.
pub open spec fn dice_terms(s: Seq<char>) -> Option<(u32, u32)> {
    if exists|i: int| is_sole_d(s, i) {
        let i = choose|i: int| is_sole_d(s, i);
        match (digits_of(s.subrange(0, i)), digits_of(s.subrange(i + 1, s.len() as int))) {
            (Some(n), Some(m)) => Some((n, m)),
            _ => None,
        }
    } else {
        None
    }
}

/// The error that evaluating `s` gives, or `None` when it can be rolled.
/// A count of zero always rolls (to 0); dice with zero sides are refused
/// when at least one of them would be drawn.
pub open spec fn dice_error(s: Seq<char>) -> Option<DiceError> {
    match dice_terms(s) {
        None => Some(DiceError::Malformed),
        Some((n, m)) => if n > 0 && m == 0 {
            Some(DiceError::InvalidSides)
        } else if n * m > u32::MAX {
            Some(DiceError::TooLarge)
        } else {
            None
        },
    }
}

/// `v` is a sum that rolling `s` can give: between count and count times sides.
pub open spec fn possible_sum(s: Seq<char>, v: u32) -> bool {
    match dice_terms(s) {
        Some((n, m)) => n <= v <= n * m,
        None => false,
    }
}

/// `r` is a result that evaluating `s` can give: the error that `s` has, or
/// else a possible sum.
pub open spec fn is_dice_outcome(s: Seq<char>, r: Result<u32, DiceError>) -> bool {
    match dice_error(s) {
        Some(e) => r == Err::<u32, DiceError>(e),
        None => r is Ok && possible_sum(s, r->Ok_0),
    }
}

/// Relies on rand's `rand::rng()` and `Rng::random_range`: a draw from the
/// inclusive range `1..=sides`. `random_range` panics only on an empty range;
/// `rng()` panics only when the operating system's random source fails.
#[verifier::external_body]
fn draw(sides: u32) -> (r: u32)
    requires
        sides >= 1,
    ensures
        1 <= r <= sides,
{
    rand::Rng::random_range(&mut rand::rng(), 1..=sides)
}

/// Splits `<count>d<sides>` into its two numbers.
pub fn parse_dice(dice: &str) -> (r: Option<(u32, u32)>)
    ensures
        r == dice_terms(dice@),
{
    let len = dice.unicode_len();
    let mut i: usize = 0;
    let mut found: Option<usize> = None;
    let mut many = false;
    while i < len
        invariant
            len == dice@.len(),
            i <= len,
            found is None ==> !many && forall|j: int| 0 <= j < i ==> dice@[j] != 'd',
            found matches Some(p) ==> p < i && dice@[p as int] == 'd',
            found is Some && !many ==> forall|j: int|
                0 <= j < i && j != found->0 ==> dice@[j] != 'd',
            found is Some && many ==> exists|q: int|
                0 <= q < i && q != found->0 && dice@[q] == 'd',
        decreases len - i,
    {
        if dice.get_char(i) == 'd' {
            if found.is_none() {
                found = Some(i);
            } else {
                assert(dice@[i as int] == 'd');
                many = true;
            }
        }
        i = i + 1;
    }
    match found {
        None => {
            assert(!exists|k: int| is_sole_d(dice@, k));
            None
        },
        Some(p) => {
            if many {
                assert forall|k: int| !is_sole_d(dice@, k) by {
                    if is_sole_d(dice@, k) {
                        let q = choose|q: int| 0 <= q < len && q != p && dice@[q] == 'd';
                        assert(k == p as int || k == q);
                    }
                }
                None
            } else {
                assert(is_sole_d(dice@, p as int));
                assert forall|k: int| is_sole_d(dice@, k) implies k == p as int by {
                    if k != p as int {
                        assert(dice@[p as int] == 'd');
                    }
                }
                let count = dice.substring_char(0, p);
                let sides = dice.substring_char(p + 1, len);
                if count.unicode_len() == 0 || !is_all_digits(count) {
                    return None;
                }
                if sides.unicode_len() == 0 || !is_all_digits(sides) {
                    return None;
                }
                proof {
                    lemma_digits_are_unsigned(count@);
                    lemma_digits_are_unsigned(sides@);
                }
                match (parse_unsigned(count), parse_unsigned(sides)) {
                    (Some(n), Some(m)) => Some((n, m)),
                    _ => None,
                }
            }
        },
    }
}

/// Rolls the dice that `dice` writes and returns their sum: `<count>` uniform
/// draws from `1..=<sides>`. A count of zero gives 0 without drawing.
pub fn evaluate(dice: &str) -> (r: Result<u32, DiceError>)
    ensures
        is_dice_outcome(dice@, r),
{
    match parse_dice(dice) {
        None => Err(DiceError::Malformed),
        Some((n, m)) => {
            if n == 0 {
                return Ok(0);
            }
            if m == 0 {
                return Err(DiceError::InvalidSides);
            }
            proof {
                assert(n as u64 * m as u64 <= u32::MAX as u64 * u32::MAX as u64) by (nonlinear_arith)
                    requires
                        n <= u32::MAX,
                        m <= u32::MAX,
                ;
            }
            if n as u64 * m as u64 > u32::MAX as u64 {
                return Err(DiceError::TooLarge);
            }
            let mut total: u32 = 0;
            let mut k: u32 = 0;
            while k < n
                invariant
                    k <= n,
                    m >= 1,
                    n * m <= u32::MAX,
                    k <= total <= k * m,
                decreases n - k,
            {
                proof {
                    assert((k + 1) * m <= n * m) by (nonlinear_arith)
                        requires
                            k + 1 <= n,
                            m >= 1,
                    ;
                    assert((k + 1) * m == k * m + m) by (nonlinear_arith);
                }
                let d = draw(m);
                total = total + d;
                k = k + 1;
            }
            Ok(total)
        },
    }
}

/// The decimal numeral of `n` is a non-empty run of digits that writes `n`.
pub proof fn lemma_decimal_reads_back(n: nat)
    ensures
        decimal_of(n).len() > 0,
        forall|i: int| 0 <= i < decimal_of(n).len() ==> is_digit(#[trigger] decimal_of(n)[i]),
        digits_value(decimal_of(n)) == n,
    decreases n,
{
    let d = n % 10;
    assert(((d + 48) as u8) as int == d + 48);
    assert((digit_char(d) as int) - ('0' as int) == d);
    if n >= 10 {
        lemma_decimal_reads_back(n / 10);
        let s = decimal_of(n);
        assert(s.drop_last() =~= decimal_of(n / 10));
        assert(s.last() == digit_char(d));
        assert(digits_value(s) == digits_value(s.drop_last()) * 10 + d);
        assert(digits_value(s) == (n / 10) * 10 + d);
        assert(n == (n / 10) * 10 + d);
    } else {
        let s = decimal_of(n);
        assert(s.drop_last() =~= Seq::<char>::empty());
        assert(s.last() == digit_char(d));
        assert(digits_value(s) == digits_value(s.drop_last()) * 10 + d);
    }
}

/// The decimal numeral of `n` reads back as `n`.
pub proof fn lemma_digits_of_decimal(n: u32)
    ensures
        digits_of(decimal_of(n as nat)) == Some(n),
{
    lemma_decimal_reads_back(n as nat);
}

/// Any text that reads as `n` dice of `m` sides, with `m` at least one (or
/// `n` zero) and a product that fits, evaluates without error to a sum
/// between `n` and `n * m`, and to exactly 0 when `n` is 0.
pub proof fn lemma_valid_dice_in_range(s: Seq<char>, n: u32, m: u32)
    requires
        dice_terms(s) == Some((n, m)),
        m >= 1 || n == 0,
        n * m <= u32::MAX,
    ensures
        dice_error(s) is None,
        forall|r: Result<u32, DiceError>| #[trigger]
            is_dice_outcome(s, r) ==> r is Ok && n <= r->Ok_0 <= n * m && (n == 0 ==> r->Ok_0
                == 0),
{
}

/// For every count `n` and every number of sides `m` of at least one whose
/// product fits, the notation `<n>d<m>` evaluates without error, and every
/// sum it can give lies between `n` and `n * m`; with no dice it is exactly 0.
pub proof fn lemma_dice_notation_in_range(n: u32, m: u32)
    requires
        m >= 1,
        n * m <= u32::MAX,
    ensures
        dice_terms(decimal_of(n as nat) + seq!['d'] + decimal_of(m as nat)) == Some((n, m)),
        dice_error(decimal_of(n as nat) + seq!['d'] + decimal_of(m as nat)) is None,
        forall|v: u32|
            possible_sum(decimal_of(n as nat) + seq!['d'] + decimal_of(m as nat), v) ==> n <= v
                <= n * m && (n == 0 ==> v == 0),
{
    let a = decimal_of(n as nat);
    let b = decimal_of(m as nat);
    let s = a + seq!['d'] + b;
    lemma_decimal_reads_back(n as nat);
    lemma_decimal_reads_back(m as nat);
    lemma_digits_of_decimal(n);
    lemma_digits_of_decimal(m);
    let p = a.len() as int;
    assert forall|j: int| 0 <= j < s.len() && j != p implies s[j] != 'd' by {
        if j < p {
            assert(s[j] == a[j]);
            assert(is_digit(a[j]));
        } else {
            assert(s[j] == b[j - p - 1]);
            assert(is_digit(b[j - p - 1]));
        }
    }
    assert(is_sole_d(s, p));
    let i = choose|i: int| is_sole_d(s, i);
    if i != p {
        assert(s[p] == 'd');
    }
    assert(s.subrange(0, p) =~= a);
    assert(s.subrange(p + 1, s.len() as int) =~= b);
}

/// Text with no `d`, with more than one `d`, or with a single `d` that has
/// nothing on one side or some character other than a decimal digit (a sign,
/// a space, a letter) anywhere else, is malformed dice notation. The empty
/// text is among them.
pub proof fn lemma_malformed_dice(s: Seq<char>)
    requires
        (forall|i: int| 0 <= i < s.len() ==> s[i] != 'd') || (exists|i: int, j: int|
            0 <= i < j < s.len() && s[i] == 'd' && s[j] == 'd') || (exists|i: int|
            is_sole_d(s, i) && (i == 0 || i == s.len() - 1 || exists|j: int|
                0 <= j < s.len() && j != i && !is_digit(#[trigger] s[j]))),
    ensures
        dice_error(s) == Some(DiceError::Malformed),
{
    if exists|i: int, j: int| 0 <= i < j < s.len() && s[i] == 'd' && s[j] == 'd' {
        let (i, j) = choose|i: int, j: int| 0 <= i < j < s.len() && s[i] == 'd' && s[j] == 'd';
        assert forall|k: int| !is_sole_d(s, k) by {
            if is_sole_d(s, k) {
                assert(k == i || k == j);
            }
        }
    } else if exists|i: int|
        is_sole_d(s, i) && (i == 0 || i == s.len() - 1 || exists|j: int|
            0 <= j < s.len() && j != i && !is_digit(#[trigger] s[j])) {
        let i = choose|i: int|
            is_sole_d(s, i) && (i == 0 || i == s.len() - 1 || exists|j: int|
                0 <= j < s.len() && j != i && !is_digit(#[trigger] s[j]));
        let k = choose|k: int| is_sole_d(s, k);
        if k != i {
            assert(s[i] == 'd');
        }
        let left = s.subrange(0, i);
        let right = s.subrange(i + 1, s.len() as int);
        if i != 0 && i != s.len() - 1 {
            let j = choose|j: int| 0 <= j < s.len() && j != i && !is_digit(#[trigger] s[j]);
            if j < i {
                assert(left[j] == s[j]);
                lemma_non_digit_not_digits(left, j);
            } else {
                assert(right[j - i - 1] == s[j]);
                lemma_non_digit_not_digits(right, j - i - 1);
            }
        }
    }
}

} // verus!
