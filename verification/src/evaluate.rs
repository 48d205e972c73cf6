use vstd::prelude::*;

use crate::error::{DiceField, EvaluationError};
use crate::notation::{
    all_digits, digit_val, digits_value, is_dice_notation, is_digit,
    lemma_split_at_first_non_digit, lemma_split_unique, parse_digits, rolls_digits, sides_digits,
    split_index, valid_split_at,
};
use crate::roll::{RollSpecification, MAX_ROLLS, MAX_SIDES};

verus! {

/// What the evaluator owes for a given input, before any randomness is
/// drawn: which error it reports, or with which validated counts it
/// rolls.
pub enum Outcome {
    Malformed,
    NonNumeric { field: DiceField },
    Zero,
    Limit,
    Valid { rolls: nat, sides: nat },
}

/// The decision the evaluator makes for an input, in the order the
/// checks are applied: pattern, roll-count range, side-count range, zero
/// fields, limits. The zero check precedes the limit check, so an input
/// with a zero field and an oversized one reports the zero.
pub open spec fn classify(s: Seq<char>) -> Outcome {
    if !is_dice_notation(s) {
        Outcome::Malformed
    } else {
        let ro = digits_value(rolls_digits(s));
        let si = digits_value(sides_digits(s));
        if ro > usize::MAX as nat {
            Outcome::NonNumeric { field: DiceField::Rolls }
        } else if si > usize::MAX as nat {
            Outcome::NonNumeric { field: DiceField::Sides }
        } else if ro == 0 || si == 0 {
            Outcome::Zero
        } else if ro > MAX_ROLLS as nat || si > MAX_SIDES as nat {
            Outcome::Limit
        } else {
            Outcome::Valid { rolls: ro, sides: si }
        }
    }
}

/// Everything `evaluate` promises of a result `r` for the input `s`:
/// each failure is pinned to one error value, and a success holds
/// exactly `rolls` values, each between 1 and `sides`.
pub open spec fn evaluate_obeys(s: Seq<char>, r: Result<Vec<usize>, EvaluationError>) -> bool {
    match classify(s) {
        Outcome::Malformed => r == Err::<Vec<usize>, EvaluationError>(
            EvaluationError::MalformedInput,
        ),
        Outcome::NonNumeric { field } => r == Err::<Vec<usize>, EvaluationError>(
            EvaluationError::NonNumericField(field),
        ),
        Outcome::Zero => r == Err::<Vec<usize>, EvaluationError>(EvaluationError::ZeroValue),
        Outcome::Limit => r == Err::<Vec<usize>, EvaluationError>(EvaluationError::LimitExceeded),
        Outcome::Valid { rolls, sides } => {
            &&& r is Ok
            &&& r->Ok_0@.len() == rolls
            &&& forall|k: int| 0 <= k < r->Ok_0@.len() ==> 1 <= #[trigger] r->Ok_0@[k] <= sides
        },
    }
}

/// The index of the first character at or after `from` that is not an
/// ASCII digit, or the length of the string when all of them are.
fn first_non_digit(s: &str, from: usize) -> (r: usize)
    requires
        from <= s@.len(),
    ensures
        from <= r <= s@.len(),
        forall|k: int| from <= k < r ==> is_digit(#[trigger] s@[k]),
        r < s@.len() ==> !is_digit(s@[r as int]),
{
    let n = s.unicode_len();
    let mut i: usize = from;
    while i < n
        invariant
            from <= i <= n == s@.len(),
            forall|k: int| from <= k < i ==> is_digit(#[trigger] s@[k]),
        decreases n - i,
    {
        let c = s.get_char(i);
        if !('0' <= c && c <= '9') {
            return i;
        }
        i = i + 1;
    }
    i
}

/// Evaluates one dice request. The input must match `<digits>d<digits>`
/// exactly; the roll count must be in `[1, MAX_ROLLS]` and the side
/// count in `[1, MAX_SIDES]`. A valid request yields one value per roll,
/// each in `[1, sides]`, in draw order; anything else yields the typed
/// error that `classify` assigns to the input.
pub fn evaluate(input: &str) -> (r: Result<Vec<usize>, EvaluationError>)
    ensures
        evaluate_obeys(input@, r),
{
    let ghost s = input@;
    let n = input.unicode_len();
    let i = first_non_digit(input, 0);
    if i == 0 || i >= n - 1 {
        proof {
            if is_dice_notation(s) {
                let m = choose|m: int| valid_split_at(s, m);
                lemma_split_at_first_non_digit(s, i as int, m);
            }
        }
        return Err(EvaluationError::MalformedInput);
    }
    let sep = input.get_char(i);
    if sep != 'd' {
        proof {
            if is_dice_notation(s) {
                let m = choose|m: int| valid_split_at(s, m);
                lemma_split_at_first_non_digit(s, i as int, m);
            }
        }
        return Err(EvaluationError::MalformedInput);
    }
    let j = first_non_digit(input, i + 1);
    if j < n {
        proof {
            if is_dice_notation(s) {
                let m = choose|m: int| valid_split_at(s, m);
                lemma_split_at_first_non_digit(s, i as int, m);
                assert(s.subrange(i + 1, n as int)[j - i - 1] == s[j as int]);
            }
        }
        return Err(EvaluationError::MalformedInput);
    }
    proof {
        assert forall|m: int| 0 <= m < i implies is_digit(#[trigger] s.subrange(0, i as int)[m]) by {
            assert(s.subrange(0, i as int)[m] == s[m]);
        }
        assert forall|m: int| 0 <= m < n - i - 1 implies is_digit(#[trigger] s.subrange(
            i + 1,
            n as int,
        )[m]) by {
            assert(s.subrange(i + 1, n as int)[m] == s[m + i + 1]);
        }
        assert(valid_split_at(s, i as int));
        lemma_split_unique(s, split_index(s), i as int);
        assert(rolls_digits(s) == s.subrange(0, i as int));
        assert(sides_digits(s) == s.subrange(i + 1, n as int));
    }
    let rolls_v = match parse_digits(input, 0, i) {
        Some(v) => v,
        None => {
            return Err(EvaluationError::NonNumericField(DiceField::Rolls));
        },
    };
    let sides_v = match parse_digits(input, i + 1, n) {
        Some(v) => v,
        None => {
            return Err(EvaluationError::NonNumericField(DiceField::Sides));
        },
    };
    match RollSpecification::new(rolls_v, sides_v) {
        Err(e) => Err(e),
        Ok(validated) => Ok(validated.roll()),
    }
}

/// Any two results the evaluator may return for the same input agree
/// whenever the input fails validation: every error path is
/// deterministic, even though the success path is randomized.
pub proof fn lemma_error_deterministic(
    s: Seq<char>,
    r1: Result<Vec<usize>, EvaluationError>,
    r2: Result<Vec<usize>, EvaluationError>,
)
    requires
        !(classify(s) is Valid),
        evaluate_obeys(s, r1),
        evaluate_obeys(s, r2),
    ensures
        r1 == r2,
{
}

/// A zero field is reported as `ZeroValue` even when the other field
/// also exceeds its limit: the zero check comes before the limit check.
pub proof fn lemma_zero_before_limit(s: Seq<char>, r: Result<Vec<usize>, EvaluationError>)
    requires
        is_dice_notation(s),
        digits_value(rolls_digits(s)) <= usize::MAX as nat,
        digits_value(sides_digits(s)) <= usize::MAX as nat,
        digits_value(rolls_digits(s)) == 0 || digits_value(sides_digits(s)) == 0,
        evaluate_obeys(s, r),
    ensures
        r == Err::<Vec<usize>, EvaluationError>(EvaluationError::ZeroValue),
{
}

/// An input that splits as `<digits>d<digits>` with the roll count in
/// `[1, MAX_ROLLS]` and the side count in `[1, MAX_SIDES]` always
/// succeeds, with exactly one value per roll, each between 1 and the
/// side count.
pub proof fn lemma_valid_request_succeeds(
    s: Seq<char>,
    i: int,
    r: Result<Vec<usize>, EvaluationError>,
)
    requires
        valid_split_at(s, i),
        1 <= digits_value(s.subrange(0, i)) <= MAX_ROLLS as nat,
        1 <= digits_value(s.subrange(i + 1, s.len() as int)) <= MAX_SIDES as nat,
        evaluate_obeys(s, r),
    ensures
        r is Ok,
        r->Ok_0@.len() == digits_value(s.subrange(0, i)),
        forall|k: int| 0 <= k < r->Ok_0@.len() ==> 1 <= #[trigger] r->Ok_0@[k] <= digits_value(
            s.subrange(i + 1, s.len() as int),
        ),
{
    lemma_split_unique(s, split_index(s), i);
}

/// The request `"1d1"` always evaluates to exactly one roll of value 1.
pub proof fn lemma_one_d_one(s: Seq<char>, r: Result<Vec<usize>, EvaluationError>)
    requires
        s == "1d1"@,
        evaluate_obeys(s, r),
    ensures
        r is Ok,
        r->Ok_0@ == seq![1usize],
{
    reveal_strlit("1d1");
    assert(s.subrange(0, 1) =~= seq!['1']);
    assert(s.subrange(2, 3) =~= seq!['1']);
    assert(all_digits(seq!['1'])) by {
        assert(seq!['1'][0] == '1');
    }
    assert(valid_split_at(s, 1));
    lemma_split_unique(s, split_index(s), 1);
    assert(seq!['1'].drop_last() =~= Seq::<char>::empty());
    assert(digits_value(Seq::<char>::empty()) == 0);
    assert(seq!['1'].last() == '1');
    assert(digit_val('1') == 1);
    assert(digits_value(seq!['1']) == 10 * digits_value(seq!['1'].drop_last()) + digit_val(
        seq!['1'].last(),
    ));
    assert(digits_value(seq!['1']) == 1);
    lemma_valid_request_succeeds(s, 1, r);
    assert(1 <= r->Ok_0@[0] <= 1);
    assert(r->Ok_0@ =~= seq![1usize]);
}

} // verus!
