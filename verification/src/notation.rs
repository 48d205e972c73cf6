use vstd::prelude::*;

verus! {

/// True of the characters that may appear in a digit run of the dice
/// notation: the ASCII digits `'0'` through `'9'`.
pub open spec fn is_digit(c: char) -> bool {
    '0' <= c && c <= '9'
}

/// Every character of the sequence is an ASCII digit.
pub open spec fn all_digits(s: Seq<char>) -> bool {
    forall|j: int| 0 <= j < s.len() ==> is_digit(#[trigger] s[j])
}

/// The numeric value of one digit character; zero for any other
/// character, so that `digits_value` is total.
pub open spec fn digit_val(c: char) -> nat {
    if is_digit(c) {
        (c as int - '0' as int) as nat
    } else {
        0
    }
}

/// The value of a decimal digit run, read left to right. The empty run
/// has value zero; leading zeros are allowed and do not change the value.
pub open spec fn digits_value(s: Seq<char>) -> nat
    decreases s.len(),
{
    if s.len() == 0 {
        0
    } else {
        10 * digits_value(s.drop_last()) + digit_val(s.last())
    }
}

/// The input splits at position `i` into the shape `<digits>d<digits>`:
/// a non-empty digit run, one lowercase `d`, and a non-empty digit run,
/// with nothing before or after.
pub open spec fn valid_split_at(s: Seq<char>, i: int) -> bool {
    &&& 1 <= i
    &&& i + 1 < s.len()
    &&& s[i] == 'd'
    &&& all_digits(s.subrange(0, i))
    &&& all_digits(s.subrange(i + 1, s.len() as int))
}

/// The input matches the dice notation exactly: anchored at both ends,
/// lowercase `d`, at least one digit on each side.
pub open spec fn is_dice_notation(s: Seq<char>) -> bool {
    exists|i: int| valid_split_at(s, i)
}

/// The position of the `d` of an input that matches the notation. By
/// `lemma_split_unique` there is exactly one such position.
pub open spec fn split_index(s: Seq<char>) -> int {
    choose|i: int| valid_split_at(s, i)
}

/// The digit run before the `d`: the candidate roll count.
pub open spec fn rolls_digits(s: Seq<char>) -> Seq<char> {
    s.subrange(0, split_index(s))
}

/// The digit run after the `d`: the candidate side count.
pub open spec fn sides_digits(s: Seq<char>) -> Seq<char> {
    s.subrange(split_index(s) + 1, s.len() as int)
}

/// An input matching the notation splits at exactly one position: the
/// separator `d` is not a digit, so neither run can contain another one.
pub proof fn lemma_split_unique(s: Seq<char>, i: int, j: int)
    requires
        valid_split_at(s, i),
        valid_split_at(s, j),
    ensures
        i == j,
{
    if i < j {
        assert(s.subrange(0, j)[i] == s[i]);
    } else if j < i {
        assert(s.subrange(0, i)[j] == s[j]);
    }
}

/// If the characters before `i` are all digits and the one at `i` (when
/// there is one) is not, then a valid split can only sit at `i` itself.
pub proof fn lemma_split_at_first_non_digit(s: Seq<char>, i: int, j: int)
    requires
        0 <= i <= s.len(),
        forall|k: int| 0 <= k < i ==> is_digit(#[trigger] s[k]),
        i < s.len() ==> !is_digit(s[i]),
        valid_split_at(s, j),
    ensures
        j == i,
{
    if j < i {
        assert(is_digit(s[j]));
    } else if j > i {
        assert(s.subrange(0, j)[i] == s[i]);
        assert(is_digit(s[i]));
    }
}

/// The value of a digit run never falls when the run is extended to the
/// right: each further digit multiplies the value by ten before adding.
pub proof fn lemma_digits_value_prefix(s: Seq<char>, k: int)
    requires
        0 <= k <= s.len(),
    ensures
        digits_value(s.subrange(0, k)) <= digits_value(s),
    decreases s.len() - k,
{
    if k == s.len() {
        assert(s.subrange(0, k) =~= s);
    } else {
        assert(s.subrange(0, k + 1).drop_last() =~= s.subrange(0, k));
        assert(digits_value(s.subrange(0, k)) <= digits_value(s.subrange(0, k + 1)));
        lemma_digits_value_prefix(s, k + 1);
    }
}

/// Reads the digit run of `s` between `from` and `to` as a decimal
/// number. Returns `None` exactly when the value does not fit in a
/// `usize`.
pub fn parse_digits(s: &str, from: usize, to: usize) -> (r: Option<usize>)
    requires
        from <= to <= s@.len(),
        all_digits(s@.subrange(from as int, to as int)),
    ensures
        match r {
            Some(v) => v == digits_value(s@.subrange(from as int, to as int)),
            None => digits_value(s@.subrange(from as int, to as int)) > usize::MAX,
        },
{
    let ghost full = s@.subrange(from as int, to as int);
    let mut acc: usize = 0;
    let mut k: usize = from;
    while k < to
        invariant
            from <= k <= to <= s@.len(),
            all_digits(full),
            full == s@.subrange(from as int, to as int),
            acc == digits_value(s@.subrange(from as int, k as int)),
        decreases to - k,
    {
        let c = s.get_char(k);
        proof {
            assert(full[k - from] == s@[k as int]);
            vstd::arithmetic::div_mod::lemma_fundamental_div_mod(usize::MAX as int, 10);
            vstd::arithmetic::div_mod::lemma_mod_bound(usize::MAX as int, 10);
        }
        let d = ((c as u32) - 48) as usize;
        if acc > usize::MAX / 10 || (acc == usize::MAX / 10 && d > usize::MAX % 10) {
            proof {
                let ghost ext = s@.subrange(from as int, k + 1);
                assert(ext.drop_last() =~= s@.subrange(from as int, k as int));
                assert(ext.last() == s@[k as int]);
                assert(digits_value(ext) == 10 * acc + digit_val(s@[k as int]));
                assert(digits_value(ext) > usize::MAX);
                assert(ext =~= full.subrange(0, k + 1 - from));
                lemma_digits_value_prefix(full, k + 1 - from);
            }
            return None;
        }
        acc = acc * 10 + d;
        k = k + 1;
        proof {
            assert(s@.subrange(from as int, k as int).drop_last() =~= s@.subrange(
                from as int,
                k - 1,
            ));
            assert(s@.subrange(from as int, k as int).last() == s@[k - 1]);
        }
    }
    proof {
        assert(s@.subrange(from as int, k as int) =~= full);
    }
    Some(acc)
}

} // verus!
