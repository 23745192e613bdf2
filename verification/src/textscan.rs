//! Scanner for the `<label><digits>` fragments of a parse-error message,
//! such as `at line 5 column 10`: the number standing right after the first
//! occurrence of a label, read as the longest run of decimal digits there.

use vstd::prelude::*;

verus! {

pub open spec fn is_digit(c: char) -> bool {
    0x30 <= c as u32 <= 0x39
}

/// The value of the digit run `s[i..j]`, read as a decimal number.
pub open spec fn digits_value(s: Seq<char>, i: int, j: int) -> int
    decreases j - i,
{
    if j <= i {
        0
    } else {
        digits_value(s, i, j - 1) * 10 + (s[j - 1] as u32 - 0x30)
    }
}

/// Where the run of digits beginning at `i` ends.
pub open spec fn digit_run_end(s: Seq<char>, i: int) -> int
    decreases s.len() - i,
{
    if i < 0 || i >= s.len() || !is_digit(s[i]) {
        i
    } else {
        digit_run_end(s, i + 1)
    }
}

/// `lab` stands at position `i` of `s` with a digit right after it.
pub open spec fn match_at(s: Seq<char>, lab: Seq<char>, i: int) -> bool {
    0 <= i && i + lab.len() < s.len() && s.subrange(i, i + lab.len()) == lab && is_digit(
        s[i + lab.len()],
    )
}

/// The first position at or after `i` where `lab` is followed by a digit.
pub open spec fn first_match_from(s: Seq<char>, lab: Seq<char>, i: int) -> Option<int>
    decreases s.len() - i,
{
    if i < 0 || i + lab.len() >= s.len() {
        None
    } else if match_at(s, lab, i) {
        Some(i)
    } else {
        first_match_from(s, lab, i + 1)
    }
}

/// The number written right after the first occurrence of `lab` in `s`,
/// if `lab` occurs there followed by at least one digit.
pub open spec fn extracted_number(s: Seq<char>, lab: Seq<char>) -> Option<int> {
    match first_match_from(s, lab, 0) {
        None => None,
        Some(i) => Some(digits_value(s, i + lab.len(), digit_run_end(s, i + lab.len()))),
    }
}

proof fn lemma_run_end_props(s: Seq<char>, i: int)
    requires
        0 <= i <= s.len(),
    ensures
        i <= digit_run_end(s, i) <= s.len(),
        forall|k: int| i <= k < digit_run_end(s, i) ==> is_digit(s[k]),
    decreases s.len() - i,
{
    if i < s.len() && is_digit(s[i]) {
        lemma_run_end_props(s, i + 1);
    }
}

proof fn lemma_digits_value_nonneg(s: Seq<char>, i: int, j: int)
    requires
        forall|k: int| i <= k < j ==> is_digit(s[k]),
    ensures
        digits_value(s, i, j) >= 0,
    decreases j - i,
{
    if j > i {
        lemma_digits_value_nonneg(s, i, j - 1);
    }
}

/// A longer run of digits never reads as a smaller number.
proof fn lemma_digits_value_grows(s: Seq<char>, i: int, j1: int, j2: int)
    requires
        i <= j1 <= j2,
        forall|k: int| i <= k < j2 ==> is_digit(s[k]),
    ensures
        digits_value(s, i, j2) >= digits_value(s, i, j1),
    decreases j2 - j1,
{
    if j2 > j1 {
        lemma_digits_value_grows(s, i, j1, j2 - 1);
        lemma_digits_value_nonneg(s, i, j2 - 1);
    }
}

fn is_digit_char(c: char) -> (b: bool)
    ensures
        b == is_digit(c),
{
    let u = c as u32;
    0x30 <= u && u <= 0x39
}

/// Reads the digit run of `s` that begins at `start` (which must hold a
/// digit): its value where it fits in a `usize`, `None` where it does not,
/// as a fallible decimal parse reports it.
fn read_number(s: &str, start: usize) -> (r: Option<usize>)
    requires
        start < s@.len(),
        is_digit(s@[start as int]),
    ensures
        ({
            let v = digits_value(s@, start as int, digit_run_end(s@, start as int));
            if v <= usize::MAX {
                r == Some(v as usize)
            } else {
                r is None
            }
        }),
{
    let n = s.unicode_len();
    let mut j: usize = start;
    let mut acc: usize = 0;
    proof {
        lemma_run_end_props(s@, start as int);
    }
    while j < n && is_digit_char(s.get_char(j))
        invariant
            start <= j <= n,
            n == s@.len(),
            forall|k: int| start <= k < j ==> is_digit(s@[k]),
            acc == digits_value(s@, start as int, j as int),
            digit_run_end(s@, start as int) == digit_run_end(s@, j as int),
        decreases n - j,
    {
        let c = s.get_char(j);
        let d = ((c as u32) - 0x30) as usize;
        let stepped = match acc.checked_mul(10) {
            Some(t) => t.checked_add(d),
            None => None,
        };
        match stepped {
            Some(v) => {
                acc = v;
            },
            None => {
                proof {
                    lemma_run_end_props(s@, j as int + 1);
                    let e = digit_run_end(s@, start as int);
                    assert(digit_run_end(s@, j as int) == digit_run_end(s@, j as int + 1));
                    assert forall|k: int| start <= k < e implies is_digit(s@[k]) by {
                        if k <= j {
                            assert(is_digit(s@[k]));
                        }
                    }
                    assert(digits_value(s@, start as int, j as int + 1) > usize::MAX);
                    lemma_digits_value_grows(s@, start as int, j as int + 1, e);
                }
                return None;
            },
        }
        j += 1;
    }
    proof {
        assert(digit_run_end(s@, j as int) == j as int);
    }
    Some(acc)
}

/// The number standing right after the first occurrence of `label` in `s`,
/// where one stands and fits in a `usize`; the longest digit run after the
/// label is taken, exactly as `extracted_number` says.
pub fn find_number_after(s: &str, label: &str) -> (r: Option<usize>)
    ensures
        match extracted_number(s@, label@) {
            None => r is None,
            Some(v) => if v <= usize::MAX {
                r == Some(v as usize)
            } else {
                r is None
            },
        },
{
    let n = s.unicode_len();
    let m = label.unicode_len();
    if m >= n {
        return None;
    }
    let mut i: usize = 0;
    while i < n - m
        invariant
            0 <= i <= n - m,
            m < n,
            n == s@.len(),
            m == label@.len(),
            first_match_from(s@, label@, 0) == first_match_from(s@, label@, i as int),
        decreases n - m - i,
    {
        let mut k: usize = 0;
        let mut same = true;
        while k < m && same
            invariant
                0 <= k <= m,
                m < n,
                i < n - m,
                n == s@.len(),
                m == label@.len(),
                same ==> forall|j: int| 0 <= j < k ==> s@[i + j] == label@[j],
                !same ==> exists|j: int| 0 <= j < m && s@[i + j] != label@[j],
            decreases m - k + (if same {
                1int
            } else {
                0int
            }),
        {
            if s.get_char(i + k) != label.get_char(k) {
                same = false;
            } else {
                k += 1;
            }
        }
        if same {
            let c = s.get_char(i + m);
            if is_digit_char(c) {
                proof {
                    assert(s@.subrange(i as int, i as int + m) =~= label@);
                    assert(match_at(s@, label@, i as int));
                }
                return read_number(s, i + m);
            }
        }
        proof {
            assert(!match_at(s@, label@, i as int)) by {
                if match_at(s@, label@, i as int) {
                    assert(forall|j: int|
                        0 <= j < m ==> s@.subrange(i as int, i as int + m)[j] == label@[j]);
                    assert(forall|j: int| 0 <= j < m ==> s@[i + j] == label@[j]);
                    assert(is_digit(s@[i + m]));
                }
            }
        }
        i += 1;
    }
    proof {
        assert(first_match_from(s@, label@, i as int) is None);
    }
    None
}

} // verus!
