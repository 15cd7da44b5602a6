//! The integer rules of the vector-based disambiguator: which neighbours of
//! a token form its context, and which of its candidate senses receive the
//! prior for the first sense. The scores themselves are floating point and
//! are computed by the caller.
use vstd::prelude::*;
use vstd::string::*;
use crate::text::{i32_text_value, parse_i32};

verus! {

// ---------------------------------------------------------------------------
// Context window
// ---------------------------------------------------------------------------

/// The first and last position of the context of token `i` in a sentence of
/// `len` tokens, `width` tokens to each side, clipped at the sentence end.
pub fn context_window(i: usize, len: usize, width: usize) -> (r: (usize, usize))
    requires
        i < len,
        width <= i,
        i + width <= usize::MAX,
    ensures
        r.0 == i - width,
        r.1 == (if i + width < len - 1 {
            i + width
        } else {
            len - 1
        }),
        r.0 <= i <= r.1 < len,
{
    let start = i - width;
    let last = len - 1;
    let reach = i + width;
    let end = if reach < last {
        reach
    } else {
        last
    };
    (start, end)
}

/// The positions of the context of token `i`, in order: those of its
/// window other than `i` itself.
pub fn context_positions(i: usize, len: usize, width: usize) -> (r: Vec<usize>)
    requires
        i < len,
        width <= i,
        i + width <= usize::MAX,
    ensures
        ({
            let start = i - width;
            let end = if i + width < len - 1 {
                i + width
            } else {
                len - 1
            };
            &&& r.len() == end - start
            &&& forall|j: int|
                0 <= j < r.len() ==> #[trigger] r[j] == (if start + j < i {
                    start + j
                } else {
                    start + j + 1
                })
        }),
{
    let (start, end) = context_window(i, len, width);
    let mut r: Vec<usize> = Vec::new();
    let mut k = start;
    while k <= end
        invariant
            start <= k <= end + 1,
            start <= i <= end < len,
            r.len() == (if k <= i {
                k - start
            } else {
                k - start - 1
            }),
            forall|j: int|
                0 <= j < r.len() ==> #[trigger] r[j] == (if start + j < i {
                    start + j
                } else {
                    start + j + 1
                }),
        decreases end + 1 - k,
    {
        if k != i {
            r.push(k);
        }
        k = k + 1;
    }
    r
}

/// The weight numerator of a context position `k` of token `i` when
/// weights decay with distance: `width - |k - i| + 1`.
pub fn decay_numerator(width: usize, i: usize, k: usize) -> (r: usize)
    requires
        k != i,
        (if k < i {
            i - k
        } else {
            k - i
        }) <= width,
    ensures
        r == width - (if k < i {
            i - k
        } else {
            k - i
        }) + 1,
{
    let distance = if k < i {
        i - k
    } else {
        k - i
    };
    width - distance + 1
}

/// Whether the senses of a token are scored: the token has at least two
/// senses and at least one of them has a vector.
pub fn senses_are_scored(has_vector: &Vec<bool>) -> (r: bool)
    ensures
        r == (has_vector.len() >= 2 && exists|i: int| 0 <= i < has_vector.len() && #[trigger] has_vector[i]),
{
    if has_vector.len() < 2 {
        return false;
    }
    let mut i: usize = 0;
    while i < has_vector.len()
        invariant
            i <= has_vector.len(),
            has_vector.len() >= 2,
            forall|j: int| 0 <= j < i ==> !#[trigger] has_vector[j],
        decreases has_vector.len() - i,
    {
        if has_vector[i] {
            return true;
        }
        i = i + 1;
    }
    false
}

// ---------------------------------------------------------------------------
// Sense numbers
// ---------------------------------------------------------------------------

/// Where the last `".."` in `s` starts, as `str::rfind("..")` finds it.
pub open spec fn last_dotdot(s: Seq<char>) -> Option<int>
    decreases s.len(),
{
    if s.len() < 2 {
        None
    } else if s[s.len() - 2] == '.' && s[s.len() - 1] == '.' {
        Some(s.len() - 2)
    } else {
        last_dotdot(s.drop_last())
    }
}

/// The number of a sense identifier such as `"bank..2"`: the integer after
/// its last `".."`.
pub open spec fn sense_number(s: Seq<char>) -> Option<int> {
    match last_dotdot(s) {
        Some(ix) => i32_text_value(s.skip(ix + 2)),
        None => None,
    }
}

proof fn lemma_last_dotdot_range(s: Seq<char>)
    ensures
        last_dotdot(s) matches Some(ix) ==> 0 <= ix && ix + 2 <= s.len(),
    decreases s.len(),
{
    if s.len() >= 2 && !(s[s.len() - 2] == '.' && s[s.len() - 1] == '.') {
        lemma_last_dotdot_range(s.drop_last());
    }
}

fn find_last_dotdot(s: &str) -> (r: Option<usize>)
    ensures
        r matches Some(ix) ==> last_dotdot(s@) == Some(ix as int),
        r is None ==> last_dotdot(s@) is None,
{
    let n = s.unicode_len();
    let mut j = n;
    assert(s@.take(n as int) =~= s@);
    while j >= 2
        invariant
            j <= n,
            n == s@.len(),
            last_dotdot(s@) == last_dotdot(s@.take(j as int)),
        decreases j,
    {
        let t = Ghost(s@.take(j as int));
        if s.get_char(j - 2) == '.' && s.get_char(j - 1) == '.' {
            assert(t@[t@.len() - 2] == s@[j - 2]);
            return Some(j - 2);
        }
        assert(t@.drop_last() =~= s@.take(j - 1));
        j = j - 1;
    }
    None
}

/// The number of a sense identifier, `None` when it has no `".."` or when
/// what follows the last one is not an `i32`.
pub fn sense_number_of(s: &str) -> (r: Option<i32>)
    ensures
        r is Some <==> sense_number(s@) is Some,
        r matches Some(v) ==> sense_number(s@) == Some(v as int),
{
    match find_last_dotdot(s) {
        None => None,
        Some(ix) => {
            proof {
                lemma_last_dotdot_range(s@);
            }
            let n = s.unicode_len();
            let tail = s.substring_char(ix + 2, n);
            assert(tail@ =~= s@.skip(ix + 2));
            parse_i32(tail)
        },
    }
}

// ---------------------------------------------------------------------------
// The first-sense prior
// ---------------------------------------------------------------------------

/// The identifiers as character sequences.
pub open spec fn texts(v: Seq<String>) -> Seq<Seq<char>> {
    v.map_values(|s: String| s@)
}

/// The number of sense `i` (meaningful where it has one).
pub open spec fn number_at(senses: Seq<Seq<char>>, i: int) -> int {
    match sense_number(senses[i]) {
        Some(v) => v,
        None => 0,
    }
}

/// The smallest sense number among the first `n` senses that have a vector,
/// starting from `i32::MAX`.
pub open spec fn min_number(senses: Seq<Seq<char>>, has_vector: Seq<bool>, n: nat) -> int
    decreases n,
{
    if n == 0 {
        i32::MAX as int
    } else {
        let m = min_number(senses, has_vector, (n - 1) as nat);
        if has_vector[n - 1] && number_at(senses, n - 1) < m {
            number_at(senses, n - 1)
        } else {
            m
        }
    }
}

/// The senses that receive the first-sense prior: those with a vector whose
/// number is the smallest among the senses with a vector.
pub fn s1prior_targets(senses: &Vec<String>, has_vector: &Vec<bool>) -> (targets: Vec<bool>)
    requires
        senses.len() == has_vector.len(),
        forall|i: int|
            0 <= i < senses.len() && #[trigger] has_vector[i] ==> sense_number(senses[i]@) is Some,
    ensures
        targets.len() == senses.len(),
        forall|i: int|
            0 <= i < targets.len() ==> #[trigger] targets[i] == (has_vector[i] && number_at(
                texts(senses@),
                i,
            ) == min_number(texts(senses@), has_vector@, senses.len() as nat)),
{
    let n = senses.len();
    let ghost ts = texts(senses@);
    let mut min: i32 = i32::MAX;
    let mut i: usize = 0;
    while i < n
        invariant
            i <= n,
            n == senses.len(),
            n == has_vector.len(),
            ts == texts(senses@),
            forall|j: int|
                0 <= j < senses.len() && #[trigger] has_vector[j] ==> sense_number(senses[j]@) is Some,
            min as int == min_number(ts, has_vector@, i as nat),
        decreases n - i,
    {
        if has_vector[i] {
            let id = sense_number_of(senses[i].as_str());
            let id = match id {
                Some(v) => v,
                None => {
                    assert(false);
                    0
                },
            };
            assert(ts[i as int] == senses@[i as int]@);
            if id < min {
                min = id;
            }
        }
        i = i + 1;
    }
    let mut targets: Vec<bool> = Vec::new();
    let mut i: usize = 0;
    while i < n
        invariant
            i <= n,
            n == senses.len(),
            n == has_vector.len(),
            ts == texts(senses@),
            forall|j: int|
                0 <= j < senses.len() && #[trigger] has_vector[j] ==> sense_number(senses[j]@) is Some,
            min as int == min_number(ts, has_vector@, n as nat),
            targets.len() == i,
            forall|j: int|
                0 <= j < i ==> #[trigger] targets[j] == (has_vector[j] && number_at(ts, j)
                    == min as int),
        decreases n - i,
    {
        let mut hit = false;
        if has_vector[i] {
            let id = sense_number_of(senses[i].as_str());
            assert(ts[i as int] == senses@[i as int]@);
            match id {
                Some(v) => {
                    hit = v == min;
                },
                None => {},
            }
        }
        targets.push(hit);
        i = i + 1;
    }
    targets
}

/// The smallest number is at most the number of every sense with a vector,
/// and when some sense has a vector, some sense with a vector has it: the
/// prior goes to at least one sense, and to none whose number is larger
/// than another's.
pub proof fn lemma_min_number(senses: Seq<Seq<char>>, has_vector: Seq<bool>, n: nat)
    requires
        n <= senses.len(),
        n <= has_vector.len(),
    ensures
        forall|i: int|
            0 <= i < n && #[trigger] has_vector[i] ==> min_number(senses, has_vector, n) <= number_at(
                senses,
                i,
            ),
        (exists|i: int| 0 <= i < n && #[trigger] has_vector[i]) ==> exists|i: int|
            0 <= i < n && #[trigger] has_vector[i] && number_at(senses, i) == min_number(
                senses,
                has_vector,
                n,
            ),
    decreases n,
{
    if n > 0 {
        lemma_min_number(senses, has_vector, (n - 1) as nat);
        let m = min_number(senses, has_vector, (n - 1) as nat);
        if exists|i: int| 0 <= i < n && #[trigger] has_vector[i] {
            if !has_vector[n - 1] {
                let i = choose|i: int| 0 <= i < n && #[trigger] has_vector[i];
                assert(i < n - 1);
            } else if !(exists|i: int| 0 <= i < n - 1 && #[trigger] has_vector[i]) {
                assert(min_number(senses, has_vector, (n - 1) as nat) == i32::MAX) by {
                    lemma_min_without_vectors(senses, has_vector, (n - 1) as nat);
                }
            }
        }
    }
}

proof fn lemma_min_without_vectors(senses: Seq<Seq<char>>, has_vector: Seq<bool>, n: nat)
    requires
        forall|i: int| 0 <= i < n ==> !#[trigger] has_vector[i],
    ensures
        min_number(senses, has_vector, n) == i32::MAX,
    decreases n,
{
    if n > 0 {
        lemma_min_without_vectors(senses, has_vector, (n - 1) as nat);
    }
}

} // verus!
