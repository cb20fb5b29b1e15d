//! String tunings and the choice of which string a note plucks.

use vstd::prelude::*;

verus! {

/// How far apart two frequencies are.
pub open spec fn distance(a: u64, b: u64) -> int {
    if a >= b { a - b } else { b - a }
}

/// `i` names the first string whose tuning is nearest to `target`: no
/// string is nearer, and every string before it is strictly farther.
pub open spec fn is_closest(tuning: Seq<u64>, target: u64, i: int) -> bool {
    &&& 0 <= i < tuning.len()
    &&& forall|j: int| 0 <= j < tuning.len()
        ==> distance(tuning[i], target) <= #[trigger] distance(tuning[j], target)
    &&& forall|j: int| 0 <= j < i
        ==> distance(tuning[i], target) < #[trigger] distance(tuning[j], target)
}

/// Every tuning is strictly higher than the one before it.
pub open spec fn ascending(tuning: Seq<u64>) -> bool {
    forall|i: int, j: int| 0 <= i < j < tuning.len() ==> tuning[i] < tuning[j]
}

/// There is only one first-nearest string for a target.
pub proof fn lemma_closest_unique(tuning: Seq<u64>, target: u64, i: int, k: int)
    requires
        is_closest(tuning, target, i),
        is_closest(tuning, target, k),
    ensures
        i == k,
{
    if i < k {
        assert(distance(tuning[k], target) < distance(tuning[i], target));
        assert(distance(tuning[i], target) <= distance(tuning[k], target));
    } else if k < i {
        assert(distance(tuning[i], target) < distance(tuning[k], target));
        assert(distance(tuning[k], target) <= distance(tuning[i], target));
    }
}

/// Tie law: when two strings lie equally near the target, the lower one
/// is plucked, so the higher of the two never is.
pub proof fn lemma_tie_goes_to_lower_string(tuning: Seq<u64>, target: u64, i: int, j: int, k: int)
    requires
        0 <= i < j < tuning.len(),
        (if tuning[i] >= target { tuning[i] - target } else { target - tuning[i] })
            == (if tuning[j] >= target { tuning[j] - target } else { target - tuning[j] }),
        is_closest(tuning, target, k),
    ensures
        k != j,
{
    if k == j {
        assert(distance(tuning[j], target) < distance(tuning[i], target));
    }
}

/// Lower notes pluck lower strings: on an ascending tuning, a lower (or
/// equal) target never lands on a higher string than a higher target does.
pub proof fn lemma_closest_monotone(tuning: Seq<u64>, t1: u64, t2: u64, i1: int, i2: int)
    requires
        ascending(tuning),
        t1 <= t2,
        is_closest(tuning, t1, i1),
        is_closest(tuning, t2, i2),
    ensures
        i1 <= i2,
{
    if i2 < i1 {
        let a = tuning[i2];
        let b = tuning[i1];
        assert(a < b);
        assert(distance(b, t1) < distance(a, t1));
        assert(distance(a, t2) <= distance(b, t2));
    }
}

/// A target equal to a string's own tuning plucks that string, when the
/// tuning is ascending.
pub proof fn lemma_exact_pitch_plucks_own_string(tuning: Seq<u64>, i: int)
    requires
        ascending(tuning),
        0 <= i < tuning.len(),
    ensures
        is_closest(tuning, tuning[i], i),
{
    assert forall|j: int| 0 <= j < tuning.len() implies
        distance(tuning[i], tuning[i]) <= #[trigger] distance(tuning[j], tuning[i]) by {}
    assert forall|j: int| 0 <= j < i implies
        distance(tuning[i], tuning[i]) < #[trigger] distance(tuning[j], tuning[i]) by {
        assert(tuning[j] < tuning[i]);
    }
}

/// The index of the string whose tuning lies nearest to `target`, the lowest
/// such index on a tie; 0 for an empty tuning.
pub fn closest_string(tuning: &[u64], target: u64) -> (i: usize)
    ensures
        tuning@.len() == 0 ==> i == 0,
        tuning@.len() > 0 ==> is_closest(tuning@, target, i as int),
        tuning@.len() > 0 ==> i < tuning@.len(),
        forall|j: int| #![trigger tuning@[j]] 0 <= j < tuning@.len() ==> {
            let di = if tuning@[i as int] >= target { tuning@[i as int] - target } else { target - tuning@[i as int] };
            let dj = if tuning@[j] >= target { tuning@[j] - target } else { target - tuning@[j] };
            &&& di <= dj
            &&& (j < i ==> di < dj)
        },
{
    let n = tuning.len();
    if n == 0 {
        return 0;
    }
    let mut best: usize = 0;
    let mut best_diff: u64 = if tuning[0] >= target { tuning[0] - target } else { target - tuning[0] };
    let mut k: usize = 1;
    while k < n
        invariant
            n == tuning@.len(),
            1 <= k <= n,
            best < k,
            best_diff == distance(tuning@[best as int], target),
            forall|j: int| 0 <= j < k ==> best_diff <= #[trigger] distance(tuning@[j], target),
            forall|j: int| 0 <= j < best ==> best_diff < #[trigger] distance(tuning@[j], target),
        decreases n - k,
    {
        let t = tuning[k];
        let diff = if t >= target { t - target } else { target - t };
        if diff < best_diff {
            best_diff = diff;
            best = k;
        }
        k += 1;
    }
    assert forall|j: int| #![trigger tuning@[j]] 0 <= j < n implies {
        let di = if tuning@[best as int] >= target { tuning@[best as int] - target } else { target - tuning@[best as int] };
        let dj = if tuning@[j] >= target { tuning@[j] - target } else { target - tuning@[j] };
        &&& di <= dj
        &&& (j < best ==> di < dj)
    } by {
        assert(distance(tuning@[j], target) >= distance(tuning@[best as int], target));
        if j < best {
            assert(distance(tuning@[j], target) > distance(tuning@[best as int], target));
        }
    }
    best
}

/// The kora's 21 strings, lowest first, in millihertz (Silaba tuning on F).
pub fn kora_tuning() -> (t: Vec<u64>)
    ensures
        t@ == seq![
            87310u64, 98000, 110000, 116540, 130810, 146830, 164810, 174610, 196000,
            220000, 233080, 261630, 293660, 329630, 349230, 392000, 440000, 466160,
            523250, 587330, 659250,
        ],
        t@.len() == 21,
        ascending(t@),
{
    let t: Vec<u64> = vec![
        87310, 98000, 110000, 116540, 130810, 146830, 164810, 174610, 196000,
        220000, 233080, 261630, 293660, 329630, 349230, 392000, 440000, 466160,
        523250, 587330, 659250,
    ];
    t
}

} // verus!
