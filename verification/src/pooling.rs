//! Pooling strategy selection and the rule that picks which predictor rows
//! enter the pooled aggregate.
//!
//! Pooling reduces the per-point predictor matrix into one summary vector
//! with a configurable strategy. A point whose local frame estimation failed
//! carries a not-a-number sentinel in its predictor row; such rows are
//! excluded from the aggregate deliberately rather than left to propagate.
//! The floating-point aggregation itself runs outside the verified library;
//! this module fixes which strategy a name selects and exactly which rows
//! the aggregate may read.

use vstd::prelude::*;
use vstd::string::StrSliceExecFns;
use crate::ieee;

verus! {

/// The aggregation strategies the pooling stage offers.
#[derive(Clone, Copy, Debug, PartialEq, Eq, Structural)]
pub enum PoolingTechnique {
    MeanPooling,
    MaxPooling,
    MinPooling,
    MedianPooling,
}

/// Character-by-character string equality.
fn str_eq(a: &str, b: &str) -> (r: bool)
    ensures
        r == (a@ == b@),
{
    let len_a = a.unicode_len();
    let len_b = b.unicode_len();
    if len_a != len_b {
        return false;
    }
    let mut i: usize = 0;
    while i < len_a
        invariant
            i <= len_a,
            len_a == a@.len(),
            len_a == b@.len(),
            forall|j: int| 0 <= j < i ==> a@[j] == b@[j],
        decreases len_a - i,
    {
        if a.get_char(i) != b.get_char(i) {
            return false;
        }
        i = i + 1;
    }
    proof {
        assert(a@ =~= b@);
    }
    true
}

impl PoolingTechnique {
    /// The strategy each configuration name selects; unknown names select
    /// nothing.
    pub open spec fn of_name(name: Seq<char>) -> Option<PoolingTechnique> {
        if name == "mean_pooling"@ {
            Some(PoolingTechnique::MeanPooling)
        } else if name == "max_pooling"@ {
            Some(PoolingTechnique::MaxPooling)
        } else if name == "min_pooling"@ {
            Some(PoolingTechnique::MinPooling)
        } else if name == "median_pooling"@ {
            Some(PoolingTechnique::MedianPooling)
        } else {
            None
        }
    }

    /// Parses a strategy name.
    pub fn from_str(pooling: &str) -> (technique: Option<Self>)
        ensures
            technique == Self::of_name(pooling@),
    {
        proof {
            reveal_strlit("mean_pooling");
            reveal_strlit("max_pooling");
            reveal_strlit("min_pooling");
            reveal_strlit("median_pooling");
        }
        if str_eq(pooling, "mean_pooling") {
            Some(PoolingTechnique::MeanPooling)
        } else if str_eq(pooling, "max_pooling") {
            Some(PoolingTechnique::MaxPooling)
        } else if str_eq(pooling, "min_pooling") {
            Some(PoolingTechnique::MinPooling)
        } else if str_eq(pooling, "median_pooling") {
            Some(PoolingTechnique::MedianPooling)
        } else {
            None
        }
    }
}

/// A pooling stage configured with one aggregation strategy.
pub struct Pool {
    technique: PoolingTechnique,
}

impl Pool {
    /// The strategy this pool was configured with.
    pub closed spec fn spec_technique(self) -> PoolingTechnique {
        self.technique
    }

    /// Configures a pool from a strategy name; unknown names configure
    /// nothing.
    pub fn new(pooling: &str) -> (pool: Option<Self>)
        ensures
            match pool {
                Some(p) => PoolingTechnique::of_name(pooling@) == Some(p.spec_technique()),
                None => PoolingTechnique::of_name(pooling@) is None,
            },
    {
        match PoolingTechnique::from_str(pooling) {
            Some(technique) => Some(Pool { technique }),
            None => None,
        }
    }

    /// Reads back the configured strategy.
    pub fn technique(&self) -> (t: PoolingTechnique)
        ensures
            t == self.spec_technique(),
    {
        self.technique
    }
}

/// A predictor row enters the pooled aggregate only when none of its encoded
/// entries is a not-a-number sentinel.
pub open spec fn row_is_clean(row: Seq<u64>) -> bool {
    forall|j: int| 0 <= j < row.len() ==> !ieee::is_nan_bits(row[j])
}

/// Whether one encoded predictor row is free of not-a-number sentinels.
pub fn row_clean(row: &Vec<u64>) -> (r: bool)
    ensures
        r == row_is_clean(row@),
{
    let mut j: usize = 0;
    while j < row.len()
        invariant
            j <= row@.len(),
            forall|k: int| 0 <= k < j ==> !ieee::is_nan_bits(row@[k]),
        decreases row@.len() - j,
    {
        if ieee::is_nan(row[j]) {
            return false;
        }
        j = j + 1;
    }
    true
}

/// What `valid_rows` promises of its selection: strictly increasing row
/// indices, all of them clean rows, and every clean row among them.
pub open spec fn row_selection_post(rows: Seq<Vec<u64>>, idx: Seq<usize>) -> bool {
    &&& forall|a: int, b: int| 0 <= a < b < idx.len() ==> idx[a] < idx[b]
    &&& forall|a: int|
        0 <= a < idx.len() ==> idx[a] < rows.len() && row_is_clean(rows[idx[a] as int]@)
    &&& forall|i: int| 0 <= i < rows.len() && row_is_clean(rows[i]@) ==> idx.contains(i as usize)
}

/// A strictly increasing index sequence is pinned by the set of its
/// elements.
proof fn lemma_increasing_set_unique(a: Seq<usize>, b: Seq<usize>)
    requires
        forall|i: int, j: int| 0 <= i < j < a.len() ==> a[i] < a[j],
        forall|i: int, j: int| 0 <= i < j < b.len() ==> b[i] < b[j],
        forall|v: usize| a.contains(v) <==> b.contains(v),
    ensures
        a == b,
    decreases a.len(),
{
    if a.len() == 0 {
        if b.len() > 0 {
            assert(b.contains(b[0]));
            assert(a.contains(b[0]));
        }
        assert(a =~= b);
    } else {
        assert(a.contains(a[0]));
        assert(b.contains(a[0]));
        assert(b.len() > 0);
        assert(b.contains(b[0]));
        assert(a.contains(b[0]));
        if a[0] != b[0] {
            let m = choose|m: int| 0 <= m < b.len() && b[m] == a[0];
            let k = choose|k: int| 0 <= k < a.len() && a[k] == b[0];
            assert(m != 0 && k != 0);
            assert(b[0] < b[m]);
            assert(a[0] < a[k]);
        }
        let at = a.skip(1);
        let bt = b.skip(1);
        assert forall|i: int, j: int| 0 <= i < j < at.len() implies at[i] < at[j] by {
            assert(at[i] == a[i + 1] && at[j] == a[j + 1]);
        }
        assert forall|i: int, j: int| 0 <= i < j < bt.len() implies bt[i] < bt[j] by {
            assert(bt[i] == b[i + 1] && bt[j] == b[j + 1]);
        }
        assert forall|v: usize| at.contains(v) implies bt.contains(v) by {
            let idx = choose|idx: int| 0 <= idx < at.len() && at[idx] == v;
            assert(a[idx + 1] == v);
            assert(a[0] < v);
            assert(a.contains(v));
            assert(b.contains(v));
            let bm = choose|bm: int| 0 <= bm < b.len() && b[bm] == v;
            assert(bm != 0);
            assert(bt[bm - 1] == v);
        }
        assert forall|v: usize| bt.contains(v) implies at.contains(v) by {
            let idx = choose|idx: int| 0 <= idx < bt.len() && bt[idx] == v;
            assert(b[idx + 1] == v);
            assert(b[0] < v);
            assert(b.contains(v));
            assert(a.contains(v));
            let am = choose|am: int| 0 <= am < a.len() && a[am] == v;
            assert(am != 0);
            assert(at[am - 1] == v);
        }
        lemma_increasing_set_unique(at, bt);
        assert forall|i: int| 0 <= i < a.len() implies a[i] == b[i] by {
            if i > 0 {
                assert(at[i - 1] == a[i] && bt[i - 1] == b[i]);
                assert(at[i - 1] == bt[i - 1]);
            }
        }
        assert(a =~= b);
    }
}

/// THE ROW SELECTION IS DETERMINISTIC: its contract pins the selection, so
/// any two index sequences it allows for one matrix are equal.
pub proof fn lemma_row_selection_deterministic(
    rows: Seq<Vec<u64>>,
    idx1: Seq<usize>,
    idx2: Seq<usize>,
)
    requires
        row_selection_post(rows, idx1),
        row_selection_post(rows, idx2),
    ensures
        idx1 == idx2,
{
    assert forall|v: usize| idx1.contains(v) implies idx2.contains(v) by {
        let k = choose|k: int| 0 <= k < idx1.len() && idx1[k] == v;
        assert(v < rows.len() && row_is_clean(rows[v as int]@));
    }
    assert forall|v: usize| idx2.contains(v) implies idx1.contains(v) by {
        let k = choose|k: int| 0 <= k < idx2.len() && idx2[k] == v;
        assert(v < rows.len() && row_is_clean(rows[v as int]@));
    }
    lemma_increasing_set_unique(idx1, idx2);
}

/// The indices of the rows that enter the pooled aggregate: exactly the
/// rows free of not-a-number sentinels, in increasing order.
pub fn valid_rows(rows: &Vec<Vec<u64>>) -> (idx: Vec<usize>)
    ensures
        row_selection_post(rows@, idx@),
{
    let mut idx: Vec<usize> = Vec::new();
    let mut i: usize = 0;
    while i < rows.len()
        invariant
            i <= rows@.len(),
            forall|a: int, b: int| 0 <= a < b < idx@.len() ==> idx@[a] < idx@[b],
            forall|a: int| 0 <= a < idx@.len() ==> idx@[a] < i && row_is_clean(rows@[idx@[a] as int]@),
            forall|k: int| 0 <= k < i && row_is_clean(rows@[k]@) ==> idx@.contains(k as usize),
        decreases rows@.len() - i,
    {
        if row_clean(&rows[i]) {
            let ghost prev = idx@;
            idx.push(i);
            proof {
                assert forall|v: usize| prev.contains(v) implies idx@.contains(v) by {
                    let j = choose|j: int| 0 <= j < prev.len() && prev[j] == v;
                    assert(idx@[j] == v);
                }
                assert(idx@[idx@.len() - 1] == i);
                assert(idx@.contains(i));
            }
        }
        i = i + 1;
    }
    idx
}

} // verus!
