//! The deterministic sign rule of the local frame estimator.
//!
//! An eigendecomposition or singular-value decomposition determines each
//! basis vector only up to sign. To make the estimated local frame
//! reproducible, the pipeline fixes each sign by a rule: find the entry of
//! largest magnitude in the vector's dual representation (for the
//! singular-value form, the corresponding row of the right factor; for the
//! symmetric eigendecomposition, the column itself), take that entry's sign,
//! and multiply the vector and its dual uniformly by it. Multiplying a
//! scalar by plus or minus one only clears or sets its sign bit, so the rule
//! is stated and verified here over the 64-bit sign-magnitude encodings of
//! the scalars (see the encoding module); the caller moves values into and
//! out of that encoding unchanged.
//!
//! Also here: the fixed three-way ordering of basis columns by descending
//! eigenvalue that one frame-estimation variant applies before the sign
//! rule, over order-preserving encodings of the eigenvalues.

use vstd::prelude::*;
use crate::ieee;

verus! {

/// The index the sign rule reads: the last position holding an entry of
/// maximal magnitude (later entries win ties).
pub open spec fn max_abs_index(row: Seq<u64>) -> int
    recommends
        row.len() >= 1,
    decreases row.len(),
{
    if row.len() <= 1 {
        0
    } else {
        let j = max_abs_index(row.drop_last());
        if ieee::magnitude_bits(row.last()) >= ieee::magnitude_bits(row[j]) {
            row.len() - 1
        } else {
            j
        }
    }
}

/// The rule's chosen index lies inside the row.
pub proof fn lemma_max_abs_index_in_range(row: Seq<u64>)
    requires
        row.len() >= 1,
    ensures
        0 <= max_abs_index(row) < row.len(),
    decreases row.len(),
{
    if row.len() > 1 {
        lemma_max_abs_index_in_range(row.drop_last());
    }
}

/// Whether the rule flips a vector with this dual representation: the sign
/// of the maximal-magnitude entry.
pub open spec fn row_sign_negative(row: Seq<u64>) -> bool {
    ieee::sign_is_negative(row[max_abs_index(row)])
}

/// The encoded vector negated entry by entry.
pub open spec fn negated_row(row: Seq<u64>) -> Seq<u64> {
    row.map_values(|b: u64| ieee::flip_sign(b))
}

/// The uniform sign applied to a vector: negate it or leave it.
pub open spec fn apply_sign(negative: bool, row: Seq<u64>) -> Seq<u64> {
    if negative {
        negated_row(row)
    } else {
        row
    }
}

/// One vector after the sign rule, when it is its own dual (the symmetric
/// eigendecomposition case).
pub open spec fn corrected_row(row: Seq<u64>) -> Seq<u64> {
    apply_sign(row_sign_negative(row), row)
}

/// Negation moves the maximal-magnitude index nowhere.
proof fn lemma_negated_max_abs_index(row: Seq<u64>)
    requires
        row.len() >= 1,
    ensures
        negated_row(row).len() == row.len(),
        max_abs_index(negated_row(row)) == max_abs_index(row),
    decreases row.len(),
{
    let n = negated_row(row);
    if row.len() > 1 {
        lemma_negated_max_abs_index(row.drop_last());
        assert(n.drop_last() =~= negated_row(row.drop_last()));
        let j = max_abs_index(row.drop_last());
        lemma_max_abs_index_in_range(row.drop_last());
        ieee::lemma_flip_sign(row.last());
        ieee::lemma_flip_sign(row[j]);
    }
}

/// THE SIGN RULE IS IDEMPOTENT. Once a basis vector and its dual have been
/// corrected, the maximal-magnitude entry of the dual carries a positive
/// sign, so re-applying the rule leaves both the dual (`corrected_row`) and
/// the vector it governs (`apply_sign` under the dual's sign) unchanged.
pub proof fn lemma_sign_rule_idempotent(u_col: Seq<u64>, v_row: Seq<u64>)
    requires
        v_row.len() >= 1,
    ensures
        !row_sign_negative(corrected_row(v_row)),
        corrected_row(corrected_row(v_row)) == corrected_row(v_row),
        apply_sign(
            row_sign_negative(corrected_row(v_row)),
            apply_sign(row_sign_negative(v_row), u_col),
        ) == apply_sign(row_sign_negative(v_row), u_col),
{
    lemma_max_abs_index_in_range(v_row);
    let j = max_abs_index(v_row);
    if row_sign_negative(v_row) {
        lemma_negated_max_abs_index(v_row);
        assert(corrected_row(v_row)[j] == ieee::flip_sign(v_row[j]));
        ieee::lemma_flip_sign(v_row[j]);
    }
}

/// Finds the last position of maximal magnitude in an encoded vector.
fn find_max_abs_index(row: &Vec<u64>) -> (best: usize)
    requires
        row@.len() >= 1,
    ensures
        best as int == max_abs_index(row@),
{
    let mut best: usize = 0;
    let mut k: usize = 1;
    while k < row.len()
        invariant
            1 <= k <= row@.len(),
            best < k,
            best as int == max_abs_index(row@.take(k as int)),
        decreases row@.len() - k,
    {
        proof {
            assert(row@.take(k as int + 1).drop_last() =~= row@.take(k as int));
            assert(row@.take(k as int + 1).last() == row@[k as int]);
            assert(row@.take(k as int)[best as int] == row@[best as int]);
        }
        if ieee::abs_bits(row[k]) >= ieee::abs_bits(row[best]) {
            best = k;
        }
        k = k + 1;
    }
    proof {
        assert(row@.take(row@.len() as int) =~= row@);
    }
    best
}

/// Copies an encoded vector.
fn copy_row(row: &Vec<u64>) -> (r: Vec<u64>)
    ensures
        r@ == row@,
{
    let mut r: Vec<u64> = Vec::new();
    let mut k: usize = 0;
    while k < row.len()
        invariant
            k <= row@.len(),
            r@ =~= row@.take(k as int),
        decreases row@.len() - k,
    {
        r.push(row[k]);
        k = k + 1;
    }
    proof {
        assert(row@.take(row@.len() as int) =~= row@);
    }
    r
}

/// Negates an encoded vector entry by entry.
fn negate_row(row: &Vec<u64>) -> (r: Vec<u64>)
    ensures
        r@ == negated_row(row@),
{
    let mut r: Vec<u64> = Vec::new();
    let mut k: usize = 0;
    while k < row.len()
        invariant
            k <= row@.len(),
            r@.len() == k,
            forall|j: int| 0 <= j < k ==> r@[j] == ieee::flip_sign(row@[j]),
        decreases row@.len() - k,
    {
        r.push(ieee::negate_bits(row[k]));
        k = k + 1;
    }
    proof {
        assert(r@ =~= negated_row(row@));
    }
    r
}

/// Applies the sign rule to one vector that is its own dual.
fn correct_row(row: &Vec<u64>) -> (r: Vec<u64>)
    requires
        row@.len() >= 1,
    ensures
        r@ == corrected_row(row@),
{
    let j = find_max_abs_index(row);
    proof {
        lemma_max_abs_index_in_range(row@);
    }
    if ieee::is_negative(row[j]) {
        negate_row(row)
    } else {
        copy_row(row)
    }
}

/// The sign rule of the symmetric-eigendecomposition frame variant: every
/// basis column's sign is fixed by its own maximal-magnitude entry.
pub fn eigen_sign_correction(columns: &Vec<Vec<u64>>) -> (r: Vec<Vec<u64>>)
    requires
        forall|i: int| 0 <= i < columns@.len() ==> columns@[i]@.len() >= 1,
    ensures
        r@.len() == columns@.len(),
        forall|i: int| 0 <= i < r@.len() ==> r@[i]@ == corrected_row(columns@[i]@),
{
    let mut r: Vec<Vec<u64>> = Vec::new();
    let mut i: usize = 0;
    while i < columns.len()
        invariant
            i <= columns@.len(),
            r@.len() == i,
            forall|k: int| 0 <= k < columns@.len() ==> columns@[k]@.len() >= 1,
            forall|k: int| 0 <= k < i ==> r@[k]@ == corrected_row(columns@[k]@),
        decreases columns@.len() - i,
    {
        assert(columns@[i as int]@.len() >= 1);
        r.push(correct_row(&columns[i]));
        i = i + 1;
    }
    r
}

/// The sign rule of the singular-value frame variant: the sign of basis
/// column `i` of the left factor is fixed by row `i` of the right factor,
/// and both are multiplied by it.
pub fn svd_sign_correction(u_columns: &Vec<Vec<u64>>, v_rows: &Vec<Vec<u64>>) -> (r: (
    Vec<Vec<u64>>,
    Vec<Vec<u64>>,
))
    requires
        u_columns@.len() == v_rows@.len(),
        forall|i: int| 0 <= i < v_rows@.len() ==> v_rows@[i]@.len() >= 1,
    ensures
        r.0@.len() == u_columns@.len(),
        r.1@.len() == v_rows@.len(),
        forall|i: int|
            0 <= i < r.0@.len() ==> r.0@[i]@ == apply_sign(
                row_sign_negative(v_rows@[i]@),
                u_columns@[i]@,
            ),
        forall|i: int| 0 <= i < r.1@.len() ==> r.1@[i]@ == corrected_row(v_rows@[i]@),
{
    let mut u_out: Vec<Vec<u64>> = Vec::new();
    let mut v_out: Vec<Vec<u64>> = Vec::new();
    let mut i: usize = 0;
    while i < v_rows.len()
        invariant
            i <= v_rows@.len(),
            u_columns@.len() == v_rows@.len(),
            forall|k: int| 0 <= k < v_rows@.len() ==> v_rows@[k]@.len() >= 1,
            u_out@.len() == i,
            v_out@.len() == i,
            forall|k: int|
                0 <= k < i ==> u_out@[k]@ == apply_sign(
                    row_sign_negative(v_rows@[k]@),
                    u_columns@[k]@,
                ),
            forall|k: int| 0 <= k < i ==> v_out@[k]@ == corrected_row(v_rows@[k]@),
        decreases v_rows@.len() - i,
    {
        let j = find_max_abs_index(&v_rows[i]);
        proof {
            lemma_max_abs_index_in_range(v_rows@[i as int]@);
        }
        if ieee::is_negative(v_rows[i][j]) {
            u_out.push(negate_row(&u_columns[i]));
            v_out.push(negate_row(&v_rows[i]));
        } else {
            u_out.push(copy_row(&u_columns[i]));
            v_out.push(copy_row(&v_rows[i]));
        }
        i = i + 1;
    }
    (u_out, v_out)
}

/// The fixed permutation by which one frame-estimation variant orders three
/// basis columns by descending eigenvalue: a stable three-element sorting
/// network (two comparisons of neighbors, then one more). `keys` are
/// order-preserving encodings of the eigenvalues; the result holds the
/// source position of each output column.
pub fn sort3_descending(keys: &[u64; 3]) -> (order: [usize; 3])
    ensures
        order@.contains(0) && order@.contains(1) && order@.contains(2),
        forall|a: int, b: int|
            0 <= a < b < 3 ==> keys@[order@[a] as int] > keys@[order@[b] as int] || (keys@[order@[
                a] as int] == keys@[order@[b] as int] && order@[a] < order@[b]),
{
    let mut i0: usize = 0;
    let mut i1: usize = 1;
    let mut i2: usize = 2;
    if keys[i0] < keys[i1] {
        let t = i0;
        i0 = i1;
        i1 = t;
    }
    if keys[i1] < keys[i2] {
        let t = i1;
        i1 = i2;
        i2 = t;
    }
    if keys[i0] < keys[i1] {
        let t = i0;
        i0 = i1;
        i1 = t;
    }
    let order = [i0, i1, i2];
    proof {
        assert(order@[0] == i0 && order@[1] == i1 && order@[2] == i2);
        assert(order@.contains(0) && order@.contains(1) && order@.contains(2)) by {
            assert(order@[0] == i0 && order@[1] == i1 && order@[2] == i2);
        }
    }
    order
}

} // verus!
