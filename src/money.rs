use vstd::prelude::*;

use crate::error::ApiError;

verus! {

/// Available money: inflow minus outflow.
pub fn project_available(inflow: i64, outflow: i64) -> (r: i64)
    requires
        i64::MIN <= inflow - outflow <= i64::MAX,
    ensures
        r == inflow - outflow,
{
    inflow - outflow
}

/// One category-tagged line of a transaction, as submitted by a client.
#[derive(Debug, Clone)]
pub struct SplitInput {
    pub category_id: u64,
    pub memo: Option<String>,
    pub inflow: i64,
    pub outflow: i64,
}

/// A split is well shaped when both amounts are non-negative and exactly one
/// of them is strictly positive.
pub open spec fn split_shape_ok(inflow: int, outflow: int) -> bool {
    &&& inflow >= 0
    &&& outflow >= 0
    &&& (inflow > 0) != (outflow > 0)
}

pub open spec fn splits_valid(splits: Seq<SplitInput>) -> bool {
    &&& splits.len() > 0
    &&& forall|i: int| 0 <= i < splits.len() ==> #[trigger] split_shape_ok(
        splits[i].inflow as int,
        splits[i].outflow as int,
    )
}

/// Checks the shape of a transaction's splits before anything is written.
pub fn validate_splits(splits: &[SplitInput]) -> (r: Result<(), ApiError>)
    ensures
        r is Ok <==> splits_valid(splits@),
        r is Err ==> r == Err::<(), ApiError>(ApiError::Validation),
{
    if splits.len() == 0 {
        return Err(ApiError::Validation);
    }
    let mut i: usize = 0;
    while i < splits.len()
        invariant
            0 <= i <= splits@.len(),
            forall|j: int| 0 <= j < i ==> #[trigger] split_shape_ok(
                splits@[j].inflow as int,
                splits@[j].outflow as int,
            ),
        decreases splits.len() - i,
    {
        let s = &splits[i];
        let ok = s.inflow >= 0 && s.outflow >= 0 && (s.inflow > 0) != (s.outflow > 0);
        assert(ok == split_shape_ok(splits@[i as int].inflow as int, splits@[i as int].outflow as int));
        if !ok {
            return Err(ApiError::Validation);
        }
        i = i + 1;
    }
    Ok(())
}

} // verus!
