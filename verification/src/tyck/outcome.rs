//! Sequences of outcomes: the first failure among them.

use vstd::prelude::*;
use crate::err::TyckErrorM;

verus! {

/// The first error in a sequence of outcomes, if one of them is an error.
pub open spec fn first_err<T>(rs: Seq<Result<T, TyckErrorM>>) -> Option<TyckErrorM>
    decreases rs.len(),
{
    if rs.len() == 0 {
        None
    } else {
        match first_err(rs.drop_last()) {
            Some(e) => Some(e),
            None => match rs.last() {
                Err(e) => Some(e),
                Ok(_) => None,
            },
        }
    }
}

/// An error with only successes before it is the first error.
pub proof fn lemma_first_err_at<T>(rs: Seq<Result<T, TyckErrorM>>, i: int)
    requires
        0 <= i < rs.len(),
        rs[i] is Err,
        forall|j: int| 0 <= j < i ==> (#[trigger] rs[j]) is Ok,
    ensures
        first_err(rs) == Some(rs[i]->Err_0),
    decreases rs.len(),
{
    if i < rs.len() - 1 {
        lemma_first_err_at(rs.drop_last(), i);
    } else {
        lemma_first_err_none(rs.drop_last());
    }
}

/// Where every outcome is a success there is no first error.
pub proof fn lemma_first_err_none<T>(rs: Seq<Result<T, TyckErrorM>>)
    requires
        forall|j: int| 0 <= j < rs.len() ==> (#[trigger] rs[j]) is Ok,
    ensures
        first_err(rs).is_none(),
    decreases rs.len(),
{
    if rs.len() > 0 {
        lemma_first_err_none(rs.drop_last());
    }
}

/// Where there is no first error every outcome is a success.
pub proof fn lemma_first_err_all_ok<T>(rs: Seq<Result<T, TyckErrorM>>)
    requires
        first_err(rs).is_none(),
    ensures
        forall|j: int| 0 <= j < rs.len() ==> (#[trigger] rs[j]) is Ok,
    decreases rs.len(),
{
    if rs.len() > 0 {
        lemma_first_err_all_ok(rs.drop_last());
        assert forall|j: int| 0 <= j < rs.len() implies (#[trigger] rs[j]) is Ok by {
            if j < rs.len() - 1 {
                assert(rs[j] == rs.drop_last()[j]);
            }
        }
    }
}

} // verus!
