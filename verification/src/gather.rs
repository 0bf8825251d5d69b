//! Gathering the outcomes of reading the entries of a page, one after the other.

use vstd::prelude::*;
use crate::error::ExtractError;

verus! {

/// What reading a list of entries gives, from the outcome of each: all the items, in order,
/// where every entry gave one, and otherwise the error of the first entry that failed.
pub open spec fn gathered<T>(outcomes: Seq<Result<T, ExtractError>>) -> Result<
    Seq<T>,
    ExtractError,
>
    decreases outcomes.len(),
{
    if outcomes.len() == 0 {
        Ok(Seq::empty())
    } else {
        match gathered(outcomes.drop_last()) {
            Ok(items) => match outcomes.last() {
                Ok(item) => Ok(items.push(item)),
                Err(e) => Err(e),
            },
            Err(e) => Err(e),
        }
    }
}

/// Gathering keeps the order and drops nothing: where every outcome is an item, the list holds
/// the item of outcome `i` at place `i`; otherwise the error is the first one among the
/// outcomes.
pub proof fn lemma_gathered_keeps_order<T>(outcomes: Seq<Result<T, ExtractError>>)
    ensures
        match gathered(outcomes) {
            Ok(items) => {
                &&& items.len() == outcomes.len()
                &&& forall|i: int|
                    0 <= i < outcomes.len() ==> #[trigger] outcomes[i] == Ok::<T, ExtractError>(
                        items[i],
                    )
            },
            Err(e) => exists|k: int|
                {
                    &&& 0 <= k < outcomes.len()
                    &&& #[trigger] outcomes[k] == Err::<T, ExtractError>(e)
                    &&& forall|i: int| 0 <= i < k ==> (#[trigger] outcomes[i]) is Ok
                },
        },
    decreases outcomes.len(),
{
    if outcomes.len() > 0 {
        let front = outcomes.drop_last();
        lemma_gathered_keeps_order(front);
        match gathered(front) {
            Ok(items) => {
                match outcomes.last() {
                    Ok(item) => {
                        let all = items.push(item);
                        assert forall|i: int| 0 <= i < outcomes.len() implies #[trigger] outcomes[i]
                            == Ok::<T, ExtractError>(all[i]) by {
                            if i < front.len() {
                                assert(outcomes[i] == front[i]);
                            }
                        }
                    },
                    Err(e) => {
                        let k = outcomes.len() - 1;
                        assert forall|i: int| 0 <= i < k implies (#[trigger] outcomes[i]) is Ok by {
                            assert(outcomes[i] == front[i]);
                        }
                        assert(outcomes[k] == Err::<T, ExtractError>(e));
                    },
                }
            },
            Err(e) => {
                let k = choose|k: int|
                    {
                        &&& 0 <= k < front.len()
                        &&& #[trigger] front[k] == Err::<T, ExtractError>(e)
                        &&& forall|i: int| 0 <= i < k ==> (#[trigger] front[i]) is Ok
                    };
                assert(outcomes[k] == front[k]);
                assert forall|i: int| 0 <= i < k implies (#[trigger] outcomes[i]) is Ok by {
                    assert(outcomes[i] == front[i]);
                }
            },
        }
    }
}

/// Gathering one more outcome after a prefix: an item is appended, an error ends the reading.
pub proof fn lemma_gathered_step<T>(outcomes: Seq<Result<T, ExtractError>>, i: int)
    requires
        0 <= i < outcomes.len(),
    ensures
        gathered(outcomes.take(i + 1)) == match gathered(outcomes.take(i)) {
            Ok(items) => match outcomes[i] {
                Ok(item) => Ok(items.push(item)),
                Err(e) => Err(e),
            },
            Err(e) => Err(e),
        },
{
    assert(outcomes.take(i + 1).drop_last() == outcomes.take(i));
    assert(outcomes.take(i + 1).last() == outcomes[i]);
}

/// Once a prefix of the outcomes fails, every longer prefix fails with the same error.
pub proof fn lemma_gathered_failure_stays<T>(outcomes: Seq<Result<T, ExtractError>>, k: int, n: int)
    requires
        0 <= k <= n <= outcomes.len(),
        gathered(outcomes.take(k)) is Err,
    ensures
        gathered(outcomes.take(n)) == gathered(outcomes.take(k)),
    decreases n - k,
{
    if k < n {
        lemma_gathered_failure_stays(outcomes, k, n - 1);
        lemma_gathered_step(outcomes, n - 1);
    }
}

} // verus!
