//! Picking the first fault out of a run of checks.

use vstd::prelude::*;

verus! {

/// The first value that `checks` holds, if it holds any.
pub open spec fn first_some<F>(checks: Seq<Option<F>>) -> Option<F>
    decreases checks.len(),
{
    if checks.len() == 0 {
        None
    } else {
        match first_some(checks.drop_last()) {
            Some(fault) => Some(fault),
            None => checks.last(),
        }
    }
}

/// `first_some` finds nothing exactly where there is nothing, and what it finds stands
/// behind nothing else.
pub proof fn lemma_first_some<F>(checks: Seq<Option<F>>)
    ensures
        first_some(checks) is None <==> (forall|i: int|
            0 <= i < checks.len() ==> (#[trigger] checks[i]) is None),
        first_some(checks) is Some ==> exists|i: int|
            #![trigger checks[i]]
            0 <= i < checks.len() && checks[i] == first_some(checks) && (forall|j: int|
                0 <= j < i ==> (#[trigger] checks[j]) is None),
    decreases checks.len(),
{
    if checks.len() > 0 {
        let rest = checks.drop_last();
        lemma_first_some(rest);
        assert(forall|j: int| 0 <= j < rest.len() ==> #[trigger] rest[j] == checks[j]);
        if first_some(rest) is Some {
            let i = choose|i: int|
                #![trigger rest[i]]
                0 <= i < rest.len() && rest[i] == first_some(rest) && (forall|j: int|
                    0 <= j < i ==> (#[trigger] rest[j]) is None);
            assert(checks[i] == first_some(checks));
            assert forall|j: int| 0 <= j < i implies (#[trigger] checks[j]) is None by {
                assert(rest[j] is None);
            }
        } else {
            assert forall|j: int| 0 <= j < rest.len() implies (#[trigger] checks[j]) is None by {
                assert(rest[j] is None);
            }
            if first_some(checks) is None {
                assert(checks[checks.len() - 1] is None);
            } else {
                assert(checks[checks.len() - 1] == first_some(checks));
            }
        }
    }
}

/// What stands behind the first value does not matter.
pub proof fn lemma_first_some_prefix<F>(checks: Seq<Option<F>>, n: int)
    requires
        0 <= n <= checks.len(),
        first_some(checks.take(n)) is Some,
    ensures
        first_some(checks) == first_some(checks.take(n)),
    decreases checks.len(),
{
    if n == checks.len() {
        assert(checks.take(n) =~= checks);
    } else {
        assert(checks.drop_last().take(n) =~= checks.take(n));
        lemma_first_some_prefix(checks.drop_last(), n);
    }
}

/// One more check that finds nothing changes nothing.
pub proof fn lemma_first_some_step<F>(checks: Seq<Option<F>>, n: int)
    requires
        0 <= n < checks.len(),
        first_some(checks.take(n)) is None,
    ensures
        first_some(checks.take(n + 1)) == checks[n],
{
    assert(checks.take(n + 1).drop_last() =~= checks.take(n));
}

}
