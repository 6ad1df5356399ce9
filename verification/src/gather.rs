//! Results made of parts: the parts in order where all succeed, else the
//! first failure.
use vstd::prelude::*;
use crate::error::ConfigError;

verus! {

/// Gathers the parts of a result in order: all of them one after another
/// where every part succeeds, else the first failure.
pub open spec fn gather<T>(parts: Seq<Result<Seq<T>, ConfigError>>) -> Result<Seq<T>, ConfigError>
    decreases parts.len(),
{
    if parts.len() == 0 {
        Ok(Seq::empty())
    } else {
        match gather(parts.drop_last()) {
            Err(e) => Err(e),
            Ok(init) => match parts.last() {
                Err(e) => Err(e),
                Ok(more) => Ok(init + more),
            },
        }
    }
}

/// Gathering a prefix that is extended by one part.
pub proof fn lemma_gather_step<T>(parts: Seq<Result<Seq<T>, ConfigError>>, i: int)
    requires
        0 <= i < parts.len(),
    ensures
        gather(parts.take(i + 1)) == match gather(parts.take(i)) {
            Err(e) => Err(e),
            Ok(init) => match parts[i] {
                Err(e) => Err(e),
                Ok(more) => Ok(init + more),
            },
        },
{
    assert(parts.take(i + 1).drop_last() =~= parts.take(i));
    assert(parts.take(i + 1).last() == parts[i]);
}

/// A failure among the first parts is the failure of the whole.
pub proof fn lemma_gather_fails<T>(parts: Seq<Result<Seq<T>, ConfigError>>, i: int)
    requires
        0 <= i <= parts.len(),
        gather(parts.take(i)) is Err,
    ensures
        gather(parts) == gather(parts.take(i)),
    decreases parts.len() - i,
{
    if i == parts.len() {
        assert(parts.take(i) =~= parts);
    } else {
        lemma_gather_step(parts, i);
        lemma_gather_fails(parts, i + 1);
    }
}

/// Two rows of parts that succeed with equally many items part by part
/// gather equally many items.
pub proof fn lemma_gather_same_count<A, B>(
    left: Seq<Result<Seq<A>, ConfigError>>,
    right: Seq<Result<Seq<B>, ConfigError>>,
)
    requires
        left.len() == right.len(),
        gather(left) is Ok,
        gather(right) is Ok,
        forall|i: int|
            0 <= i < left.len() && left[i] is Ok && right[i] is Ok ==> (#[trigger] left[i])->Ok_0.len(
            ) == right[i]->Ok_0.len(),
    ensures
        gather(left)->Ok_0.len() == gather(right)->Ok_0.len(),
    decreases left.len(),
{
    if left.len() > 0 {
        let last = left.len() - 1;
        assert(left.last() == left[last]);
        assert(right.last() == right[last]);
        let (l, r) = (left.drop_last(), right.drop_last());
        assert forall|i: int| 0 <= i < l.len() && l[i] is Ok && r[i] is Ok implies (
        #[trigger] l[i])->Ok_0.len() == r[i]->Ok_0.len() by {
            assert(l[i] == left[i]);
            assert(r[i] == right[i]);
        }
        lemma_gather_same_count(l, r);
    }
}

/// Parts that all succeed with one item each gather to those items.
pub proof fn lemma_gather_singles<T>(parts: Seq<Result<Seq<T>, ConfigError>>, items: Seq<T>)
    requires
        parts.len() == items.len(),
        forall|i: int| 0 <= i < parts.len() ==> #[trigger] parts[i] == Ok::<Seq<T>, ConfigError>(
            seq![items[i]],
        ),
    ensures
        gather(parts) == Ok::<Seq<T>, ConfigError>(items),
    decreases parts.len(),
{
    if parts.len() > 0 {
        let init = parts.drop_last();
        assert forall|i: int| 0 <= i < init.len() implies #[trigger] init[i] == Ok::<
            Seq<T>,
            ConfigError,
        >(seq![items.drop_last()[i]]) by {
            assert(init[i] == parts[i]);
        }
        lemma_gather_singles(init, items.drop_last());
        assert(parts.last() == parts[parts.len() - 1]);
        assert(items.drop_last() + seq![items.last()] =~= items);
    } else {
        assert(items =~= Seq::<T>::empty());
    }
}

/// Where parts gather and each part that succeeds holds one item, every part
/// succeeded and the gathered items are those of the parts, in order.
pub proof fn lemma_gathered_singles<T>(parts: Seq<Result<Seq<T>, ConfigError>>)
    requires
        gather(parts) is Ok,
        forall|i: int|
            0 <= i < parts.len() ==> (#[trigger] parts[i] matches Ok(one) ==> one.len() == 1),
    ensures
        gather(parts)->Ok_0.len() == parts.len(),
        forall|i: int|
            0 <= i < parts.len() ==> #[trigger] parts[i] == Ok::<Seq<T>, ConfigError>(
                seq![gather(parts)->Ok_0[i]],
            ),
    decreases parts.len(),
{
    if parts.len() > 0 {
        let init = parts.drop_last();
        assert forall|i: int| 0 <= i < init.len() implies (#[trigger] init[i] matches Ok(one)
            ==> one.len() == 1) by {
            assert(init[i] == parts[i]);
        }
        lemma_gathered_singles(init);
        let last = parts[parts.len() - 1];
        assert(parts.last() == last);
        assert(last->Ok_0 =~= seq![last->Ok_0[0]]);
        assert forall|i: int| 0 <= i < parts.len() implies #[trigger] parts[i] == Ok::<
            Seq<T>,
            ConfigError,
        >(seq![gather(parts)->Ok_0[i]]) by {
            if i < init.len() {
                assert(parts[i] == init[i]);
            }
        }
    }
}

} // verus!
