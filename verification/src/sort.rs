//! Ordering of the final report: a stable sort of publish facts by
//! timestamp, ascending by default and descending when the reverse toggle is
//! set. Facts with equal timestamps retain their encounter order in either
//! mode.

use vstd::prelude::*;

use crate::reduce::PublishFact;

verus! {

/// `a` may precede `b` in the requested order.
pub open spec fn fact_le(a: PublishFact, b: PublishFact, reverse: bool) -> bool {
    if reverse {
        b.timestamp <= a.timestamp
    } else {
        a.timestamp <= b.timestamp
    }
}

/// `s` is ordered by timestamp in the requested direction.
pub open spec fn sorted_by_time(s: Seq<PublishFact>, reverse: bool) -> bool {
    forall|p: int, q: int| 0 <= p < q < s.len() ==> #[trigger] fact_le(s[p], s[q], reverse)
}

/// `f` inserted into `s` behind every element that may precede it, so that
/// `f` lands after any element with an equal timestamp.
pub open spec fn insert_fact(s: Seq<PublishFact>, f: PublishFact, reverse: bool) -> Seq<
    PublishFact,
>
    decreases s.len(),
{
    if s.len() == 0 {
        seq![f]
    } else if fact_le(s.last(), f, reverse) {
        s.push(f)
    } else {
        insert_fact(s.drop_last(), f, reverse).push(s.last())
    }
}

/// The stable sort of `s` by timestamp: each element in turn inserted into
/// the sorted sequence of its predecessors.
pub open spec fn sort_spec(s: Seq<PublishFact>, reverse: bool) -> Seq<PublishFact>
    decreases s.len(),
{
    if s.len() == 0 {
        Seq::empty()
    } else {
        insert_fact(sort_spec(s.drop_last(), reverse), s.last(), reverse)
    }
}

/// The facts whose timestamp is `t`, used to state stability.
pub open spec fn at_time(t: i64) -> spec_fn(PublishFact) -> bool {
    |f: PublishFact| f.timestamp == t
}

/// Insertion preserves any property all elements share.
proof fn lemma_insert_all(
    s: Seq<PublishFact>,
    f: PublishFact,
    reverse: bool,
    p: spec_fn(PublishFact) -> bool,
)
    requires
        forall|j: int| 0 <= j < s.len() ==> p(#[trigger] s[j]),
        p(f),
    ensures
        forall|j: int|
            0 <= j < insert_fact(s, f, reverse).len() ==> p(
                #[trigger] insert_fact(s, f, reverse)[j],
            ),
    decreases s.len(),
{
    if s.len() == 0 {
        assert(insert_fact(s, f, reverse) =~= seq![f]);
    } else if fact_le(s.last(), f, reverse) {
        assert forall|j: int| 0 <= j < s.push(f).len() implies p(#[trigger] s.push(f)[j]) by {
            if j < s.len() {
                assert(s.push(f)[j] == s[j]);
            } else {
                assert(s.push(f)[j] == f);
            }
        }
    } else {
        let inner = insert_fact(s.drop_last(), f, reverse);
        assert(forall|j: int| 0 <= j < s.drop_last().len() ==> p(#[trigger] s.drop_last()[j]));
        lemma_insert_all(s.drop_last(), f, reverse, p);
        assert forall|j: int| 0 <= j < inner.push(s.last()).len() implies p(
            #[trigger] inner.push(s.last())[j],
        ) by {
            if j < inner.len() {
                assert(inner.push(s.last())[j] == inner[j]);
            } else {
                assert(inner.push(s.last())[j] == s.last());
                assert(p(s[s.len() - 1]));
            }
        }
    }
}

/// `a` may precede `b` in the requested order.
pub fn fact_le_exec(a: &PublishFact, b: &PublishFact, reverse: bool) -> (r: bool)
    ensures
        r == fact_le(*a, *b, reverse),
{
    if reverse {
        b.timestamp <= a.timestamp
    } else {
        a.timestamp <= b.timestamp
    }
}

/// Insertion into an ordered sequence keeps it ordered.
proof fn lemma_insert_sorted(s: Seq<PublishFact>, f: PublishFact, reverse: bool)
    requires
        sorted_by_time(s, reverse),
    ensures
        sorted_by_time(insert_fact(s, f, reverse), reverse),
    decreases s.len(),
{
    let out = insert_fact(s, f, reverse);
    if s.len() == 0 {
    } else if fact_le(s.last(), f, reverse) {
        assert forall|p: int, q: int| 0 <= p < q < out.len() implies #[trigger] fact_le(
            out[p],
            out[q],
            reverse,
        ) by {
            if q == out.len() - 1 {
                if p < s.len() - 1 {
                    assert(fact_le(s[p], s[s.len() - 1], reverse));
                }
            }
        }
    } else {
        let inner = insert_fact(s.drop_last(), f, reverse);
        assert(sorted_by_time(s.drop_last(), reverse)) by {
            assert(forall|p: int, q: int|
                0 <= p < q < s.drop_last().len() ==> #[trigger] fact_le(
                    s.drop_last()[p],
                    s.drop_last()[q],
                    reverse,
                ));
        }
        lemma_insert_sorted(s.drop_last(), f, reverse);
        lemma_insert_all(
            s.drop_last(),
            f,
            reverse,
            |x: PublishFact| fact_le(x, s.last(), reverse),
        );
        assert forall|p: int, q: int| 0 <= p < q < out.len() implies #[trigger] fact_le(
            out[p],
            out[q],
            reverse,
        ) by {
            if q < out.len() - 1 {
                assert(fact_le(inner[p], inner[q], reverse));
            } else {
                assert(out[q] == s.last());
                assert(fact_le(inner[p], s.last(), reverse));
            }
        }
    }
}

/// Insertion adds exactly one copy of the inserted fact.
proof fn lemma_insert_multiset(s: Seq<PublishFact>, f: PublishFact, reverse: bool)
    ensures
        insert_fact(s, f, reverse).to_multiset() == s.to_multiset().insert(f),
    decreases s.len(),
{
    broadcast use vstd::seq_lib::group_to_multiset_ensures;

    if s.len() == 0 {
        assert(insert_fact(s, f, reverse) =~= Seq::empty().push(f));
        assert(Seq::<PublishFact>::empty().push(f).to_multiset() =~= Seq::<
            PublishFact,
        >::empty().to_multiset().insert(f));
    } else if fact_le(s.last(), f, reverse) {
    } else {
        lemma_insert_multiset(s.drop_last(), f, reverse);
        assert(s =~= s.drop_last().push(s.last()));
        assert(s.to_multiset() == s.drop_last().push(s.last()).to_multiset());
        assert(insert_fact(s, f, reverse).to_multiset() == insert_fact(
            s.drop_last(),
            f,
            reverse,
        ).to_multiset().insert(s.last()));
        assert(insert_fact(s, f, reverse).to_multiset() =~= s.to_multiset().insert(f));
    }
}

/// Insertion keeps the facts of every timestamp in order: the inserted fact
/// lands after every element with its own timestamp and passes none of them.
proof fn lemma_insert_filter(s: Seq<PublishFact>, f: PublishFact, reverse: bool, t: i64)
    ensures
        insert_fact(s, f, reverse).filter(at_time(t)) == if f.timestamp == t {
            s.filter(at_time(t)).push(f)
        } else {
            s.filter(at_time(t))
        },
    decreases s.len(),
{
    reveal(Seq::filter);
    let p = at_time(t);
    if s.len() == 0 {
        assert(insert_fact(s, f, reverse) =~= seq![f]);
        assert(seq![f].drop_last() =~= Seq::<PublishFact>::empty());
        assert(s.filter(p) =~= Seq::empty());
    } else if fact_le(s.last(), f, reverse) {
        assert(s.push(f).drop_last() =~= s);
        assert(s.push(f).last() == f);
    } else {
        lemma_insert_filter(s.drop_last(), f, reverse, t);
        let inner = insert_fact(s.drop_last(), f, reverse);
        assert(inner.push(s.last()).drop_last() =~= inner);
        assert(inner.push(s.last()).last() == s.last());
        if f.timestamp == t {
            assert(s.last().timestamp != f.timestamp);
            assert(!p(s.last()));
            assert(insert_fact(s, f, reverse).filter(p) == inner.filter(p));
            assert(s.filter(p) == s.drop_last().filter(p));
        } else {
            if p(s.last()) {
                assert(insert_fact(s, f, reverse).filter(p) == inner.filter(p).push(s.last()));
                assert(s.filter(p) == s.drop_last().filter(p).push(s.last()));
            }
        }
    }
}

/// Law: the sort is ordered by timestamp in the requested direction.
pub proof fn lemma_sort_sorted(s: Seq<PublishFact>, reverse: bool)
    ensures
        sorted_by_time(sort_spec(s, reverse), reverse),
    decreases s.len(),
{
    if s.len() > 0 {
        lemma_sort_sorted(s.drop_last(), reverse);
        lemma_insert_sorted(sort_spec(s.drop_last(), reverse), s.last(), reverse);
    }
}

/// Law: the sort keeps the length.
pub proof fn lemma_sort_len(s: Seq<PublishFact>, reverse: bool)
    ensures
        sort_spec(s, reverse).len() == s.len(),
    decreases s.len(),
{
    if s.len() > 0 {
        lemma_sort_len(s.drop_last(), reverse);
        lemma_insert_len(sort_spec(s.drop_last(), reverse), s.last(), reverse);
    }
}

/// Insertion grows the sequence by one.
proof fn lemma_insert_len(s: Seq<PublishFact>, f: PublishFact, reverse: bool)
    ensures
        insert_fact(s, f, reverse).len() == s.len() + 1,
    decreases s.len(),
{
    if s.len() > 0 && !fact_le(s.last(), f, reverse) {
        lemma_insert_len(s.drop_last(), f, reverse);
    }
}

/// Law: the sort is a permutation — no fact is dropped, duplicated or
/// altered.
pub proof fn lemma_sort_multiset(s: Seq<PublishFact>, reverse: bool)
    ensures
        sort_spec(s, reverse).to_multiset() == s.to_multiset(),
    decreases s.len(),
{
    broadcast use vstd::seq_lib::group_to_multiset_ensures;

    if s.len() == 0 {
        assert(sort_spec(s, reverse) =~= s);
    } else {
        lemma_sort_multiset(s.drop_last(), reverse);
        lemma_insert_multiset(sort_spec(s.drop_last(), reverse), s.last(), reverse);
        assert(s =~= s.drop_last().push(s.last()));
        assert(s.to_multiset() == s.drop_last().push(s.last()).to_multiset());
        assert(sort_spec(s, reverse).to_multiset() =~= s.to_multiset());
    }
}

/// Law: the sort is stable — for every timestamp, the facts carrying it
/// appear in the output in their input order.
pub proof fn lemma_sort_stable(s: Seq<PublishFact>, reverse: bool, t: i64)
    ensures
        sort_spec(s, reverse).filter(at_time(t)) == s.filter(at_time(t)),
    decreases s.len(),
{
    reveal(Seq::filter);
    if s.len() > 0 {
        lemma_sort_stable(s.drop_last(), reverse, t);
        lemma_insert_filter(sort_spec(s.drop_last(), reverse), s.last(), reverse, t);
    }
}

/// Sorts the facts by timestamp, ascending, or descending when `reverse` is
/// set, stably: facts with equal timestamps keep their order.
pub fn sort_facts(facts: Vec<PublishFact>, reverse: bool) -> (r: Vec<PublishFact>)
    ensures
        r@ == sort_spec(facts@, reverse),
{
    let ghost orig = facts@;
    let mut rest = facts;
    let n = rest.len();
    let mut out: Vec<PublishFact> = Vec::new();
    let mut taken: usize = 0;
    while rest.len() > 0
        invariant
            n == orig.len(),
            taken + rest@.len() == orig.len(),
            rest@ == orig.subrange(taken as int, orig.len() as int),
            out@ == sort_spec(orig.subrange(0, taken as int), reverse),
        decreases rest@.len(),
    {
        let f = rest.remove(0);
        proof {
            assert(f == orig[taken as int]);
            assert(rest@ =~= orig.subrange(taken + 1, orig.len() as int));
            assert(orig.subrange(0, taken + 1).drop_last() =~= orig.subrange(0, taken as int));
            assert(orig.subrange(0, taken + 1).last() == orig[taken as int]);
        }
        let ghost sorted_prefix = out@;
        let mut j: usize = out.len();
        while j > 0 && !fact_le_exec(&out[j - 1], &f, reverse)
            invariant
                j <= out@.len(),
                out@ == sorted_prefix,
                forall|k: int| j <= k < out@.len() ==> !fact_le(#[trigger] out@[k], f, reverse),
            decreases j,
        {
            j -= 1;
        }
        proof {
            lemma_insert_at(out@, f, reverse, j as int);
        }
        out.insert(j, f);
        proof {
            assert(out@ =~= sorted_prefix.insert(j as int, f));
            assert(sorted_prefix.insert(j as int, f) =~= sorted_prefix.subrange(0, j as int)
                + seq![f] + sorted_prefix.subrange(j as int, sorted_prefix.len() as int));
            assert(out@ == insert_fact(sorted_prefix, f, reverse));
        }
        taken += 1;
    }
    proof {
        assert(orig.subrange(0, orig.len() as int) =~= orig);
    }
    out
}

/// The insertion point found by scanning from the right realizes
/// `insert_fact`.
proof fn lemma_insert_at(s: Seq<PublishFact>, f: PublishFact, reverse: bool, j: int)
    requires
        0 <= j <= s.len(),
        forall|k: int| j <= k < s.len() ==> !fact_le(#[trigger] s[k], f, reverse),
        j > 0 ==> fact_le(s[j - 1], f, reverse),
    ensures
        insert_fact(s, f, reverse) == s.subrange(0, j) + seq![f] + s.subrange(j, s.len() as int),
    decreases s.len(),
{
    if s.len() == 0 {
        assert(insert_fact(s, f, reverse) =~= s.subrange(0, 0) + seq![f] + s.subrange(0, 0));
    } else if fact_le(s.last(), f, reverse) {
        assert(j == s.len());
        assert(insert_fact(s, f, reverse) =~= s.subrange(0, j) + seq![f] + s.subrange(
            j,
            s.len() as int,
        ));
    } else {
        assert(j < s.len());
        let dl = s.drop_last();
        assert(forall|k: int| j <= k < dl.len() ==> !fact_le(#[trigger] dl[k], f, reverse));
        assert(j > 0 ==> fact_le(dl[j - 1], f, reverse));
        lemma_insert_at(dl, f, reverse, j);
        assert(insert_fact(s, f, reverse) =~= s.subrange(0, j) + seq![f] + s.subrange(
            j,
            s.len() as int,
        ));
    }
}

} // verus!
