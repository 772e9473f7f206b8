use vstd::prelude::*;

verus! {

/// The positions at which `flags` is set, in ascending order.
pub open spec fn set_positions(flags: Seq<bool>) -> Seq<int>
    decreases flags.len(),
{
    if flags.len() == 0 {
        Seq::empty()
    } else if flags.last() {
        set_positions(flags.drop_last()).push(flags.len() - 1)
    } else {
        set_positions(flags.drop_last())
    }
}

/// At how many positions `flags` is set.
pub open spec fn set_count(flags: Seq<bool>) -> nat
    decreases flags.len(),
{
    if flags.len() == 0 {
        0
    } else if flags.last() {
        set_count(flags.drop_last()) + 1
    } else {
        set_count(flags.drop_last())
    }
}

/// The first position at or after `from` at which `flags` is set, or the
/// length of `flags` where there is none.
pub open spec fn next_set(flags: Seq<bool>, from: int) -> int
    decreases flags.len() - from,
{
    if from < 0 || from >= flags.len() {
        flags.len() as int
    } else if flags[from] {
        from
    } else {
        next_set(flags, from + 1)
    }
}

/// There is one position per set flag.
pub proof fn lemma_set_positions_len(flags: Seq<bool>)
    ensures
        set_positions(flags).len() == set_count(flags),
        set_count(flags) <= flags.len(),
    decreases flags.len(),
{
    if flags.len() > 0 {
        lemma_set_positions_len(flags.drop_last());
    }
}

/// Every position listed is a position of a set flag.
pub proof fn lemma_set_positions_sound(flags: Seq<bool>, k: int)
    requires
        0 <= k < set_positions(flags).len(),
    ensures
        0 <= set_positions(flags)[k] < flags.len(),
        flags[set_positions(flags)[k]],
    decreases flags.len(),
{
    if flags.len() > 0 {
        let rest = set_positions(flags.drop_last());
        if k < rest.len() {
            lemma_set_positions_sound(flags.drop_last(), k);
        }
    }
}

/// The positions are listed in strictly ascending order.
pub proof fn lemma_set_positions_ascending(flags: Seq<bool>, j: int, k: int)
    requires
        0 <= j < k < set_positions(flags).len(),
    ensures
        set_positions(flags)[j] < set_positions(flags)[k],
    decreases flags.len(),
{
    if flags.len() > 0 {
        let rest = set_positions(flags.drop_last());
        if k < rest.len() {
            lemma_set_positions_ascending(flags.drop_last(), j, k);
        } else {
            lemma_set_positions_sound(flags.drop_last(), j);
        }
    }
}

/// Every position of a set flag is listed.
pub proof fn lemma_set_positions_complete(flags: Seq<bool>, i: int)
    requires
        0 <= i < flags.len(),
        flags[i],
    ensures
        set_positions(flags).contains(i),
    decreases flags.len(),
{
    let rest = set_positions(flags.drop_last());
    if i == flags.len() - 1 {
        assert(set_positions(flags)[rest.len() as int] == i);
    } else {
        lemma_set_positions_complete(flags.drop_last(), i);
        let k = choose|k: int| 0 <= k < rest.len() && rest[k] == i;
        assert(set_positions(flags)[k] == i);
    }
}

/// What `next_set` finds is the first set flag at or after `from`.
pub proof fn lemma_next_set(flags: Seq<bool>, from: int)
    requires
        0 <= from <= flags.len(),
    ensures
        from <= next_set(flags, from) <= flags.len(),
        next_set(flags, from) < flags.len() ==> flags[next_set(flags, from)],
        forall|k: int| from <= k < next_set(flags, from) ==> !flags[k],
    decreases flags.len() - from,
{
    if from < flags.len() && !flags[from] {
        lemma_next_set(flags, from + 1);
    }
}

} // verus!

verus! {

/// `next_set` is the position `k` as soon as no flag is set from `from` up to
/// `k` and `k` is the length of `flags` or the position of a set flag.
pub proof fn lemma_next_set_is(flags: Seq<bool>, from: int, k: int)
    requires
        0 <= from <= k <= flags.len(),
        forall|j: int| from <= j < k ==> !flags[j],
        k < flags.len() ==> flags[k],
    ensures
        next_set(flags, from) == k,
    decreases k - from,
{
    if from < k {
        lemma_next_set_is(flags, from + 1, k);
    }
}

} // verus!

verus! {

/// The positions at or after `from` at which `flags` is set, found one after
/// the other by `next_set`.
pub open spec fn set_positions_from(flags: Seq<bool>, from: int) -> Seq<int>
    decreases flags.len() - from,
{
    let k = next_set(flags, from);
    if 0 <= from && from <= k < flags.len() {
        seq![k] + set_positions_from(flags, k + 1)
    } else {
        Seq::empty()
    }
}

/// Walking the set flags with `next_set` from `from` on finds what
/// `set_positions` lists beyond the first `from` flags.
pub proof fn lemma_set_positions_split(flags: Seq<bool>, from: int)
    requires
        0 <= from <= flags.len(),
    ensures
        set_positions(flags) == set_positions(flags.take(from)) + set_positions_from(flags, from),
    decreases flags.len() - from,
{
    let head = set_positions(flags.take(from));
    if from == flags.len() {
        assert(flags.take(from) =~= flags);
        assert(head + Seq::<int>::empty() =~= head);
    } else {
        lemma_set_positions_split(flags, from + 1);
        lemma_next_set(flags, from);
        assert(flags.take(from + 1).drop_last() =~= flags.take(from));
        assert(flags.take(from + 1).last() == flags[from]);
        if flags[from] {
            assert(next_set(flags, from) == from);
            assert(head.push(from) + set_positions_from(flags, from + 1) =~= head + (seq![from]
                + set_positions_from(flags, from + 1)));
        } else {
            lemma_next_set(flags, from + 1);
            assert(next_set(flags, from) == next_set(flags, from + 1));
        }
    }
}

/// Walking the set flags with `next_set` from the start finds every set
/// flag once, in ascending order.
pub proof fn lemma_walk_is_set_positions(flags: Seq<bool>)
    ensures
        set_positions_from(flags, 0) == set_positions(flags),
{
    lemma_set_positions_split(flags, 0);
    assert(flags.take(0) =~= Seq::<bool>::empty());
    assert(Seq::<int>::empty() + set_positions_from(flags, 0) =~= set_positions_from(flags, 0));
}

} // verus!
