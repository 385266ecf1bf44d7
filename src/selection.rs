use vstd::prelude::*;

verus! {

/// The items of `items` whose flag equals `keep`, in their original order.
pub open spec fn select<A>(items: Seq<A>, flags: Seq<bool>, keep: bool) -> Seq<A>
    decreases items.len(),
{
    if items.len() == 0 || flags.len() == 0 {
        Seq::empty()
    } else {
        let rest = select(items.drop_last(), flags.drop_last(), keep);
        if flags.last() == keep {
            rest.push(items.last())
        } else {
            rest
        }
    }
}

/// The views of a sequence of strings.
pub open spec fn views(v: Seq<String>) -> Seq<Seq<char>> {
    v.map_values(|s: String| s@)
}

/// Selecting the kept items and the dropped items splits the input in two.
pub proof fn lemma_select_partition<A>(items: Seq<A>, flags: Seq<bool>)
    requires
        items.len() == flags.len(),
    ensures
        select(items, flags, true).len() + select(items, flags, false).len() == items.len(),
    decreases items.len(),
{
    if items.len() > 0 {
        lemma_select_partition(items.drop_last(), flags.drop_last());
    }
}

/// An item is selected exactly when it stands at some position whose flag is `keep`.
pub proof fn lemma_select_contains<A>(items: Seq<A>, flags: Seq<bool>, keep: bool, x: A)
    requires
        items.len() == flags.len(),
    ensures
        select(items, flags, keep).contains(x) <==> exists|i: int|
            0 <= i < items.len() && items[i] == x && flags[i] == keep,
    decreases items.len(),
{
    if items.len() > 0 {
        let n = items.len() - 1;
        let its = items.drop_last();
        let fls = flags.drop_last();
        lemma_select_contains(its, fls, keep, x);
        let rest = select(its, fls, keep);
        let all = select(items, flags, keep);
        if exists|i: int| 0 <= i < items.len() && items[i] == x && flags[i] == keep {
            let i = choose|i: int| 0 <= i < items.len() && items[i] == x && flags[i] == keep;
            if i < n {
                assert(its[i] == x && fls[i] == keep);
                let k = choose|k: int| 0 <= k < rest.len() && rest[k] == x;
                if flags.last() == keep {
                    assert(all[k] == x);
                } else {
                    assert(all[k] == x);
                }
            } else {
                assert(all[all.len() - 1] == x);
            }
            assert(all.contains(x));
        }
        if all.contains(x) {
            let k = choose|k: int| 0 <= k < all.len() && all[k] == x;
            if k < rest.len() {
                assert(rest[k] == x);
                assert(rest.contains(x));
                let i = choose|i: int| 0 <= i < its.len() && its[i] == x && fls[i] == keep;
                assert(items[i] == x && flags[i] == keep);
            } else {
                assert(items[n] == x && flags[n] == keep);
            }
        }
    }
}

/// One more step of `select` over the first `i + 1` items.
pub proof fn lemma_select_step<A>(items: Seq<A>, flags: Seq<bool>, keep: bool, i: int)
    requires
        0 <= i < items.len(),
        items.len() == flags.len(),
    ensures
        select(items.take(i + 1), flags.take(i + 1), keep) == if flags[i] == keep {
            select(items.take(i), flags.take(i), keep).push(items[i])
        } else {
            select(items.take(i), flags.take(i), keep)
        },
{
    assert(items.take(i + 1).drop_last() =~= items.take(i));
    assert(flags.take(i + 1).drop_last() =~= flags.take(i));
}

/// How many items are selected depends on the flags alone.
pub proof fn lemma_select_len<A, B>(a: Seq<A>, b: Seq<B>, flags: Seq<bool>, keep: bool)
    requires
        a.len() == b.len(),
        a.len() == flags.len(),
    ensures
        select(a, flags, keep).len() == select(b, flags, keep).len(),
    decreases a.len(),
{
    if a.len() > 0 {
        lemma_select_len(a.drop_last(), b.drop_last(), flags.drop_last(), keep);
    }
}

/// Appending a string appends its view.
pub proof fn lemma_views_push(v: Seq<String>, x: String)
    ensures
        views(v.push(x)) == views(v).push(x@),
{
    assert(views(v.push(x)) =~= views(v).push(x@));
}

} // verus!
