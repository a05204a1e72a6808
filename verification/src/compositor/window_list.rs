//! Lists of X11 windows.

use vstd::prelude::*;

verus! {

/// A list without any occurrence of a window.
pub open spec fn without(list: Seq<u32>, window: u32) -> Seq<u32> {
    list.filter(|x: u32| x != window)
}

proof fn lemma_without_push(list: Seq<u32>, x: u32, window: u32)
    ensures
        without(list.push(x), window) == if x != window {
            without(list, window).push(x)
        } else {
            without(list, window)
        },
{
    reveal(Seq::filter);
    assert(list.push(x).drop_last() =~= list);
}

/// What was removed is no longer there.
pub proof fn lemma_without_absent(list: Seq<u32>, window: u32)
    ensures
        !without(list, window).contains(window),
{
    broadcast use vstd::seq_lib::group_filter_ensures;

}

/// Every other window stays, as often and in the same order as before.
pub proof fn lemma_without_keeps(list: Seq<u32>, window: u32, other: u32)
    ensures
        other != window ==> (without(list, window).contains(other) <==> list.contains(other)),
        !list.contains(window) ==> without(list, window) == list,
    decreases list.len(),
{
    reveal(Seq::filter);
    if list.len() > 0 {
        let init = list.drop_last();
        let last = list.last();
        lemma_without_keeps(init, window, other);
        lemma_without_push(init, last, window);
        assert(init.push(last) =~= list);
        assert(list[list.len() - 1] == last);
        let kept = without(init, window);
        if kept.contains(other) {
            let i = kept.index_of(other);
            assert(kept.push(last)[i] == other);
        }
        if init.contains(other) {
            let i = init.index_of(other);
            assert(list[i] == other);
        }
        if last != window {
            assert(kept.push(last)[kept.len() as int] == last);
        }
        if !list.contains(window) {
            assert(!init.contains(window)) by {
                if init.contains(window) {
                    let i = init.index_of(window);
                    assert(list[i] == window);
                }
            }
        }
        if without(list, window).contains(other) && last != other {
            let i = without(list, window).index_of(other);
            assert(kept[i] == other);
            assert(kept.contains(other));
        }
        if list.contains(other) && last != other {
            let i = list.index_of(other);
            assert(init[i] == other);
        }
    } else {
        assert(without(list, window) =~= list);
    }
}

/// Adding a window and removing it again leaves a list as it was.
pub proof fn lemma_without_pushed(list: Seq<u32>, window: u32)
    requires
        !list.contains(window),
    ensures
        without(list.push(window), window) == list,
        without(list, window) == list,
{
    lemma_without_push(list, window, window);
    lemma_without_keeps(list, window, window);
}

/// Removes every occurrence of a window.
pub fn remove_window(list: &mut Vec<u32>, window: u32)
    ensures
        final(list)@ == without(old(list)@, window),
{
    let mut kept: Vec<u32> = Vec::new();
    let mut i: usize = 0;
    proof {
        reveal(Seq::filter);
    }
    while i < list.len()
        invariant
            i <= list.len(),
            list@ == old(list)@,
            kept@ == without(list@.take(i as int), window),
        decreases list.len() - i,
    {
        let x: u32 = list[i];
        proof {
            assert(list@.take(i + 1) =~= list@.take(i as int).push(x));
            lemma_without_push(list@.take(i as int), x, window);
        }
        if x != window {
            kept.push(x);
        }
        i += 1;
    }
    proof {
        assert(list@.take(i as int) =~= list@);
    }
    *list = kept;
}

} // verus!
