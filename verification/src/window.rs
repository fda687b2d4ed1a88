use vstd::prelude::*;

verus! {

/// The items of a sliding window that keeps the most recent `max` items,
/// after `item` arrives: the oldest leaves first when the window is full, and
/// a window of no items keeps nothing.
pub open spec fn window_after<T>(items: Seq<T>, max: usize, item: T) -> Seq<T> {
    if max == 0 {
        Seq::empty()
    } else if items.len() >= max {
        items.drop_first().push(item)
    } else {
        items.push(item)
    }
}

/// Adds `item` to a sliding window of at most `max` items; see
/// `window_after`.
pub fn window_push<T>(items: &mut Vec<T>, max: usize, item: T)
    ensures
        final(items)@ == window_after(old(items)@, max, item),
{
    if max == 0 {
        items.clear();
        return;
    }
    if items.len() >= max {
        items.remove(0);
    }
    items.push(item);
}

/// A window that holds no more than `max` items keeps doing so, and, unless
/// it keeps no items at all, ends with the newest item.
pub proof fn law_window_stays_bounded<T>(items: Seq<T>, max: usize, item: T)
    requires
        items.len() <= max,
    ensures
        window_after(items, max, item).len() <= max,
        max > 0 ==> window_after(items, max, item).last() == item,
{
}

/// Below its limit, the window loses nothing.
pub proof fn law_window_keeps_all_below_limit<T>(items: Seq<T>, max: usize, item: T)
    requires
        items.len() < max,
    ensures
        window_after(items, max, item) == items.push(item),
{
}

} // verus!
