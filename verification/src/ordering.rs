//! The order items are shown in. Favourites are listed by `favorite_order` and the
//! history by `sort_order`, both highest first, with pinned items ahead of the rest.
use vstd::prelude::*;

verus! {

/// The favourite flag and order of an item after its favourite mark is toggled, given
/// the highest order among the favourites (0 when there are none): a new favourite
/// goes above all of them; one that stops being a favourite gets order 0.
pub open spec fn toggled_favorite_spec(was_favorite: bool, max_favorite_order: i64) -> (bool, int) {
    if was_favorite {
        (false, 0)
    } else {
        (true, max_favorite_order + 1)
    }
}

/// The favourite flag and order of an item after its favourite mark is toggled.
pub fn toggled_favorite(was_favorite: bool, max_favorite_order: i64) -> (r: (bool, i64))
    requires
        was_favorite || max_favorite_order < i64::MAX,
    ensures
        (r.0, r.1 as int) == toggled_favorite_spec(was_favorite, max_favorite_order),
{
    if was_favorite {
        (false, 0)
    } else {
        (true, max_favorite_order + 1)
    }
}

/// The sort order an item takes when it is moved to the top of the history after a
/// paste, given the highest sort order stored (0 when the history is empty); a pinned
/// item keeps its place (`None`).
pub open spec fn bumped_sort_order_spec(is_pinned: bool, max_sort_order: i64) -> Option<int> {
    if is_pinned {
        None
    } else {
        Some(max_sort_order + 1)
    }
}

/// The sort order an item takes when it is moved to the top of the history.
pub fn bumped_sort_order(is_pinned: bool, max_sort_order: i64) -> (r: Option<i64>)
    requires
        max_sort_order < i64::MAX,
    ensures
        match r {
            Some(o) => bumped_sort_order_spec(is_pinned, max_sort_order) == Some(o as int),
            None => bumped_sort_order_spec(is_pinned, max_sort_order) is None,
        },
{
    let next = max_sort_order + 1;
    if is_pinned {
        None
    } else {
        Some(next)
    }
}

/// A new favourite is shown before every other favourite, and toggling twice leaves an
/// item without the mark and with order 0.
pub proof fn lemma_new_favorite_shown_first(orders: Seq<i64>, max_favorite_order: i64)
    requires
        forall|k: int| 0 <= k < orders.len() ==> #[trigger] orders[k] <= max_favorite_order,
    ensures
        toggled_favorite_spec(false, max_favorite_order).0,
        forall|k: int|
            0 <= k < orders.len() ==> #[trigger] orders[k] < toggled_favorite_spec(
                false,
                max_favorite_order,
            ).1,
        toggled_favorite_spec(true, max_favorite_order) == (false, 0int),
{
}

/// An item moved to the top comes before every item of the history that is not
/// pinned; a pinned item is not moved.
pub proof fn lemma_bumped_item_shown_first(orders: Seq<i64>, max_sort_order: i64)
    requires
        forall|k: int| 0 <= k < orders.len() ==> #[trigger] orders[k] <= max_sort_order,
    ensures
        forall|k: int|
            0 <= k < orders.len() ==> (#[trigger] orders[k]) < bumped_sort_order_spec(
                false,
                max_sort_order,
            )->0,
        bumped_sort_order_spec(true, max_sort_order) is None,
{
}

/// The position of row `i` within its run of consecutive rows of the same group,
/// counted from 1.
pub open spec fn run_position(groups: Seq<Option<i64>>, i: int) -> int
    decreases i,
{
    if i <= 0 {
        1
    } else if groups[i - 1] != groups[i] {
        1
    } else {
        run_position(groups, i - 1) + 1
    }
}

/// Within a run of rows of one group the orders count up by one a row, from 1 at the
/// run's first row; so the later a row comes in the run, the higher its order.
pub proof fn lemma_orders_count_up_within_group(groups: Seq<Option<i64>>, i: int, j: int)
    requires
        0 <= i <= j < groups.len(),
        forall|k: int| i <= k <= j ==> #[trigger] groups[k] == groups[i],
    ensures
        run_position(groups, j) == run_position(groups, i) + (j - i),
        run_position(groups, j) >= 1,
    decreases j - i,
{
    lemma_run_position_positive(groups, j);
    if j > i {
        assert(groups[j - 1] == groups[j]);
        lemma_orders_count_up_within_group(groups, i, j - 1);
    }
}

proof fn lemma_run_position_positive(groups: Seq<Option<i64>>, i: int)
    ensures
        run_position(groups, i) >= 1,
    decreases i,
{
    if i > 0 {
        lemma_run_position_positive(groups, i - 1);
    }
}

/// The sort orders given to rows listed by group, and within a group oldest first:
/// each group counts 1, 2, 3, … in the order listed, so its newest row ends up highest.
pub fn group_sort_orders(groups: &[Option<i64>]) -> (orders: Vec<i64>)
    requires
        groups@.len() < i64::MAX,
    ensures
        orders@.len() == groups@.len(),
        forall|i: int| 0 <= i < groups@.len() ==> #[trigger] orders@[i] == run_position(groups@, i),
{
    let mut orders: Vec<i64> = Vec::new();
    let mut last_group: Option<i64> = None;
    let mut counter: i64 = 0;
    let mut i: usize = 0;
    while i < groups.len()
        invariant
            i <= groups@.len(),
            groups@.len() < i64::MAX,
            orders@.len() == i,
            forall|j: int| 0 <= j < i ==> #[trigger] orders@[j] == run_position(groups@, j),
            i > 0 ==> last_group == groups@[i - 1] && counter == run_position(groups@, i - 1),
            i == 0 ==> last_group is None && counter == 0,
            0 <= counter <= i,
        decreases groups.len() - i,
    {
        let g = groups[i];
        if last_group != g {
            counter = 1;
            last_group = g;
        } else {
            counter += 1;
        }
        orders.push(counter);
        i += 1;
    }
    orders
}

} // verus!
