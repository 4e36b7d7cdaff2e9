//! What holds of the library as a whole.
use vstd::prelude::*;

use crate::allocator::{Allocator, Source};
use crate::batch::Batch;
use crate::borrows::{counted_up, granted, is_last};
use crate::cleanup_list::{
    answered, at_most, one_added, one_taken, several_taken, Garbage, Parcel, QueueStorageBox,
};
use crate::destruction::destroyed;
use crate::lease::{asked_once, settled};
use crate::queue::Queue;
use crate::remote_drop::{RArc, RBox};

verus! {

/// What can happen to a cleanup list.
pub enum ListEvent<X> {
    /// A value joins the list.
    Add(X),
    /// Up to so many values are taken off the list.
    Collect(nat),
}

/// The list after one event.
pub open spec fn list_after<X>(list: Seq<X>, event: ListEvent<X>) -> Seq<X> {
    match event {
        ListEvent::Add(item) => seq![item] + list,
        ListEvent::Collect(n) => list.skip(at_most(n, list) as int),
    }
}

/// The values that one event takes off the list.
pub open spec fn taken_by<X>(list: Seq<X>, event: ListEvent<X>) -> Seq<X> {
    match event {
        ListEvent::Add(_) => Seq::empty(),
        ListEvent::Collect(n) => list.take(at_most(n, list) as int),
    }
}

/// The values that one event puts on the list.
pub open spec fn added_by<X>(event: ListEvent<X>) -> Seq<X> {
    match event {
        ListEvent::Add(item) => seq![item],
        ListEvent::Collect(_) => Seq::empty(),
    }
}

/// The list after a number of events, first to last.
pub open spec fn list_after_all<X>(list: Seq<X>, events: Seq<ListEvent<X>>) -> Seq<X>
    decreases events.len(),
{
    if events.len() == 0 {
        list
    } else {
        list_after(list_after_all(list, events.drop_last()), events.last())
    }
}

/// All that a number of events take off the list, in the order in which they
/// do.
pub open spec fn taken_by_all<X>(list: Seq<X>, events: Seq<ListEvent<X>>) -> Seq<X>
    decreases events.len(),
{
    if events.len() == 0 {
        Seq::empty()
    } else {
        taken_by_all(list, events.drop_last()) + taken_by(
            list_after_all(list, events.drop_last()),
            events.last(),
        )
    }
}

/// All that a number of events put on the list, in the order in which they do.
pub open spec fn added_by_all<X>(events: Seq<ListEvent<X>>) -> Seq<X>
    decreases events.len(),
{
    if events.len() == 0 {
        Seq::empty()
    } else {
        added_by_all(events.drop_last()) + added_by(events.last())
    }
}

/// A value that is put on a queue joins the list.
pub proof fn law_dropping_is_an_addition<T: Send + 'static, A>(
    queue: Queue<A>,
    found: Seq<QueueStorageBox<A>>,
    left: Seq<QueueStorageBox<A>>,
    item: Parcel<T, A>,
)
    requires
        queue.added(found, left, item),
    ensures
        left == list_after(found, ListEvent::Add(item.stored())),
{
}

/// Taking one value off the list is a collection of at most one.
pub proof fn law_one_is_a_collection<A>(
    before: Seq<QueueStorageBox<A>>,
    after: Seq<QueueStorageBox<A>>,
    taken: Option<Garbage<A>>,
)
    requires
        one_taken(before, after, taken),
    ensures
        after == list_after(before, ListEvent::Collect(1)),
        taken matches Some(garbage) ==> taken_by(before, ListEvent::Collect(1)).len() == 1
            && garbage.holds(taken_by(before, ListEvent::Collect(1))[0]),
        taken is None ==> taken_by(before, ListEvent::Collect(1)).len() == 0,
{
}

/// Taking several values off the list is a collection of at most so many.
pub proof fn law_several_are_a_collection<A>(
    n: nat,
    before: Seq<QueueStorageBox<A>>,
    after: Seq<QueueStorageBox<A>>,
    taken: Seq<Garbage<A>>,
)
    requires
        several_taken(n, before, after, taken),
    ensures
        after == list_after(before, ListEvent::Collect(n)),
        taken.len() == taken_by(before, ListEvent::Collect(n)).len(),
        forall|i: int|
            0 <= i < taken.len() ==> (#[trigger] taken[i]).holds(
                taken_by(before, ListEvent::Collect(n))[i],
            ),
{
}

/// A collection from a queue leaves all but what it counts: after it has counted `n`
/// values, the list is as before without its first `n`, and `n` is the most that was
/// wanted unless nothing is left.
pub proof fn law_collection_takes_what_it_counts<A, const N: usize>(
    queue: Queue<A>,
    found: Seq<QueueStorageBox<A>>,
    left: Seq<QueueStorageBox<A>>,
    taken: Batch<Garbage<A>, N>,
)
    requires
        queue.took_several(found, left, taken),
    ensures
        taken@.len() <= N,
        taken@.len() + left.len() == found.len(),
        forall|i: int| 0 <= i < left.len() ==> #[trigger] left[i] == found[taken@.len() + i],
        taken@.len() < N ==> left.len() == 0,
{
}

/// What joined the list last is taken off it first, and the list is then as it
/// was before.
pub proof fn law_last_in_first_out<A>(
    list: Seq<QueueStorageBox<A>>,
    item: QueueStorageBox<A>,
    after: Seq<QueueStorageBox<A>>,
    taken: Option<Garbage<A>>,
)
    requires
        one_taken(seq![item] + list, after, taken),
    ensures
        taken matches Some(garbage) && garbage.holds(item),
        after == list,
{
    assert((seq![item] + list).drop_first() =~= list);
}

/// When what holds a value is destroyed the value is, and the allocator that gave
/// room for it gets it back, all of it.
pub proof fn law_memory_goes_back<T: Send + 'static, A: Allocator>(
    parcel: Parcel<T, A>,
    garbage: Garbage<A>,
)
    requires
        garbage.holds(parcel.stored()),
        garbage.was_destroyed(),
    ensures
        destroyed(parcel.stored().the_box),
        call_ensures(A::deallocate, (&parcel.allocator(), parcel.size()), ()),
        settled(parcel.lease(), A::deallocate, parcel.stored().the_box),
{
    garbage.lemma_holds_one(parcel.stored());
}

/// How many bytes were granted for boxes.
pub open spec fn granted_for<T: Send + 'static, A: 'static>(boxes: Seq<RBox<T, A>>) -> nat
    decreases boxes.len(),
{
    if boxes.len() == 0 {
        0
    } else {
        granted_for(boxes.drop_last()) + boxes.last().parcel().size() as nat
    }
}

/// How many bytes an allocator gets back when this is destroyed.
pub open spec fn bytes_in<A>(garbage: Garbage<A>) -> nat {
    (choose|item: QueueStorageBox<A>| garbage.holds(item)).lease.size() as nat
}

/// How many bytes allocators get back when all of these are destroyed.
pub open spec fn returned_by<A>(garbage: Seq<Garbage<A>>) -> nat
    decreases garbage.len(),
{
    if garbage.len() == 0 {
        0
    } else {
        returned_by(garbage.drop_last()) + bytes_in(garbage.last())
    }
}

/// The books balance. Each box that was made stands for one request that was
/// granted; when what is left of the boxes has been destroyed, each grant was
/// returned, to the allocator that made it, as one piece of the size that was
/// asked for; and as many bytes went back as were granted.
pub proof fn law_books_balance<T: Send + 'static, A: Allocator + 'static>(
    boxes: Seq<RBox<T, A>>,
    garbage: Seq<Garbage<A>>,
)
    requires
        garbage.len() == boxes.len(),
        forall|i: int|
            0 <= i < boxes.len() ==> {
                let parcel = (#[trigger] boxes[i]).parcel();
                parcel.allocator().asked(parcel.size(), Ok(()))
            },
        forall|i: int|
            0 <= i < boxes.len() ==> garbage[i].holds((#[trigger] boxes[i]).parcel().stored()),
        forall|i: int| 0 <= i < garbage.len() ==> (#[trigger] garbage[i]).was_destroyed(),
    ensures
        forall|i: int|
            0 <= i < boxes.len() ==> {
                let parcel = (#[trigger] boxes[i]).parcel();
                &&& answered(parcel.allocator(), parcel.size(), Ok(()))
                &&& asked_once(parcel.allocator(), parcel.size(), A::allocate, Ok(()))
                &&& settled(parcel.lease(), A::deallocate, parcel.stored().the_box)
                &&& call_ensures(A::deallocate, (&parcel.allocator(), parcel.size()), ())
            },
        returned_by(garbage) == granted_for(boxes),
    decreases boxes.len(),
{
    if boxes.len() > 0 {
        let n = boxes.len() - 1;
        assert forall|i: int| 0 <= i < n implies garbage.drop_last()[i].holds(
            (#[trigger] boxes.drop_last()[i]).parcel().stored(),
        ) by {
            assert(boxes.drop_last()[i] == boxes[i]);
        }
        assert forall|i: int| 0 <= i < n implies (
        #[trigger] garbage.drop_last()[i]).was_destroyed() by {
            assert(garbage.drop_last()[i] == garbage[i]);
        }
        law_books_balance(boxes.drop_last(), garbage.drop_last());
        let parcel = boxes[n].parcel();
        law_memory_goes_back(parcel, garbage[n]);
        garbage[n].lemma_holds_one(parcel.stored());
        assert forall|i: int| 0 <= i < n implies {
            let parcel = (#[trigger] boxes[i]).parcel();
            &&& answered(parcel.allocator(), parcel.size(), Ok(()))
            &&& asked_once(parcel.allocator(), parcel.size(), A::allocate, Ok(()))
            &&& settled(parcel.lease(), A::deallocate, parcel.stored().the_box)
            &&& call_ensures(A::deallocate, (&parcel.allocator(), parcel.size()), ())
        } by {
            assert(boxes.drop_last()[i] == boxes[i]);
        }
    }
}

/// Two collections in a row take what one collection of their combined size
/// takes.
pub proof fn law_collections_add_up<A>(
    n: nat,
    m: nat,
    before: Seq<QueueStorageBox<A>>,
    between: Seq<QueueStorageBox<A>>,
    after: Seq<QueueStorageBox<A>>,
    first: Seq<Garbage<A>>,
    second: Seq<Garbage<A>>,
)
    requires
        several_taken(n, before, between, first),
        several_taken(m, between, after, second),
    ensures
        several_taken(n + m, before, after, first + second),
{
    let taken = first + second;
    assert forall|i: int| 0 <= i < taken.len() implies (#[trigger] taken[i]).holds(before[i]) by {
        if i < first.len() {
            assert(taken[i] == first[i]);
        } else {
            assert(taken[i] == second[i - first.len()]);
        }
    }
    assert(after =~= before.skip(taken.len() as int));
}

/// A collection that takes fewer values than it may has emptied the list, so that
/// there is nothing for the next one.
pub proof fn law_short_collection_empties<A>(
    n: nat,
    before: Seq<QueueStorageBox<A>>,
    after: Seq<QueueStorageBox<A>>,
    taken: Seq<Garbage<A>>,
)
    requires
        several_taken(n, before, after, taken),
        taken.len() < n,
    ensures
        after.len() == 0,
        one_taken(after, after, None),
{
}

/// Collecting one value after the other, `n` times, takes what one collection of
/// `n` takes, in the same order, and leaves the same list.
pub proof fn law_single_collections_add_up<X>(list: Seq<X>, n: nat)
    ensures
        list_after_all(list, Seq::new(n, |i: int| ListEvent::Collect(1))) == list_after(
            list,
            ListEvent::Collect(n),
        ),
        taken_by_all(list, Seq::new(n, |i: int| ListEvent::Collect(1))) == taken_by(
            list,
            ListEvent::Collect(n),
        ),
    decreases n,
{
    let events = Seq::new(n, |i: int| ListEvent::<X>::Collect(1));
    if n == 0 {
        assert(list.skip(0) =~= list);
        assert(list.take(0) =~= Seq::<X>::empty());
    } else {
        let m = (n - 1) as nat;
        law_single_collections_add_up(list, m);
        assert(events.drop_last() =~= Seq::new(m, |i: int| ListEvent::<X>::Collect(1)));
        let k = at_most(m, list) as int;
        let rest = list.skip(k);
        let l = at_most(1, rest) as int;
        assert(rest.skip(l) =~= list.skip(at_most(n, list) as int));
        assert(list.take(k) + rest.take(l) =~= list.take(at_most(n, list) as int));
    }
}

/// Collecting one value after the other, as often as there are values, empties
/// the list: it then holds nothing more to collect, and each value came out once,
/// in the order of the list.
pub proof fn law_collecting_one_by_one_drains<X>(list: Seq<X>)
    ensures
        list_after_all(list, Seq::new(list.len(), |i: int| ListEvent::Collect(1))) == Seq::<
            X,
        >::empty(),
        taken_by_all(list, Seq::new(list.len(), |i: int| ListEvent::Collect(1))) == list,
{
    law_single_collections_add_up(list, list.len());
    assert(list.skip(list.len() as int) =~= Seq::<X>::empty());
    assert(list.take(list.len() as int) =~= list);
}

/// As long as nothing is collected, no value leaves the list, however many join
/// it; and they wait in the reverse of the order in which they came.
pub proof fn law_nothing_leaves_uncollected<X>(list: Seq<X>, events: Seq<ListEvent<X>>)
    requires
        forall|i: int| 0 <= i < events.len() ==> #[trigger] events[i] is Add,
    ensures
        taken_by_all(list, events) == Seq::<X>::empty(),
        list_after_all(list, events) == added_by_all(events).reverse() + list,
    decreases events.len(),
{
    if events.len() == 0 {
        assert(added_by_all(events).reverse() + list =~= list);
    } else {
        let prefix = events.drop_last();
        assert forall|i: int| 0 <= i < prefix.len() implies #[trigger] prefix[i] is Add by {
            assert(prefix[i] == events[i]);
        }
        law_nothing_leaves_uncollected(list, prefix);
        let item = events.last()->Add_0;
        assert(events.last() is Add);
        let added = added_by_all(prefix);
        assert(seq![item] + (added.reverse() + list) =~= (added + seq![item]).reverse() + list);
    }
}

/// Whatever happens to a list, what it held at first and what joined it is what
/// was taken off it and what it still holds. No value is lost and none is taken
/// twice.
pub proof fn law_every_value_leaves_once<X>(list: Seq<X>, events: Seq<ListEvent<X>>)
    ensures
        (list + added_by_all(events)).to_multiset() == (taken_by_all(list, events)
            + list_after_all(list, events)).to_multiset(),
    decreases events.len(),
{
    broadcast use vstd::seq_lib::group_to_multiset_ensures;

    if events.len() == 0 {
        assert(list + added_by_all(events) =~= taken_by_all(list, events) + list_after_all(
            list,
            events,
        ));
    } else {
        let prefix = events.drop_last();
        let event = events.last();
        law_every_value_leaves_once(list, prefix);
        let added = added_by_all(prefix);
        let taken = taken_by_all(list, prefix);
        let rest = list_after_all(list, prefix);
        vstd::seq_lib::lemma_multiset_commutative(list, added);
        vstd::seq_lib::lemma_multiset_commutative(taken, rest);
        assert(list + added_by_all(events) =~= (list + added) + added_by(event));
        vstd::seq_lib::lemma_multiset_commutative(list + added, added_by(event));
        match event {
            ListEvent::Add(item) => {
                assert(taken_by_all(list, events) + list_after_all(list, events) =~= taken + (seq![
                    item,
                ] + rest));
                vstd::seq_lib::lemma_multiset_commutative(taken, seq![item] + rest);
                vstd::seq_lib::lemma_multiset_commutative(seq![item], rest);
            },
            ListEvent::Collect(n) => {
                let k = at_most(n, rest) as int;
                assert(taken_by_all(list, events) + list_after_all(list, events) =~= taken + rest)
                    by {
                    assert(rest =~= rest.take(k) + rest.skip(k));
                }
                assert((list + added) + added_by(event) =~= list + added);
            },
        }
    }
}

/// When boxes of one queue are dropped, each puts its value on the list once,
/// whatever the order in which the queue gets to them: it holds them all, last
/// first, in front of what it held before, and nothing else.
pub proof fn law_each_dropped_box_is_queued_once<T: Send + 'static, A: 'static>(
    queue: Queue<A>,
    boxes: Seq<RBox<T, A>>,
    lists: Seq<Seq<QueueStorageBox<A>>>,
)
    requires
        lists.len() == boxes.len() + 1,
        forall|i: int| 0 <= i < boxes.len() ==> (#[trigger] boxes[i]).queue() == queue,
        forall|i: int|
            0 <= i < boxes.len() ==> queue.added(
                lists[i],
                lists[i + 1],
                (#[trigger] boxes[i]).parcel(),
            ),
    ensures
        lists.last() == stored_in(boxes).reverse() + lists[0],
        lists.last().to_multiset() == stored_in(boxes).to_multiset().add(lists[0].to_multiset()),
    decreases boxes.len(),
{
    broadcast use vstd::seq_lib::group_to_multiset_ensures;

    if boxes.len() == 0 {
        assert(stored_in(boxes).reverse() + lists[0] =~= lists[0]);
        assert(stored_in(boxes) + lists[0] =~= lists[0]);
    } else {
        let fewer = boxes.drop_last();
        let item = boxes.last().parcel().stored();
        let n = fewer.len() as int;
        assert(boxes.last() == boxes[n]);
        assert forall|i: int| 0 <= i < fewer.len() implies queue.added(
            lists.drop_last()[i],
            lists.drop_last()[i + 1],
            (#[trigger] fewer[i]).parcel(),
        ) by {
            assert(fewer[i] == boxes[i]);
        }
        law_each_dropped_box_is_queued_once(queue, fewer, lists.drop_last());
        assert(stored_in(boxes) =~= stored_in(fewer).push(item));
        assert(one_added(lists[n], lists[n + 1], item));
        assert(lists.last() =~= stored_in(boxes).reverse() + lists[0]);
        vstd::seq_lib::lemma_multiset_commutative(seq![item], lists[n]);
        assert(seq![item] =~= Seq::empty().push(item));
        assert(lists.last().to_multiset() =~= stored_in(boxes).to_multiset().add(
            lists[0].to_multiset(),
        ));
    }
}

/// What the list holds of boxes that have been dropped, in their order.
pub open spec fn stored_in<T: Send + 'static, A: 'static>(
    boxes: Seq<RBox<T, A>>,
) -> Seq<QueueStorageBox<A>> {
    boxes.map_values(|b: RBox<T, A>| b.parcel().stored())
}

/// What can happen to the handles of a shared item.
pub enum HandleEvent {
    /// A handle is cloned.
    Clone,
    /// A handle is dropped.
    Drop,
}

/// The count after one event.
pub open spec fn count_after(count: int, event: HandleEvent) -> int {
    match event {
        HandleEvent::Clone => count + 1,
        HandleEvent::Drop => count - 1,
    }
}

/// One event, when there are `count` in the count, puts the item on the queue.
pub open spec fn queues(count: int, event: HandleEvent) -> bool {
    event is Drop && is_last(count as nat)
}

/// One event, when there are `count` in the count, asks for a handle and gets none.
pub open spec fn refused(count: int, event: HandleEvent) -> bool {
    event is Clone && !granted(count as nat)
}

/// The count after a number of events, first to last, which started from one
/// handle.
pub open spec fn count_after_all(events: Seq<HandleEvent>) -> int
    decreases events.len(),
{
    if events.len() == 0 {
        1
    } else {
        count_after(count_after_all(events.drop_last()), events.last())
    }
}

/// How many of these events ask for a handle and get none.
pub open spec fn refusals(events: Seq<HandleEvent>) -> nat
    decreases events.len(),
{
    if events.len() == 0 {
        0
    } else {
        refusals(events.drop_last()) + if refused(
            count_after_all(events.drop_last()),
            events.last(),
        ) {
            1nat
        } else {
            0nat
        }
    }
}

/// The handles that are out after a number of events, one being out at first.
pub open spec fn handles_after_all(events: Seq<HandleEvent>) -> int
    decreases events.len(),
{
    if events.len() == 0 {
        1
    } else if refused(count_after_all(events.drop_last()), events.last()) {
        handles_after_all(events.drop_last())
    } else {
        count_after(handles_after_all(events.drop_last()), events.last())
    }
}

/// The count is the number of handles, and of handles that were refused.
pub proof fn law_count_is_number_of_handles(events: Seq<HandleEvent>)
    ensures
        count_after_all(events) == handles_after_all(events) + refusals(events),
    decreases events.len(),
{
    if events.len() > 0 {
        law_count_is_number_of_handles(events.drop_last());
    }
}

/// Only handles that are out are cloned and dropped, and none is refused.
pub open spec fn orderly(events: Seq<HandleEvent>) -> bool {
    &&& refusals(events) == 0
    &&& forall|i: int| 0 <= i < events.len() ==> 0 < #[trigger] handles_after_all(events.take(i))
}

proof fn lemma_refusals_grow(events: Seq<HandleEvent>, n: int)
    requires
        0 <= n <= events.len(),
    ensures
        refusals(events.take(n)) <= refusals(events),
    decreases events.len(),
{
    if n == events.len() {
        assert(events.take(n) =~= events);
    } else {
        lemma_refusals_grow(events.drop_last(), n);
        assert(events.drop_last().take(n) =~= events.take(n));
    }
}

/// The item is queued by the event that leaves no handle, and by no other.
pub proof fn law_last_drop_queues_once(events: Seq<HandleEvent>, i: int)
    requires
        orderly(events),
        0 <= i < events.len(),
    ensures
        queues(count_after_all(events.take(i)), events[i]) <==> i + 1 == events.len()
            && handles_after_all(events) == 0,
{
    lemma_refusals_grow(events, i);
    lemma_refusals_grow(events, i + 1);
    law_count_is_number_of_handles(events.take(i));
    law_count_is_number_of_handles(events.take(i + 1));
    let next = events.take(i + 1);
    assert(next.drop_last() =~= events.take(i));
    assert(next.last() == events[i]);
    if i + 1 == events.len() {
        assert(next =~= events);
    } else {
        assert(0 < handles_after_all(events.take(i + 1)));
    }
}

/// A refused handle stays in the count, so that the item is never queued.
pub proof fn law_refusal_keeps_item(events: Seq<HandleEvent>, i: int)
    requires
        0 <= i < events.len(),
        0 < handles_after_all(events.take(i)),
        0 < refusals(events.take(i)),
    ensures
        !queues(count_after_all(events.take(i)), events[i]),
{
    law_count_is_number_of_handles(events.take(i));
}

/// When all clones of a value are dropped, and each finds one less in the count, the
/// last one finds itself alone, and no other does. It takes the value from its slot
/// and puts it on the queue.
pub proof fn law_last_of_all_clones_queues<
    T: Send + Sync + 'static,
    A: 'static,
>(clones: Seq<RArc<T, A>>, found: Seq<usize>)
    requires
        clones.len() > 0,
        found.len() == clones.len(),
        forall|i: int| 0 <= i < clones.len() ==> (#[trigger] clones[i]).shared() == clones[0].shared(),
        forall|i: int| 0 <= i < clones.len() ==> (#[trigger] clones[i]).ticket().live(),
        forall|i: int| 0 <= i < clones.len() ==> (#[trigger] clones[i]).ticket().given_back(found[i]),
        found[0] == clones.len(),
        forall|i: int| 0 < i < found.len() ==> #[trigger] found[i] == found[i - 1] - 1,
    ensures
        forall|i: int| 0 <= i < clones.len() - 1 ==> !is_last((#[trigger] found[i]) as nat),
        is_last(found.last() as nat),
        clones.last().ticket().took_item(),
        clones.last().ticket().queued(),
{
    assert forall|i: int| 0 <= i < found.len() implies (#[trigger] found[i]) == found.len() - i by {
        lemma_counting_down(found, i);
    }
    let n = clones.len() - 1;
    assert(clones.last() == clones[n]);
    assert(clones[n].ticket().given_back(found[n]));
}

/// A number of clones, and then a number of drops.
pub open spec fn clones_then_drops(clones: nat, drops: nat) -> Seq<HandleEvent> {
    Seq::new(clones, |i: int| HandleEvent::Clone) + Seq::new(drops, |i: int| HandleEvent::Drop)
}

proof fn lemma_count_of_clones_then_drops(clones: nat, drops: nat)
    ensures
        count_after_all(clones_then_drops(clones, drops)) == 1 + clones - drops,
    decreases clones + drops,
{
    let events = clones_then_drops(clones, drops);
    if drops > 0 {
        lemma_count_of_clones_then_drops(clones, (drops - 1) as nat);
        assert(events.drop_last() =~= clones_then_drops(clones, (drops - 1) as nat));
    } else if clones > 0 {
        lemma_count_of_clones_then_drops((clones - 1) as nat, drops);
        assert(events.drop_last() =~= clones_then_drops((clones - 1) as nat, drops));
    }
}

/// A first handle and its clones, all dropped, queue the value with the last drop, and
/// with no other: each clone stands for one in the count, and each drop takes one.
pub proof fn law_as_many_drops_as_handles_queue<T: Send + Sync + 'static, A: 'static>(
    handles: Seq<RArc<T, A>>,
    found: Seq<usize>,
)
    requires
        handles.len() > 0,
        found.len() == handles.len(),
        handles[0].is_first(),
        forall|i: int|
            0 <= i < handles.len() ==> (#[trigger] handles[i]).shared() == handles[0].shared(),
        forall|i: int| 0 <= i < handles.len() ==> (#[trigger] handles[i]).ticket().live(),
        forall|i: int|
            0 <= i < handles.len() ==> (#[trigger] handles[i]).ticket().given_back(found[i]),
        forall|i: int|
            0 <= i < found.len() ==> #[trigger] found[i] == count_after_all(
                clones_then_drops((handles.len() - 1) as nat, i as nat),
            ),
    ensures
        forall|i: int|
            0 <= i < handles.len() ==> (is_last((#[trigger] found[i]) as nat) <==> i
                == handles.len() - 1),
        handles.last().ticket().queued(),
{
    let n = (handles.len() - 1) as nat;
    assert forall|i: int| 0 <= i < found.len() implies (#[trigger] found[i]) == found.len() - i by {
        lemma_count_of_clones_then_drops(n, i as nat);
    }
    law_last_of_all_clones_queues(handles, found);
}

proof fn lemma_counting_down(found: Seq<usize>, i: int)
    requires
        0 <= i < found.len(),
        found[0] == found.len(),
        forall|k: int| 0 < k < found.len() ==> #[trigger] found[k] == found[k - 1] - 1,
    ensures
        found[i] == found.len() - i,
    decreases i,
{
    if i > 0 {
        lemma_counting_down(found, i - 1);
    }
}

/// Dropping a clone undoes making it: if nobody used the count in between, it is
/// as before, and the clone was not the last.
pub proof fn law_drop_undoes_clone<T: Send + Sync + 'static, A: 'static>(
    handle: RArc<T, A>,
    clone: RArc<T, A>,
    before: usize,
    found: usize,
)
    requires
        counted_up(&handle.shared().count(), before),
        before > 0,
        clone.shared() == handle.shared(),
        clone.ticket().given_back(found),
        found == count_after(before as int, HandleEvent::Clone),
    ensures
        count_after(found as int, HandleEvent::Drop) == before,
        !is_last(found as nat),
        !queues(found as int, HandleEvent::Drop),
{
}

} // verus!
