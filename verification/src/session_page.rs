//! What a search finds: the newest of the sessions that match, a page of them.
use crate::order::{
    bytes_before, is_newest_first, law_newest_order_exists, lemma_path_total, newer, newest_order,
    path_before,
};
use crate::session_scan::LocalHit;
use crate::session_search::{
    after_found, after_listed, after_next, file_places, is_visited, keys_of, newest_last,
    next_action, places_in, start_of, ActionView, ListedEntry, NodeView, SearchState,
    FILE_DEPTH,
};
use vstd::prelude::*;

verus! {

/// What a search comes upon: what each directory lists, and for each file the hit it is, if
/// it is one.
pub struct Disk {
    pub entries: spec_fn(NodeView) -> Seq<ListedEntry>,
    pub hit: spec_fn(NodeView) -> Option<LocalHit>,
}

impl Disk {
    /// The places that a directory leads to, the newest last.
    pub open spec fn places(self, parent: NodeView) -> Seq<NodeView> {
        newest_last(places_in(parent, (self.entries)(parent)))
    }

    /// Each listing fits into memory.
    pub open spec fn can_be_listed(self) -> bool {
        forall|parent: NodeView| (#[trigger] (self.entries)(parent)).len() <= usize::MAX
    }

    /// No two entries of a directory have the same name.
    pub open spec fn has_distinct_names(self) -> bool {
        forall|parent: NodeView|
            names_differ(parent.depth, #[trigger] (self.entries)(parent))
    }
}

/// The files at or below a place, in the order in which a search comes to them, down to a
/// number of levels.
pub open spec fn files_below(disk: Disk, place: NodeView, levels: nat) -> Seq<NodeView>
    decreases levels, 0nat,
{
    if place.depth >= FILE_DEPTH {
        seq![place]
    } else if levels == 0 {
        Seq::empty()
    } else {
        files_in(disk, disk.places(place), (levels - 1) as nat)
    }
}

/// The same for a stack of places, the last of which comes first.
pub open spec fn files_in(disk: Disk, stack: Seq<NodeView>, levels: nat) -> Seq<NodeView>
    decreases levels, stack.len() + 1,
{
    if stack.len() == 0 {
        Seq::empty()
    } else {
        files_below(disk, stack.last(), levels) + files_in(disk, stack.drop_last(), levels)
    }
}

/// All files at or below a place.
pub open spec fn files_of(disk: Disk, place: NodeView) -> Seq<NodeView> {
    files_below(disk, place, FILE_DEPTH as nat)
}

/// All files that a stack of places leads to.
pub open spec fn files_ahead(disk: Disk, stack: Seq<NodeView>) -> Seq<NodeView> {
    files_in(disk, stack, FILE_DEPTH as nat)
}

/// The files among these that are hits.
pub open spec fn matching(disk: Disk, files: Seq<NodeView>) -> Seq<NodeView> {
    files.filter(|file: NodeView| (disk.hit)(file) is Some)
}

/// The hits that the first of the matching files are, at most so many.
pub open spec fn first_hits(disk: Disk, files: Seq<NodeView>, room: nat) -> Seq<LocalHit> {
    let found = matching(disk, files);
    Seq::new(
        if found.len() < room {
            found.len()
        } else {
            room
        },
        |i: int| (disk.hit)(found[i])->0,
    )
}

/// A round of a search: what is to be done next is done, and its outcome is handed back.
pub open spec fn round(disk: Disk, page_size: nat, state: SearchState) -> SearchState {
    let taken = after_next(state, page_size);
    match next_action(state, page_size) {
        ActionView::List(parent) => after_listed(taken, parent, (disk.entries)(parent)),
        ActionView::Read(file) => after_found(taken, (disk.hit)(file)),
        ActionView::Finished => taken,
    }
}

/// A number of rounds, one after the other.
pub open spec fn rounds(disk: Disk, page_size: nat, state: SearchState, n: nat) -> SearchState
    decreases n,
{
    if n == 0 {
        state
    } else {
        rounds(disk, page_size, round(disk, page_size, state), (n - 1) as nat)
    }
}

/// The page that a search is to end with: the hits it has, and behind them the hits among the
/// files ahead, the first of them, as long as there is room.
pub open spec fn page_ahead(disk: Disk, page_size: nat, state: SearchState) -> Seq<LocalHit> {
    state.hits + first_hits(
        disk,
        files_ahead(disk, state.stack),
        if state.hits.len() < page_size {
            (page_size - state.hits.len()) as nat
        } else {
            0
        },
    )
}

/// How many levels lie below a place.
pub open spec fn levels_of(place: NodeView) -> nat {
    if place.depth < FILE_DEPTH {
        (FILE_DEPTH - place.depth) as nat
    } else {
        0
    }
}

/// Every place of a stack has at most so many levels below it.
pub open spec fn within(stack: Seq<NodeView>, levels: nat) -> bool {
    forall|i: int| 0 <= i < stack.len() ==> levels_of(#[trigger] stack[i]) <= levels
}

proof fn lemma_fewer_places(parent: NodeView, entries: Seq<ListedEntry>)
    ensures
        places_in(parent, entries).len() <= entries.len(),
    decreases entries.len(),
{
    if entries.len() > 0 {
        lemma_fewer_places(parent, entries.drop_last());
    }
}

/// The places of a directory that can be listed can be ordered.
pub proof fn lemma_order_of_places(disk: Disk, parent: NodeView)
    requires
        disk.can_be_listed(),
    ensures
        ({
            let keys = keys_of(places_in(parent, (disk.entries)(parent)));
            is_newest_first(keys, newest_order(keys))
        }),
{
    let entries = (disk.entries)(parent);
    lemma_fewer_places(parent, entries);
    law_newest_order_exists(keys_of(places_in(parent, entries)));
}

proof fn lemma_places_within(disk: Disk, parent: NodeView)
    requires
        disk.can_be_listed(),
        parent.depth < FILE_DEPTH,
    ensures
        within(disk.places(parent), (levels_of(parent) - 1) as nat),
{
    let entries = (disk.entries)(parent);
    let found = places_in(parent, entries);
    let order = newest_order(keys_of(found));
    let stack = disk.places(parent);
    lemma_order_of_places(disk, parent);
    lemma_places(parent, entries);
    assert forall|i: int| 0 <= i < stack.len() implies levels_of(#[trigger] stack[i])
        <= levels_of(parent) - 1 by {
        let k = order[order.len() - 1 - i] as int;
        assert(stack[i] == found[k]);
    }
}

/// Levels below the last one hold no files.
proof fn lemma_levels(disk: Disk, place: NodeView, a: nat, b: nat)
    requires
        disk.can_be_listed(),
        levels_of(place) <= a,
        levels_of(place) <= b,
    ensures
        files_below(disk, place, a) == files_below(disk, place, b),
        work_below(disk, place, a) == work_below(disk, place, b),
    decreases a, 0nat,
{
    if place.depth < FILE_DEPTH {
        lemma_places_within(disk, place);
        lemma_levels_in(disk, disk.places(place), (a - 1) as nat, (b - 1) as nat);
    }
}

proof fn lemma_levels_in(disk: Disk, stack: Seq<NodeView>, a: nat, b: nat)
    requires
        disk.can_be_listed(),
        within(stack, a),
        within(stack, b),
    ensures
        files_in(disk, stack, a) == files_in(disk, stack, b),
        work_in(disk, stack, a) == work_in(disk, stack, b),
    decreases a, stack.len() + 1,
{
    if stack.len() > 0 {
        assert(stack.last() == stack[stack.len() - 1]);
        lemma_levels(disk, stack.last(), a, b);
        assert(within(stack.drop_last(), a) && within(stack.drop_last(), b)) by {
            assert forall|i: int| 0 <= i < stack.drop_last().len() implies levels_of(
                #[trigger] stack.drop_last()[i],
            ) <= a && levels_of(stack.drop_last()[i]) <= b by {
                assert(stack.drop_last()[i] == stack[i]);
            }
        }
        lemma_levels_in(disk, stack.drop_last(), a, b);
    }
}

proof fn lemma_stacked_on(disk: Disk, below: Seq<NodeView>, above: Seq<NodeView>, levels: nat)
    ensures
        files_in(disk, below + above, levels) == files_in(disk, above, levels) + files_in(
            disk,
            below,
            levels,
        ),
        work_in(disk, below + above, levels) == work_in(disk, above, levels) + work_in(
            disk,
            below,
            levels,
        ),
    decreases above.len(),
{
    if above.len() == 0 {
        assert(below + above =~= below);
        assert(files_in(disk, above, levels) + files_in(disk, below, levels) =~= files_in(
            disk,
            below,
            levels,
        ));
    } else {
        let all = below + above;
        assert(all.drop_last() =~= below + above.drop_last());
        lemma_stacked_on(disk, below, above.drop_last(), levels);
        assert(files_in(disk, all, levels) =~= files_in(disk, above, levels) + files_in(
            disk,
            below,
            levels,
        ));
    }
}

/// How many rounds a place takes, itself and what lies below it, down to a number of levels.
pub open spec fn work_below(disk: Disk, place: NodeView, levels: nat) -> nat
    decreases levels, 0nat,
{
    if place.depth >= FILE_DEPTH || levels == 0 {
        1
    } else {
        1 + work_in(disk, disk.places(place), (levels - 1) as nat)
    }
}

/// The same for a stack of places.
pub open spec fn work_in(disk: Disk, stack: Seq<NodeView>, levels: nat) -> nat
    decreases levels, stack.len() + 1,
{
    if stack.len() == 0 {
        0
    } else {
        work_below(disk, stack.last(), levels) + work_in(disk, stack.drop_last(), levels)
    }
}

/// How many rounds a search takes at most from here on.
pub open spec fn work_ahead(disk: Disk, state: SearchState) -> nat {
    work_in(disk, state.stack, FILE_DEPTH as nat)
}

proof fn lemma_listing(disk: Disk, stack: Seq<NodeView>)
    requires
        disk.can_be_listed(),
        stack.len() > 0,
        stack.last().depth < FILE_DEPTH,
    ensures
        ({
            let after = stack.drop_last() + disk.places(stack.last());
            &&& files_ahead(disk, after) == files_ahead(disk, stack)
            &&& work_in(disk, after, FILE_DEPTH as nat) + 1 == work_in(
                disk,
                stack,
                FILE_DEPTH as nat,
            )
        }),
{
    reveal_with_fuel(files_in, 2);
    reveal_with_fuel(work_in, 2);
    let parent = stack.last();
    let more = disk.places(parent);
    let all = FILE_DEPTH as nat;
    lemma_places_within(disk, parent);
    assert(within(more, (all - 1) as nat));
    lemma_levels_in(disk, more, all, (all - 1) as nat);
    lemma_stacked_on(disk, stack.drop_last(), more, all);
}

proof fn lemma_first_of(disk: Disk, file: NodeView, rest: Seq<NodeView>)
    ensures
        matching(disk, seq![file] + rest) == (if (disk.hit)(file) is Some {
            seq![file] + matching(disk, rest)
        } else {
            matching(disk, rest)
        }),
{
    let is_hit = |f: NodeView| (disk.hit)(f) is Some;
    Seq::filter_distributes_over_add(seq![file], rest, is_hit);
    reveal(Seq::filter);
    assert(seq![file].drop_last() =~= Seq::empty());
    assert(Seq::<NodeView>::empty().filter(is_hit) =~= Seq::empty());
    assert(Seq::<NodeView>::empty().push(file) =~= seq![file]);
    assert(Seq::<NodeView>::empty() + matching(disk, rest) =~= matching(disk, rest));
}

/// No round changes the page that the search is to end with, and each brings its end nearer.
pub proof fn law_a_round_keeps_the_page(disk: Disk, page_size: nat, state: SearchState)
    requires
        disk.can_be_listed(),
    ensures
        page_ahead(disk, page_size, round(disk, page_size, state)) == page_ahead(
            disk,
            page_size,
            state,
        ),
        state.stack.len() > 0 ==> work_ahead(disk, round(disk, page_size, state)) < work_ahead(
            disk,
            state,
        ),
{
    reveal_with_fuel(files_in, 2);
    reveal_with_fuel(work_in, 2);
    let after = round(disk, page_size, state);
    if state.stack.len() == 0 {
        assert(after =~= state);
    } else {
        let top = state.stack.last();
        let below = state.stack.drop_last();
        if top.depth < FILE_DEPTH {
            lemma_listing(disk, state.stack);
        } else if state.hits.len() < page_size {
            let rest = files_ahead(disk, below);
            lemma_first_of(disk, top, rest);
            assert(files_ahead(disk, state.stack) == seq![top] + rest);
            assert(page_ahead(disk, page_size, after) =~= page_ahead(disk, page_size, state));
        } else {
            assert(page_ahead(disk, page_size, after) =~= page_ahead(disk, page_size, state));
        }
    }
}

/// A search comes to its end, and its page then holds the hits among the files ahead of it,
/// the first of them, as many as there is room for: no file is passed over while there is.
pub proof fn law_search_fills_the_page(disk: Disk, page_size: nat, state: SearchState, n: nat)
    requires
        disk.can_be_listed(),
        work_ahead(disk, state) <= n,
    ensures
        rounds(disk, page_size, state, n).stack.len() == 0,
        rounds(disk, page_size, state, n).hits == page_ahead(disk, page_size, state),
    decreases n,
{
    if n == 0 {
        reveal_with_fuel(work_in, 2);
        assert(state.stack.len() == 0);
        lemma_nothing_ahead(disk, page_size, state);
    } else {
        let after = round(disk, page_size, state);
        law_a_round_keeps_the_page(disk, page_size, state);
        if state.stack.len() == 0 {
            assert(after =~= state);
        }
        law_search_fills_the_page(disk, page_size, after, (n - 1) as nat);
    }
}

proof fn lemma_nothing_ahead(disk: Disk, page_size: nat, state: SearchState)
    requires
        state.stack.len() == 0,
    ensures
        page_ahead(disk, page_size, state) == state.hits,
{
    reveal(Seq::filter);
    assert(page_ahead(disk, page_size, state) =~= state.hits);
}

/// A search that is over has its page, however many rounds it took.
pub proof fn law_page_at_the_end(disk: Disk, page_size: nat, state: SearchState, n: nat)
    requires
        disk.can_be_listed(),
        rounds(disk, page_size, state, n).stack.len() == 0,
    ensures
        rounds(disk, page_size, state, n).hits == page_ahead(disk, page_size, state),
    decreases n,
{
    if n == 0 {
        lemma_nothing_ahead(disk, page_size, state);
    } else {
        law_a_round_keeps_the_page(disk, page_size, state);
        law_page_at_the_end(disk, page_size, round(disk, page_size, state), (n - 1) as nat);
    }
}

/// `a` differs from `b` at a component that both have, and comes before it there: so does
/// all that lies below `a`, and before all that lies below `b`.
pub open spec fn older(a: Seq<Seq<u8>>, b: Seq<Seq<u8>>) -> bool
    decreases a.len(),
{
    if a.len() == 0 || b.len() == 0 {
        false
    } else if a[0] == b[0] {
        older(a.skip(1), b.skip(1))
    } else {
        bytes_before(a[0], b[0])
    }
}

proof fn lemma_older_is_before(a: Seq<Seq<u8>>, b: Seq<Seq<u8>>)
    requires
        older(a, b),
    ensures
        path_before(a, b),
    decreases a.len(),
{
    if a[0] == b[0] {
        lemma_older_is_before(a.skip(1), b.skip(1));
    }
}

proof fn lemma_older_siblings(parent: Seq<Seq<u8>>, x: Seq<u8>, y: Seq<u8>)
    requires
        path_before(parent.push(x), parent.push(y)),
    ensures
        older(parent.push(x), parent.push(y)),
    decreases parent.len(),
{
    let a = parent.push(x);
    let b = parent.push(y);
    if parent.len() > 0 {
        assert(a.skip(1) =~= parent.skip(1).push(x));
        assert(b.skip(1) =~= parent.skip(1).push(y));
        lemma_older_siblings(parent.skip(1), x, y);
    } else {
        assert(!path_before(a.skip(1), b.skip(1)));
    }
}

/// No two entries that are visited have the same name.
pub open spec fn names_differ(depth: u8, entries: Seq<ListedEntry>) -> bool {
    forall|i: int, j: int|
        0 <= i < j < entries.len() && is_visited(depth, #[trigger] entries[i]) && is_visited(
            depth,
            #[trigger] entries[j],
        ) ==> entries[i].name@ != entries[j].name@
}

/// A place that an entry leads to lies in its directory, one level below it.
pub proof fn lemma_places(parent: NodeView, entries: Seq<ListedEntry>)
    ensures
        forall|i: int|
            0 <= i < places_in(parent, entries).len() ==> {
                let place = #[trigger] places_in(parent, entries)[i];
                &&& place.key.len() == parent.key.len() + 1
                &&& place.key.drop_last() == parent.key
                &&& place.depth == (parent.depth + 1) as u8
                &&& exists|k: int|
                    0 <= k < entries.len() && is_visited(parent.depth, #[trigger] entries[k])
                        && entries[k].name@ == place.key.last()
            },
    decreases entries.len(),
{
    if entries.len() > 0 {
        let before = entries.drop_last();
        lemma_places(parent, before);
        let places = places_in(parent, entries);
        assert forall|i: int| 0 <= i < places.len() implies {
            let place = #[trigger] places[i];
            &&& place.key.len() == parent.key.len() + 1
            &&& place.key.drop_last() == parent.key
            &&& place.depth == (parent.depth + 1) as u8
            &&& exists|k: int|
                0 <= k < entries.len() && is_visited(parent.depth, #[trigger] entries[k])
                    && entries[k].name@ == place.key.last()
        } by {
            let place = places[i];
            if i < places_in(parent, before).len() {
                assert(place == places_in(parent, before)[i]);
                let k = choose|k: int|
                    0 <= k < before.len() && is_visited(parent.depth, #[trigger] before[k])
                        && before[k].name@ == place.key.last();
                assert(entries[k] == before[k]);
            } else {
                assert(place.key.drop_last() =~= parent.key);
                assert(entries[entries.len() - 1] == entries.last());
            }
        }
    }
}

proof fn lemma_places_differ(parent: NodeView, entries: Seq<ListedEntry>)
    requires
        names_differ(parent.depth, entries),
    ensures
        forall|i: int, j: int|
            0 <= i < j < places_in(parent, entries).len() ==> (#[trigger] places_in(
                parent,
                entries,
            )[i]).key != (#[trigger] places_in(parent, entries)[j]).key,
    decreases entries.len(),
{
    if entries.len() > 0 {
        let before = entries.drop_last();
        assert forall|i: int, j: int|
            0 <= i < j < before.len() && is_visited(parent.depth, #[trigger] before[i])
                && is_visited(parent.depth, #[trigger] before[j]) implies before[i].name@
            != before[j].name@ by {
            assert(entries[i] == before[i] && entries[j] == before[j]);
        }
        lemma_places_differ(parent, before);
        lemma_places(parent, before);
        let places = places_in(parent, entries);
        let places_before = places_in(parent, before);
        assert forall|i: int, j: int| 0 <= i < j < places.len() implies (#[trigger] places[i]).key
            != (#[trigger] places[j]).key by {
            assert(places[i] == places_before[i]);
            if j < places_before.len() {
                assert(places[j] == places_before[j]);
            } else {
                let k = choose|k: int|
                    0 <= k < before.len() && is_visited(parent.depth, #[trigger] before[k])
                        && before[k].name@ == places_before[i].key.last();
                assert(entries[k] == before[k]);
                assert(entries[entries.len() - 1] == entries.last());
                assert(places[j].key.last() == entries.last().name@);
            }
        }
    }
}

/// Each file comes behind the newer ones: the paths go strictly down.
pub open spec fn goes_down(files: Seq<NodeView>) -> bool {
    forall|i: int, j: int|
        0 <= i < j < files.len() ==> path_before(
            (#[trigger] files[j]).key,
            (#[trigger] files[i]).key,
        )
}

/// A path lies at or below another one: it begins with it.
pub open spec fn lies_below(path: Seq<Seq<u8>>, top: Seq<Seq<u8>>) -> bool {
    &&& top.len() <= path.len()
    &&& path.take(top.len() as int) == top
}

/// All that lies at or below `x` is older than all that lies at or below `y`.
pub open spec fn follows(x: NodeView, y: NodeView) -> bool {
    ||| older(x.key, y.key)
    ||| x.depth >= FILE_DEPTH && y.depth >= FILE_DEPTH && path_before(x.key, y.key)
}

/// The places of a stack, the newest on top.
pub open spec fn is_ordered(stack: Seq<NodeView>) -> bool {
    forall|i: int, j: int|
        0 <= i < j < stack.len() ==> follows(#[trigger] stack[i], #[trigger] stack[j])
}

proof fn lemma_older_with_more(
    a: Seq<Seq<u8>>,
    b: Seq<Seq<u8>>,
    below_a: Seq<Seq<u8>>,
    below_b: Seq<Seq<u8>>,
)
    requires
        older(a, b),
        lies_below(below_a, a),
        lies_below(below_b, b),
    ensures
        older(below_a, below_b),
    decreases a.len(),
{
    assert(below_a.take(a.len() as int)[0] == a[0]);
    assert(below_b.take(b.len() as int)[0] == b[0]);
    if a[0] == b[0] {
        let n = (a.len() - 1) as int;
        let m = (b.len() - 1) as int;
        assert(below_a.skip(1).take(n) =~= below_a.take(a.len() as int).skip(1));
        assert(below_b.skip(1).take(m) =~= below_b.take(b.len() as int).skip(1));
        lemma_older_with_more(a.skip(1), b.skip(1), below_a.skip(1), below_b.skip(1));
    }
}

/// The places of a directory lie in it, and are in order.
proof fn lemma_places_ordered(disk: Disk, parent: NodeView)
    requires
        disk.can_be_listed(),
        disk.has_distinct_names(),
    ensures
        is_ordered(disk.places(parent)),
{
    let entries = (disk.entries)(parent);
    let found = places_in(parent, entries);
    let keys = keys_of(found);
    let order = newest_order(keys);
    let stack = disk.places(parent);
    let n = order.len();
    lemma_order_of_places(disk, parent);
    lemma_places(parent, entries);
    lemma_places_differ(parent, entries);
    assert forall|i: int, j: int| 0 <= i < j < stack.len() implies follows(
        #[trigger] stack[i],
        #[trigger] stack[j],
    ) by {
        let p = order[n - 1 - i] as int;
        let q = order[n - 1 - j] as int;
        assert(stack[i] == found[p] && stack[j] == found[q]);
        assert(found[p].key =~= parent.key.push(found[p].key.last()));
        assert(found[q].key =~= parent.key.push(found[q].key.last()));
        assert(newer(keys, q, p));
        assert(keys[p] == found[p].key && keys[q] == found[q].key);
        if p != q {
            assert(found[p].key != found[q].key);
        } else {
            lemma_path_total(keys[p], keys[p]);
        }
        lemma_older_siblings(parent.key, found[p].key.last(), found[q].key.last());
    }
}

proof fn lemma_places_below(disk: Disk, parent: NodeView)
    requires
        disk.can_be_listed(),
    ensures
        forall|i: int|
            0 <= i < disk.places(parent).len() ==> lies_below(
                (#[trigger] disk.places(parent)[i]).key,
                parent.key,
            ),
{
    let entries = (disk.entries)(parent);
    let found = places_in(parent, entries);
    let order = newest_order(keys_of(found));
    let stack = disk.places(parent);
    lemma_order_of_places(disk, parent);
    lemma_places(parent, entries);
    assert forall|i: int| 0 <= i < stack.len() implies lies_below(
        (#[trigger] stack[i]).key,
        parent.key,
    ) by {
        let k = order[order.len() - 1 - i] as int;
        assert(stack[i] == found[k]);
        assert(found[k].key.take(parent.key.len() as int) =~= found[k].key.drop_last());
    }
}

proof fn lemma_files_below(disk: Disk, place: NodeView, levels: nat)
    requires
        disk.can_be_listed(),
        disk.has_distinct_names(),
    ensures
        goes_down(files_below(disk, place, levels)),
        forall|i: int|
            0 <= i < files_below(disk, place, levels).len() ==> lies_below(
                (#[trigger] files_below(disk, place, levels)[i]).key,
                place.key,
            ),
    decreases levels, 0nat,
{
    let files = files_below(disk, place, levels);
    if place.depth >= FILE_DEPTH {
        assert(place.key.take(place.key.len() as int) =~= place.key);
    } else if levels > 0 {
        let stack = disk.places(place);
        lemma_places_ordered(disk, place);
        lemma_places_below(disk, place);
        lemma_files_in(disk, stack, (levels - 1) as nat);
        assert forall|i: int| 0 <= i < files.len() implies lies_below(
            (#[trigger] files[i]).key,
            place.key,
        ) by {
            let k = choose|k: int|
                0 <= k < stack.len() && lies_below(files[i].key, #[trigger] stack[k].key) && (
                stack[k].depth >= FILE_DEPTH ==> files[i] == stack[k]);
            assert(lies_below(stack[k].key, place.key));
            let n = place.key.len() as int;
            assert(files[i].key.take(n) =~= files[i].key.take(stack[k].key.len() as int).take(n));
        }
    }
}

proof fn lemma_files_in(disk: Disk, stack: Seq<NodeView>, levels: nat)
    requires
        disk.can_be_listed(),
        disk.has_distinct_names(),
        is_ordered(stack),
    ensures
        goes_down(files_in(disk, stack, levels)),
        forall|i: int|
            0 <= i < files_in(disk, stack, levels).len() ==> exists|k: int|
                0 <= k < stack.len() && lies_below(
                    (#[trigger] files_in(disk, stack, levels)[i]).key,
                    #[trigger] stack[k].key,
                ) && (stack[k].depth >= FILE_DEPTH ==> files_in(disk, stack, levels)[i]
                    == stack[k]),
    decreases levels, stack.len() + 1,
{
    if stack.len() > 0 {
        let top = stack.last();
        let rest = stack.drop_last();
        let last = stack.len() - 1;
        let near = files_below(disk, top, levels);
        let far = files_in(disk, rest, levels);
        let files = files_in(disk, stack, levels);
        lemma_files_below(disk, top, levels);
        assert forall|i: int, j: int| 0 <= i < j < rest.len() implies follows(
            #[trigger] rest[i],
            #[trigger] rest[j],
        ) by {
            assert(rest[i] == stack[i] && rest[j] == stack[j]);
        }
        lemma_files_in(disk, rest, levels);
        assert(files == near + far);
        assert forall|i: int| 0 <= i < files.len() implies exists|k: int|
            0 <= k < stack.len() && lies_below(
                (#[trigger] files[i]).key,
                #[trigger] stack[k].key,
            ) && (stack[k].depth >= FILE_DEPTH ==> files[i] == stack[k]) by {
            if i < near.len() {
                assert(files[i] == near[i]);
                assert(lies_below(files[i].key, stack[last].key));
                assert(stack[last].depth >= FILE_DEPTH ==> files[i] == stack[last]);
            } else {
                assert(files[i] == far[i - near.len()]);
                let k = choose|k: int|
                    0 <= k < rest.len() && lies_below(files[i].key, #[trigger] rest[k].key) && (
                    rest[k].depth >= FILE_DEPTH ==> files[i] == rest[k]);
                assert(stack[k] == rest[k]);
            }
        }
        assert forall|i: int, j: int| 0 <= i < j < files.len() implies path_before(
            (#[trigger] files[j]).key,
            (#[trigger] files[i]).key,
        ) by {
            if j < near.len() {
                assert(files[i] == near[i] && files[j] == near[j]);
            } else if i >= near.len() {
                assert(files[i] == far[i - near.len()] && files[j] == far[j - near.len()]);
            } else {
                assert(files[i] == near[i] && files[j] == far[j - near.len()]);
                let k = choose|k: int|
                    0 <= k < rest.len() && lies_below(files[j].key, #[trigger] rest[k].key) && (
                    rest[k].depth >= FILE_DEPTH ==> files[j] == rest[k]);
                assert(stack[k] == rest[k] && stack[last] == top);
                assert(follows(stack[k], stack[last]));
                if older(stack[k].key, top.key) {
                    lemma_older_with_more(stack[k].key, top.key, files[j].key, files[i].key);
                    lemma_older_is_before(files[j].key, files[i].key);
                } else {
                    assert(files[i] == top);
                }
            }
        }
    }
}

/// A walk through a tree comes to the files from the newest to the oldest, where no two
/// entries of a directory have the same name.
pub proof fn law_walk_goes_down(disk: Disk, root: usize)
    requires
        disk.can_be_listed(),
        disk.has_distinct_names(),
    ensures
        goes_down(files_ahead(disk, start_of(None, root).stack)),
{
    lemma_files_in(disk, start_of(None, root).stack, FILE_DEPTH as nat);
}

/// The files that were found for a search come from the newest to the oldest, where none was
/// found twice.
pub proof fn law_found_files_go_down(disk: Disk, keys: Seq<Seq<Seq<u8>>>, root: usize)
    requires
        keys.len() <= usize::MAX,
        forall|i: int, j: int|
            0 <= i < j < keys.len() ==> #[trigger] keys[i] != #[trigger] keys[j],
    ensures
        goes_down(files_ahead(disk, start_of(Some(keys), root).stack)),
{
    let places = file_places(keys);
    let stack = newest_last(places);
    let order = newest_order(keys_of(places));
    let n = order.len();
    assert(keys_of(places) =~= keys);
    law_newest_order_exists(keys);
    assert forall|i: int| 0 <= i < stack.len() implies (#[trigger] stack[i]).depth
        >= FILE_DEPTH by {
        assert(stack[i] == places[order[n - 1 - i] as int]);
    }
    lemma_only_files(disk, stack, FILE_DEPTH as nat);
    let files = stack.reverse();
    assert forall|i: int, j: int| 0 <= i < j < files.len() implies path_before(
        (#[trigger] files[j]).key,
        (#[trigger] files[i]).key,
    ) by {
        assert(files[i] == places[order[i] as int] && files[j] == places[order[j] as int]);
        assert(newer(keys, order[i] as int, order[j] as int));
        lemma_path_total(keys[order[i] as int], keys[order[i] as int]);
    }
}

proof fn lemma_only_files(disk: Disk, stack: Seq<NodeView>, levels: nat)
    requires
        forall|i: int| 0 <= i < stack.len() ==> (#[trigger] stack[i]).depth >= FILE_DEPTH,
    ensures
        files_in(disk, stack, levels) == stack.reverse(),
    decreases stack.len(),
{
    reveal_with_fuel(files_in, 2);
    if stack.len() == 0 {
        assert(stack.reverse() =~= Seq::empty());
    } else {
        assert(stack.last() == stack[stack.len() - 1]);
        lemma_only_files(disk, stack.drop_last(), levels);
        assert(stack.reverse() =~= seq![stack.last()] + stack.drop_last().reverse());
    }
}

/// The hits of a page are in the order of the files: the matching ones go down where all do.
pub proof fn law_matches_go_down(disk: Disk, files: Seq<NodeView>)
    requires
        goes_down(files),
    ensures
        goes_down(matching(disk, files)),
        forall|i: int|
            0 <= i < matching(disk, files).len() ==> files.contains(
                #[trigger] matching(disk, files)[i],
            ),
    decreases files.len(),
{
    reveal(Seq::filter);
    if files.len() > 0 {
        let before = files.drop_last();
        let last = files.len() - 1;
        assert forall|i: int, j: int| 0 <= i < j < before.len() implies path_before(
            (#[trigger] before[j]).key,
            (#[trigger] before[i]).key,
        ) by {
            assert(before[i] == files[i] && before[j] == files[j]);
        }
        law_matches_go_down(disk, before);
        let found = matching(disk, files);
        let found_before = matching(disk, before);
        assert forall|i: int| 0 <= i < found_before.len() implies exists|k: int|
            0 <= k < last && files[k] == #[trigger] found_before[i] by {
            assert(before.contains(found_before[i]));
            let k = choose|k: int| 0 <= k < before.len() && before[k] == found_before[i];
            assert(files[k] == found_before[i]);
        }
        assert forall|i: int| 0 <= i < found.len() implies files.contains(
            #[trigger] found[i],
        ) by {
            if i < found_before.len() {
                assert(found[i] == found_before[i]);
            } else {
                assert(found[i] == files[last]);
            }
        }
        assert forall|i: int, j: int| 0 <= i < j < found.len() implies path_before(
            (#[trigger] found[j]).key,
            (#[trigger] found[i]).key,
        ) by {
            assert(found[i] == found_before[i]);
            if j < found_before.len() {
                assert(found[j] == found_before[j]);
            } else {
                let k = choose|k: int| 0 <= k < last && files[k] == found_before[i];
                assert(found[j] == files[last]);
            }
        }
    }
}

/// Every file that a search comes to and that is a hit is among the matching ones.
pub proof fn law_no_match_is_left_out(disk: Disk, files: Seq<NodeView>, i: int)
    requires
        0 <= i < files.len(),
        (disk.hit)(files[i]) is Some,
    ensures
        matching(disk, files).contains(files[i]),
    decreases files.len(),
{
    reveal(Seq::filter);
    let before = files.drop_last();
    let found = matching(disk, files);
    let found_before = matching(disk, before);
    if i < before.len() {
        law_no_match_is_left_out(disk, before, i);
        let k = choose|k: int| 0 <= k < found_before.len() && found_before[k] == files[i];
        assert(found[k] == files[i]);
    } else {
        assert(found[found.len() - 1] == files[i]);
    }
}

proof fn lemma_files_of_each(disk: Disk, stack: Seq<NodeView>, k: int, levels: nat, file: NodeView)
    requires
        0 <= k < stack.len(),
        files_below(disk, stack[k], levels).contains(file),
    ensures
        files_in(disk, stack, levels).contains(file),
    decreases stack.len(),
{
    let near = files_below(disk, stack.last(), levels);
    let far = files_in(disk, stack.drop_last(), levels);
    let files = files_in(disk, stack, levels);
    assert(files == near + far);
    if k == stack.len() - 1 {
        let i = choose|i: int| 0 <= i < near.len() && near[i] == file;
        assert(files[i] == file);
    } else {
        lemma_files_of_each(disk, stack.drop_last(), k, levels, file);
        let i = choose|i: int| 0 <= i < far.len() && far[i] == file;
        assert(files[near.len() + i] == file);
    }
}

/// A walk leaves out nothing: it comes to all files of a directory that lie at or below one
/// of its places.
pub proof fn law_no_place_is_left_out(disk: Disk, parent: NodeView, k: int, file: NodeView)
    requires
        disk.can_be_listed(),
        parent.depth < FILE_DEPTH,
        0 <= k < places_in(parent, (disk.entries)(parent)).len(),
        files_of(disk, places_in(parent, (disk.entries)(parent))[k]).contains(file),
    ensures
        files_of(disk, parent).contains(file),
{
    let entries = (disk.entries)(parent);
    let found = places_in(parent, entries);
    let order = newest_order(keys_of(found));
    let stack = disk.places(parent);
    let all = FILE_DEPTH as nat;
    lemma_fewer_places(parent, entries);
    lemma_order_of_places(disk, parent);
    lemma_places_within(disk, parent);
    assert(order.contains(k as usize));
    let i = choose|i: int| 0 <= i < order.len() && order[i] == k as usize;
    let at = order.len() - 1 - i;
    assert(stack[at] == found[k]);
    lemma_levels(disk, found[k], all, (all - 1) as nat);
    lemma_files_of_each(disk, stack, at, (all - 1) as nat, file);
}

/// The page of a search through a whole tree holds the hits among its files, the newest of
/// them, as many as there is room for.
pub proof fn law_walk_finds_the_newest(disk: Disk, page_size: nat, root: usize, n: nat)
    requires
        disk.can_be_listed(),
        disk.has_distinct_names(),
        rounds(disk, page_size, start_of(None, root), n).stack.len() == 0,
    ensures
        ({
            let files = files_of(disk, NodeView { key: Seq::empty(), depth: 0, handle: root });
            &&& rounds(disk, page_size, start_of(None, root), n).hits == first_hits(
                disk,
                files,
                page_size,
            )
            &&& goes_down(matching(disk, files))
        }),
{
    let start = start_of(None, root);
    let place = NodeView { key: Seq::empty(), depth: 0, handle: root };
    law_page_at_the_end(disk, page_size, start, n);
    assert(start.stack.drop_last() =~= Seq::empty());
    assert(files_in(disk, start.stack.drop_last(), FILE_DEPTH as nat) =~= Seq::empty());
    assert(files_ahead(disk, start.stack) =~= files_of(disk, place));
    law_walk_goes_down(disk, root);
    law_matches_go_down(disk, files_of(disk, place));
    assert(page_ahead(disk, page_size, start) =~= first_hits(
        disk,
        files_of(disk, place),
        page_size,
    ));
}

/// The page of a search through the files that were found for it holds the hits among them,
/// the newest of them, as many as there is room for.
pub proof fn law_found_files_give_the_newest(
    disk: Disk,
    page_size: nat,
    keys: Seq<Seq<Seq<u8>>>,
    root: usize,
    n: nat,
)
    requires
        disk.can_be_listed(),
        keys.len() <= usize::MAX,
        forall|i: int, j: int|
            0 <= i < j < keys.len() ==> #[trigger] keys[i] != #[trigger] keys[j],
        rounds(disk, page_size, start_of(Some(keys), root), n).stack.len() == 0,
    ensures
        ({
            let files = files_ahead(disk, start_of(Some(keys), root).stack);
            &&& rounds(disk, page_size, start_of(Some(keys), root), n).hits == first_hits(
                disk,
                files,
                page_size,
            )
            &&& goes_down(matching(disk, files))
            &&& forall|i: int|
                0 <= i < keys.len() ==> files.contains(#[trigger] file_places(keys)[i])
        }),
{
    let start = start_of(Some(keys), root);
    let places = file_places(keys);
    let files = files_ahead(disk, start.stack);
    let order = newest_order(keys_of(places));
    law_page_at_the_end(disk, page_size, start, n);
    law_found_files_go_down(disk, keys, root);
    law_matches_go_down(disk, files);
    assert(page_ahead(disk, page_size, start) =~= first_hits(disk, files, page_size));
    assert(keys_of(places) =~= keys);
    law_newest_order_exists(keys);
    assert forall|i: int| 0 <= i < keys.len() implies files.contains(#[trigger] places[i]) by {
        assert(order.contains(i as usize));
        let k = choose|k: int| 0 <= k < order.len() && order[k] == i as usize;
        let at = order.len() - 1 - k;
        assert(start.stack[at] == places[i]);
        assert(files_below(disk, places[i], FILE_DEPTH as nat)[0] == places[i]);
        lemma_files_of_each(disk, start.stack, at, FILE_DEPTH as nat, places[i]);
    }
}

} // verus!
