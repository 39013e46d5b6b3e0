//! Where a search looks: the words it asks for, the paths it is given, and the places that a
//! directory leads to.
use crate::order::{
    bytes_before, is_newest_first, law_newest_order_exists, lemma_path_total, newer, newest_order,
    path_before,
};
use crate::session_page::{files_below, files_in, files_of, lemma_places, Disk};
use crate::session_search::{
    file_places, found_paths, full_lines, is_visited, keys_of, newest_last, places_in, query_tokens,
    ripgrep_arguments, start_for, start_of, ListedEntry, NodeView, StartView,
};
use crate::text::{has_prefix, has_suffix, is_white_space, lines_of, lowercased, words};
use crate::text_laws::{all_white, law_lines, law_one_word, law_trim, law_words_of_two, none_white};
use vstd::prelude::*;

verus! {

/// Each word of a query is looked for, in lower case and in order; white space tells words
/// apart, and where there is no word there is nothing to look for.
pub proof fn law_words_of_a_query(
    a: Seq<char>,
    gap: char,
    b: Seq<char>,
    word: Seq<char>,
    white: Seq<char>,
)
    requires
        is_white_space(gap),
        word.len() > 0,
        none_white(word),
        all_white(white),
    ensures
        query_tokens(Some(a.push(gap) + b)) == query_tokens(Some(a)) + query_tokens(Some(b)),
        query_tokens(Some(word)) == seq![lowercased(word)],
        query_tokens(Some(white)).len() == 0,
        query_tokens(None).len() == 0,
{
    law_words_of_two(a, gap, b);
    law_one_word(word, white);
    assert(query_tokens(Some(a.push(gap) + b)) =~= query_tokens(Some(a)) + query_tokens(Some(b)));
    assert(query_tokens(Some(word)) =~= seq![lowercased(word)]);
}

/// Ripgrep is told to take words as they are, whatever their case, to list files without any
/// messages, and to look at the files of sessions; then comes each word, in order.
pub proof fn law_arguments_of_ripgrep(tokens: Seq<Seq<char>>, i: int)
    ensures
        ripgrep_arguments(tokens).len() == 6 + 2 * tokens.len(),
        ripgrep_arguments(tokens).take(6) == seq![
            "-F"@,
            "-i"@,
            "-l"@,
            "--no-messages"@,
            "-g"@,
            "*.jsonl"@,
        ],
        0 <= i < tokens.len() ==> ripgrep_arguments(tokens)[6 + 2 * i] == "-e"@
            && ripgrep_arguments(tokens)[7 + 2 * i] == tokens[i],
    decreases tokens.len(),
{
    let args = ripgrep_arguments(tokens);
    if tokens.len() == 0 {
        assert(args.take(6) =~= args);
    } else {
        let before = tokens.drop_last();
        let shorter = ripgrep_arguments(before);
        law_arguments_of_ripgrep(before, i);
        assert(args == shorter.push("-e"@).push(tokens.last()));
        assert(args.take(6) =~= shorter.take(6));
        if 0 <= i < before.len() {
            assert(args[6 + 2 * i] == shorter[6 + 2 * i]);
            assert(args[7 + 2 * i] == shorter[7 + 2 * i]);
        }
    }
}

/// A search begins with ripgrep where there is something to search and the query holds a word,
/// with a walk where it holds none, and not at all where there is nothing.
pub proof fn law_start_of_a_search(query: Option<Seq<char>>, white: Seq<char>)
    requires
        all_white(white),
    ensures
        start_for(false, query) is Nothing,
        start_for(true, None) is Walk,
        start_for(true, Some(white)) is Walk,
        query matches Some(text) && words(text).len() > 0 ==> (start_for(true, query)
            matches StartView::Prefilter(args) && args == ripgrep_arguments(query_tokens(query))),
        start_for(true, query) !is Nothing,
{
    let word = seq!['x'];
    law_one_word(word, white);
}

/// A path stands on a line of its own, without the white space around it; blank lines hold
/// none.
pub proof fn law_paths_on_lines(
    lines: Seq<Seq<char>>,
    more: Seq<Seq<char>>,
    front: Seq<char>,
    path: Seq<char>,
    back: Seq<char>,
)
    requires
        all_white(front),
        all_white(back),
        path.len() > 0 ==> !is_white_space(path[0]) && !is_white_space(path.last()),
    ensures
        full_lines(lines + more) == full_lines(lines) + full_lines(more),
        full_lines(seq![front + path + back]) == (if path.len() > 0 {
            seq![path]
        } else {
            Seq::empty()
        }),
    decreases more.len(),
{
    law_trim(front, path, back);
    let one = seq![front + path + back];
    assert(one.drop_last() =~= Seq::empty());
    assert(full_lines(one.drop_last()).len() == 0);
    assert(full_lines(one) =~= (if path.len() > 0 {
        seq![path]
    } else {
        Seq::empty()
    }));
    if more.len() == 0 {
        assert(lines + more =~= lines);
        assert(full_lines(lines) + full_lines(more) =~= full_lines(lines));
    } else {
        law_paths_on_lines(lines, more.drop_last(), front, path, back);
        assert((lines + more).drop_last() =~= lines + more.drop_last());
        assert(full_lines(lines + more) =~= full_lines(lines) + full_lines(more));
    }
}

/// What ripgrep wrote is believed where it could be run and says that it found something: each
/// path that it wrote on a line of its own, in order. Where it could not be run nothing is
/// known, and where it failed nothing was found.
pub proof fn law_paths_of_ripgrep(success: bool, path: Seq<char>, rest: Seq<char>)
    requires
        path.len() > 0,
        !is_white_space(path[0]),
        !is_white_space(path.last()),
        forall|i: int| 0 <= i < path.len() ==> #[trigger] path[i] != '\n',
    ensures
        found_paths(false, success, rest) is None,
        found_paths(true, false, rest) == Some(Seq::<Seq<char>>::empty()),
        found_paths(true, true, Seq::empty()) == Some(Seq::<Seq<char>>::empty()),
        found_paths(true, true, path.push('\n') + rest) matches Some(paths) && found_paths(
            true,
            true,
            rest,
        ) matches Some(further) && paths == seq![path] + further,
{
    assert(path.last() != '\r') by {
        crate::text_laws::law_white_space('\r');
        assert(crate::text_laws::white_space_numbers()[4] == '\r' as u32);
    }
    law_lines(path, rest);
    let none = Seq::<char>::empty();
    law_paths_on_lines(seq![path], lines_of(rest), none, path, none);
    assert(none + path + none =~= path);
    assert(full_lines(lines_of(none)) =~= Seq::empty());
}

/// Above the files directories are visited; at their depth the files whose names begin and end
/// as those of sessions do. Nothing else is.
pub proof fn law_visited(entry: ListedEntry)
    ensures
        is_visited(0, entry) == (entry.kind is Directory),
        is_visited(1, entry) == (entry.kind is Directory),
        is_visited(2, entry) == (entry.kind is Directory),
        is_visited(3, entry) == (entry.kind is File && has_prefix(entry.text@, "rollout-"@)
            && has_suffix(entry.text@, ".jsonl"@)),
{
}

/// Each entry that is visited leads to one place, under its name below its directory, and the
/// places stand in the order of the entries.
pub proof fn law_places_of_entries(
    parent: NodeView,
    entries: Seq<ListedEntry>,
    more: Seq<ListedEntry>,
    entry: ListedEntry,
)
    requires
        parent.depth < 255,
    ensures
        places_in(parent, entries + more) == places_in(parent, entries) + places_in(parent, more),
        is_visited(parent.depth, entry) ==> {
            &&& places_in(parent, seq![entry]).len() == 1
            &&& places_in(parent, seq![entry])[0].key == parent.key.push(entry.name@)
            &&& places_in(parent, seq![entry])[0].depth == parent.depth + 1
            &&& places_in(parent, seq![entry])[0].handle == entry.handle
        },
        !is_visited(parent.depth, entry) ==> places_in(parent, seq![entry]).len() == 0,
    decreases more.len(),
{
    let one = seq![entry];
    assert(one.drop_last() =~= Seq::empty());
    assert(places_in(parent, one.drop_last()).len() == 0);
    if more.len() == 0 {
        assert(entries + more =~= entries);
        assert(places_in(parent, entries) + places_in(parent, more) =~= places_in(
            parent,
            entries,
        ));
    } else {
        law_places_of_entries(parent, entries, more.drop_last(), entry);
        assert((entries + more).drop_last() =~= entries + more.drop_last());
        assert(places_in(parent, entries + more) =~= places_in(parent, entries) + places_in(
            parent,
            more,
        ));
    }
}

/// The places of a list are all visited, each once, the newest last.
pub proof fn law_newest_place_is_last(places: Seq<NodeView>, i: int, j: int)
    requires
        places.len() <= usize::MAX,
        0 <= i < j < places.len(),
    ensures
        newest_last(places).len() == places.len(),
        places.contains(newest_last(places)[i]),
        newest_last(places).contains(places[i]),
        !path_before(newest_last(places)[j].key, newest_last(places)[i].key),
{
    let keys = keys_of(places);
    let order = newest_order(keys);
    let stack = newest_last(places);
    let n = order.len();
    law_newest_order_exists(keys);
    let p = order[n - 1 - i] as int;
    let q = order[n - 1 - j] as int;
    assert(stack[i] == places[p] && stack[j] == places[q]);
    assert(newer(keys, q, p));
    lemma_path_total(keys[p], keys[q]);
    assert(order.contains(i as usize));
    let k = choose|k: int| 0 <= k < order.len() && order[k] == i as usize;
    assert(stack[n - 1 - k] == places[i]);
}

/// A search begins without hits: at the files that were found for it, each known by its place
/// in the list, or at the root.
pub proof fn law_where_a_search_begins(keys: Seq<Seq<Seq<u8>>>, root: usize, i: int)
    requires
        0 <= i < keys.len() <= usize::MAX,
    ensures
        start_of(None, root).hits.len() == 0,
        start_of(Some(keys), root).hits.len() == 0,
        start_of(None, root).stack.len() == 1,
        start_of(None, root).stack[0].key.len() == 0,
        start_of(None, root).stack[0].depth == 0,
        start_of(None, root).stack[0].handle == root,
        start_of(Some(keys), root).stack == newest_last(file_places(keys)),
        file_places(keys).len() == keys.len(),
        file_places(keys)[i].key == keys[i],
        file_places(keys)[i].depth == 4,
        file_places(keys)[i].handle == i,
{
}

/// Every file that a walk comes to lies three directories below the root.
pub proof fn law_files_lie_below_year_month_and_day(disk: Disk, root: usize, i: int)
    requires
        disk.can_be_listed(),
        0 <= i < files_of(
            disk,
            NodeView { key: Seq::empty(), depth: 0, handle: root },
        ).len(),
    ensures
        files_of(disk, NodeView { key: Seq::empty(), depth: 0, handle: root })[i].key.len() == 4,
{
    lemma_depth_below(disk, NodeView { key: Seq::empty(), depth: 0, handle: root }, 4);
}

proof fn lemma_depth_below(disk: Disk, place: NodeView, levels: nat)
    requires
        disk.can_be_listed(),
        place.key.len() == place.depth,
        place.depth <= 4,
    ensures
        forall|i: int|
            0 <= i < files_below(disk, place, levels).len() ==> (#[trigger] files_below(
                disk,
                place,
                levels,
            )[i]).key.len() == 4,
    decreases levels, 0nat,
{
    if place.depth < 4 && levels > 0 {
        let stack = disk.places(place);
        let found = places_in(place, (disk.entries)(place));
        let order = newest_order(keys_of(found));
        crate::session_page::lemma_order_of_places(disk, place);
        lemma_places(place, (disk.entries)(place));
        assert forall|k: int| 0 <= k < stack.len() implies (#[trigger] stack[k]).key.len()
            == stack[k].depth && stack[k].depth <= 4 by {
            let at = order[order.len() - 1 - k] as int;
            assert(stack[k] == found[at]);
        }
        lemma_depth_in(disk, stack, (levels - 1) as nat);
        assert(files_below(disk, place, levels) == files_in(disk, stack, (levels - 1) as nat));
        assert forall|i: int| 0 <= i < files_below(disk, place, levels).len() implies (
        #[trigger] files_below(disk, place, levels)[i]).key.len() == 4 by {
            assert(files_in(disk, stack, (levels - 1) as nat)[i].key.len() == 4);
        }
    } else if levels == 0 && place.depth < 4 {
        assert(files_below(disk, place, levels).len() == 0);
    } else {
        assert(files_below(disk, place, levels) == seq![place]);
    }
}

proof fn lemma_depth_in(disk: Disk, stack: Seq<NodeView>, levels: nat)
    requires
        disk.can_be_listed(),
        forall|k: int|
            0 <= k < stack.len() ==> (#[trigger] stack[k]).key.len() == stack[k].depth
                && stack[k].depth <= 4,
    ensures
        forall|i: int|
            0 <= i < files_in(disk, stack, levels).len() ==> (#[trigger] files_in(
                disk,
                stack,
                levels,
            )[i]).key.len() == 4,
    decreases levels, stack.len() + 1,
{
    if stack.len() > 0 {
        let near = files_below(disk, stack.last(), levels);
        let rest = stack.drop_last();
        let far = files_in(disk, rest, levels);
        assert(stack.last() == stack[stack.len() - 1]);
        lemma_depth_below(disk, stack.last(), levels);
        assert forall|k: int| 0 <= k < rest.len() implies (#[trigger] rest[k]).key.len()
            == rest[k].depth && rest[k].depth <= 4 by {
            assert(rest[k] == stack[k]);
        }
        lemma_depth_in(disk, rest, levels);
        let files = files_in(disk, stack, levels);
        assert(files == near + far);
        assert forall|i: int| 0 <= i < files.len() implies (#[trigger] files[i]).key.len() == 4 by {
            if i < near.len() {
                assert(files[i] == near[i]);
            } else {
                assert(files[i] == far[i - near.len()]);
            }
        }
    }
}

/// Of two names the one with the smaller byte comes first, at the first byte in which they
/// differ, and the beginning of a name comes before the name.
pub proof fn law_order_of_names(front: Seq<u8>, x: u8, a: Seq<u8>, y: u8, b: Seq<u8>)
    ensures
        x != y ==> bytes_before(front.push(x) + a, front.push(y) + b) == (x < y),
        bytes_before(front, front.push(x) + a),
        !bytes_before(front.push(x) + a, front),
        !bytes_before(front, front),
    decreases front.len(),
{
    let p = front.push(x) + a;
    let q = front.push(y) + b;
    if front.len() > 0 {
        law_order_of_names(front.skip(1), x, a, y, b);
        assert(p.skip(1) =~= front.skip(1).push(x) + a);
        assert(q.skip(1) =~= front.skip(1).push(y) + b);
        assert(p[0] == front[0] && q[0] == front[0]);
    }
}

/// Of two paths the one with the smaller name comes first, at the first name in which they
/// differ, and a directory comes before what lies in it.
pub proof fn law_order_of_paths(
    front: Seq<Seq<u8>>,
    x: Seq<u8>,
    a: Seq<Seq<u8>>,
    y: Seq<u8>,
    b: Seq<Seq<u8>>,
)
    ensures
        x != y ==> path_before(front.push(x) + a, front.push(y) + b) == bytes_before(x, y),
        path_before(front, front.push(x) + a),
        !path_before(front.push(x) + a, front),
        !path_before(front, front),
    decreases front.len(),
{
    let p = front.push(x) + a;
    let q = front.push(y) + b;
    if front.len() > 0 {
        law_order_of_paths(front.skip(1), x, a, y, b);
        assert(p.skip(1) =~= front.skip(1).push(x) + a);
        assert(q.skip(1) =~= front.skip(1).push(y) + b);
        assert(p[0] == front[0] && q[0] == front[0]);
    }
}

/// In an order with the newest first every path stands once, none before a newer one; of two
/// equal paths the one that was listed later stands first.
pub proof fn law_newest_first(keys: Seq<Seq<Seq<u8>>>, positions: Seq<usize>, i: int, j: int)
    requires
        is_newest_first(keys, positions),
        0 <= i < j < positions.len(),
    ensures
        positions.len() == keys.len(),
        positions[i] < keys.len() && positions[j] < keys.len(),
        positions[i] != positions[j],
        path_before(keys[positions[j] as int], keys[positions[i] as int]) || (
        keys[positions[i] as int] == keys[positions[j] as int] && positions[i] > positions[j]),
        positions.contains(i as usize),
{
    assert(newer(keys, positions[i] as int, positions[j] as int));
    lemma_path_total(keys[positions[i] as int], keys[positions[i] as int]);
}

} // verus!
