//! Searching the recorded sessions on disk: which directories are listed and which files are
//! read, in which order, until a page is full.
use vstd::prelude::*;
use vstd::string::*;
use crate::lists::lemma_push_deep_view;
use crate::order::{is_newest_first, newest_first, newest_order, PathKey};
use crate::session_scan::{LocalHit, WsSearchParams};
use crate::text::{
    ends_with, has_prefix, has_suffix, lines, lines_of, lowercased, split_whitespace, starts_with,
    to_lowercase, trim, trimmed, words,
};

verus! {

/// The words of a query, in lower case.
pub open spec fn query_tokens(query: Option<Seq<char>>) -> Seq<Seq<char>> {
    match query {
        Some(text) => Seq::new(words(text).len(), |i: int| lowercased(words(text)[i])),
        None => Seq::empty(),
    }
}

fn tokens_of(query: &Option<String>) -> (tokens: Vec<String>)
    ensures
        tokens.deep_view() == query_tokens(query.deep_view()),
{
    let mut tokens: Vec<String> = Vec::new();
    if let Some(text) = query {
        let list: Vec<String> = split_whitespace(text.as_str());
        let ghost parts = list.deep_view();
        let total: usize = list.len();
        for i in 0..total
            invariant
                total == list@.len(),
                parts == list.deep_view(),
                tokens@.len() == i,
                forall|k: int| 0 <= k < i ==> (#[trigger] tokens@[k])@ == lowercased(parts[k]),
        {
            tokens.push(to_lowercase(list[i].as_str()));
        }
    }
    proof {
        assert(tokens.deep_view() =~= query_tokens(query.deep_view()));
    }
    tokens
}

/// How a search begins.
pub enum SearchStart {
    /// There is nothing to search.
    Nothing,
    /// The files are looked for with ripgrep, called with these arguments and the root.
    Prefilter(Vec<String>),
    /// The directories are walked.
    Walk,
}

/// The arguments for ripgrep: list the files of sessions that hold one of the words, whatever
/// the case of their letters.
pub open spec fn ripgrep_arguments(tokens: Seq<Seq<char>>) -> Seq<Seq<char>>
    decreases tokens.len(),
{
    if tokens.len() == 0 {
        seq!["-F"@, "-i"@, "-l"@, "--no-messages"@, "-g"@, "*.jsonl"@]
    } else {
        ripgrep_arguments(tokens.drop_last()).push("-e"@).push(tokens.last())
    }
}

fn push_text(list: &mut Vec<String>, text: &str)
    ensures
        final(list).deep_view() == old(list).deep_view().push(text@),
{
    let item: String = text.to_owned();
    list.push(item);
    proof {
        lemma_push_deep_view(*old(list), item, *list);
    }
}

fn ripgrep_args(tokens: &Vec<String>) -> (args: Vec<String>)
    ensures
        args.deep_view() == ripgrep_arguments(tokens.deep_view()),
{
    let ghost views = tokens.deep_view();
    let mut args: Vec<String> = Vec::new();
    push_text(&mut args, "-F");
    push_text(&mut args, "-i");
    push_text(&mut args, "-l");
    push_text(&mut args, "--no-messages");
    push_text(&mut args, "-g");
    push_text(&mut args, "*.jsonl");
    proof {
        assert(args.deep_view() =~= ripgrep_arguments(views.take(0)));
    }
    let total: usize = tokens.len();
    for i in 0..total
        invariant
            total == tokens@.len(),
            views == tokens.deep_view(),
            args.deep_view() == ripgrep_arguments(views.take(i as int)),
    {
        push_text(&mut args, "-e");
        push_text(&mut args, tokens[i].as_str());
        proof {
            assert(views.take(i + 1).drop_last() =~= views.take(i as int));
        }
    }
    proof {
        assert(views.take(total as int) =~= views);
    }
    args
}

/// How a search begins, in mathematical form.
pub enum StartView {
    Nothing,
    Prefilter(Seq<Seq<char>>),
    Walk,
}

impl DeepView for SearchStart {
    type V = StartView;

    open spec fn deep_view(&self) -> StartView {
        match *self {
            SearchStart::Nothing => StartView::Nothing,
            SearchStart::Prefilter(args) => StartView::Prefilter(args.deep_view()),
            SearchStart::Walk => StartView::Walk,
        }
    }
}

/// How a search begins, by whether there is anything to search and by the query.
pub open spec fn start_for(root_exists: bool, query: Option<Seq<char>>) -> StartView {
    if !root_exists {
        StartView::Nothing
    } else if query_tokens(query).len() > 0 {
        StartView::Prefilter(ripgrep_arguments(query_tokens(query)))
    } else {
        StartView::Walk
    }
}

/// Decide how a search begins: with ripgrep where the query holds a word.
pub fn start_search(root_exists: bool, params: &WsSearchParams) -> (start: SearchStart)
    ensures
        (match start {
            SearchStart::Nothing => !root_exists,
            SearchStart::Prefilter(args) => {
                &&& root_exists
                &&& query_tokens(params.query.deep_view()).len() > 0
                &&& args.deep_view() == ripgrep_arguments(query_tokens(params.query.deep_view()))
            },
            SearchStart::Walk => root_exists && query_tokens(params.query.deep_view()).len() == 0,
        }),
        start.deep_view() == start_for(root_exists, params.query.deep_view()),
{
    if !root_exists {
        return SearchStart::Nothing;
    }
    let tokens: Vec<String> = tokens_of(&params.query);
    if tokens.len() == 0 {
        SearchStart::Walk
    } else {
        SearchStart::Prefilter(ripgrep_args(&tokens))
    }
}

/// The lines that hold anything, without the white space around them.
pub open spec fn full_lines(lines: Seq<Seq<char>>) -> Seq<Seq<char>>
    decreases lines.len(),
{
    if lines.len() == 0 {
        Seq::empty()
    } else if trimmed(lines.last()).len() == 0 {
        full_lines(lines.drop_last())
    } else {
        full_lines(lines.drop_last()).push(trimmed(lines.last()))
    }
}

/// The paths that ripgrep found, by whether it could be run, how it ended and what it wrote.
pub open spec fn found_paths(ran: bool, success: bool, output: Seq<char>) -> Option<Seq<Seq<char>>> {
    if !ran {
        None
    } else if success {
        Some(full_lines(lines_of(output)))
    } else {
        Some(Seq::empty())
    }
}

/// The paths that ripgrep found: one to a line of what it wrote, and none where it found
/// nothing. Where it could not be run, it says nothing about the sessions.
pub fn ripgrep_candidates(ran: bool, success: bool, output: &str) -> (paths: Option<Vec<String>>)
    ensures
        paths.deep_view() == (if !ran {
            None
        } else if success {
            Some(full_lines(lines_of(output@)))
        } else {
            Some(Seq::empty())
        }),
        paths.deep_view() == found_paths(ran, success, output@),
{
    if !ran {
        return None;
    }
    let mut paths: Vec<String> = Vec::new();
    proof {
        assert(paths.deep_view() =~= Seq::empty());
    }
    if !success {
        return Some(paths);
    }
    let list: Vec<String> = lines(output);
    let ghost views = list.deep_view();
    let total: usize = list.len();
    for i in 0..total
        invariant
            total == list@.len(),
            views == list.deep_view(),
            paths.deep_view() == full_lines(views.take(i as int)),
    {
        let text: &str = trim(list[i].as_str());
        if text.unicode_len() > 0 {
            push_text(&mut paths, text);
        }
        proof {
            assert(views.take(i + 1).drop_last() =~= views.take(i as int));
            assert(views.take(i + 1).last() == list@[i as int]@);
        }
    }
    proof {
        assert(views.take(total as int) =~= views);
    }
    Some(paths)
}

/// How deep in the tree of sessions the files lie: below a year, a month and a day.
pub const FILE_DEPTH: u8 = 4;

/// A place that is still to be visited: a directory or, at the depth of files, a file.
#[derive(Debug, Clone)]
pub struct SearchNode {
    pub key: PathKey,
    pub depth: u8,
    pub handle: usize,
}

/// A place that is still to be visited, in mathematical form.
pub struct NodeView {
    pub key: Seq<Seq<u8>>,
    pub depth: u8,
    pub handle: usize,
}

impl DeepView for SearchNode {
    type V = NodeView;

    open spec fn deep_view(&self) -> NodeView {
        NodeView { key: self.key.deep_view(), depth: self.depth, handle: self.handle }
    }
}

/// What an entry of a directory is.
#[derive(Debug, Clone, Copy, PartialEq, Eq, Structural)]
pub enum EntryKind {
    Directory,
    File,
    Other,
}

/// An entry of a directory: its name in bytes and as text.
#[derive(Debug, Clone)]
pub struct ListedEntry {
    pub name: Vec<u8>,
    pub text: String,
    pub kind: EntryKind,
    pub handle: usize,
}

/// Entries that are visited: directories above the depth of files, and there the files whose
/// names begin with `rollout-` and end with `.jsonl`.
pub open spec fn is_visited(depth: u8, entry: ListedEntry) -> bool {
    if depth + 1 < FILE_DEPTH {
        entry.kind is Directory
    } else {
        entry.kind is File && has_prefix(entry.text@, "rollout-"@) && has_suffix(
            entry.text@,
            ".jsonl"@,
        )
    }
}

/// The places that a directory leads to, in the order in which it lists them.
pub open spec fn places_in(parent: NodeView, entries: Seq<ListedEntry>) -> Seq<NodeView>
    decreases entries.len(),
{
    if entries.len() == 0 {
        Seq::empty()
    } else {
        let before = places_in(parent, entries.drop_last());
        let entry = entries.last();
        if is_visited(parent.depth, entry) {
            before.push(
                NodeView {
                    key: parent.key.push(entry.name@),
                    depth: (parent.depth + 1) as u8,
                    handle: entry.handle,
                },
            )
        } else {
            before
        }
    }
}

/// The keys of a list of places.
pub open spec fn keys_of(places: Seq<NodeView>) -> Seq<Seq<Seq<u8>>> {
    Seq::new(places.len(), |i: int| places[i].key)
}

/// The places in an order in which the newest comes last.
pub open spec fn stacked(places: Seq<NodeView>, positions: Seq<usize>) -> Seq<NodeView> {
    Seq::new(
        positions.len(),
        |i: int| places[positions[positions.len() - 1 - i] as int],
    )
}

/// The places of a list, the newest last.
pub open spec fn newest_last(places: Seq<NodeView>) -> Seq<NodeView> {
    stacked(places, newest_order(keys_of(places)))
}

/// A place for each path of a list, each a file.
pub open spec fn file_places(keys: Seq<Seq<Seq<u8>>>) -> Seq<NodeView> {
    Seq::new(
        keys.len(),
        |i: int| NodeView { key: keys[i], depth: FILE_DEPTH, handle: i as usize },
    )
}

/// What is to be done next.
pub enum SearchAction {
    /// List this directory.
    List(SearchNode),
    /// Read this file.
    Read(SearchNode),
    /// The search is over.
    Finished,
}

pub enum ActionView {
    List(NodeView),
    Read(NodeView),
    Finished,
}

impl DeepView for SearchAction {
    type V = ActionView;

    open spec fn deep_view(&self) -> ActionView {
        match *self {
            SearchAction::List(node) => ActionView::List(node.deep_view()),
            SearchAction::Read(node) => ActionView::Read(node.deep_view()),
            SearchAction::Finished => ActionView::Finished,
        }
    }
}

/// How far a search has come: the places to visit, the next one last, and the page of hits.
#[verifier::ext_equal]
pub struct SearchState {
    pub stack: Seq<NodeView>,
    pub hits: Seq<LocalHit>,
}

/// Where a search begins: at the files that were found for it, or at the root of the tree.
pub open spec fn start_of(candidates: Option<Seq<Seq<Seq<u8>>>>, root: usize) -> SearchState {
    SearchState {
        stack: match candidates {
            Some(keys) => newest_last(file_places(keys)),
            None => seq![NodeView { key: Seq::empty(), depth: 0, handle: root }],
        },
        hits: Seq::empty(),
    }
}

/// What is to be done next. A directory is listed; a file is read while the page has room.
pub open spec fn next_action(state: SearchState, page_size: nat) -> ActionView {
    if state.stack.len() == 0 {
        ActionView::Finished
    } else if state.stack.last().depth < FILE_DEPTH {
        ActionView::List(state.stack.last())
    } else if state.hits.len() < page_size {
        ActionView::Read(state.stack.last())
    } else {
        ActionView::Finished
    }
}

/// The search once that was taken up: without the place, and with none where it is over.
pub open spec fn after_next(state: SearchState, page_size: nat) -> SearchState {
    match next_action(state, page_size) {
        ActionView::Finished => SearchState { stack: Seq::empty(), hits: state.hits },
        _ => SearchState { stack: state.stack.drop_last(), hits: state.hits },
    }
}

/// The search once a directory was listed.
pub open spec fn after_listed(
    state: SearchState,
    parent: NodeView,
    entries: Seq<ListedEntry>,
) -> SearchState {
    SearchState {
        stack: state.stack + newest_last(places_in(parent, entries)),
        hits: state.hits,
    }
}

/// The search once a file was read.
pub open spec fn after_found(state: SearchState, hit: Option<LocalHit>) -> SearchState {
    match hit {
        Some(found) => SearchState { stack: state.stack, hits: state.hits.push(found) },
        None => state,
    }
}

/// A search: the places to visit, the next one last, and the page of hits.
pub struct SessionSearch {
    pub stack: Vec<SearchNode>,
    pub hits: Vec<LocalHit>,
    pub page_size: usize,
}

/// Put places on the stack, the newest on top.
fn stack_places(stack: &mut Vec<SearchNode>, places: Vec<SearchNode>)
    ensures
        final(stack).deep_view() == old(stack).deep_view() + newest_last(places.deep_view()),
{
    let ghost views = places.deep_view();
    let ghost old_stack = stack.deep_view();
    let mut keys: Vec<PathKey> = Vec::new();
    let total: usize = places.len();
    for i in 0..total
        invariant
            total == places@.len(),
            views == places.deep_view(),
            keys@.len() == i,
            forall|k: int|
                0 <= k < i ==> (#[trigger] keys@[k]).deep_view() == places@[k].key.deep_view(),
    {
        keys.push(copy_key(&places[i].key));
    }
    proof {
        assert(keys.deep_view() =~= keys_of(views));
    }
    let positions: Vec<usize> = newest_first(&keys);
    let ghost order = positions@;
    let mut left: usize = total;
    proof {
        assert(stacked(views, order).take(0) =~= Seq::empty());
        assert(old_stack + stacked(views, order).take(0) =~= old_stack);
    }
    while left > 0
        invariant
            left <= total,
            total == places@.len(),
            views == places.deep_view(),
            positions@ == order,
            is_newest_first(keys_of(views), order),
            stack.deep_view() == old_stack + stacked(views, order).take(total - left),
        decreases left,
    {
        left = left - 1;
        let ghost before = *stack;
        let ghost before_view = stack.deep_view();
        let node: SearchNode = copy_node(&places[positions[left]]);
        let ghost node_view = node.deep_view();
        stack.push(node);
        proof {
            let i = total - 1 - left;
            assert(stacked(views, order)[i] == views[order[left as int] as int]);
            assert(views[order[left as int] as int] == node_view);
            assert(stacked(views, order).take(i + 1) =~= stacked(views, order).take(i).push(
                node_view,
            ));
            lemma_push_deep_view(before, node, *stack);
            assert(before_view.push(node_view) =~= old_stack + stacked(views, order).take(i + 1));
        }
    }
    proof {
        assert(stacked(views, order).take(total as int) =~= stacked(views, order));
    }
}

fn copy_key(key: &PathKey) -> (copy: PathKey)
    ensures
        copy.deep_view() == key.deep_view(),
{
    let mut components: Vec<Vec<u8>> = Vec::new();
    let total: usize = key.components.len();
    for i in 0..total
        invariant
            total == key.components@.len(),
            components@.len() == i,
            forall|k: int| 0 <= k < i ==> (#[trigger] components@[k])@ == key.components@[k]@,
    {
        components.push(copy_bytes(&key.components[i]));
    }
    let copy: PathKey = PathKey { components };
    proof {
        assert(copy.deep_view() =~= key.deep_view()) by {
            assert forall|k: int| 0 <= k < total implies copy.deep_view()[k] == key.deep_view()[k] by {
                assert(copy.components@[k].deep_view() =~= key.components@[k].deep_view());
            }
        }
    }
    copy
}

fn copy_bytes(bytes: &Vec<u8>) -> (copy: Vec<u8>)
    ensures
        copy@ == bytes@,
{
    let mut copy: Vec<u8> = Vec::new();
    let total: usize = bytes.len();
    for i in 0..total
        invariant
            total == bytes@.len(),
            copy@.len() == i,
            forall|k: int| 0 <= k < i ==> #[trigger] copy@[k] == bytes@[k],
    {
        copy.push(bytes[i]);
    }
    proof {
        assert(copy@ =~= bytes@);
    }
    copy
}

fn copy_node(node: &SearchNode) -> (copy: SearchNode)
    ensures
        copy.deep_view() == node.deep_view(),
{
    SearchNode { key: copy_key(&node.key), depth: node.depth, handle: node.handle }
}

/// The path of an entry: that of its directory, and its name.
fn child_key(parent: &PathKey, name: &Vec<u8>) -> (key: PathKey)
    ensures
        key.deep_view() == parent.deep_view().push(name@),
{
    let mut key: PathKey = copy_key(parent);
    let ghost before = key.components@;
    key.components.push(copy_bytes(name));
    proof {
        assert(key.deep_view() =~= parent.deep_view().push(name@)) by {
            assert forall|k: int| 0 <= k < before.len() + 1 implies key.deep_view()[k]
                == parent.deep_view().push(name@)[k] by {
                if k < before.len() {
                    assert(key.components@[k] == before[k]);
                    assert(before[k].deep_view() == parent.deep_view()[k]);
                } else {
                    assert(key.components@[k].deep_view() =~= name@);
                }
            }
        }
    }
    key
}

/// Is the entry visited?
fn visits(depth: u8, entry: &ListedEntry) -> (yes: bool)
    requires
        depth < FILE_DEPTH,
    ensures
        yes == is_visited(depth, *entry),
{
    if depth + 1 < FILE_DEPTH {
        match entry.kind {
            EntryKind::Directory => true,
            _ => false,
        }
    } else {
        match entry.kind {
            EntryKind::File => starts_with(entry.text.as_str(), "rollout-") && ends_with(
                entry.text.as_str(),
                ".jsonl",
            ),
            _ => false,
        }
    }
}

impl SessionSearch {
    /// A search through the tree below a root that the caller knows by the number `handle`.
    fn walk(handle: usize, page_size: usize) -> (search: SessionSearch)
        ensures
            search.stack.deep_view() == seq![
                NodeView { key: Seq::empty(), depth: 0, handle },
            ],
            search.hits@.len() == 0,
            search.page_size == page_size,
    {
        let mut stack: Vec<SearchNode> = Vec::new();
        let key: PathKey = PathKey { components: Vec::new() };
        proof {
            assert(key.deep_view() =~= Seq::empty());
        }
        stack.push(SearchNode { key, depth: 0, handle });
        proof {
            assert(stack.deep_view() =~= seq![
                NodeView { key: Seq::empty(), depth: 0, handle },
            ]);
        }
        SessionSearch { stack, hits: Vec::new(), page_size }
    }

    /// A search through a list of files, which the caller knows by their positions in it.
    fn of_files(keys: Vec<PathKey>, page_size: usize) -> (search: SessionSearch)
        ensures
            search.stack.deep_view() == newest_last(file_places(keys.deep_view())),
            search.hits@.len() == 0,
            search.page_size == page_size,
    {
        let ghost views = keys.deep_view();
        let mut places: Vec<SearchNode> = Vec::new();
        let total: usize = keys.len();
        for i in 0..total
            invariant
                total == keys@.len(),
                views == keys.deep_view(),
                places@.len() == i,
                forall|k: int|
                    0 <= k < i ==> (#[trigger] places@[k]).deep_view() == (NodeView {
                        key: views[k],
                        depth: FILE_DEPTH,
                        handle: k as usize,
                    }),
        {
            let node: SearchNode = SearchNode {
                key: copy_key(&keys[i]),
                depth: FILE_DEPTH,
                handle: i,
            };
            places.push(node);
        }
        proof {
            assert(places.deep_view() =~= file_places(views));
            assert(keys_of(file_places(views)) =~= views);
        }
        let mut stack: Vec<SearchNode> = Vec::new();
        proof {
            assert(stack.deep_view() =~= Seq::empty());
        }
        stack_places(&mut stack, places);
        proof {
            assert(stack.deep_view() =~= newest_last(file_places(views)));
        }
        SessionSearch { stack, hits: Vec::new(), page_size }
    }

    /// A search through the files that ripgrep found, or through the whole tree below the root
    /// where it could not be run or was not asked.
    pub fn begin(candidates: Option<Vec<PathKey>>, root: usize, page_size: usize) -> (search:
        SessionSearch)
        ensures
            search.state() == start_of(candidates.deep_view(), root),
            search.page_size == page_size,
    {
        match candidates {
            Some(keys) => SessionSearch::of_files(keys, page_size),
            None => SessionSearch::walk(root, page_size),
        }
    }

    /// The places to visit and the page.
    pub open spec fn state(self) -> SearchState {
        SearchState { stack: self.stack.deep_view(), hits: self.hits@ }
    }

    /// What is to be done next: the place on top of the stack is taken from it. A file is read
    /// while the page has room; where it has none, the search is over.
    pub fn next(&mut self) -> (action: SearchAction)
        ensures
            action.deep_view() == next_action(old(self).state(), old(self).page_size as nat),
            final(self).state() == after_next(old(self).state(), old(self).page_size as nat),
            final(self).page_size == old(self).page_size,
    {
        let ghost before = self.stack.deep_view();
        match self.stack.pop() {
            Some(node) => {
                proof {
                    assert(self.stack.deep_view() =~= before.drop_last());
                    assert(node.deep_view() == before.last());
                }
                if node.depth < FILE_DEPTH {
                    SearchAction::List(node)
                } else if self.hits.len() >= self.page_size {
                    self.stack.clear();
                    proof {
                        assert(self.stack.deep_view() =~= Seq::empty());
                    }
                    SearchAction::Finished
                } else {
                    SearchAction::Read(node)
                }
            },
            None => SearchAction::Finished,
        }
    }

    /// A directory was listed: the places it leads to come next, the newest first.
    pub fn listed(&mut self, parent: &SearchNode, entries: &Vec<ListedEntry>)
        requires
            parent.depth < FILE_DEPTH,
        ensures
            final(self).state() == after_listed(
                old(self).state(),
                parent.deep_view(),
                entries@,
            ),
            final(self).page_size == old(self).page_size,
    {
        let ghost pv = parent.deep_view();
        let mut places: Vec<SearchNode> = Vec::new();
        proof {
            assert(places.deep_view() =~= places_in(pv, entries@.take(0)));
        }
        let total: usize = entries.len();
        for i in 0..total
            invariant
                total == entries@.len(),
                parent.depth < FILE_DEPTH,
                pv == parent.deep_view(),
                places.deep_view() == places_in(pv, entries@.take(i as int)),
        {
            proof {
                assert(entries@.take(i + 1).drop_last() =~= entries@.take(i as int));
            }
            if visits(parent.depth, &entries[i]) {
                let ghost before = places;
                let node: SearchNode = SearchNode {
                    key: child_key(&parent.key, &entries[i].name),
                    depth: parent.depth + 1,
                    handle: entries[i].handle,
                };
                places.push(node);
                proof {
                    lemma_push_deep_view(before, node, places);
                }
            }
        }
        proof {
            assert(entries@.take(total as int) =~= entries@);
        }
        stack_places(&mut self.stack, places);
    }

    /// A file was read: it is put on the page where it is a hit.
    pub fn found(&mut self, hit: Option<LocalHit>)
        ensures
            final(self).state() == after_found(old(self).state(), hit),
            final(self).page_size == old(self).page_size,
    {
        if let Some(hit) = hit {
            self.hits.push(hit);
        }
    }
}

} // verus!
