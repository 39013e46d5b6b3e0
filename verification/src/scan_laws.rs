//! What is read of a recorded session, line by line, and when a search finds it.
use crate::json::{json_member, json_member_string, json_parsed, JsonModel};
use crate::session_scan::{
    after_line, after_lines, after_read, first_input_text, hit_of, id_in_file_name, message_preview,
    passes, patch_in, preview_text, summary_hit, unread, with_files, ReadLine, ScanView, WsSearchParams,
};
use crate::text::{has_prefix, has_substring, has_suffix, lowercased, trimmed, words};
use crate::text_laws::{law_last_segment, law_suffix};
use vstd::prelude::*;

verus! {

/// Some command begins with one of these words.
pub open spec fn runs_one_of(scan: ScanView, beginnings: Seq<String>) -> bool {
    exists|i: int, j: int|
        0 <= i < scan.commands.len() && 0 <= j < beginnings.len() && #[trigger] has_prefix(
            scan.commands[i],
            beginnings[j]@,
        )
}

/// Some file that was touched has one of these parts in its name.
pub open spec fn touches_one_of(scan: ScanView, parts: Seq<String>) -> bool {
    exists|i: int, j: int|
        0 <= i < scan.files_touched.len() && 0 <= j < parts.len() && #[trigger] has_substring(
            scan.files_touched[i],
            parts[j]@,
        )
}

/// The query, in lower case, stands in the preview in lower case, in a command, or in the name
/// of a file.
pub open spec fn speaks_of(scan: ScanView, query: Seq<char>) -> bool {
    ||| scan.preview matches Some(text) && has_substring(lowercased(text), lowercased(query))
    ||| scan.preview is None && has_substring(lowercased(Seq::empty()), lowercased(query))
    ||| exists|i: int|
        0 <= i < scan.commands.len() && has_substring(
            #[trigger] scan.commands[i],
            lowercased(query),
        )
    ||| exists|i: int|
        0 <= i < scan.files_touched.len() && has_substring(
            #[trigger] scan.files_touched[i],
            lowercased(query),
        )
}

proof fn lemma_starts(list: Seq<Seq<char>>, beginnings: Vec<String>)
    ensures
        crate::session_scan::some_starts_with(list, beginnings.deep_view()) == exists|
            i: int,
            j: int,
        |
            0 <= i < list.len() && 0 <= j < beginnings@.len() && #[trigger] has_prefix(
                list[i],
                beginnings@[j]@,
            ),
{
    let views = beginnings.deep_view();
    if crate::session_scan::some_starts_with(list, views) {
        let (i, j) = choose|i: int, j: int|
            0 <= i < list.len() && 0 <= j < views.len() && #[trigger] has_prefix(list[i], views[j]);
        assert(has_prefix(list[i], beginnings@[j]@));
    }
    if exists|i: int, j: int|
        0 <= i < list.len() && 0 <= j < beginnings@.len() && #[trigger] has_prefix(
            list[i],
            beginnings@[j]@,
        ) {
        let (i, j) = choose|i: int, j: int|
            0 <= i < list.len() && 0 <= j < beginnings@.len() && #[trigger] has_prefix(
                list[i],
                beginnings@[j]@,
            );
        assert(has_prefix(list[i], views[j]));
    }
}

proof fn lemma_holds(list: Seq<Seq<char>>, parts: Vec<String>)
    ensures
        crate::session_scan::some_holds(list, parts.deep_view()) == exists|i: int, j: int|
            0 <= i < list.len() && 0 <= j < parts@.len() && #[trigger] has_substring(
                list[i],
                parts@[j]@,
            ),
{
    let views = parts.deep_view();
    if crate::session_scan::some_holds(list, views) {
        let (i, j) = choose|i: int, j: int|
            0 <= i < list.len() && 0 <= j < views.len() && #[trigger] has_substring(
                list[i],
                views[j],
            );
        assert(has_substring(list[i], parts@[j]@));
    }
    if exists|i: int, j: int|
        0 <= i < list.len() && 0 <= j < parts@.len() && #[trigger] has_substring(
            list[i],
            parts@[j]@,
        ) {
        let (i, j) = choose|i: int, j: int|
            0 <= i < list.len() && 0 <= j < parts@.len() && #[trigger] has_substring(
                list[i],
                parts@[j]@,
            );
        assert(has_substring(list[i], views[j]));
    }
}

proof fn lemma_one_part(list: Seq<Seq<char>>, part: Seq<char>)
    ensures
        crate::session_scan::some_holds(list, seq![part]) == exists|i: int|
            0 <= i < list.len() && has_substring(#[trigger] list[i], part),
{
    if crate::session_scan::some_holds(list, seq![part]) {
        let (i, j) = choose|i: int, j: int|
            0 <= i < list.len() && 0 <= j < 1 && #[trigger] has_substring(list[i], seq![part][j]);
        assert(has_substring(list[i], part));
    }
    if exists|i: int| 0 <= i < list.len() && has_substring(#[trigger] list[i], part) {
        let i = choose|i: int| 0 <= i < list.len() && has_substring(#[trigger] list[i], part);
        assert(has_substring(list[i], seq![part][0]));
    }
}

/// A session that is found passes each filter that is given, whatever others are given with
/// it.
pub proof fn law_found_sessions_pass_each_filter(scan: ScanView, params: WsSearchParams)
    requires
        passes(scan, params),
    ensures
        params.has_exec matches Some(expected) ==> scan.has_exec == expected,
        params.has_writes matches Some(expected) ==> scan.has_writes == expected,
        params.include_command_prefixes@.len() > 0 ==> runs_one_of(
            scan,
            params.include_command_prefixes@,
        ),
        !runs_one_of(scan, params.exclude_command_prefixes@),
        params.include_files@.len() > 0 ==> touches_one_of(scan, params.include_files@),
        !touches_one_of(scan, params.exclude_files@),
        params.cwd_prefix matches Some(prefix) ==> scan.cwd matches Some(cwd) && has_prefix(
            cwd,
            prefix@,
        ),
        params.query matches Some(query) ==> speaks_of(scan, query@),
{
    lemma_filters(scan, params);
}

proof fn lemma_filters(scan: ScanView, params: WsSearchParams)
    ensures
        crate::session_scan::some_starts_with(
            scan.commands,
            params.include_command_prefixes.deep_view(),
        ) == runs_one_of(scan, params.include_command_prefixes@),
        crate::session_scan::some_starts_with(
            scan.commands,
            params.exclude_command_prefixes.deep_view(),
        ) == runs_one_of(scan, params.exclude_command_prefixes@),
        crate::session_scan::some_holds(scan.files_touched, params.include_files.deep_view())
            == touches_one_of(scan, params.include_files@),
        crate::session_scan::some_holds(scan.files_touched, params.exclude_files.deep_view())
            == touches_one_of(scan, params.exclude_files@),
        params.query matches Some(query) ==> crate::session_scan::answers_query(scan, query@)
            == speaks_of(scan, query@),
{
    lemma_starts(scan.commands, params.include_command_prefixes);
    lemma_starts(scan.commands, params.exclude_command_prefixes);
    lemma_holds(scan.files_touched, params.include_files);
    lemma_holds(scan.files_touched, params.exclude_files);
    if let Some(query) = params.query {
        lemma_one_part(scan.commands, lowercased(query@));
        lemma_one_part(scan.files_touched, lowercased(query@));
    }
}

/// A session that passes each filter that is given is found.
pub proof fn law_sessions_that_pass_each_filter_are_found(scan: ScanView, params: WsSearchParams)
    requires
        params.has_exec matches Some(expected) ==> scan.has_exec == expected,
        params.has_writes matches Some(expected) ==> scan.has_writes == expected,
        params.include_command_prefixes@.len() > 0 ==> runs_one_of(
            scan,
            params.include_command_prefixes@,
        ),
        !runs_one_of(scan, params.exclude_command_prefixes@),
        params.include_files@.len() > 0 ==> touches_one_of(scan, params.include_files@),
        !touches_one_of(scan, params.exclude_files@),
        params.cwd_prefix matches Some(prefix) ==> scan.cwd matches Some(cwd) && has_prefix(
            cwd,
            prefix@,
        ),
        params.query matches Some(query) ==> speaks_of(scan, query@),
    ensures
        passes(scan, params),
{
    lemma_filters(scan, params);
}

/// Each filter of the first search is one of the second, or is not given.
pub open spec fn asks_for_less(less: WsSearchParams, more: WsSearchParams) -> bool {
    &&& less.has_exec is None || less.has_exec == more.has_exec
    &&& less.has_writes is None || less.has_writes == more.has_writes
    &&& less.include_command_prefixes@.len() == 0 || less.include_command_prefixes
        == more.include_command_prefixes
    &&& less.exclude_command_prefixes@.len() == 0 || less.exclude_command_prefixes
        == more.exclude_command_prefixes
    &&& less.include_files@.len() == 0 || less.include_files == more.include_files
    &&& less.exclude_files@.len() == 0 || less.exclude_files == more.exclude_files
    &&& less.cwd_prefix is None || less.cwd_prefix == more.cwd_prefix
    &&& less.query is None || less.query == more.query
}

/// Adding filters to a search never finds a session that was not found without them.
pub proof fn law_more_filters_find_less(
    scan: ScanView,
    less: WsSearchParams,
    more: WsSearchParams,
)
    requires
        asks_for_less(less, more),
        passes(scan, more),
    ensures
        passes(scan, less),
{
    law_found_sessions_pass_each_filter(scan, more);
    law_sessions_that_pass_each_filter_are_found(scan, less);
}

/// The line holds this tree.
pub open spec fn holds_tree(line: Seq<char>, tree: JsonModel) -> bool {
    trimmed(line).len() > 0 && json_parsed(trimmed(line)) == Some(tree)
}

/// The payload of a line; null where it has none.
pub open spec fn payload_in(tree: JsonModel) -> JsonModel {
    match json_member(tree, "payload"@) {
        Some(payload) => payload,
        None => JsonModel::Null,
    }
}

/// Nothing else of what was read changes but what is named here: neither who the session is,
/// nor what it did.
pub open spec fn same_session(a: ScanView, b: ScanView) -> bool {
    a.id == b.id && a.timestamp == b.timestamp && a.cwd == b.cwd
}

/// The same commands, patches and files.
pub open spec fn same_deeds(a: ScanView, b: ScanView) -> bool {
    &&& a.has_exec == b.has_exec
    &&& a.has_writes == b.has_writes
    &&& a.commands == b.commands
    &&& a.files_touched == b.files_touched
}

/// A line that is blank or no JSON says nothing.
pub proof fn law_unreadable_line(scan: ScanView, line: Seq<char>)
    requires
        trimmed(line).len() == 0 || json_parsed(trimmed(line)) is None,
    ensures
        after_line(scan, line) == scan,
        patch_in(line) is None,
{
}

/// The line that describes a session says who it is: its id and its directory stand in the
/// payload, its time beside it. It says nothing of what was done.
pub proof fn law_line_that_describes(scan: ScanView, line: Seq<char>, tree: JsonModel)
    requires
        holds_tree(line, tree),
        json_member_string(tree, "type"@) == Some("session_meta"@),
    ensures
        after_line(scan, line).id == json_member_string(payload_in(tree), "id"@),
        after_line(scan, line).cwd == json_member_string(payload_in(tree), "cwd"@),
        after_line(scan, line).timestamp == json_member_string(tree, "timestamp"@),
        after_line(scan, line).preview == scan.preview,
        same_deeds(after_line(scan, line), scan),
        patch_in(line) is None,
{
    reveal_strlit("session_meta");
    reveal_strlit("response_item");
    assert("session_meta"@.len() != "response_item"@.len());
}

/// A line with a message of the conversation gives the preview, where there is none yet, and
/// nothing else.
pub proof fn law_line_with_a_message(scan: ScanView, line: Seq<char>, tree: JsonModel)
    requires
        holds_tree(line, tree),
        json_member_string(tree, "type"@) == Some("response_item"@),
        json_member_string(payload_in(tree), "type"@) == Some("message"@),
    ensures
        scan.preview is Some ==> after_line(scan, line).preview == scan.preview,
        scan.preview is None ==> after_line(scan, line).preview == message_preview(
            payload_in(tree),
        ),
        same_session(after_line(scan, line), scan),
        same_deeds(after_line(scan, line), scan),
        patch_in(line) is None,
{
    lemma_types();
}

proof fn lemma_types()
    ensures
        "session_meta"@ != "response_item"@,
        "message"@ != "function_call"@,
        "exec_command"@ != "apply_patch"@,
{
    reveal_strlit("session_meta");
    reveal_strlit("response_item");
    reveal_strlit("message");
    reveal_strlit("function_call");
    reveal_strlit("exec_command");
    reveal_strlit("apply_patch");
    assert("session_meta"@.len() != "response_item"@.len());
    assert("message"@.len() != "function_call"@.len());
    assert("exec_command"@.len() != "apply_patch"@.len());
}

/// The piece of a message is a text that was put in.
pub open spec fn is_input_text(piece: JsonModel) -> bool {
    json_member_string(piece, "type"@) == Some("input_text"@) && json_member_string(
        piece,
        "text"@,
    ) is Some
}

/// The preview is the text of the first piece that was put in, as it is, whatever stands
/// before and behind it.
pub proof fn law_preview_is_the_first_input(
    payload: JsonModel,
    front: Seq<JsonModel>,
    piece: JsonModel,
    rest: Seq<JsonModel>,
)
    requires
        json_member(payload, "content"@) == Some(JsonModel::Array(front.push(piece) + rest)),
        is_input_text(piece),
        forall|i: int| 0 <= i < front.len() ==> !is_input_text(#[trigger] front[i]),
    ensures
        message_preview(payload) == json_member_string(piece, "text"@),
{
    lemma_first_input(front, piece, rest);
}

proof fn lemma_first_input(front: Seq<JsonModel>, piece: JsonModel, rest: Seq<JsonModel>)
    requires
        is_input_text(piece),
        forall|i: int| 0 <= i < front.len() ==> !is_input_text(#[trigger] front[i]),
    ensures
        first_input_text(front.push(piece) + rest) == json_member_string(piece, "text"@),
    decreases front.len(),
{
    let all = front.push(piece) + rest;
    if front.len() > 0 {
        assert(all[0] == front[0]);
        assert(all.skip(1) =~= front.skip(1).push(piece) + rest);
        assert forall|i: int| 0 <= i < front.skip(1).len() implies !is_input_text(
            #[trigger] front.skip(1)[i],
        ) by {
            assert(front.skip(1)[i] == front[i + 1]);
        }
        lemma_first_input(front.skip(1), piece, rest);
    } else {
        assert(all[0] == piece);
    }
}

/// A message into which no text was put has no preview.
pub proof fn law_no_input_no_preview(payload: JsonModel, pieces: Seq<JsonModel>)
    requires
        forall|i: int| 0 <= i < pieces.len() ==> !is_input_text(#[trigger] pieces[i]),
    ensures
        first_input_text(pieces) is None,
        !(json_member(payload, "content"@) matches Some(JsonModel::Array(_))) ==> message_preview(
            payload,
        ) is None,
    decreases pieces.len(),
{
    if pieces.len() > 0 {
        assert(!is_input_text(pieces[0]));
        assert forall|i: int| 0 <= i < pieces.skip(1).len() implies !is_input_text(
            #[trigger] pieces.skip(1)[i],
        ) by {
            assert(pieces.skip(1)[i] == pieces[i + 1]);
        }
        law_no_input_no_preview(payload, pieces.skip(1));
    }
}

/// The call has this argument: its arguments are JSON, written as a string.
pub open spec fn has_argument(payload: JsonModel, key: Seq<char>, value: Seq<char>) -> bool {
    json_member_string(payload, "arguments"@) matches Some(text) && json_parsed(text) matches Some(
        arguments,
    ) && json_member_string(arguments, key) == Some(value)
}

/// The line holds a call of the conversation.
pub open spec fn holds_call(line: Seq<char>, tree: JsonModel, name: Seq<char>) -> bool {
    &&& holds_tree(line, tree)
    &&& json_member_string(tree, "type"@) == Some("response_item"@)
    &&& json_member_string(payload_in(tree), "type"@) == Some("function_call"@)
    &&& json_member_string(payload_in(tree), "name"@) == Some(name)
}

/// A line with a call that runs a command is kept in mind, with the first word of the command
/// behind those before it; it says nothing else, and applies no patch.
pub proof fn law_line_that_runs(
    scan: ScanView,
    line: Seq<char>,
    tree: JsonModel,
    command: Seq<char>,
)
    requires
        holds_call(line, tree, "exec_command"@),
    ensures
        after_line(scan, line).has_exec,
        after_line(scan, line).has_writes == scan.has_writes,
        after_line(scan, line).files_touched == scan.files_touched,
        after_line(scan, line).preview == scan.preview,
        same_session(after_line(scan, line), scan),
        has_argument(payload_in(tree), "cmd"@, command) && words(command).len() > 0
            ==> after_line(scan, line).commands == scan.commands.push(words(command)[0]),
        has_argument(payload_in(tree), "cmd"@, command) && words(command).len() == 0
            ==> after_line(scan, line).commands == scan.commands,
        (forall|c: Seq<char>| !#[trigger] has_argument(payload_in(tree), "cmd"@, c))
            ==> after_line(scan, line).commands == scan.commands,
        patch_in(line) is None,
{
    lemma_types();
    let payload = payload_in(tree);
    if forall|c: Seq<char>| !#[trigger] has_argument(payload, "cmd"@, c) {
        if let Some(c) = crate::session_scan::call_argument(payload, "cmd"@) {
            assert(has_argument(payload, "cmd"@, c));
        }
    }
}

/// A line with a call that applies a patch hands the patch out, as it is, and says that files
/// were written; it says nothing else.
pub proof fn law_line_that_writes(
    scan: ScanView,
    line: Seq<char>,
    tree: JsonModel,
    patch: Seq<char>,
)
    requires
        holds_call(line, tree, "apply_patch"@),
    ensures
        after_line(scan, line).has_writes,
        after_line(scan, line).has_exec == scan.has_exec,
        after_line(scan, line).commands == scan.commands,
        after_line(scan, line).files_touched == scan.files_touched,
        after_line(scan, line).preview == scan.preview,
        same_session(after_line(scan, line), scan),
        has_argument(payload_in(tree), "patch"@, patch) == (patch_in(line) == Some(patch)),
{
    lemma_types();
}

/// Any other line says nothing: other calls, other items, and other kinds of lines.
pub proof fn law_other_line(scan: ScanView, line: Seq<char>, tree: JsonModel)
    requires
        holds_tree(line, tree),
        json_member_string(tree, "type"@) != Some("session_meta"@),
        json_member_string(tree, "type"@) == Some("response_item"@) ==> {
            &&& json_member_string(payload_in(tree), "type"@) != Some("message"@)
            &&& json_member_string(payload_in(tree), "type"@) == Some("function_call"@) ==> {
                &&& json_member_string(payload_in(tree), "name"@) != Some("exec_command"@)
                &&& json_member_string(payload_in(tree), "name"@) != Some("apply_patch"@)
            }
        },
    ensures
        after_line(scan, line) == scan,
        patch_in(line) is None,
{
}

/// A session of which nothing was read, and reading lines one after the other: each line says
/// what it says, and the files of its patch come behind those before it.
pub proof fn law_lines_are_read_in_order(scan: ScanView, lines: Seq<ReadLine>, line: ReadLine)
    ensures
        unread().id is None && unread().timestamp is None && unread().cwd is None
            && unread().preview is None,
        !unread().has_exec && !unread().has_writes,
        unread().commands.len() == 0 && unread().files_touched.len() == 0,
        after_lines(scan, Seq::empty()) == scan,
        after_lines(scan, lines.push(line)) == after_read(after_lines(scan, lines), line),
        patch_in(line.text) is Some ==> after_read(scan, line).files_touched == after_line(
            scan,
            line.text,
        ).files_touched + line.files,
        patch_in(line.text) is None ==> after_read(scan, line).files_touched == after_line(
            scan,
            line.text,
        ).files_touched,
        after_read(scan, line).preview == after_line(scan, line.text).preview,
        after_read(scan, line).commands == after_line(scan, line.text).commands,
        after_read(scan, line).has_exec == after_line(scan, line.text).has_exec,
        after_read(scan, line).has_writes == after_line(scan, line.text).has_writes,
        same_session(after_read(scan, line), after_line(scan, line.text)),
{
    assert(lines.push(line).drop_last() =~= lines);
    let read = after_line(scan, line.text);
    assert(read.files_touched + Seq::<Seq<char>>::empty() =~= read.files_touched);
}

/// The files of a patch come behind those before them, all of them and in order, and nothing
/// else changes.
pub proof fn law_files_are_added(scan: ScanView, files: Seq<Seq<char>>)
    ensures
        with_files(scan, files).files_touched == scan.files_touched + files,
        with_files(scan, files).preview == scan.preview,
        with_files(scan, files).commands == scan.commands,
        with_files(scan, files).has_exec == scan.has_exec,
        with_files(scan, files).has_writes == scan.has_writes,
        same_session(with_files(scan, files), scan),
{
}

/// What is shown of a session is its own: its id, directory, time and preview, and the file it
/// was read from. One without an id goes by the id in its file name, and without a time.
pub proof fn law_hit_shows_the_session(scan: ScanView, file_name: Seq<char>, file: usize)
    ensures
        hit_of(scan, file_name, file).file == file,
        hit_of(scan, file_name, file).cwd == scan.cwd,
        scan.preview matches Some(text) ==> hit_of(scan, file_name, file).preview == text
            && preview_text(scan) == text,
        scan.preview is None ==> hit_of(scan, file_name, file).preview.len() == 0
            && preview_text(scan).len() == 0,
        scan.id matches Some(id) ==> hit_of(scan, file_name, file).id == id,
        scan.id is None ==> hit_of(scan, file_name, file).id == id_in_file_name(file_name),
        scan.id is Some && scan.timestamp is Some ==> hit_of(scan, file_name, file).timestamp
            == scan.timestamp->0,
        scan.id is None || scan.timestamp is None ==> hit_of(
            scan,
            file_name,
            file,
        ).timestamp.len() == 0,
{
}

/// A session is a hit exactly where it passes the filters, and what is shown is the session
/// that was read and the file it was read from.
pub proof fn law_hits_are_those_that_pass(
    scan: ScanView,
    params: WsSearchParams,
    file_name: Seq<char>,
    file: usize,
)
    ensures
        summary_hit(scan, params, file_name, file) is Some == passes(scan, params),
        summary_hit(scan, params, file_name, file) matches Some(hit) ==> {
            &&& hit.file == file
            &&& hit.cwd == scan.cwd
            &&& scan.id matches Some(id) ==> hit.id == id
            &&& scan.preview matches Some(text) ==> hit.preview == text
        },
{
}

/// The id in a file name is what stands between its last hyphen and its extension, and there
/// is none where the extension is another.
pub proof fn law_id_in_file_name(front: Seq<char>, id: Seq<char>, name: Seq<char>)
    requires
        forall|i: int| 0 <= i < id.len() ==> #[trigger] id[i] != '-',
    ensures
        id_in_file_name(front.push('-') + (id + ".jsonl"@)) == id,
        id_in_file_name(id + ".jsonl"@) == id,
        !has_suffix(name, ".jsonl"@) ==> id_in_file_name(name).len() == 0,
{
    reveal_strlit(".jsonl");
    let tail = id + ".jsonl"@;
    assert forall|i: int| 0 <= i < tail.len() implies #[trigger] tail[i] != '-' by {
        if i < id.len() {
            assert(tail[i] == id[i]);
        }
    }
    law_last_segment(front, tail, '-');
    law_suffix(tail, ".jsonl"@, id);
    assert(tail.take(id.len() as int) =~= id);
    lemma_segment_is_end(name, '-');
    let segment = crate::text::last_segment_of(name, '-');
    if has_suffix(segment, ".jsonl"@) {
        let cut = name.len() - segment.len();
        let stem = segment.take(segment.len() - ".jsonl"@.len());
        law_suffix(segment, ".jsonl"@, stem);
        assert(name =~= name.take(cut) + segment);
        assert(name =~= (name.take(cut) + stem) + ".jsonl"@);
        law_suffix(name, ".jsonl"@, name.take(cut) + stem);
    }
}

proof fn lemma_segment_is_end(s: Seq<char>, separator: char)
    ensures
        crate::text::last_segment_of(s, separator).len() <= s.len(),
        s.skip(s.len() - crate::text::last_segment_of(s, separator).len())
            == crate::text::last_segment_of(s, separator),
    decreases s.len(),
{
    let segment = crate::text::last_segment_of(s, separator);
    if s.len() == 0 || s.last() == separator {
        assert(s.skip(s.len() as int) =~= segment);
    } else {
        lemma_segment_is_end(s.drop_last(), separator);
        let shorter = crate::text::last_segment_of(s.drop_last(), separator);
        assert(s.skip(s.len() - segment.len()) =~= s.drop_last().skip(
            s.drop_last().len() - shorter.len(),
        ).push(s.last()));
    }
}

} // verus!
