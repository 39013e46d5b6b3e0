//! What a recorded session is about: reading its lines, and testing it against a search.
use vstd::prelude::*;
use vstd::string::*;
use crate::json::{
    json_as_array, json_get, json_get_str, json_list, json_member, json_member_string, json_null,
    json_of, json_parse, json_parsed, JsonModel,
};
use crate::lists::{lemma_append_deep_view, lemma_push_deep_view};
use crate::protocol::copy_text;
use crate::text::{
    contains, first_word, has_prefix, has_substring, has_suffix, last_segment, last_segment_of,
    lowercased, starts_with, strip_suffix, text_eq, to_lowercase, trim, trimmed, words,
};

verus! {

/// What is searched for. The cursor, the dates, the model and the source are read and not
/// used.
#[derive(Debug, Clone)]
pub struct WsSearchParams {
    pub page_size: Option<usize>,
    pub cursor: Option<String>,
    pub query: Option<String>,
    pub cwd_prefix: Option<String>,
    pub date_from: Option<String>,
    pub date_to: Option<String>,
    pub has_exec: Option<bool>,
    pub has_writes: Option<bool>,
    pub include_command_prefixes: Vec<String>,
    pub exclude_command_prefixes: Vec<String>,
    pub include_files: Vec<String>,
    pub exclude_files: Vec<String>,
    pub model: Option<String>,
    pub source: Option<String>,
}

/// A search that asks for nothing in particular.
pub open spec fn asks_for_nothing(params: WsSearchParams) -> bool {
    &&& params.query is None
    &&& params.cwd_prefix is None
    &&& params.has_exec is None
    &&& params.has_writes is None
    &&& params.include_command_prefixes@.len() == 0
    &&& params.exclude_command_prefixes@.len() == 0
    &&& params.include_files@.len() == 0
    &&& params.exclude_files@.len() == 0
}

impl Default for WsSearchParams {
    fn default() -> (params: Self)
        ensures
            asks_for_nothing(params),
            params.page_size is None,
            params.cursor is None,
            params.date_from is None,
            params.date_to is None,
            params.model is None,
            params.source is None,
    {
        WsSearchParams {
            page_size: None,
            cursor: None,
            query: None,
            cwd_prefix: None,
            date_from: None,
            date_to: None,
            has_exec: None,
            has_writes: None,
            include_command_prefixes: Vec::new(),
            exclude_command_prefixes: Vec::new(),
            include_files: Vec::new(),
            exclude_files: Vec::new(),
            model: None,
            source: None,
        }
    }
}

/// What was read of a session so far.
#[derive(Debug, Clone)]
pub struct SummaryScan {
    pub id: Option<String>,
    pub timestamp: Option<String>,
    pub cwd: Option<String>,
    pub preview: Option<String>,
    pub has_exec: bool,
    pub has_writes: bool,
    pub commands: Vec<String>,
    pub files_touched: Vec<String>,
}

/// What was read of a session, in mathematical form.
pub struct ScanView {
    pub id: Option<Seq<char>>,
    pub timestamp: Option<Seq<char>>,
    pub cwd: Option<Seq<char>>,
    pub preview: Option<Seq<char>>,
    pub has_exec: bool,
    pub has_writes: bool,
    pub commands: Seq<Seq<char>>,
    pub files_touched: Seq<Seq<char>>,
}

impl DeepView for SummaryScan {
    type V = ScanView;

    open spec fn deep_view(&self) -> ScanView {
        ScanView {
            id: self.id.deep_view(),
            timestamp: self.timestamp.deep_view(),
            cwd: self.cwd.deep_view(),
            preview: self.preview.deep_view(),
            has_exec: self.has_exec,
            has_writes: self.has_writes,
            commands: self.commands.deep_view(),
            files_touched: self.files_touched.deep_view(),
        }
    }
}

/// Nothing was read yet.
pub open spec fn unread() -> ScanView {
    ScanView {
        id: None,
        timestamp: None,
        cwd: None,
        preview: None,
        has_exec: false,
        has_writes: false,
        commands: Seq::empty(),
        files_touched: Seq::empty(),
    }
}

/// The payload of a line; null where it has none.
pub open spec fn payload_of(tree: JsonModel) -> JsonModel {
    match json_member(tree, "payload"@) {
        Some(payload) => payload,
        None => JsonModel::Null,
    }
}

/// The text of the first piece of a message that is an input text.
pub open spec fn first_input_text(pieces: Seq<JsonModel>) -> Option<Seq<char>>
    decreases pieces.len(),
{
    if pieces.len() == 0 {
        None
    } else if json_member_string(pieces[0], "type"@) == Some("input_text"@)
        && json_member_string(pieces[0], "text"@) is Some {
        json_member_string(pieces[0], "text"@)
    } else {
        first_input_text(pieces.skip(1))
    }
}

/// The first input text of a message.
pub open spec fn message_preview(payload: JsonModel) -> Option<Seq<char>> {
    match json_member(payload, "content"@) {
        Some(JsonModel::Array(pieces)) => first_input_text(pieces),
        _ => None,
    }
}

/// An argument of a call that is a string. The arguments are JSON, written as a string.
pub open spec fn call_argument(payload: JsonModel, key: Seq<char>) -> Option<Seq<char>> {
    match json_member_string(payload, "arguments"@) {
        Some(text) => match json_parsed(text) {
            Some(arguments) => json_member_string(arguments, key),
            None => None,
        },
        None => None,
    }
}

/// The program that a call runs: the first word of its command.
pub open spec fn program_of(payload: JsonModel) -> Option<Seq<char>> {
    match call_argument(payload, "cmd"@) {
        Some(command) => if words(command).len() > 0 {
            Some(words(command)[0])
        } else {
            None
        },
        None => None,
    }
}

/// What was read behind the line that describes the session.
pub open spec fn after_meta(scan: ScanView, tree: JsonModel) -> ScanView {
    ScanView {
        id: json_member_string(payload_of(tree), "id"@),
        timestamp: json_member_string(tree, "timestamp"@),
        cwd: json_member_string(payload_of(tree), "cwd"@),
        ..scan
    }
}

/// What was read behind a call.
pub open spec fn after_call(scan: ScanView, payload: JsonModel) -> ScanView {
    if json_member_string(payload, "name"@) == Some("exec_command"@) {
        ScanView {
            has_exec: true,
            commands: match program_of(payload) {
                Some(program) => scan.commands.push(program),
                None => scan.commands,
            },
            ..scan
        }
    } else if json_member_string(payload, "name"@) == Some("apply_patch"@) {
        ScanView { has_writes: true, ..scan }
    } else {
        scan
    }
}

/// What was read behind an item of the conversation.
pub open spec fn after_item(scan: ScanView, payload: JsonModel) -> ScanView {
    if json_member_string(payload, "type"@) == Some("message"@) {
        ScanView {
            preview: if scan.preview is Some {
                scan.preview
            } else {
                message_preview(payload)
            },
            ..scan
        }
    } else if json_member_string(payload, "type"@) == Some("function_call"@) {
        after_call(scan, payload)
    } else {
        scan
    }
}

/// What was read behind a line that holds a tree.
pub open spec fn after_tree(scan: ScanView, tree: JsonModel) -> ScanView {
    if json_member_string(tree, "type"@) == Some("session_meta"@) {
        after_meta(scan, tree)
    } else if json_member_string(tree, "type"@) == Some("response_item"@) {
        after_item(scan, payload_of(tree))
    } else {
        scan
    }
}

/// What was read behind one more line. A line that is blank or no JSON is passed over.
pub open spec fn after_line(scan: ScanView, line: Seq<char>) -> ScanView {
    if trimmed(line).len() == 0 {
        scan
    } else {
        match json_parsed(trimmed(line)) {
            Some(tree) => after_tree(scan, tree),
            None => scan,
        }
    }
}

/// The patch that a call applies.
pub open spec fn patch_of_call(payload: JsonModel) -> Option<Seq<char>> {
    if json_member_string(payload, "type"@) == Some("function_call"@) && json_member_string(
        payload,
        "name"@,
    ) == Some("apply_patch"@) {
        call_argument(payload, "patch"@)
    } else {
        None
    }
}

/// The patch that a line applies, where it holds one.
pub open spec fn patch_in(line: Seq<char>) -> Option<Seq<char>> {
    if trimmed(line).len() == 0 {
        None
    } else {
        match json_parsed(trimmed(line)) {
            Some(tree) => if json_member_string(tree, "type"@) == Some("response_item"@) {
                patch_of_call(payload_of(tree))
            } else {
                None
            },
            None => None,
        }
    }
}

/// What was read, with the files that a patch touches behind those before them.
pub open spec fn with_files(scan: ScanView, files: Seq<Seq<char>>) -> ScanView {
    ScanView { files_touched: scan.files_touched + files, ..scan }
}

/// Is the member `key` this string?
fn member_is(value: &serde_json::Value, key: &str, expected: &str) -> (yes: bool)
    ensures
        yes == (json_member_string(json_of(*value), key@) == Some(expected@)),
{
    match json_get_str(value, key) {
        Some(text) => text_eq(text, expected),
        None => false,
    }
}

/// A copy of the member `key`, where it is a string.
fn member_text(value: &serde_json::Value, key: &str) -> (text: Option<String>)
    ensures
        text.deep_view() == json_member_string(json_of(*value), key@),
{
    match json_get_str(value, key) {
        Some(text) => Some(text.to_owned()),
        None => None,
    }
}

fn find_input_text(pieces: &Vec<serde_json::Value>) -> (text: Option<String>)
    ensures
        text.deep_view() == first_input_text(json_list(pieces@)),
{
    let ghost trees = json_list(pieces@);
    let total: usize = pieces.len();
    proof {
        assert(trees.skip(0) =~= trees);
    }
    for i in 0..total
        invariant
            total == pieces@.len(),
            trees == json_list(pieces@),
            first_input_text(trees) == first_input_text(trees.skip(i as int)),
    {
        proof {
            assert(trees.skip(i as int)[0] == json_of(pieces@[i as int]));
            assert(trees.skip(i as int).skip(1) =~= trees.skip(i + 1));
        }
        if member_is(&pieces[i], "type", "input_text") {
            if let Some(text) = member_text(&pieces[i], "text") {
                return Some(text);
            }
        }
    }
    None
}

fn find_argument(payload: &serde_json::Value, key: &str) -> (text: Option<String>)
    ensures
        text.deep_view() == call_argument(json_of(*payload), key@),
{
    match json_get_str(payload, "arguments") {
        Some(text) => match json_parse(text) {
            Some(arguments) => member_text(&arguments, key),
            None => None,
        },
        None => None,
    }
}

impl SummaryScan {
    /// Begin to read a session.
    pub fn new() -> (scan: SummaryScan)
        ensures
            scan.deep_view() == unread(),
    {
        let scan: SummaryScan = SummaryScan {
            id: None,
            timestamp: None,
            cwd: None,
            preview: None,
            has_exec: false,
            has_writes: false,
            commands: Vec::new(),
            files_touched: Vec::new(),
        };
        proof {
            assert(scan.commands.deep_view() =~= Seq::empty());
            assert(scan.files_touched.deep_view() =~= Seq::empty());
        }
        scan
    }

    /// Read a call of the conversation. A patch that it applies is handed back.
    fn take_call(&mut self, payload: &serde_json::Value) -> (patch: Option<String>)
        ensures
            final(self).deep_view() == after_call(old(self).deep_view(), json_of(*payload)),
            patch.deep_view() == (if json_member_string(json_of(*payload), "name"@) == Some(
                "apply_patch"@,
            ) {
                call_argument(json_of(*payload), "patch"@)
            } else {
                None
            }),
    {
        proof {
            reveal_strlit("exec_command");
            reveal_strlit("apply_patch");
            assert("exec_command"@.len() != "apply_patch"@.len());
        }
        if member_is(payload, "name", "exec_command") {
            self.has_exec = true;
            if let Some(command) = find_argument(payload, "cmd") {
                if let Some(program) = first_word(command.as_str()) {
                    self.commands.push(program);
                    proof {
                        lemma_push_deep_view(old(self).commands, program, self.commands);
                    }
                }
            }
            return None;
        }
        if member_is(payload, "name", "apply_patch") {
            self.has_writes = true;
            return find_argument(payload, "patch");
        }
        None
    }

    /// Read an item of the conversation. A patch that it applies is handed back.
    fn take_item(&mut self, payload: &serde_json::Value) -> (patch: Option<String>)
        ensures
            final(self).deep_view() == after_item(old(self).deep_view(), json_of(*payload)),
            patch.deep_view() == patch_of_call(json_of(*payload)),
    {
        proof {
            reveal_strlit("message");
            reveal_strlit("function_call");
            assert("message"@.len() != "function_call"@.len());
        }
        if member_is(payload, "type", "message") {
            if self.preview.is_none() {
                if let Some(content) = json_get(payload, "content") {
                    if let Some(pieces) = json_as_array(content) {
                        self.preview = find_input_text(pieces);
                    }
                }
            }
            return None;
        }
        if member_is(payload, "type", "function_call") {
            return self.take_call(payload);
        }
        None
    }

    /// Read one more line of a session. A patch that it applies is handed back, so that the
    /// files it touches can be added.
    pub fn feed_line(&mut self, line: &str) -> (patch: Option<String>)
        ensures
            final(self).deep_view() == after_line(old(self).deep_view(), line@),
            patch.deep_view() == patch_in(line@),
    {
        let text: &str = trim(line);
        if text.unicode_len() == 0 {
            return None;
        }
        let tree: serde_json::Value = match json_parse(text) {
            Some(tree) => tree,
            None => return None,
        };
        proof {
            reveal_strlit("session_meta");
            reveal_strlit("response_item");
            assert("session_meta"@.len() != "response_item"@.len());
        }
        let nothing: serde_json::Value = json_null();
        let payload: &serde_json::Value = match json_get(&tree, "payload") {
            Some(payload) => payload,
            None => &nothing,
        };
        if member_is(&tree, "type", "session_meta") {
            self.id = member_text(payload, "id");
            self.timestamp = member_text(&tree, "timestamp");
            self.cwd = member_text(payload, "cwd");
            return None;
        }
        if member_is(&tree, "type", "response_item") {
            return self.take_item(payload);
        }
        None
    }

    /// The files that a patch touches.
    pub fn add_files(&mut self, files: Vec<String>)
        ensures
            final(self).deep_view() == (ScanView {
                files_touched: old(self).deep_view().files_touched + files.deep_view(),
                ..old(self).deep_view()
            }),
            final(self).deep_view() == with_files(old(self).deep_view(), files.deep_view()),
    {
        let mut more: Vec<String> = files;
        self.files_touched.append(&mut more);
        proof {
            lemma_append_deep_view(old(self).files_touched, files, self.files_touched);
        }
    }
}

/// Some text of the list begins with one of the beginnings.
pub open spec fn some_starts_with(list: Seq<Seq<char>>, beginnings: Seq<Seq<char>>) -> bool {
    exists|i: int, j: int|
        0 <= i < list.len() && 0 <= j < beginnings.len() && #[trigger] has_prefix(
            list[i],
            beginnings[j],
        )
}

/// Some text of the list holds one of the parts.
pub open spec fn some_holds(list: Seq<Seq<char>>, parts: Seq<Seq<char>>) -> bool {
    exists|i: int, j: int|
        0 <= i < list.len() && 0 <= j < parts.len() && #[trigger] has_substring(list[i], parts[j])
}

/// The preview of a session: empty where it has none.
pub open spec fn preview_text(scan: ScanView) -> Seq<char> {
    match scan.preview {
        Some(text) => text,
        None => Seq::empty(),
    }
}

/// The query, in lower case, stands in the preview in lower case, in a command or in the
/// name of a file.
pub open spec fn answers_query(scan: ScanView, query: Seq<char>) -> bool {
    ||| has_substring(lowercased(preview_text(scan)), lowercased(query))
    ||| some_holds(scan.commands, seq![lowercased(query)])
    ||| some_holds(scan.files_touched, seq![lowercased(query)])
}

/// The session is one of those that are searched for.
pub open spec fn passes(scan: ScanView, params: WsSearchParams) -> bool {
    &&& params.has_exec matches Some(expected) ==> expected == scan.has_exec
    &&& params.has_writes matches Some(expected) ==> expected == scan.has_writes
    &&& params.include_command_prefixes@.len() > 0 ==> some_starts_with(
        scan.commands,
        params.include_command_prefixes.deep_view(),
    )
    &&& !some_starts_with(scan.commands, params.exclude_command_prefixes.deep_view())
    &&& params.include_files@.len() > 0 ==> some_holds(
        scan.files_touched,
        params.include_files.deep_view(),
    )
    &&& !some_holds(scan.files_touched, params.exclude_files.deep_view())
    &&& params.cwd_prefix matches Some(prefix) ==> scan.cwd matches Some(cwd) && has_prefix(
        cwd,
        prefix@,
    )
    &&& params.query matches Some(query) ==> answers_query(scan, query@)
}

/// Does some text of the list begin with one of the beginnings?
fn any_starts_with(list: &Vec<String>, beginnings: &Vec<String>) -> (found: bool)
    ensures
        found == some_starts_with(list.deep_view(), beginnings.deep_view()),
{
    let ghost lv = list.deep_view();
    let ghost bv = beginnings.deep_view();
    let total: usize = list.len();
    let width: usize = beginnings.len();
    for i in 0..total
        invariant
            total == list@.len(),
            width == beginnings@.len(),
            lv == list.deep_view(),
            bv == beginnings.deep_view(),
            forall|a: int, b: int|
                0 <= a < i && 0 <= b < width ==> !#[trigger] has_prefix(lv[a], bv[b]),
    {
        for j in 0..width
            invariant
                i < total,
                total == list@.len(),
                width == beginnings@.len(),
                lv == list.deep_view(),
                bv == beginnings.deep_view(),
                forall|b: int| 0 <= b < j ==> !#[trigger] has_prefix(lv[i as int], bv[b]),
        {
            if starts_with(list[i].as_str(), beginnings[j].as_str()) {
                proof {
                    assert(has_prefix(lv[i as int], bv[j as int]));
                }
                return true;
            }
        }
    }
    false
}

/// Does some text of the list hold one of the parts?
fn any_holds(list: &Vec<String>, parts: &Vec<String>) -> (found: bool)
    ensures
        found == some_holds(list.deep_view(), parts.deep_view()),
{
    let ghost lv = list.deep_view();
    let ghost pv = parts.deep_view();
    let total: usize = list.len();
    let width: usize = parts.len();
    for i in 0..total
        invariant
            total == list@.len(),
            width == parts@.len(),
            lv == list.deep_view(),
            pv == parts.deep_view(),
            forall|a: int, b: int|
                0 <= a < i && 0 <= b < width ==> !#[trigger] has_substring(lv[a], pv[b]),
    {
        for j in 0..width
            invariant
                i < total,
                total == list@.len(),
                width == parts@.len(),
                lv == list.deep_view(),
                pv == parts.deep_view(),
                forall|b: int| 0 <= b < j ==> !#[trigger] has_substring(lv[i as int], pv[b]),
        {
            if contains(list[i].as_str(), parts[j].as_str()) {
                proof {
                    assert(has_substring(lv[i as int], pv[j as int]));
                }
                return true;
            }
        }
    }
    false
}

/// A session that was found. The file is named by its number in the search.
#[derive(Debug, Clone)]
pub struct LocalHit {
    pub id: String,
    pub file: usize,
    pub preview: String,
    pub cwd: Option<String>,
    pub timestamp: String,
}

/// A session that was found, in mathematical form.
pub struct HitView {
    pub id: Seq<char>,
    pub file: usize,
    pub preview: Seq<char>,
    pub cwd: Option<Seq<char>>,
    pub timestamp: Seq<char>,
}

impl DeepView for LocalHit {
    type V = HitView;

    open spec fn deep_view(&self) -> HitView {
        HitView {
            id: self.id@,
            file: self.file,
            preview: self.preview@,
            cwd: self.cwd.deep_view(),
            timestamp: self.timestamp@,
        }
    }
}

/// The id that a file name ends in, before its extension; empty where the extension is
/// another.
pub open spec fn id_in_file_name(name: Seq<char>) -> Seq<char> {
    let tail = last_segment_of(name, '-');
    if has_suffix(tail, ".jsonl"@) {
        tail.take(tail.len() - ".jsonl"@.len())
    } else {
        Seq::empty()
    }
}

/// What is shown of a session: its own id and time, or the id in its file name.
pub open spec fn hit_of(scan: ScanView, file_name: Seq<char>, file: usize) -> HitView {
    HitView {
        id: match scan.id {
            Some(id) => id,
            None => id_in_file_name(file_name),
        },
        file,
        preview: preview_text(scan),
        cwd: scan.cwd,
        timestamp: match (scan.id, scan.timestamp) {
            (Some(_), Some(time)) => time,
            _ => Seq::empty(),
        },
    }
}

/// What is shown of a session, where it is one of those that are searched for.
pub open spec fn summary_hit(
    scan: ScanView,
    params: WsSearchParams,
    file_name: Seq<char>,
    file: usize,
) -> Option<HitView> {
    if passes(scan, params) {
        Some(hit_of(scan, file_name, file))
    } else {
        None
    }
}

impl SummaryScan {
    /// Is the session one of those that are searched for?
    pub fn matches_params(&self, params: &WsSearchParams) -> (yes: bool)
        ensures
            yes == passes(self.deep_view(), *params),
    {
        if let Some(expected) = params.has_exec {
            if expected != self.has_exec {
                return false;
            }
        }
        if let Some(expected) = params.has_writes {
            if expected != self.has_writes {
                return false;
            }
        }
        if params.include_command_prefixes.len() > 0 && !any_starts_with(
            &self.commands,
            &params.include_command_prefixes,
        ) {
            return false;
        }
        if any_starts_with(&self.commands, &params.exclude_command_prefixes) {
            return false;
        }
        if params.include_files.len() > 0 && !any_holds(
            &self.files_touched,
            &params.include_files,
        ) {
            return false;
        }
        if any_holds(&self.files_touched, &params.exclude_files) {
            return false;
        }
        if let Some(prefix) = &params.cwd_prefix {
            match &self.cwd {
                Some(cwd) => {
                    if !starts_with(cwd.as_str(), prefix.as_str()) {
                        return false;
                    }
                },
                None => return false,
            }
        }
        if let Some(query) = &params.query {
            let lower: String = to_lowercase(query.as_str());
            let preview: String = to_lowercase(self.preview_or_empty().as_str());
            if contains(preview.as_str(), lower.as_str()) {
                return true;
            }
            let ghost wanted = lower@;
            let mut wanted_parts: Vec<String> = Vec::new();
            wanted_parts.push(lower);
            proof {
                assert(wanted_parts.deep_view() =~= seq![wanted]);
            }
            return any_holds(&self.commands, &wanted_parts) || any_holds(
                &self.files_touched,
                &wanted_parts,
            );
        }
        true
    }

    /// The preview, empty where there is none.
    fn preview_or_empty(&self) -> (text: String)
        ensures
            text@ == preview_text(self.deep_view()),
    {
        match &self.preview {
            Some(text) => text.clone(),
            None => {
                let text: String = String::new();
                proof {
                    assert(text@ =~= Seq::empty());
                }
                text
            },
        }
    }

    /// What is shown of a session that was read to its end, where it is one of those that
    /// are searched for.
    pub fn read_summary_hit(
        &self,
        params: &WsSearchParams,
        file_name: &str,
        file: usize,
    ) -> (hit: Option<LocalHit>)
        ensures
            hit.deep_view() == (if passes(self.deep_view(), *params) {
                Some(hit_of(self.deep_view(), file_name@, file))
            } else {
                None
            }),
            hit.deep_view() == summary_hit(self.deep_view(), *params, file_name@, file),
    {
        if !self.matches_params(params) {
            return None;
        }
        let empty: String = String::new();
        proof {
            assert(empty@ =~= Seq::empty());
        }
        let (id, timestamp): (String, String) = match &self.id {
            Some(id) => {
                let timestamp: String = match &self.timestamp {
                    Some(time) => time.clone(),
                    None => empty,
                };
                (id.clone(), timestamp)
            },
            None => {
                let tail: &str = last_segment(file_name, '-');
                let id: String = match strip_suffix(tail, ".jsonl") {
                    Some(id) => id.to_owned(),
                    None => empty.clone(),
                };
                (id, empty)
            },
        };
        Some(
            LocalHit {
                id,
                file,
                preview: self.preview_or_empty(),
                cwd: copy_text(&self.cwd),
                timestamp,
            },
        )
    }
}

/// A line of a session, with the files that its patch touches.
pub struct ReadLine {
    pub text: Seq<char>,
    pub files: Seq<Seq<char>>,
}

/// The files that a line adds: those of its patch, where it holds one.
pub open spec fn files_added(line: ReadLine) -> Seq<Seq<char>> {
    if patch_in(line.text) is Some {
        line.files
    } else {
        Seq::empty()
    }
}

/// What was read behind one more line and the files of its patch.
pub open spec fn after_read(scan: ScanView, line: ReadLine) -> ScanView {
    with_files(after_line(scan, line.text), files_added(line))
}

/// What was read behind a list of lines.
pub open spec fn after_lines(scan: ScanView, lines: Seq<ReadLine>) -> ScanView
    decreases lines.len(),
{
    if lines.len() == 0 {
        scan
    } else {
        after_read(after_lines(scan, lines.drop_last()), lines.last())
    }
}

/// The files that a list of lines adds, one behind the other.
pub open spec fn all_files_added(lines: Seq<ReadLine>) -> Seq<Seq<char>>
    decreases lines.len(),
{
    if lines.len() == 0 {
        Seq::empty()
    } else {
        all_files_added(lines.drop_last()) + files_added(lines.last())
    }
}

/// A search that asks for nothing in particular finds every session.
pub proof fn law_no_filter_finds_all(scan: ScanView, params: WsSearchParams)
    requires
        asks_for_nothing(params),
    ensures
        passes(scan, params),
{
}

/// The files that a session touched are those of its patches, in the order of its lines.
pub proof fn law_files_are_those_of_the_patches(scan: ScanView, lines: Seq<ReadLine>)
    ensures
        after_lines(scan, lines).files_touched == scan.files_touched + all_files_added(lines),
    decreases lines.len(),
{
    if lines.len() == 0 {
        assert(scan.files_touched + all_files_added(lines) =~= scan.files_touched);
    } else {
        law_files_are_those_of_the_patches(scan, lines.drop_last());
        assert(after_lines(scan, lines).files_touched =~= scan.files_touched + all_files_added(
            lines,
        ));
    }
}

/// The first preview stays, and what was done once stays done, whatever lines follow.
pub proof fn law_reading_on_keeps(scan: ScanView, lines: Seq<ReadLine>)
    ensures
        scan.preview is Some ==> after_lines(scan, lines).preview == scan.preview,
        scan.has_exec ==> after_lines(scan, lines).has_exec,
        scan.has_writes ==> after_lines(scan, lines).has_writes,
        scan.commands.is_prefix_of(after_lines(scan, lines).commands),
    decreases lines.len(),
{
    if lines.len() > 0 {
        law_reading_on_keeps(scan, lines.drop_last());
        let before = after_lines(scan, lines.drop_last());
        let after = after_lines(scan, lines);
        assert(before.commands.is_prefix_of(after.commands));
        assert(scan.commands =~= after.commands.take(scan.commands.len() as int));
    }
}

/// A session ran a command, or wrote files, exactly where one of its lines is such a call.
pub proof fn law_exec_is_seen(lines: Seq<ReadLine>)
    ensures
        after_lines(unread(), lines).has_exec == exists|i: int|
            0 <= i < lines.len() && after_line(unread(), (#[trigger] lines[i]).text).has_exec,
        after_lines(unread(), lines).has_writes == exists|i: int|
            0 <= i < lines.len() && after_line(unread(), (#[trigger] lines[i]).text).has_writes,
    decreases lines.len(),
{
    if lines.len() > 0 {
        let before = lines.drop_last();
        law_exec_is_seen(before);
        let scan = after_lines(unread(), before);
        let last = lines.last();
        let alone = after_line(unread(), last.text);
        assert(after_lines(unread(), lines).has_exec == (scan.has_exec || alone.has_exec));
        assert(after_lines(unread(), lines).has_writes == (scan.has_writes || alone.has_writes));
        assert forall|i: int| 0 <= i < before.len() implies #[trigger] lines[i] == before[i] by {}
        assert(lines[lines.len() - 1] == last);
        if scan.has_exec {
            let i = choose|i: int|
                0 <= i < before.len() && after_line(unread(), (#[trigger] before[i]).text).has_exec;
            assert(after_line(unread(), lines[i].text).has_exec);
        }
        if scan.has_writes {
            let i = choose|i: int|
                0 <= i < before.len() && after_line(
                    unread(),
                    (#[trigger] before[i]).text,
                ).has_writes;
            assert(after_line(unread(), lines[i].text).has_writes);
        }
        if exists|i: int|
            0 <= i < lines.len() && after_line(unread(), (#[trigger] lines[i]).text).has_exec {
            let i = choose|i: int|
                0 <= i < lines.len() && after_line(unread(), (#[trigger] lines[i]).text).has_exec;
            if i < before.len() {
                assert(after_line(unread(), before[i].text).has_exec);
            }
        }
        if exists|i: int|
            0 <= i < lines.len() && after_line(unread(), (#[trigger] lines[i]).text).has_writes {
            let i = choose|i: int|
                0 <= i < lines.len() && after_line(unread(), (#[trigger] lines[i]).text).has_writes;
            if i < before.len() {
                assert(after_line(unread(), before[i].text).has_writes);
            }
        }
    }
}

} // verus!
