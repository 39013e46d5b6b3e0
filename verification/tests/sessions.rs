use codex_gemini::order::{newest_first, PathKey};
use codex_gemini::session_scan::{LocalHit, SummaryScan, WsSearchParams};
use codex_gemini::session_search::{
    ripgrep_candidates, start_search, EntryKind, ListedEntry, SearchAction, SearchStart,
    SessionSearch,
};

const META: &str = r#"{"timestamp":"2025-01-02T12:00:00Z","type":"session_meta","payload":{"id":"5f0c1b9e-0000-4000-8000-000000000001","timestamp":"2025-01-02T12:00:00Z","cwd":"/work","originator":"codex_tui_rs","cli_version":"0.0.0","instructions":null,"source":"cli"}}"#;
const FILE_NAME: &str = "rollout-2025-01-02T12-00-00-abc.jsonl";

fn user_line(text: &str) -> String {
    format!(
        r#"{{"timestamp":"t","type":"response_item","payload":{{"type":"message","role":"user","content":[{{"type":"input_text","text":"{text}"}}]}}}}"#
    )
}

fn exec_line(cmd: &str) -> String {
    format!(
        r#"{{"type":"response_item","payload":{{"type":"function_call","name":"exec_command","arguments":"{{\"cmd\":\"{cmd}\"}}"}}}}"#
    )
}

fn patch_line(patch: &str) -> String {
    format!(
        r#"{{"type":"response_item","payload":{{"type":"function_call","name":"apply_patch","arguments":"{{\"patch\":\"{patch}\"}}"}}}}"#
    )
}

fn scan(lines: &[&str]) -> SummaryScan {
    let mut scan = SummaryScan::new();
    for line in lines {
        scan.feed_line(line);
    }
    scan
}

fn asks(query: &str) -> WsSearchParams {
    WsSearchParams { query: Some(query.to_string()), ..WsSearchParams::default() }
}

fn key(parts: &[&str]) -> PathKey {
    PathKey { components: parts.iter().map(|p| p.as_bytes().to_vec()).collect() }
}

fn entry(name: &str, kind: EntryKind, handle: usize) -> ListedEntry {
    ListedEntry { name: name.as_bytes().to_vec(), text: name.to_string(), kind, handle }
}

fn hit(file: usize) -> LocalHit {
    LocalHit {
        id: format!("id{file}"),
        file,
        preview: String::new(),
        cwd: None,
        timestamp: String::new(),
    }
}

#[test]
fn a_recorded_session_is_listed() {
    let read = scan(&[META, &user_line("hello from tui"), ""]);
    let found = read
        .read_summary_hit(&WsSearchParams::default(), FILE_NAME, 7)
        .expect("a search without filters finds every session");
    assert_eq!(found.id, "5f0c1b9e-0000-4000-8000-000000000001");
    assert_eq!(found.preview, "hello from tui");
    assert_eq!(found.cwd.as_deref(), Some("/work"));
    assert_eq!(found.timestamp, "2025-01-02T12:00:00Z");
    assert_eq!(found.file, 7);
}

#[test]
fn a_session_is_found_by_its_query() {
    let read = scan(&[META, &user_line("hello from ws")]);
    assert!(read.read_summary_hit(&asks("hello"), FILE_NAME, 0).is_some());
    assert!(read.read_summary_hit(&asks("HELLO FROM"), FILE_NAME, 0).is_some());
    assert!(read.read_summary_hit(&asks("goodbye"), FILE_NAME, 0).is_none());
    let shouted = scan(&[META, &user_line("\u{c4}RGER im WS")]);
    assert!(shouted.read_summary_hit(&asks("\u{e4}rger IM"), FILE_NAME, 0).is_some());
}

#[test]
fn a_query_may_stand_in_a_command_or_a_file() {
    let mut read = scan(&[META, &user_line("x"), &exec_line("cargo test")]);
    assert!(read.matches_params(&asks("CARGO")));
    assert!(!read.matches_params(&asks("test")));
    read.add_files(vec!["src/main.rs".to_string()]);
    assert!(read.matches_params(&asks("MAIN.RS")));
}

#[test]
fn the_first_input_text_is_the_preview() {
    let read = scan(&[
        r#"{"type":"response_item","payload":{"type":"message","content":[{"type":"output_text","text":"no"},{"type":"input_text"},{"type":"input_text","text":"yes"},{"type":"input_text","text":"later"}]}}"#,
        &user_line("much later"),
    ]);
    assert_eq!(read.preview.as_deref(), Some("yes"));
}

#[test]
fn lines_that_say_nothing_are_passed_over() {
    let read = scan(&[
        "",
        "   ",
        "not json",
        "[1,2]",
        r#"{"type":7}"#,
        r#"{"type":"response_item"}"#,
        r#"{"type":"response_item","payload":{"type":"message","content":"text"}}"#,
        r#"{"type":"event_msg","payload":{}}"#,
    ]);
    assert_eq!(read.preview, None);
    assert_eq!(read.id, None);
    assert!(!read.has_exec);
    assert!(!read.has_writes);
}

#[test]
fn commands_are_known_by_their_first_word() {
    let read = scan(&[
        &exec_line("  ls -la"),
        &exec_line("   "),
        r#"{"type":"response_item","payload":{"type":"function_call","name":"exec_command","arguments":"broken"}}"#,
        r#"{"type":"response_item","payload":{"type":"function_call","name":"other","arguments":"{}"}}"#,
        &exec_line("git status"),
    ]);
    assert!(read.has_exec);
    assert_eq!(read.commands, vec!["ls", "git"]);
}

#[test]
fn patches_are_handed_out() {
    let mut read = SummaryScan::new();
    assert_eq!(read.feed_line(&patch_line("*** Begin")).as_deref(), Some("*** Begin"));
    assert!(read.has_writes);
    assert_eq!(read.feed_line(&exec_line("ls")), None);
    read.add_files(vec!["a".to_string()]);
    read.add_files(vec!["b".to_string(), "c".to_string()]);
    assert_eq!(read.files_touched, vec!["a", "b", "c"]);
}

#[test]
fn filters_test_what_a_session_did() {
    let mut read = scan(&[META, &exec_line("cargo build"), &patch_line("p")]);
    read.add_files(vec!["src/lib.rs".to_string()]);
    let base = WsSearchParams::default;
    let one = |s: &str| vec![s.to_string()];

    assert!(read.matches_params(&WsSearchParams { has_exec: Some(true), ..base() }));
    assert!(!read.matches_params(&WsSearchParams { has_exec: Some(false), ..base() }));
    assert!(read.matches_params(&WsSearchParams { has_writes: Some(true), ..base() }));
    assert!(!read.matches_params(&WsSearchParams { has_writes: Some(false), ..base() }));
    assert!(read
        .matches_params(&WsSearchParams { include_command_prefixes: one("car"), ..base() }));
    assert!(!read
        .matches_params(&WsSearchParams { include_command_prefixes: one("git"), ..base() }));
    assert!(!read
        .matches_params(&WsSearchParams { exclude_command_prefixes: one("car"), ..base() }));
    assert!(read
        .matches_params(&WsSearchParams { exclude_command_prefixes: one("git"), ..base() }));
    assert!(read.matches_params(&WsSearchParams { include_files: one("lib"), ..base() }));
    assert!(!read.matches_params(&WsSearchParams { include_files: one("main"), ..base() }));
    assert!(!read.matches_params(&WsSearchParams { exclude_files: one("lib"), ..base() }));
    assert!(read.matches_params(&WsSearchParams { exclude_files: one("main"), ..base() }));
    let below = |p: &str| WsSearchParams { cwd_prefix: Some(p.to_string()), ..base() };
    assert!(read.matches_params(&below("/wo")));
    assert!(!read.matches_params(&below("/home")));
    assert!(!scan(&[&user_line("x")]).matches_params(&below("/wo")));
}

#[test]
fn a_session_without_an_id_is_known_by_its_file() {
    let read = scan(&[&user_line("x")]);
    let all = WsSearchParams::default();
    let found = read.read_summary_hit(&all, FILE_NAME, 0).unwrap();
    assert_eq!(found.id, "abc");
    assert_eq!(found.timestamp, "");
    assert_eq!(read.read_summary_hit(&all, "rollout-abc.txt", 0).unwrap().id, "");
    assert_eq!(read.read_summary_hit(&all, "", 0).unwrap().id, "");
}

#[test]
fn a_search_begins_with_ripgrep_where_the_query_holds_a_word() {
    assert!(matches!(start_search(false, &asks("x")), SearchStart::Nothing));
    assert!(matches!(start_search(true, &WsSearchParams::default()), SearchStart::Walk));
    assert!(matches!(start_search(true, &asks("  ")), SearchStart::Walk));
    match start_search(true, &asks(" Hello \u{c4}RGER ")) {
        SearchStart::Prefilter(args) => assert_eq!(
            args,
            vec![
                "-F", "-i", "-l", "--no-messages", "-g", "*.jsonl", "-e", "hello", "-e",
                "\u{e4}rger"
            ]
        ),
        _ => panic!("expected a prefilter"),
    }
}

#[test]
fn ripgrep_writes_one_path_to_a_line() {
    assert_eq!(
        ripgrep_candidates(true, true, "/a/b.jsonl\r\n\n  c.jsonl \n"),
        Some(vec!["/a/b.jsonl".to_string(), "c.jsonl".to_string()])
    );
    assert_eq!(ripgrep_candidates(true, false, "/a/b.jsonl\n"), Some(vec![]));
    assert_eq!(ripgrep_candidates(true, true, ""), Some(vec![]));
    assert_eq!(ripgrep_candidates(false, true, "/a/b.jsonl\n"), None);
    assert_eq!(ripgrep_candidates(false, false, ""), None);
}

#[test]
fn the_tree_is_walked_where_ripgrep_cannot_be_run() {
    let params = asks("hello");
    assert!(matches!(start_search(true, &params), SearchStart::Prefilter(_)));
    let found = ripgrep_candidates(false, false, "");
    let keys = found.map(|paths| paths.iter().map(|path| key(&[path.as_str()])).collect());
    let mut search = SessionSearch::begin(keys, 0, 25);
    loop {
        match search.next() {
            SearchAction::List(node) => {
                let listed = match node.handle {
                    0 => entry("2025", EntryKind::Directory, 1),
                    1 => entry("01", EntryKind::Directory, 2),
                    2 => entry("02", EntryKind::Directory, 3),
                    _ => entry(FILE_NAME, EntryKind::File, 4),
                };
                search.listed(&node, &vec![listed]);
            }
            SearchAction::Read(node) => {
                assert_eq!(node.handle, 4);
                let read = scan(&[META, &user_line("hello from ws")]);
                search.found(read.read_summary_hit(&params, FILE_NAME, node.handle));
            }
            SearchAction::Finished => break,
        }
    }
    assert_eq!(search.hits.len(), 1);
    assert_eq!(search.hits[0].preview, "hello from ws");
    assert_eq!(search.hits[0].file, 4);
}

#[test]
fn a_search_that_ripgrep_left_nothing_for_finds_nothing() {
    let found = ripgrep_candidates(true, false, "");
    let keys = found.map(|paths| paths.iter().map(|path| key(&[path.as_str()])).collect());
    let mut search = SessionSearch::begin(keys, 0, 25);
    assert!(matches!(search.next(), SearchAction::Finished));
    assert!(search.hits.is_empty());
}

#[test]
fn the_files_of_a_session_are_those_of_its_patches() {
    let lines = [
        (patch_line("one"), vec!["a", "b"]),
        (exec_line("ls"), vec!["never"]),
        (patch_line("two"), vec!["c"]),
        (patch_line("three"), vec!["a"]),
    ];
    let mut read = SummaryScan::new();
    for (line, files) in lines {
        if read.feed_line(&line).is_some() {
            read.add_files(files.into_iter().map(str::to_string).collect());
        }
    }
    assert_eq!(read.files_touched, vec!["a", "b", "c", "a"]);
}

#[test]
fn paths_are_ordered_by_their_components() {
    let keys = vec![
        key(&["a", "z"]),
        key(&["a-b", "a"]),
        key(&["a"]),
        key(&["b"]),
        key(&["a", "z"]),
    ];
    assert_eq!(newest_first(&keys), vec![3, 1, 4, 0, 2]);
    assert!(newest_first(&vec![]).is_empty());
}

#[test]
fn the_tree_is_walked_from_the_newest_file_to_the_oldest() {
    let dir = EntryKind::Directory;
    let file = EntryKind::File;
    let mut search = SessionSearch::begin(None, 0, 10);
    let mut read = Vec::new();
    loop {
        match search.next() {
            SearchAction::List(node) => {
                let listed = match node.handle {
                    0 => vec![
                        entry("2024", dir, 1),
                        entry("2025", dir, 2),
                        entry("note.txt", file, 90),
                    ],
                    1 => vec![entry("12", dir, 3)],
                    2 => vec![entry("01", dir, 4), entry("02", dir, 5)],
                    3 => vec![entry("31", dir, 6)],
                    4 => vec![entry("09", dir, 7)],
                    5 => vec![],
                    6 => vec![entry("rollout-c.jsonl", file, 10)],
                    7 => vec![
                        entry("rollout-a.jsonl", file, 11),
                        entry("rollout-b.jsonl", file, 12),
                        entry("rollout-b.txt", file, 13),
                        entry("other.jsonl", file, 14),
                        entry("rollout-d.jsonl", dir, 15),
                        entry("rollout-e.jsonl", EntryKind::Other, 16),
                    ],
                    other => panic!("unexpected directory {other}"),
                };
                search.listed(&node, &listed);
            }
            SearchAction::Read(node) => {
                read.push(node.handle);
                search.found(Some(hit(node.handle)));
            }
            SearchAction::Finished => break,
        }
    }
    assert_eq!(read, vec![12, 11, 10]);
    assert_eq!(search.hits.len(), 3);
}

#[test]
fn no_file_is_read_once_the_page_is_full() {
    let mut search = SessionSearch::begin(Some(vec![key(&["a"]), key(&["b"]), key(&["c"])]), 0, 2);
    let mut read = Vec::new();
    loop {
        match search.next() {
            SearchAction::Read(node) => {
                read.push(node.handle);
                search.found(if node.handle == 2 { None } else { Some(hit(node.handle)) });
            }
            SearchAction::List(_) => panic!("there is no directory"),
            SearchAction::Finished => break,
        }
    }
    assert_eq!(read, vec![2, 1, 0]);
    assert_eq!(search.hits.len(), 2);

    let mut none = SessionSearch::begin(Some(vec![key(&["a"])]), 0, 0);
    assert!(matches!(none.next(), SearchAction::Finished));
    assert!(none.hits.is_empty());
}

#[test]
fn a_page_holds_the_newest_matches() {
    let keys = ["b", "e", "a", "d", "c"].iter().map(|name| key(&[name])).collect();
    let mut search = SessionSearch::begin(Some(keys), 0, 2);
    let mut read = Vec::new();
    loop {
        match search.next() {
            SearchAction::Read(node) => {
                read.push(node.handle);
                search.found(if node.handle == 3 { None } else { Some(hit(node.handle)) });
            }
            SearchAction::List(_) => panic!("there is no directory"),
            SearchAction::Finished => break,
        }
    }
    assert_eq!(read, vec![1, 3, 4]);
    assert_eq!(search.hits.iter().map(|h| h.file).collect::<Vec<_>>(), vec![1, 4]);
}
