use automusic::blockconfig::BlockConfig;
use automusic::blocktype::{find_type_id, BlockType, Color};
use automusic::credential::{bearer_header, credential_from_password, endpoint_url};
use automusic::reconcile::{ActiveState, Reconciler, TransientError, NO_BLOCK_ID};
use automusic::resolve::{same_target, LookupTable, ResolvedTarget};
use automusic::supervisor::{player_args, Supervisor};

fn color() -> Color {
    Color { r: 1, g: 2, b: 3 }
}

fn catalog() -> Vec<BlockType> {
    vec![
        BlockType::new(1, "Sleep".to_string(), color()),
        BlockType::new(2, "Coding".to_string(), color()),
        BlockType::new(3, "Reading".to_string(), color()),
    ]
}

fn entry(t: &str, b: Option<&str>, url: &str, playlist: bool) -> BlockConfig {
    BlockConfig::new(t.to_string(), b.map(|s| s.to_string()), url.to_string(), playlist)
}

fn coding_entries() -> Vec<BlockConfig> {
    vec![
        entry("Coding", Some("Focus"), "focus.mp3", false),
        entry("Coding", None, "coding-list", true),
    ]
}

fn target(url: &str, playlist: bool) -> Option<ResolvedTarget> {
    Some(ResolvedTarget::new(url.to_string(), playlist))
}

fn url_of(t: &Option<ResolvedTarget>) -> Option<String> {
    t.as_ref().map(|x| x.media_reference.clone())
}

#[test]
fn exact_name_beats_wildcard() {
    let table = LookupTable::build(&catalog(), &coding_entries()).unwrap();
    let r = table.resolve(2, &"Focus".to_string());
    assert_eq!(url_of(&r), Some("focus.mp3".to_string()));
    assert!(!r.unwrap().is_playlist);
    let r = table.resolve(2, &"Anything".to_string());
    assert_eq!(url_of(&r), Some("coding-list".to_string()));
    assert!(r.unwrap().is_playlist);
    assert!(table.resolve(3, &"x".to_string()).is_none());
}

#[test]
fn block_names_match_case_sensitively() {
    let entries = vec![entry("Coding", Some("Focus"), "focus.mp3", false)];
    let table = LookupTable::build(&catalog(), &entries).unwrap();
    assert!(table.resolve(2, &"focus".to_string()).is_none());
}

#[test]
fn resolution_is_deterministic() {
    let table = LookupTable::build(&catalog(), &coding_entries()).unwrap();
    let a = table.resolve(2, &"Focus".to_string());
    let b = table.resolve(2, &"Focus".to_string());
    assert!(same_target(&a, &b));
}

#[test]
fn first_stored_match_wins() {
    let entries = vec![
        entry("Coding", None, "first", false),
        entry("Coding", None, "second", false),
    ];
    let table = LookupTable::build(&catalog(), &entries).unwrap();
    assert_eq!(url_of(&table.resolve(2, &"x".to_string())), Some("first".to_string()));
}

#[test]
fn unknown_block_type_is_reported() {
    let entries = vec![
        entry("Coding", None, "a", false),
        entry("Gaming", None, "b", false),
        entry("Chess", None, "c", false),
    ];
    let e = LookupTable::build(&catalog(), &entries).unwrap_err();
    assert_eq!(e.index, 1);
    assert_eq!(e.block_type, "Gaming");
}

#[test]
fn empty_entries_give_empty_table() {
    let table = LookupTable::build(&catalog(), &Vec::new()).unwrap();
    assert!(table.entries.is_empty());
    assert!(table.resolve(2, &"Focus".to_string()).is_none());
}

#[test]
fn catalog_lookup_takes_first_name() {
    let mut cat = catalog();
    cat.push(BlockType::new(9, "Coding".to_string(), color()));
    assert_eq!(find_type_id(&cat, &"Coding".to_string()), Some(2));
    assert_eq!(find_type_id(&cat, &"Nothing".to_string()), None);
}

#[test]
fn duplicate_is_rejected_once_stored() {
    let mut blocks: Vec<BlockConfig> = Vec::new();
    assert!(entry("Coding", Some("Focus"), "a", false).add_block(&mut blocks).is_ok());
    let e = entry("Coding", Some("Focus"), "b", true).add_block(&mut blocks).unwrap_err();
    assert_eq!(e.index, 0);
    assert_eq!(e.existing.music_url, "a");
    assert_eq!(blocks.len(), 1);
    assert_eq!(blocks[0].music_url, "a");
}

#[test]
fn wildcard_and_named_entries_coexist() {
    let mut blocks: Vec<BlockConfig> = Vec::new();
    assert!(entry("Coding", None, "a", false).add_block(&mut blocks).is_ok());
    assert!(entry("Coding", Some("Focus"), "b", false).add_block(&mut blocks).is_ok());
    assert!(entry("Reading", None, "c", false).add_block(&mut blocks).is_ok());
    assert!(entry("Coding", None, "d", false).add_block(&mut blocks).is_err());
    assert_eq!(blocks.len(), 3);
    assert_eq!(blocks[2].music_url, "c");
}

#[test]
fn supervisor_starts_one_process_for_repeated_target() {
    let mut s = Supervisor::new();
    let t1 = s.apply(target("a", false));
    assert!(!t1.stop_current);
    assert_eq!(url_of(&t1.launch), Some("a".to_string()));
    let t2 = s.apply(target("a", false));
    assert!(t2.is_noop());
    assert_eq!(url_of(&s.current), Some("a".to_string()));
}

#[test]
fn supervisor_keeps_at_most_one_process() {
    let mut s = Supervisor::new();
    let mut live: i32 = 0;
    let steps = vec![
        target("a", false),
        target("b", true),
        None,
        None,
        target("b", true),
        target("b", false),
    ];
    for t in steps {
        let tr = s.apply(t);
        if tr.stop_current {
            live -= 1;
        }
        if tr.launch.is_some() {
            live += 1;
        }
        assert!(live == 0 || live == 1);
        assert_eq!(live == 1, s.current.is_some());
    }
    assert_eq!(live, 1);
}

#[test]
fn launch_failure_clears_record() {
    let mut s = Supervisor::new();
    s.apply(target("a", false));
    s.launch_failed();
    assert!(s.current.is_none());
    let t = s.apply(target("a", false));
    assert!(!t.stop_current);
    assert!(t.launch.is_some());
}

#[test]
fn player_arguments_follow_playlist_flag() {
    let a = player_args(&ResolvedTarget::new("list".to_string(), true));
    assert_eq!(a, vec!["list", "-no-video", "--shuffle", "--loop-playlist"]);
    let b = player_args(&ResolvedTarget::new("song".to_string(), false));
    assert_eq!(b, vec!["song", "-no-video", "--loop"]);
}

fn reconciler() -> Reconciler {
    Reconciler::new(LookupTable::build(&catalog(), &coding_entries()).unwrap(), 10)
}

#[test]
fn failed_poll_changes_nothing() {
    let mut r = reconciler();
    let t = r.on_poll(Ok(ActiveState::new(2, "Focus".to_string())));
    assert_eq!(url_of(&t.launch), Some("focus.mp3".to_string()));
    let t = r.on_poll(Err(TransientError::Timeout));
    assert!(t.is_noop());
    assert_eq!(r.active.block_id, 2);
    assert_eq!(r.active.block_name, "Focus");
    assert_eq!(url_of(&r.supervisor.current), Some("focus.mp3".to_string()));
}

#[test]
fn polls_switch_tracks_on_change_only() {
    let mut r = reconciler();
    assert_eq!(r.active.block_id, NO_BLOCK_ID);
    assert!(r.on_poll(Ok(ActiveState::new(2, "Focus".to_string()))).launch.is_some());
    assert!(r.on_poll(Ok(ActiveState::new(2, "Focus".to_string()))).is_noop());
    let t = r.on_poll(Ok(ActiveState::new(2, "Other".to_string())));
    assert!(t.stop_current);
    assert_eq!(url_of(&t.launch), Some("coding-list".to_string()));
    let t = r.on_poll(Ok(ActiveState::new(1, "".to_string())));
    assert!(t.stop_current);
    assert!(t.launch.is_none());
    assert!(r.supervisor.current.is_none());
}

#[test]
fn reload_after_newer_modification() {
    let mut r = reconciler();
    assert!(!r.needs_reload(10));
    assert!(r.needs_reload(11));
    let entries = vec![entry("Reading", None, "books", false)];
    assert!(r.reload(&catalog(), &entries, 11).is_ok());
    assert!(!r.needs_reload(11));
    let t = r.on_poll(Ok(ActiveState::new(3, "Novel".to_string())));
    assert_eq!(url_of(&t.launch), Some("books".to_string()));
    assert!(r.table.resolve(2, &"Focus".to_string()).is_none());
}

#[test]
fn reload_with_unknown_type_keeps_table() {
    let mut r = reconciler();
    let entries = vec![entry("Gaming", None, "x", false)];
    assert!(r.reload(&catalog(), &entries, 12).is_err());
    assert!(!r.needs_reload(12));
    assert!(r.table.resolve(2, &"Focus".to_string()).is_some());
}

#[test]
fn credential_is_hex_digest() {
    let c = credential_from_password("hello");
    assert_eq!(c, "2cf24dba5fb0a30e26e83b2ac5b9e29e1b161e5c1fa7425e73043362938b9824");
}

#[test]
fn header_and_urls() {
    assert_eq!(bearer_header("abc"), "Bearer abc");
    assert_eq!(endpoint_url("10.0.0.2:8000", "blocktypes"), "http://10.0.0.2:8000/blocktypes");
}

#[test]
fn failed_launch_is_retried_on_same_block() {
    let mut r = reconciler();
    let t = r.on_poll(Ok(ActiveState::new(2, "Focus".to_string())));
    assert_eq!(url_of(&t.launch), Some("focus.mp3".to_string()));
    r.launch_failed();
    assert!(r.supervisor.current.is_none());
    assert_eq!(r.active.block_id, NO_BLOCK_ID);
    let t = r.on_poll(Ok(ActiveState::new(2, "Focus".to_string())));
    assert!(!t.stop_current);
    assert_eq!(url_of(&t.launch), Some("focus.mp3".to_string()));
}

#[test]
fn failed_stop_is_retried_on_same_block() {
    let mut r = reconciler();
    r.on_poll(Ok(ActiveState::new(2, "Focus".to_string())));
    let t = r.on_poll(Ok(ActiveState::new(2, "Other".to_string())));
    assert!(t.stop_current);
    r.stop_failed();
    assert!(r.supervisor.current.is_none());
    let t = r.on_poll(Ok(ActiveState::new(2, "Other".to_string())));
    assert!(!t.stop_current);
    assert_eq!(url_of(&t.launch), Some("coding-list".to_string()));
}
