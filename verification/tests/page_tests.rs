use bangumi_download::cloud_manager::{FileInfo, Task, WalkAction, WalkEntry, extend_walk, sha1_upper_hex, walk_step};
use bangumi_download::config_manager::SubGroup;
use bangumi_download::errors::CatError;
use bangumi_download::main_proc::{SlowQueueStep, TaskNext, refresh_task_step};
use bangumi_download::text::clone_strings;
use bangumi_download::update_rss::{
    RssAction, RssEvent, RssRound, episode_magnet_links, magnet_link_of_page, rss_round_step, subgroup_name_of_page,
};

fn page_rules() -> Vec<(String, SubGroup)> {
    vec![
        ("583".to_string(), SubGroup::new_const(&["CHT"])),
        ("default".to_string(), SubGroup::new_const(&["简日内封", "简体", "CHS"])),
    ]
}

const TABLE: &str = "<table><tr><td>\
<a class=\"magnet-link-wrap\">[ANi] Ep 01 CHT</a><a data-clipboard-text=\"magnet:?xt=one\"></a>\
</td></tr><tr><td>\
<a class=\"magnet-link-wrap\">[ANi] Ep 01 CHS</a><a data-clipboard-text=\"magnet:?xt=two\"></a>\
</td></tr><tr><td>\
<a class=\"magnet-link-wrap\">[ANi] Ep 02 CHT</a><a data-clipboard-text=\"magnet:?xt=three\"></a>\
</td></tr></table>";

#[test]
fn episode_table_links_follow_the_groups_keyword() {
    let links = episode_magnet_links(TABLE, &page_rules(), "583").unwrap();
    assert_eq!(links, vec!["magnet:?xt=one".to_string(), "magnet:?xt=three".to_string()]);
}

#[test]
fn episode_table_links_fall_back_to_default_words() {
    let links = episode_magnet_links(TABLE, &page_rules(), "999").unwrap();
    assert_eq!(links, vec!["magnet:?xt=two".to_string()]);
}

#[test]
fn episode_table_row_without_link_is_an_error() {
    let html = "<div><a class=\"magnet-link-wrap\">[ANi] Ep 01 CHT</a></div>";
    match episode_magnet_links(html, &page_rules(), "583") {
        Err(CatError::Parse(m)) => assert_eq!(m, "parse all episode magnet links error"),
        other => panic!("unexpected {:?}", other),
    }
}

#[test]
fn empty_episode_table_gives_no_links() {
    assert_eq!(episode_magnet_links("<p>nothing</p>", &page_rules(), "583").unwrap(), Vec::<String>::new());
}

#[test]
fn page_gives_its_first_magnet_link() {
    let html = "<a href=\"/home\">home</a><a href=\"magnet:?xt=first\">m</a><a href=\"magnet:?xt=second\">n</a>";
    assert_eq!(magnet_link_of_page(html).unwrap(), "magnet:?xt=first");
}

#[test]
fn page_without_magnet_link_is_an_error() {
    let html = "<a href=\"/home\">home</a><a href=\"https://x/magnet:\">x</a>";
    match magnet_link_of_page(html) {
        Err(CatError::Parse(m)) => assert_eq!(m, "can not get a magnet link"),
        other => panic!("unexpected {:?}", other),
    }
}

#[test]
fn subgroup_name_is_the_first_wrap_text() {
    let html = "<p><a class=\"magnet-link-wrap\">LoliHouse</a><a class=\"magnet-link-wrap\">Other</a></p>";
    assert_eq!(subgroup_name_of_page(html), Some("LoliHouse".to_string()));
    assert_eq!(subgroup_name_of_page("<p>none</p>"), None);
}

#[test]
fn sha1_hex_of_known_inputs() {
    assert_eq!(sha1_upper_hex(b"abc"), "A9993E364706816ABA3E25717850C26C9CD0D89D");
    assert_eq!(sha1_upper_hex(b""), "DA39A3EE5E6B4B0D3255BFEF95601890AFD80709");
}

#[test]
fn rss_round_adds_found_and_pending_links_then_publishes() {
    let event = RssEvent::Found {
        title: "Show".to_string(),
        found: vec!["m1".to_string()],
        pending: Some(vec!["m0".to_string()]),
    };
    let (round, action) = rss_round_step(RssRound::Start, event);
    match &action {
        RssAction::AddToCloud(links) => assert_eq!(links, &vec!["m1".to_string(), "m0".to_string()]),
        other => panic!("unexpected {:?}", other),
    }
    let (round, action) = rss_round_step(round, RssEvent::Added(vec!["h1".to_string(), "h0".to_string()]));
    assert!(matches!(round, RssRound::Finished));
    match action {
        RssAction::RecordAndPublish { title, hashes } => {
            assert_eq!(title, "Show");
            assert_eq!(hashes, vec!["h1".to_string(), "h0".to_string()]);
        },
        other => panic!("unexpected {:?}", other),
    }
}

#[test]
fn rss_round_keeps_links_pending_when_the_cloud_fails() {
    let event = RssEvent::Found { title: "Show".to_string(), found: vec!["m1".to_string()], pending: None };
    let (round, _) = rss_round_step(RssRound::Start, event);
    let (round, action) = rss_round_step(round, RssEvent::AddFailed);
    assert!(matches!(round, RssRound::Failed));
    match action {
        RssAction::KeepPending { title, links } => {
            assert_eq!(title, "Show");
            assert_eq!(links, vec!["m1".to_string()]);
        },
        other => panic!("unexpected {:?}", other),
    }
    let (round, action) = rss_round_step(round, RssEvent::AddFailed);
    assert!(matches!(round, RssRound::Failed));
    assert!(matches!(action, RssAction::Nothing));
}

#[test]
fn rss_round_without_links_publishes_at_once() {
    let event = RssEvent::Found { title: "Show".to_string(), found: vec![], pending: None };
    let (round, action) = rss_round_step(RssRound::Start, event);
    assert!(matches!(round, RssRound::Finished));
    assert!(matches!(action, RssAction::Publish));
}

fn info(folder: &str, file: Option<&str>, name: &str, size: Option<u64>) -> FileInfo {
    FileInfo {
        folder_id: folder.to_string(),
        file_id: file.map(|s| s.to_string()),
        name: name.to_string(),
        sha1: None,
        size,
        pick_code: "p".to_string(),
    }
}

#[test]
fn walk_lists_folders_and_downloads_files() {
    let root = WalkEntry { info: info("10", None, "Show", None), dirs: vec![] };
    let (pending, action) = walk_step(vec![root]);
    assert!(pending.is_empty());
    let dirs = match action {
        WalkAction::List { folder_id, dirs } => {
            assert_eq!(folder_id, "10");
            assert_eq!(dirs, vec!["Show".to_string()]);
            dirs
        },
        other => panic!("unexpected {:?}", other),
    };
    let listed = vec![info("10", Some("f1"), "a.mkv", Some(7)), info("10", Some("f2"), "b.mkv", None)];
    let pending = extend_walk(pending, listed, &dirs);
    assert_eq!(pending.len(), 2);
    let (pending, action) = walk_step(pending);
    assert!(matches!(action, WalkAction::MissingSize));
    let (pending, action) = walk_step(pending);
    match action {
        WalkAction::Download { entry, size } => {
            assert_eq!(size, 7);
            assert_eq!(entry.info.name, "a.mkv");
            assert_eq!(entry.dirs, vec!["Show".to_string()]);
        },
        other => panic!("unexpected {:?}", other),
    }
    let (pending, action) = walk_step(pending);
    assert!(pending.is_empty());
    assert!(matches!(action, WalkAction::Done));
}

fn task_at(percent: i32, status: i32) -> Task {
    Task {
        hash: "h".to_string(),
        percent_done: percent,
        name: "n".to_string(),
        status,
        folder_id: String::new(),
        file_id: String::new(),
    }
}

#[test]
fn refresh_step_per_task() {
    let r = refresh_task_step(&task_at(100, -1), None);
    assert!(r.delete_failed);
    assert_eq!(r.next, TaskNext::Download);
    let r = refresh_task_step(&task_at(40, 2), None);
    assert!(!r.delete_failed);
    assert_eq!(r.next, TaskNext::Downloading(SlowQueueStep::Record));
    assert_eq!(refresh_task_step(&task_at(40, 2), Some(1800)).next, TaskNext::Downloading(SlowQueueStep::Wait));
    assert_eq!(refresh_task_step(&task_at(40, 2), Some(1801)).next, TaskNext::Downloading(SlowQueueStep::MoveToSlow));
}

#[test]
fn cloned_strings_are_equal() {
    let v = vec!["a".to_string(), "b".to_string()];
    assert_eq!(clone_strings(&v), v);
}
