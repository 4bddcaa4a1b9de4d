use bangumi_download::config_manager::SubGroup;
use bangumi_download::errors::CatError;
use bangumi_download::time_stamp::TimeStamp;
use bangumi_download::update_rss::{
    Item, LItem, RssLinkError, Torrent, UpdateKind, bangumi_key, check_rss_link_id, episodes_to_fetch, filter_episode,
    first_magnet_link,
    ids_from_query, new_episode_index, parse_url, publish_time, rss_link_verdict, rss_title, update_kind,
};

fn litem(title: &str, link: &str) -> LItem {
    LItem { title: title.to_string(), link: link.to_string() }
}

fn group(words: &[&str]) -> SubGroup {
    SubGroup::new_const(words)
}

fn rules() -> Vec<(String, SubGroup)> {
    vec![
        ("583".to_string(), group(&["CHT"])),
        ("default".to_string(), group(&["简日内封", "简体", "CHS"])),
    ]
}

#[test]
fn the_groups_own_keyword_comes_first() {
    let items = vec![litem("[A] Ep1 CHT", "l1"), litem("[A] Ep1 CHS", "l2"), litem("[A] Ep2 CHT", "l3")];
    assert_eq!(filter_episode(&items, &rules(), "583"), vec!["l1", "l3"]);
}

#[test]
fn default_keywords_are_tried_in_order() {
    let items = vec![litem("Ep1 简体", "l1"), litem("Ep1 CHS", "l2"), litem("Ep2 简体 CHS", "l3")];
    assert_eq!(filter_episode(&items, &rules(), "999"), vec!["l1", "l3"]);
}

#[test]
fn without_any_keyword_every_episode_is_taken() {
    let items = vec![litem("Ep1 BIG5", "l1"), litem("Ep2 BIG5", "l2")];
    assert_eq!(filter_episode(&items, &rules(), "583"), vec!["l1", "l2"]);
}

#[test]
fn ids_are_read_from_the_query() {
    let (a, s) = parse_url("https://mikanime.tv/RSS/Bangumi?bangumiId=3644&subgroupid=1230").unwrap();
    assert_eq!((a.as_str(), s.as_str()), ("3644", "1230"));
    let (a, s) = parse_url("http://mikanime.tv/RSS/Bangumi?subgroupid=1230&bangumiId=3644").unwrap();
    assert_eq!((a.as_str(), s.as_str()), ("3644", "1230"));
}

#[test]
fn missing_ids_are_named() {
    match parse_url("https://mikanime.tv/RSS/Bangumi?bangumiId=2") {
        Err(CatError::Parse(m)) => assert_eq!(m, "missing subgroupid"),
        other => panic!("unexpected: {:?}", other),
    }
    match parse_url("https://mikanime.tv/RSS/Bangumi?subgroupid=2") {
        Err(CatError::Parse(m)) => assert_eq!(m, "missing bangumiId"),
        other => panic!("unexpected: {:?}", other),
    }
    match parse_url("mikanime.tv/RSS/Bangumi?subgroupid=1230&bangumiId=3644") {
        Err(CatError::RssLinkParse(m)) => assert_eq!(m, "relative URL without a base"),
        other => panic!("unexpected: {:?}", other),
    }
}

#[test]
fn the_last_value_of_a_key_counts() {
    let pairs = vec![
        ("bangumiId".to_string(), "1".to_string()),
        ("subgroupid".to_string(), "7".to_string()),
        ("bangumiId".to_string(), "2".to_string()),
    ];
    let (a, s) = ids_from_query(pairs).unwrap();
    assert_eq!((a.as_str(), s.as_str()), ("2", "7"));
}

#[test]
fn bangumi_key_joins_the_ids() {
    assert_eq!(bangumi_key("3644", "1230"), "3644&1230");
}

#[test]
fn rss_links_are_checked_before_fetching() {
    let urls = [
        "https://mikanime.tv/RSS/Bangumi?bangumiId=3644&subgroupid=1230",
        "http://mikanime.tv/RSS/Bangumi?subgroupid=1230&bangumiId=3644",
        "mikanime.tv/RSS/Bangumi?subgroupid=1230&bangumiId=3644",
        "https://mikanime.tv/RSS/Bangumi?bangumiId=2",
        "https://mikanime.tv/RSS/Bangumi?bangumiId=2&other=1",
    ];
    let known: Vec<String> = Vec::new();
    assert_eq!(check_rss_link_id(urls[0], &known).unwrap(), "3644&1230");
    assert_eq!(check_rss_link_id(urls[1], &known).unwrap(), "3644&1230");
    for url in &urls[2..] {
        assert!(matches!(check_rss_link_id(url, &known), Err(RssLinkError::Invalid)));
    }
    let known = vec!["3644&1230".to_string()];
    assert!(matches!(check_rss_link_id(urls[0], &known), Err(RssLinkError::Exists)));
}

#[test]
fn a_link_that_matched_can_still_lack_an_id() {
    let known: Vec<String> = Vec::new();
    match rss_link_verdict("https://mikanime.tv/RSS/Bangumi?bangumiId=2", true, &known) {
        Err(RssLinkError::Parse(CatError::Parse(m))) => assert_eq!(m, "missing subgroupid"),
        other => panic!("unexpected: {:?}", other),
    }
    assert!(matches!(rss_link_verdict("anything", false, &known), Err(RssLinkError::Invalid)));
}

#[test]
fn publish_dates_are_in_utc_plus_eight() {
    let t = publish_time("2024-01-10T21:30:00.123").unwrap();
    assert_eq!(t.secs, 1704893400);
    assert_eq!(t.nanos, 123_000_000);
    assert_eq!(t.offset_secs, 8 * 3600);
    assert!(matches!(publish_time("yesterday"), Err(CatError::Parse(_))));
}

fn ts(secs: i64) -> TimeStamp {
    TimeStamp { secs, nanos: 0, offset_secs: 8 * 3600 }
}

#[test]
fn feeds_are_new_unchanged_or_newer() {
    assert_eq!(update_kind(None, ts(5)), UpdateKind::New);
    assert_eq!(update_kind(Some(ts(5)), ts(5)), UpdateKind::Unchanged);
    assert_eq!(update_kind(Some(ts(5)), ts(4)), UpdateKind::Unchanged);
    assert_eq!(update_kind(Some(ts(5)), ts(6)), UpdateKind::Newer);
}

fn item(title: &str, date: &str) -> Item {
    Item { title: title.to_string(), link: title.to_string(), torrent: Torrent { pub_date: date.to_string() } }
}

#[test]
fn the_walk_stops_at_the_first_episode_seen() {
    let items = vec![
        item("ep3", "2024-01-10T21:30:00"),
        item("ep2", "2024-01-03T21:30:00"),
        item("ep1", "2023-12-27T21:30:00"),
    ];
    assert_eq!(new_episode_index(&items, ts(1704288600)).unwrap(), 1);
    // when every item is later, the walk ends on the last one
    assert_eq!(new_episode_index(&items, ts(0)).unwrap(), 2);
    let fetched = episodes_to_fetch(items, 2);
    let titles: Vec<&str> = fetched.iter().map(|i| i.title.as_str()).collect();
    assert_eq!(titles, vec!["ep2", "ep3"]);
}

#[test]
fn an_unreadable_date_stops_the_walk() {
    let items = vec![item("ep2", "2024-01-10T21:30:00"), item("ep1", "bad date")];
    assert!(matches!(new_episode_index(&items, ts(0)), Err(CatError::Parse(_))));
    assert_eq!(new_episode_index(&items, ts(1704893400)).unwrap(), 0);
}

#[test]
fn test_check_rss_link_and_url_parse() {
    let urls = [
        "https://mikanime.tv/RSS/Bangumi?bangumiId=3644&subgroupid=1230",
        "https://mikanime.tv/RSS/Bangumi?bangumiId=3644&subgroupid=1230",
        "http://mikanime.tv/RSS/Bangumi?subgroupid=1230&bangumiId=3644",
        "mikanime.tv/RSS/Bangumi?subgroupid=1230&bangumiId=3644",
        "https://mikanime.tv/RSS/Bangumi?bangumiId=2",
        "https://mikanime.tv/RSS/Bangumi?bangumiId=2&other=1",
        "https://mikanime.tv/RSS/Bangumi?subgroupid=1&bangumiId=2",
        "https://mikanime.tv/RSS/Bangumi?bangumiId=2&subgroupid=1",
    ];
    let known: Vec<String> = Vec::new();
    let keys = ["3644&1230", "3644&1230", "3644&1230"];
    for (i, url) in urls.iter().enumerate() {
        let result = check_rss_link_id(url, &known);
        match i {
            0..=2 => assert_eq!(result.unwrap(), keys[i]),
            3..=5 => assert!(matches!(result, Err(RssLinkError::Invalid))),
            _ => assert_eq!(result.unwrap(), "2&1"),
        }
    }
    let urls = [
        "https://mikanime.tv/RSS/Bangumi?bangumiId=3644&subgroupid=1230",
        "https://mikanime.tv/RSS/Bangumi?bangumiId=3644&subgroupid=1230",
        "http://mikanime.tv/RSS/Bangumi?subgroupid=1230&bangumiId=3644",
        "mikanime.tv/RSS/Bangumi?subgroupid=1230&bangumiId=3644",
        "https://mikanime.tv/RSS/Bangumi?bangumiId=2",
        "https://mikanime.tv/RSS/Bangumi?subgroupid=3&other=1",
    ];
    for (i, url) in urls.iter().enumerate() {
        let result = parse_url(url);
        match i {
            0..=2 => assert!(matches!(result, Ok((ref a, ref b)) if a == "3644" && b == "1230")),
            3 => assert!(matches!(result, Err(CatError::RssLinkParse(_)))),
            4 => assert!(matches!(result, Err(CatError::Parse(ref msg)) if msg == "missing subgroupid")),
            _ => assert!(matches!(result, Err(CatError::Parse(ref msg)) if msg == "missing bangumiId")),
        }
    }
}

#[test]
fn titles_name_the_group_and_the_bangumi() {
    assert_eq!(rss_title("LoliHouse", "Mikan Project - 葬送的芙莉莲"), "[LoliHouse] 葬送的芙莉莲");
    assert_eq!(rss_title("ANi", "Mikan Project - 药屋少女的呢喃 - 第二季"), "[ANi] 药屋少女的呢喃");
    assert_eq!(rss_title("ANi", "no separator"), "[ANi] no separator");
    assert_eq!(rss_title("g", "a - "), "[g] ");
    assert_eq!(rss_title("g", "a-b - c"), "[g] c");
}

#[test]
fn the_first_magnet_link_of_a_page_is_taken() {
    let links: Vec<String> =
        vec!["/Home/Bangumi/1".into(), "magnet:?xt=urn:btih:AAAA".into(), "magnet:?xt=urn:btih:BBBB".into()];
    assert_eq!(first_magnet_link(&links).as_deref(), Some("magnet:?xt=urn:btih:AAAA"));
    let none: Vec<String> = vec!["magnet".into(), "https://x/magnet:".into()];
    assert_eq!(first_magnet_link(&none), None);
}
