use bangumi_download::config_manager::SubGroup;
use bangumi_download::id::Id;
use bangumi_download::socket_utils::{Anime, ClientMsg, DownloadMsg, DownloadState, Filter};
use bangumi_download::time_stamp::TimeStamp;
use bangumi_download::tui::events::{
    Key, KeyKind, KeyMods, Popup, ScrollList, UiEffect, UiState, apply_download_msg, apply_download_sync,
    sort_by_update,
};
use bangumi_download::tui::progress_bar::{BasicBar, ProgressState, ProgressSuit, SimpleBar};
use bangumi_download::tui::ui::{CurrentScreen, InputState, visible_window};

fn anime(id: &str, secs: i64) -> Anime {
    Anime {
        id: id.to_string(),
        name: format!("name {id}"),
        last_update: TimeStamp { secs, nanos: 0, offset_secs: 0 },
        latest_episode: String::new(),
        rss_link: String::new(),
    }
}

fn filter(id: &str, rules: &[&str]) -> Filter {
    Filter { id: id.to_string(), subgroup: SubGroup::new_const(rules) }
}

fn state() -> UiState {
    UiState {
        current_screen: CurrentScreen::Main,
        current_popup: None,
        input_state: InputState::NotInput,
        rss_data: vec![anime("a", 1), anime("b", 2)],
        rss_selected: None,
        filters: vec![filter("583", &["CHT", "BIG5"]), filter("default", &["CHS"])],
        filter_id_selected: None,
        filter_rule_selected: None,
        is_logged_in: false,
        waiting_count: 0,
        downloading: ScrollList { offset: 0, len: 3 },
        finished: ScrollList { offset: 0, len: 0 },
    }
}

fn key(code: KeyKind) -> Key {
    Key { code, mods: KeyMods::Empty }
}

fn ch(c: char) -> Key {
    key(KeyKind::Char(c))
}

#[test]
fn refreshing_needs_a_login() {
    let mut ui = state();
    let (exit, effects) = ui.handle_key_events(ch('r'));
    assert!(!exit);
    assert_eq!(effects.len(), 1);
    match &effects[0] {
        UiEffect::Notify { title, content, duration_ms } => {
            assert_eq!(title, "Failed");
            assert_eq!(content, "Please login first!");
            assert_eq!(*duration_ms, 2000);
        }
        other => panic!("unexpected: {:?}", other),
    }
    ui.is_logged_in = true;
    let (_, effects) = ui.handle_key_events(ch('r'));
    assert!(matches!(effects[0], UiEffect::Send(ClientMsg::RefreshRSS)));
    assert!(matches!(effects[1], UiEffect::StartLoading));
}

#[test]
fn q_leaves_unless_a_popup_is_open() {
    let mut ui = state();
    ui.current_popup = Some(Popup::Login);
    let (exit, effects) = ui.handle_key_events(ch('q'));
    assert!(!exit && effects.is_empty());
    ui.current_popup = None;
    let (exit, effects) = ui.handle_key_events(ch('q'));
    assert!(exit);
    assert!(matches!(effects[0], UiEffect::Send(ClientMsg::Exit)));
    assert!(matches!(effects[1], UiEffect::Exit));
}

#[test]
fn digits_switch_screens_and_four_asks_for_filters() {
    let mut ui = state();
    ui.handle_key_events(ch('2'));
    assert_eq!(ui.current_screen, CurrentScreen::Downloading);
    let (_, effects) = ui.handle_key_events(ch('4'));
    assert_eq!(ui.current_screen, CurrentScreen::Filter);
    assert!(ui.filters.is_empty());
    assert!(matches!(effects[0], UiEffect::Send(ClientMsg::GetFilters)));
    let (_, effects) = ui.handle_key_events(ch('4'));
    assert!(effects.is_empty());
}

#[test]
fn typing_a_folder_id_and_enter_sends_it() {
    let mut ui = state();
    ui.is_logged_in = true;
    ui.handle_key_events(ch('d'));
    assert!(matches!(ui.current_popup, Some(Popup::DownloadFolder)));
    for c in "123".chars() {
        ui.handle_key_events(ch(c));
    }
    let (_, effects) = ui.handle_key_events(key(KeyKind::Enter));
    match &effects[0] {
        UiEffect::Send(ClientMsg::DownloadFolder(id)) => assert_eq!(&**id, "123"),
        other => panic!("unexpected: {:?}", other),
    }
    assert!(ui.current_popup.is_none());
    assert!(!ui.input_state.is_typing());
}

#[test]
fn enter_on_an_empty_popup_keeps_it_open() {
    let mut ui = state();
    ui.handle_key_events(ch('a'));
    let (_, effects) = ui.handle_key_events(key(KeyKind::Enter));
    assert!(effects.is_empty());
    assert!(matches!(ui.current_popup, Some(Popup::AddRSSLink)));
    assert!(ui.input_state.is_typing());
}

#[test]
fn deleting_a_bangumi_asks_first() {
    let mut ui = state();
    ui.handle_key_events(key(KeyKind::Down));
    assert_eq!(ui.rss_selected, Some(0));
    ui.handle_key_events(ch('D'));
    match &ui.current_popup {
        Some(Popup::Confirm(c)) => {
            assert_eq!(c.question, "Do you want to delete this bangumi?");
            assert_eq!(c.content, "name a");
        }
        _ => panic!("no confirmation"),
    }
    let (_, effects) = ui.handle_key_events(ch('y'));
    assert!(ui.current_popup.is_none());
    assert_eq!(ui.rss_data.len(), 1);
    assert_eq!(ui.rss_data[0].id, "b");
    match &effects[0] {
        UiEffect::Send(ClientMsg::DeleteAnime(id)) => assert_eq!(&**id, "a"),
        other => panic!("unexpected: {:?}", other),
    }
}

#[test]
fn arrows_move_the_selection_within_bounds() {
    let mut ui = state();
    ui.handle_key_events(key(KeyKind::Up));
    assert_eq!(ui.rss_selected, Some(1));
    ui.handle_key_events(key(KeyKind::Down));
    assert_eq!(ui.rss_selected, Some(1));
    ui.handle_key_events(key(KeyKind::Up));
    ui.handle_key_events(key(KeyKind::Up));
    assert_eq!(ui.rss_selected, Some(0));
    ui.current_screen = CurrentScreen::Downloading;
    ui.handle_key_events(key(KeyKind::Down));
    ui.handle_key_events(key(KeyKind::Down));
    ui.handle_key_events(key(KeyKind::Down));
    assert_eq!(ui.downloading.offset, 2);
}

#[test]
fn filter_rules_move_with_alt() {
    let mut ui = state();
    ui.current_screen = CurrentScreen::Filter;
    ui.handle_key_events(key(KeyKind::Down));
    assert_eq!(ui.filter_id_selected, Some(0));
    ui.handle_key_events(key(KeyKind::Right));
    assert_eq!(ui.filter_rule_selected, Some(0));
    let (_, effects) = ui.handle_key_events(Key { code: KeyKind::Down, mods: KeyMods::Alt });
    assert_eq!(ui.filter_rule_selected, Some(1));
    assert_eq!(ui.filters[0].subgroup.filter_list, vec!["BIG5".to_string(), "CHT".to_string()]);
    match &effects[0] {
        UiEffect::Send(ClientMsg::InsertFilter(f)) => {
            assert_eq!(f.id, "583");
            assert_eq!(f.subgroup.filter_list, vec!["BIG5".to_string(), "CHT".to_string()]);
        }
        other => panic!("unexpected: {:?}", other),
    }
}

#[test]
fn a_new_rule_is_typed_and_stored() {
    let mut ui = state();
    ui.current_screen = CurrentScreen::Filter;
    ui.filter_id_selected = Some(1);
    ui.filter_rule_selected = Some(0);
    ui.handle_key_events(ch('a'));
    assert_eq!(ui.filter_rule_selected, Some(1));
    assert_eq!(ui.filters[1].subgroup.filter_list, vec!["CHS".to_string(), String::new()]);
    // a rule that exists is refused
    for c in "CHS".chars() {
        ui.handle_key_events(ch(c));
    }
    let (_, effects) = ui.handle_key_events(key(KeyKind::Enter));
    assert!(matches!(&effects[0], UiEffect::Notify { content, .. } if content == "This rule already exists!"));
    // Esc drops the empty rule
    ui.handle_key_events(key(KeyKind::Esc));
    assert_eq!(ui.filters[1].subgroup.filter_list, vec!["CHS".to_string()]);
}

#[test]
fn a_changed_group_id_replaces_the_old_one() {
    let mut ui = state();
    ui.current_screen = CurrentScreen::Filter;
    ui.filter_id_selected = Some(0);
    ui.handle_key_events(ch('e'));
    // the typed id is put before the old text
    ui.handle_key_events(ch('1'));
    let (_, effects) = ui.handle_key_events(key(KeyKind::Enter));
    // "1583" is a new id: it is stored, the old group is deleted and the new one sent
    assert_eq!(ui.filters[0].id, "1583");
    assert_eq!(effects.len(), 2);
    assert!(matches!(&effects[0], UiEffect::Send(ClientMsg::DelFilter(old)) if old == "583"));
    assert!(matches!(&effects[1], UiEffect::Send(ClientMsg::InsertFilter(f)) if f.id == "1583"));
    assert!(!ui.input_state.is_typing());
}

#[test]
fn an_id_that_is_taken_is_refused() {
    let mut ui = state();
    ui.current_screen = CurrentScreen::Filter;
    ui.filter_id_selected = Some(0);
    ui.handle_key_events(ch('e'));
    ui.handle_key_events(Key { code: KeyKind::Char('a'), mods: KeyMods::Control });
    for c in "default".chars() {
        ui.handle_key_events(ch(c));
    }
    let (_, effects) = ui.handle_key_events(key(KeyKind::Enter));
    assert_eq!(ui.filters[0].id, "583");
    assert_eq!(effects.len(), 1);
    assert!(matches!(&effects[0], UiEffect::Notify { content, .. } if content == "This filter already exists!"));
    assert!(ui.input_state.is_typing());
    // the unchanged id is refused without a message
    let mut ui = state();
    ui.current_screen = CurrentScreen::Filter;
    ui.filter_id_selected = Some(1);
    ui.handle_key_events(ch('e'));
    let (_, effects) = ui.handle_key_events(key(KeyKind::Enter));
    assert!(effects.is_empty());
    assert_eq!(ui.filters[1].id, "default");
    assert!(ui.input_state.is_typing());
}

#[test]
fn bangumi_are_sorted_latest_first() {
    let sorted = sort_by_update(vec![anime("a", 1), anime("b", 3), anime("c", 2), anime("d", 3)]);
    let ids: Vec<&str> = sorted.iter().map(|a| a.id.as_str()).collect();
    assert_eq!(ids, vec!["b", "d", "c", "a"]);
}

#[test]
fn new_rss_data_keeps_the_selected_bangumi() {
    let mut ui = state();
    ui.rss_selected = Some(0);
    ui.receive_animes(vec![anime("c", 5), anime("a", 9)]);
    assert_eq!(ui.rss_data[0].id, "a");
    assert_eq!(ui.rss_selected, Some(0));
    ui.rss_selected = Some(1);
    ui.receive_animes(vec![anime("x", 1)]);
    assert_eq!(ui.rss_selected, None);
}

#[test]
fn clients_follow_download_reports() {
    let mut suit: ProgressSuit<SimpleBar> = ProgressSuit::new();
    let start = DownloadMsg { id: Id(3), state: DownloadState::Start(Box::new(("f".to_string(), 100))) };
    assert!(!apply_download_msg(&mut suit, start));
    assert!(!apply_download_msg(&mut suit, DownloadMsg { id: Id(3), state: DownloadState::Finished }));
    assert!(suit.get_bar_mut(3).unwrap().is_finished());
    // a finished download without a bar asks for the state
    assert!(apply_download_msg(&mut suit, DownloadMsg { id: Id(4), state: DownloadState::Finished }));
    let states = [
        ProgressState { id: 3, current_size: 10, current_speed: 5 },
        ProgressState { id: 9, current_size: 1, current_speed: 1 },
    ];
    assert!(apply_download_sync(&mut suit, &states));
    let bar = suit.get_bar_mut(3).unwrap();
    assert_eq!(bar.current_size(), 10);
    assert_eq!(bar.current_speed().0, 5);
    assert!(!apply_download_msg(&mut suit, DownloadMsg { id: Id(3), state: DownloadState::Failed }));
    assert!(suit.is_empty());
}

#[test]
fn keys_are_ready_only_where_their_entries_are() {
    let mut ui = state();
    assert!(ui.key_is_ready(ch('D')));
    ui.rss_selected = Some(5);
    assert!(!ui.key_is_ready(ch('D')));
    assert!(ui.key_is_ready(ch('r')));
    ui.rss_selected = Some(1);
    assert!(ui.key_is_ready(ch('D')));
    ui.current_screen = CurrentScreen::Filter;
    ui.filter_id_selected = Some(0);
    ui.filter_rule_selected = Some(2);
    let alt_up = Key { code: KeyKind::Up, mods: KeyMods::Alt };
    assert!(!ui.key_is_ready(alt_up));
    assert!(ui.key_is_ready(ch('i')));
    assert!(!ui.key_is_ready(ch('e')));
    ui.filter_rule_selected = Some(1);
    assert!(ui.key_is_ready(alt_up));
    assert!(ui.key_is_ready(ch('e')));
    ui.filter_id_selected = Some(7);
    assert!(!ui.key_is_ready(key(KeyKind::Down)));
}

#[test]
fn the_download_window_stays_filled() {
    assert_eq!(visible_window(0, 10, 4), (0, 4));
    assert_eq!(visible_window(8, 10, 4), (6, 10));
    assert_eq!(visible_window(3, 10, 4), (3, 7));
    assert_eq!(visible_window(5, 2, 4), (0, 2));
    assert_eq!(visible_window(0, 0, 0), (0, 0));
}
