use bangumi_download::text::str_contains;
use bangumi_download::cloud_manager::Task;
use bangumi_download::config_manager::{Remove, SubGroup, default_filters};
use bangumi_download::errors::{CatError, CloudError, DownloadError, RequestError};
use bangumi_download::login_with_qrcode::{Cookies, cookie_string, half_block_text, qrcode_status_step, qrcode_text};
use bangumi_download::main_proc::{
    SlowQueueStep, StatusIter, after_download_error, plan_task, slow_queue_step, tolerate_request_error,
};
use bangumi_download::recovery_signal::{WaiterKind, Waiting};
use bangumi_download::text::decimal_string;
use bangumi_download::time_stamp::{TimeStamp, TimeStampCoder};
use bangumi_download::tui::animator::{AniCmd, after_command};
use bangumi_download::tui::loading_widget::{frame, next_frame_state};
use bangumi_download::tui::notification_widget::Notification;
use bangumi_download::tui::qrcode_widget::QrcodeWidget;
use bangumi_download::tui::ui::{CurrentScreen, InputState};

#[test]
fn status_iter_sticks_at_the_last_status() {
    let waits = [10u64, 60, 120];
    let mut it = StatusIter::new(&waits);
    assert_eq!(*it.next_status(), 10);
    assert_eq!(*it.next_status(), 60);
    assert_eq!(*it.next_status(), 120);
    assert_eq!(*it.next_status(), 120);
    it.reset();
    assert_eq!(*it.next_status(), 10);
}

#[test]
fn waiting_counts_the_waiters() {
    let w = Waiting::from_flags([true, false, true]);
    assert_eq!(w.waiting_count, 2);
    assert_eq!(w.states, [true, false, true]);
    let all = Waiting::default();
    assert_eq!(all.waiting_count, 3);
    assert_eq!(WaiterKind::Test1.index(), 1);
}

#[test]
fn numbers_are_written_in_decimal() {
    assert_eq!(decimal_string(0), "0");
    assert_eq!(decimal_string(1230), "1230");
    assert_eq!(decimal_string(-7), "-7");
    assert_eq!(decimal_string(i32::MIN), "-2147483648");
}

#[test]
fn qrcode_statuses() {
    assert!(!qrcode_status_step(0).unwrap());
    assert!(!qrcode_status_step(1).unwrap());
    assert!(qrcode_status_step(2).unwrap());
    match qrcode_status_step(-1) {
        Err(CloudError::Api(m)) => assert_eq!(m, "[status=-1] qrcode: expired"),
        other => panic!("unexpected: {:?}", other),
    }
    match qrcode_status_step(-2) {
        Err(CloudError::Api(m)) => assert_eq!(m, "[status=-2] qrcode: canceled"),
        other => panic!("unexpected: {:?}", other),
    }
    match qrcode_status_step(7) {
        Err(CloudError::Api(m)) => assert_eq!(m, "qrcode: aborted with 7"),
        other => panic!("unexpected: {:?}", other),
    }
}

#[test]
fn login_cookies_make_one_header() {
    let c = Cookies { UID: "u".to_string(), CID: "c".to_string(), SEID: "s".to_string(), KID: "k".to_string() };
    assert_eq!(cookie_string(&c), "UID=u; CID=c; SEID=s; KID=k");
}

#[test]
fn two_rows_make_one_line() {
    // 2 x 2: dark light / light dark
    let text = half_block_text(2, &[true, false, false, true]);
    assert_eq!(text, "▀▄\n");
    // 3 x 3: the last row has nothing below it
    let text = half_block_text(3, &[true, true, false, false, true, false, true, false, true]);
    assert_eq!(text, "▀█ \n▀ ▀\n");
}

#[test]
fn a_qrcode_is_drawn_line_by_line() {
    let text = qrcode_text(b"hello").unwrap();
    // a version 1 code is 21 modules wide: eleven lines of 21 characters
    let lines: Vec<&str> = text.lines().collect();
    assert_eq!(lines.len(), 11);
    assert!(lines.iter().all(|l| l.chars().count() == 21));
    let url: Result<Box<str>, &str> = Ok("hello".into());
    let drawing = QrcodeWidget::new(&url).drawing().unwrap().unwrap();
    // the border adds a module on each side
    let lines: Vec<&str> = drawing.lines().collect();
    assert_eq!(lines.len(), 12);
    assert!(lines.iter().all(|l| l.chars().count() == 23));
    let message: Result<Box<str>, &str> = Err("Loading...");
    assert!(QrcodeWidget::new(&message).drawing().is_none());
}

#[test]
fn coders_carry_milliseconds() {
    let t = TimeStamp { secs: 1704893400, nanos: 123_456_789, offset_secs: 0 };
    let c = TimeStampCoder::from_time(t).unwrap();
    assert_eq!(c.0, 1704893400123);
    let back = c.to_time();
    assert_eq!((back.secs, back.nanos, back.offset_secs), (1704893400, 123_000_000, 8 * 3600));
    let before_epoch = TimeStampCoder(-1500).to_time();
    assert_eq!((before_epoch.secs, before_epoch.nanos), (-2, 500_000_000));
    let far = TimeStamp { secs: i64::MAX, nanos: 0, offset_secs: 0 };
    assert!(TimeStampCoder::from_time(far).is_none());
}

#[test]
fn a_fresh_configuration_has_default_filters() {
    let filters = default_filters();
    let ids: Vec<&str> = filters.iter().map(|(id, _)| id.as_str()).collect();
    assert_eq!(ids, vec!["611", "583", "570", "default"]);
    assert_eq!(filters[1].1.filter_list, vec!["CHT".to_string()]);
    assert_eq!(filters[3].1.filter_list.len(), 9);
    assert_eq!(filters[3].1.filter_list[0], "简繁日内封");
    assert!(filters.iter().all(|(_, g)| g.name.is_empty()));
}

#[test]
fn subgroups_are_built_and_named() {
    let g = SubGroup::new(vec!["a".to_string()]).with_name("n".to_string());
    assert_eq!(g.name, "n");
    assert_eq!(g.filter_list, vec!["a".to_string()]);
}

#[test]
fn only_the_first_equal_element_is_removed() {
    let mut v = vec![1, 2, 3, 2];
    v.remove_an_element(&2);
    assert_eq!(v, vec![1, 3, 2]);
    v.remove_an_element(&9);
    assert_eq!(v, vec![1, 3, 2]);
}

#[test]
fn failed_requests_do_not_stop_the_work() {
    assert!(tolerate_request_error(Ok(())).is_ok());
    let request = CatError::Cloud(CloudError::Download(DownloadError::Request(RequestError::Status("502".to_string()))));
    assert!(tolerate_request_error(Err(request)).is_ok());
    assert!(matches!(tolerate_request_error(Err(CatError::Exit)), Err(CatError::Exit)));
}

#[test]
fn download_refresh_decisions() {
    let task = Task {
        hash: "h".to_string(),
        percent_done: 100,
        name: "n".to_string(),
        status: -1,
        folder_id: String::new(),
        file_id: String::new(),
    };
    let plan = plan_task(&task);
    assert!(plan.delete_failed && plan.download);
    assert_eq!(after_download_error(0, 2), (1, false));
    assert_eq!(after_download_error(2, 2), (3, true));
    assert_eq!(slow_queue_step(None), SlowQueueStep::Record);
    assert_eq!(slow_queue_step(Some(1800)), SlowQueueStep::Wait);
    assert_eq!(slow_queue_step(Some(1801)), SlowQueueStep::MoveToSlow);
}

#[test]
fn notifications_fade_after_their_time() {
    let n = Notification::new("t".to_string(), "c".to_string()).duration(2000);
    assert_eq!(n.duration_ms(), 2000);
    assert_eq!(n.fade_ms(), 1000);
    let mut n = n;
    let start = std::time::Instant::now();
    assert!(n.observe(start).is_none());
    assert!(!n.should_disappear());
    let later = start + std::time::Duration::from_millis(2500);
    assert_eq!(n.observe(later), Some(2500));
    assert!(n.should_disappear());
}

#[test]
fn loading_frames_cycle() {
    assert_eq!(frame(0), "⠋");
    assert_eq!(next_frame_state(9, true), (0, true));
    assert_eq!(next_frame_state(3, true), (4, true));
    assert_eq!(next_frame_state(3, false), (3, false));
    assert_eq!(after_command(0, AniCmd::Start), (1, true));
    assert_eq!(after_command(1, AniCmd::Stop), (0, false));
    assert_eq!(after_command(0, AniCmd::Stop), (0, false));
}

#[test]
fn input_states() {
    let mut s = InputState::text("abc".to_string());
    assert!(s.is_typing());
    let taken = s.take();
    assert!(matches!(taken, InputState::Text(ref e) if e.as_str() == "abc"));
    assert!(matches!(s, InputState::Text(ref e) if e.is_empty()));
    let mut n = InputState::NotInput;
    assert!(!n.take().is_typing());
    assert!(InputState::empty_text().is_typing());
    assert_eq!(CurrentScreen::Filter.tab_index(), 3);
}

#[test]
fn contains_finds_runs_of_characters() {
    assert!(str_contains("[ANi] 番剧 - 01 [CHT]", "CHT"));
    assert!(str_contains("abc", ""));
    assert!(str_contains("番剧下载器", "下载"));
    assert!(!str_contains("ab", "abc"));
    assert!(!str_contains("简日内封", "简繁"));
    assert!(str_contains("aab", "ab"));
}
