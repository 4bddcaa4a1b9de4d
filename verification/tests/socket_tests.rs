use bangumi_download::config_manager::SubGroup;
use bangumi_download::errors::SocketError;
use bangumi_download::id::Id;
use bangumi_download::socket_utils::{
    DownloadMsg, DownloadState, Filter, HandleAction, ServerMsg, SocketPath, SocketState, SyncStep, content_length,
    deadline_sends_state, frame_message, handle_request, length_prefix, receive_broadcast, sync_step,
};
use bangumi_download::tui::progress_bar::{BasicBar, ProgressBar, ProgressSuit};

fn download(id: u64, state: DownloadState) -> ServerMsg {
    ServerMsg::Download(DownloadMsg { id: Id(id), state })
}

#[test]
fn a_download_goes_from_start_to_finish() {
    let mut suit: ProgressSuit<ProgressBar> = ProgressSuit::new();
    let fwd = receive_broadcast(&mut suit, download(7, DownloadState::Start(Box::new(("a.mkv".to_string(), 10)))));
    assert!(matches!(fwd, Some(ServerMsg::Download(DownloadMsg { id: Id(7), state: DownloadState::Start(_) }))));
    assert_eq!(suit.len(), 1);
    let fwd = receive_broadcast(&mut suit, download(7, DownloadState::Downloading(4)));
    assert!(fwd.is_none());
    assert_eq!(suit.get_bar_mut(7).unwrap().current_size(), 4);
    // the bytes that fill the bar finish it
    let fwd = receive_broadcast(&mut suit, download(7, DownloadState::Downloading(100)));
    assert!(matches!(fwd, Some(ServerMsg::Download(DownloadMsg { id: Id(7), state: DownloadState::Finished }))));
    assert!(suit.is_empty());
    // an unknown download's end is not forwarded
    assert!(receive_broadcast(&mut suit, download(7, DownloadState::Finished)).is_none());
    assert!(receive_broadcast(&mut suit, download(8, DownloadState::Failed)).is_none());
}

#[test]
fn a_failed_download_drops_its_bar() {
    let mut suit: ProgressSuit<ProgressBar> = ProgressSuit::new();
    receive_broadcast(&mut suit, download(1, DownloadState::Start(Box::new(("a".to_string(), 10)))));
    receive_broadcast(&mut suit, download(2, DownloadState::Start(Box::new(("b".to_string(), 10)))));
    let fwd = receive_broadcast(&mut suit, download(1, DownloadState::Failed));
    assert!(matches!(fwd, Some(ServerMsg::Download(DownloadMsg { state: DownloadState::Failed, .. }))));
    assert_eq!(suit.len(), 1);
    assert!(suit.get_bar_mut(1).is_none());
    // other messages pass through
    assert!(matches!(receive_broadcast(&mut suit, ServerMsg::Loading), Some(ServerMsg::Loading)));
}

#[test]
fn state_is_sent_at_most_once_an_interval() {
    assert_eq!(sync_step(true, false, false, true), SyncStep { send_state: false, unhandled: false });
    assert_eq!(sync_step(true, true, false, true), SyncStep { send_state: true, unhandled: false });
    assert_eq!(sync_step(false, false, false, false), SyncStep { send_state: false, unhandled: true });
    assert_eq!(sync_step(false, false, true, true), SyncStep { send_state: false, unhandled: true });
    assert!(deadline_sends_state(false, true));
    assert!(!deadline_sends_state(true, true));
}

#[test]
fn length_prefix_is_big_endian() {
    assert_eq!(length_prefix(0x0102_0304), Some([1, 2, 3, 4]));
    assert_eq!(content_length([1, 2, 3, 4]), 0x0102_0304);
    assert_eq!(content_length(length_prefix(70000).unwrap()), 70000);
    if usize::BITS > 32 {
        assert_eq!(length_prefix((u32::MAX as usize) + 1), None);
    }
    let framed = frame_message(&[9, 8, 7]).unwrap();
    assert_eq!(framed, vec![0, 0, 0, 3, 9, 8, 7]);
}

#[test]
fn a_busy_address_is_handled_by_what_is_behind_it() {
    assert!(SocketPath::address_in_use(SocketState::Discarded).is_ok());
    match SocketPath::address_in_use(SocketState::Working) {
        Err(SocketError::Other(m)) => assert_eq!(m, "The socket is already working!"),
        other => panic!("unexpected: {:?}", other),
    }
    match SocketPath::address_in_use(SocketState::NotFound) {
        Err(SocketError::Other(m)) => assert_eq!(m, "Can not find the socket!??"),
        other => panic!("unexpected: {:?}", other),
    }
    let e = std::io::Error::new(std::io::ErrorKind::PermissionDenied, "no");
    assert!(matches!(SocketPath::address_in_use(SocketState::Other(e)), Err(SocketError::IO(_))));
}

#[test]
fn one_job_of_a_kind_runs_per_client() {
    assert_eq!(handle_request(None, Id(1)), HandleAction::Start { abort_previous: false });
    assert_eq!(handle_request(Some((Id(1), false)), Id(1)), HandleAction::Ignore);
    assert_eq!(handle_request(Some((Id(1), true)), Id(1)), HandleAction::Start { abort_previous: false });
    assert_eq!(handle_request(Some((Id(2), false)), Id(1)), HandleAction::Start { abort_previous: true });
}

#[test]
fn inserting_a_filter_keeps_the_group_name() {
    let filter = Filter { id: "583".to_string(), subgroup: SubGroup::new_const(&["CHT"]) };
    let existing = SubGroup::new_const(&["old"]).with_name("Group".to_string());
    let merged = filter.merged_into(Some(existing));
    assert_eq!(merged.name, "Group");
    assert_eq!(merged.filter_list, vec!["CHT".to_string()]);
    let filter = Filter { id: "1".to_string(), subgroup: SubGroup::new_const(&["X"]).with_name("N".to_string()) };
    let stored = filter.merged_into(None);
    assert_eq!(stored.name, "N");
}
