use crate::config_manager::SubGroup;
use crate::errors::SocketError;
use crate::id::Id;
use crate::recovery_signal::Waiting;
use crate::time_stamp::TimeStamp;
use crate::tui::progress_bar::{BasicBar, Inc, ProgressBar, ProgressState, ProgressSuit, ProgressSuitView, SimpleBar, inc_bar, list_without};
use vstd::prelude::*;

verus! {

#[verifier::external_type_specification]
#[verifier::external_body]
pub struct ExPathBuf(std::path::PathBuf);

/// What a connection attempt to a socket path found.
#[derive(Debug)]
pub enum SocketState {
    Working,
    Discarded,
    NotFound,
    Other(std::io::Error),
}

/// Where the server's unix socket lives.
pub struct SocketPath {
    pub path: std::path::PathBuf,
}

impl SocketPath {
    /// What binding the socket does once its path is found in use, given what
    /// a connection attempt to it found: `Ok` when the stale socket file is to
    /// be removed and the path bound again, else the error to report.
    pub fn address_in_use(state: SocketState) -> (r: Result<(), SocketError>)
        ensures
            state is Discarded <==> r is Ok,
            state matches SocketState::Other(e) ==> r == Err::<(), SocketError>(SocketError::IO(e)),
            state is Working ==> (r matches Err(SocketError::Other(m)) && m@ == "The socket is already working!"@),
            state is NotFound ==> (r matches Err(SocketError::Other(m)) && m@ == "Can not find the socket!??"@),
    {
        match state {
            SocketState::Discarded => Ok(()),
            SocketState::Other(e) => Err(SocketError::IO(e)),
            SocketState::Working => Err(SocketError::Other("The socket is already working!".to_owned())),
            SocketState::NotFound => Err(SocketError::Other("Can not find the socket!??".to_owned())),
        }
    }
}

/// The long-running jobs a client can start, one of each kind at a time.
#[derive(Debug, Clone, Copy, PartialEq, Eq, Hash, Structural)]
pub enum HandleType {
    Login,
    RefreshRSS,
}

/// What to do with a client's request to start a job, given the job of that
/// kind already known, if any: its requesting client and whether it finished.
#[derive(Debug, Clone, Copy, PartialEq, Eq, Structural)]
pub enum HandleAction {
    /// The same client's job still runs: the request is ignored.
    Ignore,
    /// A new job starts; the one it replaces is aborted if it still runs.
    Start { abort_previous: bool },
}

/// Decides a request of client `msg_id` to start a job, where `running` is
/// the job of that kind already known: its client and whether it finished.
pub fn handle_request(running: Option<(Id, bool)>, msg_id: Id) -> (r: HandleAction)
    ensures
        r == (match running {
            Some((id, finished)) => if id == msg_id && !finished {
                HandleAction::Ignore
            } else {
                HandleAction::Start { abort_previous: !finished }
            },
            None => HandleAction::Start { abort_previous: false },
        }),
{
    match running {
        Some((id, finished)) => {
            if id.0 == msg_id.0 && !finished {
                HandleAction::Ignore
            } else {
                HandleAction::Start { abort_previous: !finished }
            }
        },
        None => HandleAction::Start { abort_previous: false },
    }
}

/// A subtitle group id with its filter rules.
#[derive(Debug, Clone, Default)]
pub struct Filter {
    pub id: String,
    pub subgroup: SubGroup,
}

impl Filter {
    /// The rules stored for this filter's group once it is inserted where
    /// `existing` was stored: an existing group keeps its name and takes the
    /// new keywords; a new group is stored whole.
    pub fn merged_into(self, existing: Option<SubGroup>) -> (r: SubGroup)
        ensures
            existing matches Some(old) ==> r.name == old.name && r.filter_list == self.subgroup.filter_list,
            existing is None ==> r == self.subgroup,
    {
        match existing {
            Some(old) => SubGroup { name: old.name, filter_list: self.subgroup.filter_list },
            None => self.subgroup,
        }
    }
}

/// What became of a download, as the server reports it.
#[derive(Debug, Clone)]
pub enum DownloadState {
    /// A download starts: the file name and its size.
    Start(Box<(String, u64)>),
    /// So many more bytes arrived.
    Downloading(u64),
    Finished,
    Failed,
}

/// A report on the download with the given task id.
#[derive(Debug, Clone)]
pub struct DownloadMsg {
    pub id: Id,
    pub state: DownloadState,
}

/// A bangumi followed through its RSS link, and its latest episode.
#[derive(Debug, Clone)]
pub struct Anime {
    pub id: String,
    pub name: String,
    pub last_update: TimeStamp,
    pub latest_episode: String,
    pub rss_link: String,
}

/// What a newly connected client is told: the downloads and the bangumi.
#[derive(Debug, Clone)]
pub struct SyncInfo {
    pub progresses: ProgressSuit<SimpleBar>,
    pub animes: Vec<Anime>,
}

/// Messages from the server to its clients.
#[derive(Debug)]
pub enum ServerMsg {
    Download(DownloadMsg),
    LoginUrl(Box<str>),
    LoginState(Box<str>),
    IsLogin(bool),
    QrcodeExpired,
    /// A request succeeded, with a message for the user.
    Success(Box<str>),
    Info(Box<str>),
    RSSData(Box<[Anime]>),
    WaitingState(Waiting),
    Loading,
    SubFilter(Box<[Filter]>),
    /// The error's description and the error.
    Error(Box<(String, String)>),
    DownloadSync(Box<[ProgressState]>),
    SyncResp(Box<SyncInfo>),
    Exit,
}

/// Messages from a client to the server.
#[derive(Debug)]
pub enum ClientMsg {
    /// Download the folder with this id.
    DownloadFolder(Box<str>),
    LoginReq,
    GetFilters,
    GetWaitingState,
    Recover,
    InsertFilter(Filter),
    /// Delete the filter of this subtitle group id.
    DelFilter(String),
    /// Stop following the bangumi with this id.
    DeleteAnime(Box<str>),
    /// Follow this RSS link.
    AddRSS(Box<str>),
    RefreshRSS,
    SyncQuery,
    Exit,
}

/// A bar just made for a download of `size` bytes named `name`.
pub open spec fn fresh_bar(b: ProgressBar, name: Seq<char>, size: u64) -> bool {
    &&& b.spec_name() == name
    &&& b.bar_size() == size
    &&& b.bar_current() == 0
    &&& b.spec_last_size() == 0
    &&& b.spec_last_speed() == 0
}

/// The bars after the bar of `id` is dropped.
pub open spec fn dropped(before: ProgressSuitView<ProgressBar>, after: ProgressSuitView<ProgressBar>, id: u128) -> bool {
    &&& after.list == list_without(before.list, id)
    &&& after.bars =~= before.bars.remove(id)
}

/// Updates the server's download bars with a message on its way to the
/// clients and gives back what is to be forwarded: a download that starts
/// gets a bar; bytes that arrive move a known bar, and the one that reaches its
/// size is dropped and forwarded as finished; a finished or failed download
/// drops its bar and is forwarded only when the bar was known. Every other
/// message is forwarded as it is.
pub fn receive_broadcast(state: &mut ProgressSuit<ProgressBar>, msg: ServerMsg) -> (r: Option<ServerMsg>)
    requires
        old(state).wf(),
    ensures
        final(state).wf(),
        match msg {
            ServerMsg::Download(dm) => {
                let id = dm.id.0 as u128;
                let before = old(state)@;
                let after = final(state)@;
                match dm.state {
                    DownloadState::Start(info) => {
                        &&& after.list == before.list.push(id)
                        &&& after.bars == before.bars.insert(id, after.bars[id])
                        &&& fresh_bar(after.bars[id], info.0@, info.1)
                        &&& r == Some(msg)
                    },
                    DownloadState::Downloading(delta) => if before.bars.contains_key(id) {
                        let bar = inc_bar(before.bars[id], delta);
                        if bar.bar_current() == bar.bar_size() {
                            &&& dropped(before, after, id)
                            &&& r == Some(ServerMsg::Download(DownloadMsg { id: dm.id, state: DownloadState::Finished }))
                        } else {
                            &&& after.list == before.list
                            &&& after.bars == before.bars.insert(id, bar)
                            &&& r is None
                        }
                    } else {
                        &&& after == before
                        &&& r is None
                    },
                    DownloadState::Finished | DownloadState::Failed => {
                        &&& dropped(before, after, id)
                        &&& r == if before.bars.contains_key(id) { Some(msg) } else { None::<ServerMsg> }
                    },
                }
            },
            _ => final(state)@ == old(state)@ && r == Some(msg),
        },
{
    match msg {
        ServerMsg::Download(ref download_msg) => {
            let id: u128 = download_msg.id.0 as u128;
            match download_msg.state {
                DownloadState::Start(ref info) => {
                    let name: String = info.0.clone();
                    let bar = ProgressBar::new(name, info.1);
                    state.add(id, bar);
                    Some(msg)
                },
                DownloadState::Downloading(delta) => {
                    let finished: bool;
                    match state.get_bar_mut(id) {
                        Some(bar) => {
                            bar.inc(delta);
                            finished = bar.is_finished();
                        },
                        None => {
                            return None;
                        },
                    }
                    if finished {
                        state.remove(id);
                        Some(ServerMsg::Download(DownloadMsg { id: download_msg.id, state: DownloadState::Finished }))
                    } else {
                        None
                    }
                },
                DownloadState::Finished => {
                    if state.remove(id).is_some() {
                        Some(msg)
                    } else {
                        None
                    }
                },
                DownloadState::Failed => {
                    if state.remove(id).is_some() {
                        Some(msg)
                    } else {
                        None
                    }
                },
            }
        },
        _ => Some(msg),
    }
}

/// What the server does after a message from its own tasks: whether it sends
/// the download state to the clients now, and whether a state change is left
/// unsent afterwards.
#[derive(Debug, Clone, Copy, PartialEq, Eq, Structural)]
pub struct SyncStep {
    pub send_state: bool,
    pub unhandled: bool,
}

/// Decides the step after a message: `forwarded` tells whether the message was
/// forwarded as it is, `unhandled` whether a state change was left unsent,
/// `state_empty` whether no download is under way, `interval_passed` whether
/// the interval since the last sending of the state has passed. A forwarded
/// message with nothing left unsent needs no state; otherwise the state is sent
/// when there is one and the interval has passed, else it is left unsent.
pub fn sync_step(forwarded: bool, unhandled: bool, state_empty: bool, interval_passed: bool) -> (r: SyncStep)
    ensures
        forwarded && !unhandled ==> r == (SyncStep { send_state: false, unhandled: false }),
        !(forwarded && !unhandled) ==> r == (SyncStep {
            send_state: !state_empty && interval_passed,
            unhandled: !(!state_empty && interval_passed),
        }),
{
    if forwarded && !unhandled {
        return SyncStep { send_state: false, unhandled };
    }
    if !state_empty && interval_passed {
        SyncStep { send_state: true, unhandled: false }
    } else {
        SyncStep { send_state: false, unhandled: true }
    }
}

/// Whether the deadline that ends a quiet time sends the download state: only
/// when there is one and a change of it was left unsent.
pub fn deadline_sends_state(state_empty: bool, unhandled: bool) -> (r: bool)
    ensures
        r == (!state_empty && unhandled),
{
    !state_empty && unhandled
}

/// The four big-endian bytes of `v`.
pub open spec fn u32_be(v: u32) -> Seq<u8> {
    seq![
        (v / 0x100_0000) as u8,
        ((v / 0x1_0000) % 0x100) as u8,
        ((v / 0x100) % 0x100) as u8,
        (v % 0x100) as u8,
    ]
}

/// The number four big-endian bytes stand for.
pub open spec fn be_u32(b: Seq<u8>) -> int {
    b[0] * 0x100_0000 + b[1] * 0x1_0000 + b[2] * 0x100 + b[3]
}

/// The length prefix written before a message of `len` bytes: its length as
/// four big-endian bytes, or `None` when the length does not fit in a `u32`.
pub fn length_prefix(len: usize) -> (r: Option<[u8; 4]>)
    ensures
        r is None <==> len > u32::MAX,
        r matches Some(b) ==> b@ == u32_be(len as u32),
{
    if len > 0xffff_ffffusize {
        return None;
    }
    let v: u32 = len as u32;
    let b: [u8; 4] = [
        (v / 0x100_0000) as u8,
        ((v / 0x1_0000) % 0x100) as u8,
        ((v / 0x100) % 0x100) as u8,
        (v % 0x100) as u8,
    ];
    proof { assert(b@ =~= u32_be(v)); }
    Some(b)
}

/// The length of the message that follows a length prefix.
pub fn content_length(prefix: [u8; 4]) -> (r: u32)
    ensures
        r == be_u32(prefix@),
{
    let v: u32 = prefix[0] as u32 * 0x100_0000 + prefix[1] as u32 * 0x1_0000 + prefix[2] as u32 * 0x100 + prefix[3] as u32;
    v
}

/// A message as it is written to a socket: the length prefix, then the
/// content; `None` when the content is too long for the prefix.
pub fn frame_message(content: &[u8]) -> (r: Option<Vec<u8>>)
    ensures
        r is None <==> content@.len() > u32::MAX,
        r matches Some(f) ==> f@ == u32_be(content@.len() as u32) + content@,
{
    match length_prefix(content.len()) {
        None => None,
        Some(prefix) => {
            let mut f: Vec<u8> = Vec::new();
            f.push(prefix[0]);
            f.push(prefix[1]);
            f.push(prefix[2]);
            f.push(prefix[3]);
            let ghost head = f@;
            proof { assert(head =~= prefix@); }
            let mut i: usize = 0;
            while i < content.len()
                invariant
                    i <= content@.len(),
                    f@ == head + content@.take(i as int),
                decreases content@.len() - i,
            {
                f.push(content[i]);
                proof { assert(content@.take(i + 1) =~= content@.take(i as int).push(content@[i as int])); }
                i = i + 1;
            }
            proof { assert(content@.take(content@.len() as int) =~= content@); }
            Some(f)
        },
    }
}

/// The length read back from a prefix is the length that was written.
pub proof fn law_length_prefix_roundtrip(v: u32)
    ensures
        be_u32(u32_be(v)) == v,
{
    let b = u32_be(v);
    assert(b[0] == v / 0x100_0000);
    assert(b[1] == (v / 0x1_0000) % 0x100);
    assert(b[2] == (v / 0x100) % 0x100);
    assert(b[3] == v % 0x100);
    assert(v / 0x100_0000 * 0x100_0000 + (v / 0x1_0000) % 0x100 * 0x1_0000 + (v / 0x100) % 0x100 * 0x100 + v % 0x100 == v)
        by (nonlinear_arith);
}

/// The prefix of a framed message tells the length of the content after it.
pub proof fn law_frame_tells_length(content: Seq<u8>, frame: Seq<u8>)
    requires
        content.len() <= u32::MAX,
        frame == u32_be(content.len() as u32) + content,
    ensures
        be_u32(frame.take(4)) == content.len(),
        frame.skip(4) == content,
{
    law_length_prefix_roundtrip(content.len() as u32);
    assert(frame.take(4) =~= u32_be(content.len() as u32));
    assert(frame.skip(4) =~= content);
}

/// Writing a message to a blocking stream, behind its length prefix.
pub trait WriteSocketMsg<T> {
    fn write_msg(&mut self, msg: T) -> Result<(), std::io::Error>;
}

} // verus!
