use crate::config_manager::{SubGroup, string_views};
use crate::socket_utils::{Anime, ClientMsg, DownloadMsg, DownloadState, Filter};
use crate::time_stamp::{TimeStamp, not_after};
use crate::tui::progress_bar::{BasicBar, ProgressState, ProgressSuit, ProgressSuitView, SimpleBar, list_without};
use crate::tui::editor::{
    Cursor, Editor, EditorView, backspace_spec, insert_ready, insert_spec, left_arrow_shift_spec,
    left_arrow_spec, right_arrow_shift_spec, right_arrow_spec, select_all_spec,
};
use crate::tui::ui::{CurrentScreen, InputState};
use vstd::prelude::*;

verus! {

/// The key pressed, as the interface tells keys apart.
#[derive(Debug, Clone, Copy, PartialEq, Eq, Structural)]
pub enum KeyKind {
    Char(char),
    Esc,
    Backspace,
    Enter,
    Up,
    Down,
    Left,
    Right,
    Other,
}

/// The modifiers held with a key: none, exactly one of Control, Shift and
/// Alt, or another combination.
#[derive(Debug, Clone, Copy, PartialEq, Eq, Structural)]
pub enum KeyMods {
    Empty,
    Control,
    Shift,
    Alt,
    Other,
}

/// A key event.
#[derive(Debug, Clone, Copy, PartialEq, Eq, Structural)]
pub struct Key {
    pub code: KeyKind,
    pub mods: KeyMods,
}

/// What a confirmed question does.
#[derive(Debug)]
pub enum ConfirmAction {
    /// Stop following the bangumi with this id.
    DeleteAnime(String),
    /// Delete a keyword of the filter of a subtitle group.
    DeleteRule { filter_id: String, rule: String },
    /// Delete the filter of a subtitle group.
    DeleteFilter(String),
}

/// A question to confirm before an action.
#[derive(Debug)]
pub struct ActionConfirm {
    pub question: String,
    pub content: String,
    pub action: ConfirmAction,
}

/// The popup over the screen.
#[derive(Debug)]
pub enum Popup {
    DownloadFolder,
    Login,
    AddRSSLink,
    Confirm(ActionConfirm),
}

/// A scrolled list: the first line shown and the number of lines.
#[derive(Debug, Clone, Copy, PartialEq, Eq, Structural)]
pub struct ScrollList {
    pub offset: usize,
    pub len: usize,
}

/// What the terminal interface shows and edits.
#[derive(Debug)]
pub struct UiState {
    pub current_screen: CurrentScreen,
    pub current_popup: Option<Popup>,
    pub input_state: InputState,
    pub rss_data: Vec<Anime>,
    pub rss_selected: Option<usize>,
    pub filters: Vec<Filter>,
    pub filter_id_selected: Option<usize>,
    pub filter_rule_selected: Option<usize>,
    pub is_logged_in: bool,
    pub waiting_count: usize,
    pub downloading: ScrollList,
    pub finished: ScrollList,
}

/// What the interface does besides changing its state.
#[derive(Debug)]
pub enum UiEffect {
    /// Sends a message to the server.
    Send(ClientMsg),
    /// Shows a notification for so many milliseconds.
    Notify { title: String, content: String, duration_ms: u64 },
    /// Starts the loading animation.
    StartLoading,
    /// Leaves the program.
    Exit,
    LogNextPage,
    LogPrevPage,
}

/// A filter as plain text: the group id, its name, its keywords.
pub struct FilterView {
    pub id: Seq<char>,
    pub name: Seq<char>,
    pub rules: Seq<Seq<char>>,
}

pub enum ConfirmView {
    DeleteAnime(Seq<char>),
    DeleteRule(Seq<char>, Seq<char>),
    DeleteFilter(Seq<char>),
}

pub enum PopupView {
    DownloadFolder,
    Login,
    AddRSSLink,
    Confirm(Seq<char>, Seq<char>, ConfirmView),
}

/// The interface's state as plain values.
pub struct UiView {
    pub screen: CurrentScreen,
    pub popup: Option<PopupView>,
    pub input: Option<EditorView>,
    pub rss: Seq<Anime>,
    pub rss_sel: Option<usize>,
    pub filters: Seq<FilterView>,
    pub id_sel: Option<usize>,
    pub rule_sel: Option<usize>,
    pub logged_in: bool,
    pub waiting: usize,
    pub downloading: ScrollList,
    pub finished: ScrollList,
}

/// An effect as plain values.
pub enum EffectView {
    GetFilters,
    RefreshRSS,
    LoginReq,
    ExitMsg,
    Recover,
    DownloadFolder(Seq<char>),
    AddRSS(Seq<char>),
    InsertFilter(FilterView),
    DelFilter(Seq<char>),
    DeleteAnime(Seq<char>),
    OtherMsg,
    Notify(Seq<char>, Seq<char>, u64),
    StartLoading,
    Exit,
    LogNextPage,
    LogPrevPage,
}

pub open spec fn filter_view(f: Filter) -> FilterView {
    FilterView { id: f.id@, name: f.subgroup.name@, rules: string_views(f.subgroup.filter_list@) }
}

pub open spec fn confirm_view(a: ConfirmAction) -> ConfirmView {
    match a {
        ConfirmAction::DeleteAnime(id) => ConfirmView::DeleteAnime(id@),
        ConfirmAction::DeleteRule { filter_id, rule } => ConfirmView::DeleteRule(filter_id@, rule@),
        ConfirmAction::DeleteFilter(id) => ConfirmView::DeleteFilter(id@),
    }
}

pub open spec fn popup_view(p: Popup) -> PopupView {
    match p {
        Popup::DownloadFolder => PopupView::DownloadFolder,
        Popup::Login => PopupView::Login,
        Popup::AddRSSLink => PopupView::AddRSSLink,
        Popup::Confirm(c) => PopupView::Confirm(c.question@, c.content@, confirm_view(c.action)),
    }
}

pub open spec fn input_view(i: InputState) -> Option<EditorView> {
    match i {
        InputState::NotInput => None,
        InputState::Text(e) => Some(e@),
    }
}

pub open spec fn effect_view(e: UiEffect) -> EffectView {
    match e {
        UiEffect::Send(m) => match m {
            ClientMsg::GetFilters => EffectView::GetFilters,
            ClientMsg::RefreshRSS => EffectView::RefreshRSS,
            ClientMsg::LoginReq => EffectView::LoginReq,
            ClientMsg::Exit => EffectView::ExitMsg,
            ClientMsg::Recover => EffectView::Recover,
            ClientMsg::DownloadFolder(s) => EffectView::DownloadFolder(s@),
            ClientMsg::AddRSS(s) => EffectView::AddRSS(s@),
            ClientMsg::InsertFilter(f) => EffectView::InsertFilter(filter_view(f)),
            ClientMsg::DelFilter(s) => EffectView::DelFilter(s@),
            ClientMsg::DeleteAnime(s) => EffectView::DeleteAnime(s@),
            _ => EffectView::OtherMsg,
        },
        UiEffect::Notify { title, content, duration_ms } => EffectView::Notify(title@, content@, duration_ms),
        UiEffect::StartLoading => EffectView::StartLoading,
        UiEffect::Exit => EffectView::Exit,
        UiEffect::LogNextPage => EffectView::LogNextPage,
        UiEffect::LogPrevPage => EffectView::LogPrevPage,
    }
}

pub open spec fn effects_view(es: Seq<UiEffect>) -> Seq<EffectView> {
    es.map_values(|e: UiEffect| effect_view(e))
}

impl View for UiState {
    type V = UiView;

    open spec fn view(&self) -> UiView {
        UiView {
            screen: self.current_screen,
            popup: match self.current_popup {
                None => None,
                Some(p) => Some(popup_view(p)),
            },
            input: input_view(self.input_state),
            rss: self.rss_data@,
            rss_sel: self.rss_selected,
            filters: self.filters@.map_values(|f: Filter| filter_view(f)),
            id_sel: self.filter_id_selected,
            rule_sel: self.filter_rule_selected,
            logged_in: self.is_logged_in,
            waiting: self.waiting_count,
            downloading: self.downloading,
            finished: self.finished,
        }
    }
}

/// An empty editor, the cursor at its start.
pub open spec fn empty_editor() -> EditorView {
    EditorView { text: Seq::empty(), cursor: Cursor::Normal { index: 0 }, insert_at: None }
}

/// An editor holding `t`, the cursor at its start.
pub open spec fn editor_with(t: Seq<char>) -> EditorView {
    EditorView { text: t, cursor: Cursor::Normal { index: 0 }, insert_at: None }
}

/// The notification of a failure, shown for the usual five seconds.
pub open spec fn failure(content: Seq<char>) -> EffectView {
    EffectView::Notify("Failed"@, content, 5000)
}

/// The notification that asks to log in first, shown for two seconds.
pub open spec fn login_first() -> EffectView {
    EffectView::Notify("Failed"@, "Please login first!"@, 2000)
}

/// The first position of `x` in `s`, or -1.
pub open spec fn first_pos(s: Seq<Seq<char>>, x: Seq<char>) -> int
    decreases s.len(),
{
    if s.len() == 0 {
        -1
    } else if s[0] == x {
        0
    } else {
        let p = first_pos(s.drop_first(), x);
        if p < 0 { -1 } else { p + 1 }
    }
}

pub open spec fn anime_ids(rss: Seq<Anime>) -> Seq<Seq<char>> {
    rss.map_values(|a: Anime| a.id@)
}

pub open spec fn filter_ids(fs: Seq<FilterView>) -> Seq<Seq<char>> {
    fs.map_values(|f: FilterView| f.id)
}

/// The filter at `j` with its keywords replaced.
pub open spec fn with_rules(fs: Seq<FilterView>, j: int, rules: Seq<Seq<char>>) -> Seq<FilterView> {
    fs.update(j, FilterView { rules, ..fs[j] })
}

/// `s` with the entries at `i` and `k` exchanged.
pub open spec fn swapped(s: Seq<Seq<char>>, i: int, k: int) -> Seq<Seq<char>> {
    s.update(i, s[k]).update(k, s[i])
}

/// What a confirmed action does to the state, and what it sends.
pub open spec fn confirm_step(v: UiView, a: ConfirmView) -> (UiView, Seq<EffectView>) {
    match a {
        ConfirmView::DeleteAnime(id) => {
            let k = first_pos(anime_ids(v.rss), id);
            if k >= 0 {
                (UiView { rss: v.rss.remove(k), ..v }, seq![EffectView::DeleteAnime(id)])
            } else {
                (v, Seq::empty())
            }
        },
        ConfirmView::DeleteRule(fid, rule) => {
            let k = first_pos(filter_ids(v.filters), fid);
            if k >= 0 && first_pos(v.filters[k].rules, rule) >= 0 {
                let fs = with_rules(v.filters, k, v.filters[k].rules.remove(first_pos(v.filters[k].rules, rule)));
                (UiView { filters: fs, ..v }, seq![EffectView::InsertFilter(fs[k])])
            } else {
                (v, Seq::empty())
            }
        },
        ConfirmView::DeleteFilter(fid) => {
            let k = first_pos(filter_ids(v.filters), fid);
            if k >= 0 {
                (UiView { filters: v.filters.remove(k), ..v }, seq![EffectView::DelFilter(fid)])
            } else {
                (v, Seq::empty())
            }
        },
    }
}

/// A key held with modifiers: Control-A selects all typed text; Shift with an
/// arrow extends the selection; Alt with Up or Down moves the selected keyword
/// of a filter up or down and sends the filter.
pub open spec fn modified_step(v: UiView, key: Key) -> (UiView, Seq<EffectView>) {
    match key.mods {
        KeyMods::Control => match (key.code, v.input) {
            (KeyKind::Char('a'), Some(e)) => (UiView { input: Some(select_all_spec(e)), ..v }, Seq::empty()),
            _ => (v, Seq::empty()),
        },
        KeyMods::Shift => match (key.code, v.input) {
            (KeyKind::Left, Some(e)) => (UiView { input: Some(left_arrow_shift_spec(e)), ..v }, Seq::empty()),
            (KeyKind::Right, Some(e)) => (UiView { input: Some(right_arrow_shift_spec(e)), ..v }, Seq::empty()),
            _ => (v, Seq::empty()),
        },
        KeyMods::Alt => if v.screen == CurrentScreen::Filter {
            match (key.code, v.rule_sel, v.id_sel) {
                (KeyKind::Up, Some(i), Some(j)) => if i > 0 {
                    let fs = with_rules(v.filters, j as int, swapped(v.filters[j as int].rules, i as int, i - 1));
                    (UiView { filters: fs, rule_sel: Some((i - 1) as usize), ..v }, seq![EffectView::InsertFilter(fs[j as int])])
                } else {
                    (v, Seq::empty())
                },
                (KeyKind::Down, Some(i), Some(j)) => if i + 1 < v.filters[j as int].rules.len() {
                    let fs = with_rules(v.filters, j as int, swapped(v.filters[j as int].rules, i as int, i + 1));
                    (UiView { filters: fs, rule_sel: Some((i + 1) as usize), ..v }, seq![EffectView::InsertFilter(fs[j as int])])
                } else {
                    (v, Seq::empty())
                },
                _ => (v, Seq::empty()),
            }
        } else {
            (v, Seq::empty())
        },
        _ => (v, Seq::empty()),
    }
}

/// A character typed on the filter screen while nothing is typed: `a` adds an
/// empty keyword after the selected one, or an empty filter after the selected
/// one, and selects it; `i` adds one before; `e` edits the selected keyword or
/// group id; `D` asks to delete the selected keyword or filter.
pub open spec fn filter_char_step(v: UiView, c: char) -> (UiView, Seq<EffectView>) {
    let empty_filter = FilterView { id: Seq::empty(), name: Seq::empty(), rules: Seq::empty() };
    match (c, v.rule_sel, v.id_sel) {
        ('a', Some(i), Some(j)) => (UiView {
            filters: with_rules(v.filters, j as int, v.filters[j as int].rules.insert(i + 1, Seq::empty())),
            rule_sel: Some((i + 1) as usize),
            input: Some(empty_editor()),
            ..v
        }, Seq::empty()),
        ('a', None, Some(j)) => (UiView {
            filters: v.filters.insert(j + 1, empty_filter),
            id_sel: Some((j + 1) as usize),
            input: Some(empty_editor()),
            ..v
        }, Seq::empty()),
        ('i', Some(i), Some(j)) => (UiView {
            filters: with_rules(v.filters, j as int, v.filters[j as int].rules.insert(i as int, Seq::empty())),
            input: Some(empty_editor()),
            ..v
        }, Seq::empty()),
        ('i', None, Some(j)) => (UiView {
            filters: v.filters.insert(j as int, empty_filter),
            input: Some(empty_editor()),
            ..v
        }, Seq::empty()),
        ('e', Some(i), Some(j)) => (UiView { input: Some(editor_with(v.filters[j as int].rules[i as int])), ..v }, Seq::empty()),
        ('e', None, Some(j)) => (UiView { input: Some(editor_with(v.filters[j as int].id)), ..v }, Seq::empty()),
        ('D', Some(i), Some(j)) => {
            let f = v.filters[j as int];
            (UiView {
                popup: Some(PopupView::Confirm(
                    "Do you want to delete this rule?"@,
                    f.rules[i as int],
                    ConfirmView::DeleteRule(f.id, f.rules[i as int]),
                )),
                ..v
            }, Seq::empty())
        },
        ('D', None, Some(j)) => {
            let f = v.filters[j as int];
            (UiView {
                popup: Some(PopupView::Confirm(
                    "Do you want to delete this filter?"@,
                    f.id + " "@ + f.name,
                    ConfirmView::DeleteFilter(f.id),
                )),
                ..v
            }, Seq::empty())
        },
        _ => (v, Seq::empty()),
    }
}

/// A character typed on the main screen without a popup: `r` refreshes the
/// feeds, `d` asks for a folder to download, `l` logs in, `a` asks for an RSS
/// link, `D` asks to stop following the selected bangumi. Refreshing and
/// downloading need a login.
pub open spec fn main_char_step(v: UiView, c: char) -> (UiView, Seq<EffectView>) {
    if c == 'r' {
        if !v.logged_in {
            (v, seq![login_first()])
        } else {
            (v, seq![EffectView::RefreshRSS, EffectView::StartLoading])
        }
    } else if c == 'd' {
        if !v.logged_in {
            (v, seq![login_first()])
        } else {
            (UiView { input: Some(empty_editor()), popup: Some(PopupView::DownloadFolder), ..v }, Seq::empty())
        }
    } else if c == 'l' {
        (UiView { popup: Some(PopupView::Login), ..v }, seq![EffectView::LoginReq])
    } else if c == 'a' {
        (UiView { input: Some(empty_editor()), popup: Some(PopupView::AddRSSLink), ..v }, Seq::empty())
    } else if c == 'D' {
        match v.rss_sel {
            Some(i) => (UiView {
                popup: Some(PopupView::Confirm(
                    "Do you want to delete this bangumi?"@,
                    v.rss[i as int].name@,
                    ConfirmView::DeleteAnime(v.rss[i as int].id@),
                )),
                ..v
            }, Seq::empty()),
            None => (v, Seq::empty()),
        }
    } else {
        (v, Seq::empty())
    }
}

/// A character typed while nothing is typed; gives whether to leave.
pub open spec fn command_char_step(v: UiView, c: char) -> (UiView, Seq<EffectView>, bool) {
    if c == 'q' {
        if v.popup is None {
            (v, seq![EffectView::ExitMsg, EffectView::Exit], true)
        } else {
            (v, Seq::empty(), false)
        }
    } else if c == '1' {
        (UiView { screen: CurrentScreen::Main, ..v }, Seq::empty(), false)
    } else if c == '2' {
        (UiView { screen: CurrentScreen::Downloading, ..v }, Seq::empty(), false)
    } else if c == '3' {
        (UiView { screen: CurrentScreen::Finished, ..v }, Seq::empty(), false)
    } else if c == '4' {
        if v.screen != CurrentScreen::Filter {
            (UiView { screen: CurrentScreen::Filter, filters: Seq::empty(), ..v }, seq![EffectView::GetFilters], false)
        } else {
            (v, Seq::empty(), false)
        }
    } else if c == '5' {
        (UiView { screen: CurrentScreen::State, ..v }, Seq::empty(), false)
    } else if c == '6' {
        (UiView { screen: CurrentScreen::Log, ..v }, Seq::empty(), false)
    } else if v.screen == CurrentScreen::Main && v.popup is None {
        let (w, es) = main_char_step(v, c);
        (w, es, false)
    } else if v.popup is Some {
        match v.popup {
            Some(PopupView::Confirm(_, _, a)) => if c == 'y' || c == 'Y' {
                let (w, es) = confirm_step(UiView { popup: None, ..v }, a);
                (w, es, false)
            } else if c == 'n' || c == 'N' {
                (UiView { popup: None, ..v }, Seq::empty(), false)
            } else {
                (v, Seq::empty(), false)
            },
            _ => (v, Seq::empty(), false),
        }
    } else if v.screen == CurrentScreen::Filter {
        let (w, es) = filter_char_step(v, c);
        (w, es, false)
    } else if v.screen == CurrentScreen::State {
        if c == 'r' && v.waiting > 0 {
            (v, seq![EffectView::Recover], false)
        } else {
            (v, Seq::empty(), false)
        }
    } else {
        (v, Seq::empty(), false)
    }
}

/// Esc closes a popup and what is typed; on the filter screen it stops the
/// typing and drops the keyword or filter left empty; elsewhere it goes back
/// to the main screen.
pub open spec fn esc_step(v: UiView) -> UiView {
    if v.popup is Some {
        UiView { popup: None, input: None, ..v }
    } else if v.screen == CurrentScreen::Filter && v.input is Some {
        match (v.rule_sel, v.id_sel) {
            (Some(i), Some(j)) => if v.filters[j as int].rules[i as int].len() == 0 {
                UiView { input: None, filters: with_rules(v.filters, j as int, v.filters[j as int].rules.remove(i as int)), ..v }
            } else {
                UiView { input: None, ..v }
            },
            (None, Some(j)) => if v.filters[j as int].id.len() == 0 {
                UiView { input: None, filters: v.filters.remove(j as int), ..v }
            } else {
                UiView { input: None, ..v }
            },
            _ => UiView { input: None, ..v },
        }
    } else if v.screen != CurrentScreen::Main {
        UiView { screen: CurrentScreen::Main, ..v }
    } else {
        v
    }
}

/// Enter sends what is typed in a popup, a folder id or an RSS link, and
/// closes it; on the filter screen it stores the keyword or group id typed
/// and sends the filter, unless it clashes with another one.
pub open spec fn enter_step(v: UiView) -> (UiView, Seq<EffectView>) {
    match v.popup {
        Some(PopupView::DownloadFolder) => match v.input {
            Some(e) => if e.text.len() > 0 {
                (UiView { input: None, popup: None, ..v }, seq![EffectView::DownloadFolder(e.text)])
            } else {
                (UiView { input: Some(empty_editor()), ..v }, Seq::empty())
            },
            None => (v, Seq::empty()),
        },
        Some(PopupView::AddRSSLink) => match v.input {
            Some(e) => if e.text.len() > 0 {
                (UiView { input: None, popup: None, ..v }, seq![EffectView::AddRSS(e.text)])
            } else {
                (UiView { input: Some(empty_editor()), ..v }, Seq::empty())
            },
            None => (v, Seq::empty()),
        },
        Some(_) => (v, Seq::empty()),
        None => if v.screen == CurrentScreen::Filter && v.input is Some {
            let e = v.input->0;
            match (v.rule_sel, v.id_sel) {
                (Some(i), Some(j)) => {
                    let rules = v.filters[j as int].rules;
                    if e.text.len() == 0 {
                        (UiView { input: Some(empty_editor()), ..v }, Seq::empty())
                    } else if !rules.contains(e.text) {
                        let fs = with_rules(v.filters, j as int, rules.update(i as int, e.text));
                        (UiView { filters: fs, input: None, ..v }, seq![EffectView::InsertFilter(fs[j as int])])
                    } else {
                        (UiView { input: Some(editor_with(e.text)), ..v },
                            if rules[i as int] != e.text { seq![failure("This rule already exists!"@)] } else { Seq::empty() })
                    }
                },
                (None, Some(j)) => {
                    let old_id = v.filters[j as int].id;
                    if e.text.len() == 0 {
                        (UiView { input: Some(empty_editor()), ..v }, Seq::empty())
                    } else if !filter_ids(v.filters).contains(e.text) {
                        let fs = v.filters.update(j as int, FilterView { id: e.text, ..v.filters[j as int] });
                        (UiView { filters: fs, input: None, ..v },
                            (if old_id.len() > 0 { seq![EffectView::DelFilter(old_id)] } else { Seq::empty() })
                                + seq![EffectView::InsertFilter(fs[j as int])])
                    } else {
                        (UiView { input: Some(editor_with(e.text)), ..v },
                            if old_id != e.text { seq![failure("This filter already exists!"@)] } else { Seq::empty() })
                    }
                },
                _ => (v, Seq::empty()),
            }
        } else {
            (v, Seq::empty())
        },
    }
}

/// One line down in a scrolled list, when there is one.
pub open spec fn scroll_down(l: ScrollList) -> ScrollList {
    if l.offset + 1 < l.len { ScrollList { offset: (l.offset + 1) as usize, ..l } } else { l }
}

/// One line up in a scrolled list, when there is one.
pub open spec fn scroll_up(l: ScrollList) -> ScrollList {
    if l.offset > 0 { ScrollList { offset: (l.offset - 1) as usize, ..l } } else { l }
}

/// Down moves the selection of the screen one down, to the first entry when
/// nothing is selected.
pub open spec fn down_step(v: UiView) -> (UiView, Seq<EffectView>) {
    match v.screen {
        CurrentScreen::Main => if v.popup is None && v.rss.len() > 0 {
            match v.rss_sel {
                Some(i) => if i + 1 < v.rss.len() {
                    (UiView { rss_sel: Some((i + 1) as usize), ..v }, Seq::empty())
                } else {
                    (v, Seq::empty())
                },
                None => (UiView { rss_sel: Some(0), ..v }, Seq::empty()),
            }
        } else {
            (v, Seq::empty())
        },
        CurrentScreen::Downloading => (UiView { downloading: scroll_down(v.downloading), ..v }, Seq::empty()),
        CurrentScreen::Finished => (UiView { finished: scroll_down(v.finished), ..v }, Seq::empty()),
        CurrentScreen::Filter => if v.filters.len() > 0 && v.input is None {
            match (v.rule_sel, v.id_sel) {
                (Some(i), Some(j)) => if i + 1 < v.filters[j as int].rules.len() {
                    (UiView { rule_sel: Some((i + 1) as usize), ..v }, Seq::empty())
                } else {
                    (v, Seq::empty())
                },
                (Some(_), None) => (v, Seq::empty()),
                (None, Some(j)) => if j + 1 < v.filters.len() {
                    (UiView { id_sel: Some((j + 1) as usize), ..v }, Seq::empty())
                } else {
                    (v, Seq::empty())
                },
                (None, None) => (UiView { id_sel: Some(0), ..v }, Seq::empty()),
            }
        } else {
            (v, Seq::empty())
        },
        CurrentScreen::Log => (v, seq![EffectView::LogNextPage]),
        _ => (v, Seq::empty()),
    }
}

/// One less, but not below zero.
pub open spec fn dec(i: usize) -> usize {
    if i > 0 { (i - 1) as usize } else { 0 }
}

/// Up moves the selection of the screen one up, to the last entry when
/// nothing is selected.
pub open spec fn up_step(v: UiView) -> (UiView, Seq<EffectView>) {
    match v.screen {
        CurrentScreen::Main => if v.popup is None && v.rss.len() > 0 {
            match v.rss_sel {
                Some(i) => (UiView { rss_sel: Some(dec(i)), ..v }, Seq::empty()),
                None => (UiView { rss_sel: Some((v.rss.len() - 1) as usize), ..v }, Seq::empty()),
            }
        } else {
            (v, Seq::empty())
        },
        CurrentScreen::Downloading => (UiView { downloading: scroll_up(v.downloading), ..v }, Seq::empty()),
        CurrentScreen::Finished => (UiView { finished: scroll_up(v.finished), ..v }, Seq::empty()),
        CurrentScreen::Filter => if v.filters.len() > 0 && v.input is None {
            match (v.rule_sel, v.id_sel) {
                (Some(i), _) => (UiView { rule_sel: Some(dec(i)), ..v }, Seq::empty()),
                (None, Some(j)) => (UiView { id_sel: Some(dec(j)), ..v }, Seq::empty()),
                (None, None) => (UiView { id_sel: Some((v.filters.len() - 1) as usize), ..v }, Seq::empty()),
            }
        } else {
            (v, Seq::empty())
        },
        CurrentScreen::Log => (v, seq![EffectView::LogPrevPage]),
        _ => (v, Seq::empty()),
    }
}

/// Right moves the cursor of what is typed; on the filter screen it enters
/// the keywords of the selected filter, adding an empty one to type when it
/// has none.
pub open spec fn right_step(v: UiView) -> UiView {
    match v.input {
        Some(e) => UiView { input: Some(right_arrow_spec(e)), ..v },
        None => if v.screen == CurrentScreen::Filter && v.rule_sel is None && v.id_sel is Some {
            let j = v.id_sel->0 as int;
            if v.filters[j].rules.len() > 0 {
                UiView { rule_sel: Some(0), ..v }
            } else {
                UiView {
                    filters: with_rules(v.filters, j, v.filters[j].rules.push(Seq::empty())),
                    input: Some(empty_editor()),
                    rule_sel: Some(0),
                    ..v
                }
            }
        } else {
            v
        },
    }
}

/// Left moves the cursor of what is typed; on the filter screen it leaves the
/// keywords for the filters.
pub open spec fn left_step(v: UiView) -> UiView {
    match v.input {
        Some(e) => UiView { input: Some(left_arrow_spec(e)), ..v },
        None => if v.screen == CurrentScreen::Filter && v.rule_sel is Some {
            UiView { rule_sel: None, ..v }
        } else {
            v
        },
    }
}

/// What a key does: the new state, the effects in order, and whether the
/// program is to leave.
pub open spec fn key_step(v: UiView, key: Key) -> (UiView, Seq<EffectView>, bool) {
    if key.mods != KeyMods::Empty {
        let (w, es) = modified_step(v, key);
        (w, es, false)
    } else {
        match key.code {
            KeyKind::Char(c) => match v.input {
                Some(e) => (UiView { input: Some(insert_spec(e, c)), ..v }, Seq::empty(), false),
                None => command_char_step(v, c),
            },
            KeyKind::Esc => (esc_step(v), Seq::empty(), false),
            KeyKind::Backspace => match v.input {
                Some(e) => (UiView { input: Some(backspace_spec(e)), ..v }, Seq::empty(), false),
                None => (v, Seq::empty(), false),
            },
            KeyKind::Enter => {
                let (w, es) = enter_step(v);
                (w, es, false)
            },
            KeyKind::Down => {
                let (w, es) = down_step(v);
                (w, es, false)
            },
            KeyKind::Up => {
                let (w, es) = up_step(v);
                (w, es, false)
            },
            KeyKind::Right => (right_step(v), Seq::empty(), false),
            KeyKind::Left => (left_step(v), Seq::empty(), false),
            KeyKind::Other => (v, Seq::empty(), false),
        }
    }
}

/// The selected filter is there.
pub open spec fn filter_ok(v: UiView) -> bool {
    v.id_sel matches Some(j) && j < v.filters.len()
}

/// The selected keyword is there, `slack` past the end allowed.
pub open spec fn rule_ok(v: UiView, i: usize, slack: int) -> bool {
    filter_ok(v) && i <= v.filters[v.id_sel->0 as int].rules.len() - 1 + slack
}

/// The entries a key reads or changes are there; elsewhere the interface
/// would fail on them.
pub open spec fn key_ready(v: UiView, key: Key) -> bool {
    if key.mods != KeyMods::Empty {
        key.mods == KeyMods::Alt && v.screen == CurrentScreen::Filter ==> match (key.code, v.rule_sel) {
            (KeyKind::Up, Some(i)) => i > 0 ==> rule_ok(v, i, 0),
            (KeyKind::Down, Some(i)) => filter_ok(v),
            _ => true,
        }
    } else {
        match key.code {
            KeyKind::Char(c) => match v.input {
                Some(e) => insert_ready(e),
                None => {
                    &&& (c != 'q' && c != '1' && c != '2' && c != '3' && c != '4' && c != '5' && c != '6'
                        && v.screen == CurrentScreen::Main && v.popup is None && c == 'D') ==> (v.rss_sel matches Some(i) ==> i < v.rss.len())
                    &&& (c != 'q' && c != '1' && c != '2' && c != '3' && c != '4' && c != '5' && c != '6'
                        && v.screen == CurrentScreen::Filter && v.popup is None) ==> match v.rule_sel {
                            Some(i) => (c == 'a' ==> rule_ok(v, i, 0)) && (c == 'i' ==> rule_ok(v, i, 1))
                                && ((c == 'e' || c == 'D') ==> rule_ok(v, i, 0)),
                            None => match v.id_sel {
                                Some(j) => (c == 'a' ==> j < v.filters.len()) && (c == 'i' ==> j <= v.filters.len())
                                    && ((c == 'e' || c == 'D') ==> j < v.filters.len()),
                                None => true,
                            },
                        }
                },
            },
            KeyKind::Esc => v.popup is None && v.screen == CurrentScreen::Filter && v.input is Some ==> match v.rule_sel {
                Some(i) => rule_ok(v, i, 0),
                None => v.id_sel matches Some(j) ==> j < v.filters.len(),
            },
            KeyKind::Enter => v.popup is None && v.screen == CurrentScreen::Filter && v.input is Some ==> match v.rule_sel {
                Some(i) => rule_ok(v, i, 0),
                None => v.id_sel matches Some(j) ==> j < v.filters.len(),
            },
            KeyKind::Down => v.screen == CurrentScreen::Filter && v.filters.len() > 0 && v.input is None && v.rule_sel is Some
                ==> filter_ok(v),
            KeyKind::Right => v.input is None && v.screen == CurrentScreen::Filter && v.rule_sel is None ==> (v.id_sel matches Some(j)
                ==> j < v.filters.len()),
            _ => true,
        }
    }
}

proof fn lemma_first_pos(s: Seq<Seq<char>>, x: Seq<char>, k: int)
    requires
        0 <= k <= s.len(),
        forall|j: int| 0 <= j < k ==> s[j] != x,
        k == s.len() || s[k] == x,
    ensures
        first_pos(s, x) == if k < s.len() { k } else { -1 },
    decreases s.len(),
{
    if s.len() > 0 && s[0] != x {
        let t = s.drop_first();
        assert forall|j: int| 0 <= j < k - 1 implies t[j] != x by {
            assert(t[j] == s[j + 1]);
        }
        if k < s.len() {
            assert(t[k - 1] == s[k]);
        }
        lemma_first_pos(t, x, k - 1);
    }
}

/// `first_pos` finds an entry equal to what it looks for, when it finds one,
/// and there is none when it does not.
proof fn lemma_first_pos_found(s: Seq<Seq<char>>, x: Seq<char>)
    ensures
        first_pos(s, x) >= 0 ==> first_pos(s, x) < s.len() && s[first_pos(s, x)] == x,
        first_pos(s, x) < 0 ==> !s.contains(x),
    decreases s.len(),
{
    if s.len() > 0 && s[0] != x {
        lemma_first_pos_found(s.drop_first(), x);
        if first_pos(s, x) < 0 && s.contains(x) {
            let j = choose|j: int| 0 <= j < s.len() && s[j] == x;
            assert(s.drop_first()[j - 1] == x);
        }
    }
}

fn find_string(list: &Vec<String>, x: &String) -> (r: Option<usize>)
    ensures
        match r {
            Some(k) => k == first_pos(string_views(list@), x@),
            None => first_pos(string_views(list@), x@) < 0,
        },
{
    let ghost sv = string_views(list@);
    let mut k: usize = 0;
    while k < list.len()
        invariant
            sv == string_views(list@),
            k <= list@.len(),
            forall|j: int| 0 <= j < k ==> sv[j] != x@,
        decreases list@.len() - k,
    {
        if list[k] == *x {
            proof { lemma_first_pos(sv, x@, k as int); }
            return Some(k);
        }
        k = k + 1;
    }
    proof { lemma_first_pos(sv, x@, k as int); }
    None
}

fn find_anime(rss: &Vec<Anime>, id: &String) -> (r: Option<usize>)
    ensures
        match r {
            Some(k) => k == first_pos(anime_ids(rss@), id@),
            None => first_pos(anime_ids(rss@), id@) < 0,
        },
{
    let ghost ids = anime_ids(rss@);
    let mut k: usize = 0;
    while k < rss.len()
        invariant
            ids == anime_ids(rss@),
            k <= rss@.len(),
            forall|j: int| 0 <= j < k ==> ids[j] != id@,
        decreases rss@.len() - k,
    {
        if rss[k].id == *id {
            proof { lemma_first_pos(ids, id@, k as int); }
            return Some(k);
        }
        k = k + 1;
    }
    proof { lemma_first_pos(ids, id@, k as int); }
    None
}

fn find_filter(filters: &Vec<Filter>, id: &String) -> (r: Option<usize>)
    ensures
        match r {
            Some(k) => k == first_pos(filter_ids(filters@.map_values(|f: Filter| filter_view(f))), id@),
            None => first_pos(filter_ids(filters@.map_values(|f: Filter| filter_view(f))), id@) < 0,
        },
{
    let ghost ids = filter_ids(filters@.map_values(|f: Filter| filter_view(f)));
    let mut k: usize = 0;
    while k < filters.len()
        invariant
            ids == filter_ids(filters@.map_values(|f: Filter| filter_view(f))),
            k <= filters@.len(),
            forall|j: int| 0 <= j < k ==> ids[j] != id@,
        decreases filters@.len() - k,
    {
        if filters[k].id == *id {
            proof { lemma_first_pos(ids, id@, k as int); }
            return Some(k);
        }
        k = k + 1;
    }
    proof { lemma_first_pos(ids, id@, k as int); }
    None
}

/// A copy of the keywords.
fn copy_strings(list: &Vec<String>) -> (r: Vec<String>)
    ensures
        string_views(r@) == string_views(list@),
{
    let mut out: Vec<String> = Vec::new();
    let mut k: usize = 0;
    while k < list.len()
        invariant
            k <= list@.len(),
            out@.len() == k,
            string_views(out@) == string_views(list@.take(k as int)),
        decreases list@.len() - k,
    {
        let c = list[k].clone();
        let ghost before = out@;
        out.push(c);
        proof {
            assert forall|j: int| 0 <= j < out@.len() implies #[trigger] string_views(out@)[j] == string_views(list@.take(k + 1))[j] by {
                if j < k {
                    assert(string_views(before)[j] == string_views(list@.take(k as int))[j]);
                }
            }
            assert(string_views(out@) =~= string_views(list@.take(k + 1)));
        }
        k = k + 1;
    }
    proof { assert(list@.take(list@.len() as int) =~= list@); }
    out
}

/// A copy of a filter.
fn copy_filter(f: &Filter) -> (r: Filter)
    ensures
        filter_view(r) == filter_view(*f),
{
    Filter {
        id: f.id.clone(),
        subgroup: SubGroup { name: f.subgroup.name.clone(), filter_list: copy_strings(&f.subgroup.filter_list) },
    }
}

/// A filter with no id, no name and no keywords.
fn empty_filter() -> (r: Filter)
    ensures
        filter_view(r) == (FilterView { id: Seq::empty(), name: Seq::empty(), rules: Seq::empty() }),
{
    let r = Filter { id: String::new(), subgroup: SubGroup { name: String::new(), filter_list: Vec::new() } };
    proof { assert(string_views(r.subgroup.filter_list@) =~= Seq::<Seq<char>>::empty()); }
    r
}

proof fn lemma_views_insert(fs: Seq<Filter>, j: int, f: Filter)
    requires
        0 <= j <= fs.len(),
    ensures
        fs.insert(j, f).map_values(|g: Filter| filter_view(g)) == fs.map_values(|g: Filter| filter_view(g)).insert(j, filter_view(f)),
{
    assert(fs.insert(j, f).map_values(|g: Filter| filter_view(g)) =~= fs.map_values(|g: Filter| filter_view(g)).insert(j, filter_view(f)));
}

proof fn lemma_views_remove(fs: Seq<Filter>, j: int)
    requires
        0 <= j < fs.len(),
    ensures
        fs.remove(j).map_values(|g: Filter| filter_view(g)) == fs.map_values(|g: Filter| filter_view(g)).remove(j),
{
    assert(fs.remove(j).map_values(|g: Filter| filter_view(g)) =~= fs.map_values(|g: Filter| filter_view(g)).remove(j));
}

proof fn lemma_strings_insert(fs: Seq<String>, j: int, f: String)
    requires
        0 <= j <= fs.len(),
    ensures
        string_views(fs.insert(j, f)) == string_views(fs).insert(j, f@),
{
    assert(string_views(fs.insert(j, f)) =~= string_views(fs).insert(j, f@));
}

proof fn lemma_strings_remove(fs: Seq<String>, j: int)
    requires
        0 <= j < fs.len(),
    ensures
        string_views(fs.remove(j)) == string_views(fs).remove(j),
{
    assert(string_views(fs.remove(j)) =~= string_views(fs).remove(j));
}

impl UiState {
    /// Replaces the filter at `j`.
    fn put_filter(&mut self, j: usize, f: Filter)
        requires
            j < old(self).filters@.len(),
        ensures
            final(self)@ == (UiView { filters: old(self)@.filters.update(j as int, filter_view(f)), ..old(self)@ }),
    {
        let ghost fs = self.filters@;
        self.filters.remove(j);
        proof { lemma_views_remove(fs, j as int); }
        let ghost fs2 = self.filters@;
        self.filters.insert(j, f);
        proof {
            lemma_views_insert(fs2, j as int, f);
            assert(fs.map_values(|g: Filter| filter_view(g)).remove(j as int).insert(j as int, filter_view(f))
                =~= fs.map_values(|g: Filter| filter_view(g)).update(j as int, filter_view(f)));
        }
    }

    /// Takes the filter at `j` out, leaving an empty one in its place.
    fn take_filter(&mut self, j: usize) -> (r: Filter)
        requires
            j < old(self).filters@.len(),
        ensures
            filter_view(r) == old(self)@.filters[j as int],
            final(self).filters@.len() == old(self).filters@.len(),
            final(self)@ == (UiView {
                filters: old(self)@.filters.update(j as int, FilterView { id: Seq::empty(), name: Seq::empty(), rules: Seq::empty() }),
                ..old(self)@
            }),
    {
        let ghost fs = self.filters@;
        let r = self.filters.remove(j);
        proof { lemma_views_remove(fs, j as int); }
        let ghost fs2 = self.filters@;
        let e = empty_filter();
        self.filters.insert(j, e);
        proof {
            lemma_views_insert(fs2, j as int, e);
            assert(fs.map_values(|g: Filter| filter_view(g)).remove(j as int).insert(j as int, filter_view(e))
                =~= fs.map_values(|g: Filter| filter_view(g)).update(j as int, filter_view(e)));
        }
        r
    }

    /// What a confirmed action does.
    fn apply_confirm(&mut self, action: ConfirmAction) -> (r: Vec<UiEffect>)
        ensures
            (final(self)@, effects_view(r@)) == confirm_step(old(self)@, confirm_view(action)),
    {
        match action {
            ConfirmAction::DeleteAnime(id) => {
                match find_anime(&self.rss_data, &id) {
                    Some(k) => {
                        proof { lemma_first_pos_found(anime_ids(self.rss_data@), id@); }
                        self.rss_data.remove(k);
                        let mut out: Vec<UiEffect> = Vec::new();
                        out.push(UiEffect::Send(ClientMsg::DeleteAnime(id.into_boxed_str())));
                        proof { assert(effects_view(out@) =~= seq![EffectView::DeleteAnime(id@)]); }
                        out
                    },
                    None => {
                        let out: Vec<UiEffect> = Vec::new();
                        proof { assert(effects_view(out@) =~= Seq::<EffectView>::empty()); }
                        out
                    },
                }
            },
            ConfirmAction::DeleteRule { filter_id, rule } => {
                let ghost v = self@;
                match find_filter(&self.filters, &filter_id) {
                    Some(k) => {
                        proof { lemma_first_pos_found(filter_ids(v.filters), filter_id@); }
                        match find_string(&self.filters[k].subgroup.filter_list, &rule) {
                            Some(p) => {
                                proof { lemma_first_pos_found(v.filters[k as int].rules, rule@); }
                                let mut f = self.take_filter(k);
                                let ghost rules0 = f.subgroup.filter_list@;
                                f.subgroup.filter_list.remove(p);
                                proof { lemma_strings_remove(rules0, p as int); }
                                let sent = copy_filter(&f);
                                self.put_filter(k, f);
                                let mut out: Vec<UiEffect> = Vec::new();
                                out.push(UiEffect::Send(ClientMsg::InsertFilter(sent)));
                                proof {
                                    let fs = with_rules(v.filters, k as int, v.filters[k as int].rules.remove(p as int));
                                    assert(self@.filters =~= fs);
                                    assert(effects_view(out@) =~= seq![EffectView::InsertFilter(fs[k as int])]);
                                }
                                out
                            },
                            None => {
                                let out: Vec<UiEffect> = Vec::new();
                                proof { assert(effects_view(out@) =~= Seq::<EffectView>::empty()); }
                                out
                            },
                        }
                    },
                    None => {
                        let out: Vec<UiEffect> = Vec::new();
                        proof { assert(effects_view(out@) =~= Seq::<EffectView>::empty()); }
                        out
                    },
                }
            },
            ConfirmAction::DeleteFilter(filter_id) => {
                let ghost v = self@;
                match find_filter(&self.filters, &filter_id) {
                    Some(k) => {
                        proof { lemma_first_pos_found(filter_ids(v.filters), filter_id@); }
                        let ghost fs = self.filters@;
                        self.filters.remove(k);
                        proof { lemma_views_remove(fs, k as int); }
                        let mut out: Vec<UiEffect> = Vec::new();
                        out.push(UiEffect::Send(ClientMsg::DelFilter(filter_id)));
                        proof { assert(effects_view(out@) =~= seq![EffectView::DelFilter(filter_id@)]); }
                        out
                    },
                    None => {
                        let out: Vec<UiEffect> = Vec::new();
                        proof { assert(effects_view(out@) =~= Seq::<EffectView>::empty()); }
                        out
                    },
                }
            },
        }
    }
}

fn no_effects() -> (r: Vec<UiEffect>)
    ensures
        effects_view(r@) == Seq::<EffectView>::empty(),
{
    let r: Vec<UiEffect> = Vec::new();
    proof { assert(effects_view(r@) =~= Seq::<EffectView>::empty()); }
    r
}

fn one_effect(e: UiEffect) -> (r: Vec<UiEffect>)
    ensures
        effects_view(r@) == seq![effect_view(e)],
{
    let mut r: Vec<UiEffect> = Vec::new();
    r.push(e);
    proof { assert(effects_view(r@) =~= seq![effect_view(e)]); }
    r
}

fn two_effects(a: UiEffect, b: UiEffect) -> (r: Vec<UiEffect>)
    ensures
        effects_view(r@) == seq![effect_view(a), effect_view(b)],
{
    let mut r: Vec<UiEffect> = Vec::new();
    r.push(a);
    r.push(b);
    proof { assert(effects_view(r@) =~= seq![effect_view(a), effect_view(b)]); }
    r
}

fn notify_failure(content: &str, duration_ms: u64) -> (r: UiEffect)
    ensures
        effect_view(r) == EffectView::Notify("Failed"@, content@, duration_ms),
{
    UiEffect::Notify { title: "Failed".to_owned(), content: content.to_owned(), duration_ms }
}

/// Moves the entry at `i` of `list` to `k`, one place away, which exchanges the two.
fn swap_adjacent(list: &mut Vec<String>, i: usize, k: usize)
    requires
        i < old(list)@.len(),
        k < old(list)@.len(),
        k == i + 1 || i == k + 1,
    ensures
        string_views(final(list)@) == swapped(string_views(old(list)@), i as int, k as int),
{
    let ghost l0 = list@;
    let x = list.remove(i);
    list.insert(k, x);
    proof {
        assert(string_views(list@) =~= swapped(string_views(l0), i as int, k as int));
    }
}

impl UiState {
    /// A key held with modifiers.
    fn handle_modified(&mut self, key: Key) -> (r: Vec<UiEffect>)
        requires
            key_ready(old(self)@, key),
            key.mods != KeyMods::Empty,
        ensures
            (final(self)@, effects_view(r@)) == modified_step(old(self)@, key),
    {
        match key.mods {
            KeyMods::Control => {
                if key.code == KeyKind::Char('a') {
                    match &mut self.input_state {
                        InputState::Text(editor) => editor.select_all(),
                        InputState::NotInput => {},
                    }
                }
                no_effects()
            },
            KeyMods::Shift => {
                match &mut self.input_state {
                    InputState::Text(editor) => match key.code {
                        KeyKind::Left => editor.left_arrow_shift(),
                        KeyKind::Right => editor.right_arrow_shift(),
                        _ => {},
                    },
                    InputState::NotInput => {},
                }
                no_effects()
            },
            KeyMods::Alt => {
                if self.current_screen == CurrentScreen::Filter {
                    match (key.code, self.filter_rule_selected, self.filter_id_selected) {
                        (KeyKind::Up, Some(i), Some(j)) => {
                            if i > 0 {
                                let ghost v = self@;
                                let mut f = self.take_filter(j);
                                assert(string_views(f.subgroup.filter_list@).len() == f.subgroup.filter_list@.len());
                                swap_adjacent(&mut f.subgroup.filter_list, i, i - 1);
                                let sent = copy_filter(&f);
                                self.put_filter(j, f);
                                self.filter_rule_selected = Some(i - 1);
                                proof {
                                    let fs = with_rules(v.filters, j as int, swapped(v.filters[j as int].rules, i as int, i - 1));
                                    assert(self@.filters =~= fs);
                                }
                                one_effect(UiEffect::Send(ClientMsg::InsertFilter(sent)))
                            } else {
                                no_effects()
                            }
                        },
                        (KeyKind::Down, Some(i), Some(j)) => {
                            let n = self.filters[j].subgroup.filter_list.len();
                            if n > 0 && i < n - 1 {
                                let ghost v = self@;
                                let mut f = self.take_filter(j);
                                assert(string_views(f.subgroup.filter_list@).len() == f.subgroup.filter_list@.len());
                                swap_adjacent(&mut f.subgroup.filter_list, i, i + 1);
                                let sent = copy_filter(&f);
                                self.put_filter(j, f);
                                self.filter_rule_selected = Some(i + 1);
                                proof {
                                    let fs = with_rules(v.filters, j as int, swapped(v.filters[j as int].rules, i as int, i + 1));
                                    assert(self@.filters =~= fs);
                                }
                                one_effect(UiEffect::Send(ClientMsg::InsertFilter(sent)))
                            } else {
                                no_effects()
                            }
                        },
                        _ => no_effects(),
                    }
                } else {
                    no_effects()
                }
            },
            _ => no_effects(),
        }
    }
}

impl UiState {
    /// A character typed on the filter screen while nothing is typed.
    fn handle_filter_char(&mut self, c: char) -> (r: Vec<UiEffect>)
        requires
            old(self).input_state is NotInput,
            old(self)@.screen == CurrentScreen::Filter,
            old(self)@.popup is None,
            key_ready(old(self)@, Key { code: KeyKind::Char(c), mods: KeyMods::Empty }),
            c != 'q' && c != '1' && c != '2' && c != '3' && c != '4' && c != '5' && c != '6',
        ensures
            (final(self)@, effects_view(r@)) == filter_char_step(old(self)@, c),
    {
        let ghost v = self@;
        match (c, self.filter_rule_selected, self.filter_id_selected) {
            ('a', Some(i), Some(j)) => {
                let mut f = self.take_filter(j);
                let ghost l0 = f.subgroup.filter_list@;
                let blank = String::new();
                let ghost b = blank;
                let n = f.subgroup.filter_list.len();
                assert(i < n);
                f.subgroup.filter_list.insert(i + 1, blank);
                proof { lemma_strings_insert(l0, i + 1, b); }
                self.put_filter(j, f);
                self.filter_rule_selected = Some(i + 1);
                self.input_state = InputState::empty_text();
                proof {
                    assert(self@.filters =~= with_rules(v.filters, j as int, v.filters[j as int].rules.insert(i + 1, Seq::empty())));
                }
                no_effects()
            },
            ('a', None, Some(j)) => {
                let e = empty_filter();
                let ghost fs = self.filters@;
                let n = self.filters.len();
                assert(j < n);
                self.filters.insert(j + 1, e);
                proof { lemma_views_insert(fs, j + 1, e); }
                self.filter_id_selected = Some(j + 1);
                self.input_state = InputState::empty_text();
                no_effects()
            },
            ('i', Some(i), Some(j)) => {
                let mut f = self.take_filter(j);
                let ghost l0 = f.subgroup.filter_list@;
                let blank = String::new();
                let ghost b = blank;
                f.subgroup.filter_list.insert(i, blank);
                proof { lemma_strings_insert(l0, i as int, b); }
                self.put_filter(j, f);
                self.input_state = InputState::empty_text();
                proof {
                    assert(self@.filters =~= with_rules(v.filters, j as int, v.filters[j as int].rules.insert(i as int, Seq::empty())));
                }
                no_effects()
            },
            ('i', None, Some(j)) => {
                let e = empty_filter();
                let ghost fs = self.filters@;
                self.filters.insert(j, e);
                proof { lemma_views_insert(fs, j as int, e); }
                self.input_state = InputState::empty_text();
                no_effects()
            },
            ('e', Some(i), Some(j)) => {
                let rule = self.filters[j].subgroup.filter_list[i].clone();
                self.input_state = InputState::text(rule);
                no_effects()
            },
            ('e', None, Some(j)) => {
                let id = self.filters[j].id.clone();
                self.input_state = InputState::text(id);
                no_effects()
            },
            ('D', Some(i), Some(j)) => {
                let id = self.filters[j].id.clone();
                let rule_name = self.filters[j].subgroup.filter_list[i].clone();
                let content = rule_name.clone();
                let question = "Do you want to delete this rule?".to_owned();
                self.current_popup = Some(Popup::Confirm(ActionConfirm {
                    question,
                    content,
                    action: ConfirmAction::DeleteRule { filter_id: id, rule: rule_name },
                }));
                no_effects()
            },
            ('D', None, Some(j)) => {
                let id = self.filters[j].id.clone();
                let parts = [self.filters[j].id.as_str(), " ", self.filters[j].subgroup.name.as_str()];
                let content = crate::text::concat_strs(&parts);
                proof {
                    assert(parts@.map_values(|p: &str| p@) =~= seq![v.filters[j as int].id, " "@, v.filters[j as int].name]);
                    crate::text::lemma_concat_three(v.filters[j as int].id, " "@, v.filters[j as int].name);
                }
                let question = "Do you want to delete this filter?".to_owned();
                self.current_popup = Some(Popup::Confirm(ActionConfirm {
                    question,
                    content,
                    action: ConfirmAction::DeleteFilter(id),
                }));
                no_effects()
            },
            _ => no_effects(),
        }
    }

    /// A character typed on the main screen without a popup.
    fn handle_main_char(&mut self, c: char) -> (r: Vec<UiEffect>)
        requires
            old(self)@.screen == CurrentScreen::Main,
            old(self)@.popup is None,
            c == 'D' ==> (old(self)@.rss_sel matches Some(i) ==> i < old(self)@.rss.len()),
        ensures
            (final(self)@, effects_view(r@)) == main_char_step(old(self)@, c),
    {
        if c == 'r' {
            if !self.is_logged_in {
                return one_effect(notify_failure("Please login first!", 2000));
            }
            two_effects(UiEffect::Send(ClientMsg::RefreshRSS), UiEffect::StartLoading)
        } else if c == 'd' {
            if !self.is_logged_in {
                return one_effect(notify_failure("Please login first!", 2000));
            }
            self.input_state = InputState::empty_text();
            self.current_popup = Some(Popup::DownloadFolder);
            no_effects()
        } else if c == 'l' {
            self.current_popup = Some(Popup::Login);
            one_effect(UiEffect::Send(ClientMsg::LoginReq))
        } else if c == 'a' {
            self.input_state = InputState::empty_text();
            self.current_popup = Some(Popup::AddRSSLink);
            no_effects()
        } else if c == 'D' {
            match self.rss_selected {
                Some(i) => {
                    let anime_id = self.rss_data[i].id.clone();
                    let content = self.rss_data[i].name.clone();
                    let question = "Do you want to delete this bangumi?".to_owned();
                    self.current_popup = Some(Popup::Confirm(ActionConfirm {
                        question,
                        content,
                        action: ConfirmAction::DeleteAnime(anime_id),
                    }));
                    no_effects()
                },
                None => no_effects(),
            }
        } else {
            no_effects()
        }
    }

    /// A character typed while nothing is typed; gives whether to leave.
    fn handle_command_char(&mut self, c: char) -> (r: (bool, Vec<UiEffect>))
        requires
            old(self).input_state is NotInput,
            key_ready(old(self)@, Key { code: KeyKind::Char(c), mods: KeyMods::Empty }),
        ensures
            (final(self)@, effects_view(r.1@), r.0) == command_char_step(old(self)@, c),
    {
        if c == 'q' {
            if self.current_popup.is_none() {
                return (true, two_effects(UiEffect::Send(ClientMsg::Exit), UiEffect::Exit));
            }
            (false, no_effects())
        } else if c == '1' {
            self.current_screen = CurrentScreen::Main;
            (false, no_effects())
        } else if c == '2' {
            self.current_screen = CurrentScreen::Downloading;
            (false, no_effects())
        } else if c == '3' {
            self.current_screen = CurrentScreen::Finished;
            (false, no_effects())
        } else if c == '4' {
            if self.current_screen != CurrentScreen::Filter {
                self.current_screen = CurrentScreen::Filter;
                self.filters.clear();
                proof { assert(self.filters@.map_values(|f: Filter| filter_view(f)) =~= Seq::<FilterView>::empty()); }
                return (false, one_effect(UiEffect::Send(ClientMsg::GetFilters)));
            }
            (false, no_effects())
        } else if c == '5' {
            self.current_screen = CurrentScreen::State;
            (false, no_effects())
        } else if c == '6' {
            self.current_screen = CurrentScreen::Log;
            (false, no_effects())
        } else if self.current_screen == CurrentScreen::Main && self.current_popup.is_none() {
            (false, self.handle_main_char(c))
        } else if self.current_popup.is_some() {
            let is_confirm = match &self.current_popup {
                Some(Popup::Confirm(_)) => true,
                _ => false,
            };
            if is_confirm {
                if c == 'y' || c == 'Y' {
                    let mut taken: Option<Popup> = None;
                    std::mem::swap(&mut taken, &mut self.current_popup);
                    match taken {
                        Some(Popup::Confirm(confirm)) => (false, self.apply_confirm(confirm.action)),
                        _ => (false, no_effects()),
                    }
                } else if c == 'n' || c == 'N' {
                    self.current_popup = None;
                    (false, no_effects())
                } else {
                    (false, no_effects())
                }
            } else {
                (false, no_effects())
            }
        } else if self.current_screen == CurrentScreen::Filter {
            (false, self.handle_filter_char(c))
        } else if self.current_screen == CurrentScreen::State {
            if c == 'r' && self.waiting_count > 0 {
                (false, one_effect(UiEffect::Send(ClientMsg::Recover)))
            } else {
                (false, no_effects())
            }
        } else {
            (false, no_effects())
        }
    }
}

fn scroll_down_exec(l: ScrollList) -> (r: ScrollList)
    ensures
        r == scroll_down(l),
{
    if l.len > 0 && l.offset < l.len - 1 {
        ScrollList { offset: l.offset + 1, ..l }
    } else {
        l
    }
}

fn scroll_up_exec(l: ScrollList) -> (r: ScrollList)
    ensures
        r == scroll_up(l),
{
    if l.offset > 0 {
        ScrollList { offset: l.offset - 1, ..l }
    } else {
        l
    }
}

fn dec_exec(i: usize) -> (r: usize)
    ensures
        r == dec(i),
{
    if i > 0 { i - 1 } else { 0 }
}

impl UiState {
    /// Esc.
    fn handle_esc(&mut self)
        requires
            key_ready(old(self)@, Key { code: KeyKind::Esc, mods: KeyMods::Empty }),
        ensures
            final(self)@ == esc_step(old(self)@),
    {
        let ghost v = self@;
        if self.current_popup.is_some() {
            self.current_popup = None;
            self.input_state = InputState::NotInput;
        } else if self.current_screen == CurrentScreen::Filter && self.input_state.is_typing() {
            self.input_state = InputState::NotInput;
            match (self.filter_rule_selected, self.filter_id_selected) {
                (Some(i), Some(j)) => {
                    if self.filters[j].subgroup.filter_list[i].as_str().is_empty() {
                        let mut f = self.take_filter(j);
                        let ghost l0 = f.subgroup.filter_list@;
                        f.subgroup.filter_list.remove(i);
                        proof { lemma_strings_remove(l0, i as int); }
                        self.put_filter(j, f);
                        proof {
                            assert(self@.filters =~= with_rules(v.filters, j as int, v.filters[j as int].rules.remove(i as int)));
                        }
                    }
                },
                (None, Some(j)) => {
                    if self.filters[j].id.as_str().is_empty() {
                        let ghost fs = self.filters@;
                        self.filters.remove(j);
                        proof { lemma_views_remove(fs, j as int); }
                    }
                },
                _ => {},
            }
        } else if self.current_screen != CurrentScreen::Main {
            self.current_screen = CurrentScreen::Main;
        }
    }

    /// Enter.
    fn handle_enter(&mut self) -> (r: Vec<UiEffect>)
        requires
            key_ready(old(self)@, Key { code: KeyKind::Enter, mods: KeyMods::Empty }),
        ensures
            (final(self)@, effects_view(r@)) == enter_step(old(self)@),
    {
        let ghost v = self@;
        let kind: u8 = match &self.current_popup {
            None => 0,
            Some(Popup::DownloadFolder) => 1,
            Some(Popup::AddRSSLink) => 2,
            Some(_) => 3,
        };
        if kind == 1 || kind == 2 {
            let taken = self.input_state.take();
            match taken {
                InputState::Text(editor) => {
                    if !editor.is_empty() {
                        let text = editor.into_string().into_boxed_str();
                        let msg = if kind == 1 { ClientMsg::DownloadFolder(text) } else { ClientMsg::AddRSS(text) };
                        self.input_state = InputState::NotInput;
                        self.current_popup = None;
                        one_effect(UiEffect::Send(msg))
                    } else {
                        no_effects()
                    }
                },
                InputState::NotInput => no_effects(),
            }
        } else if kind == 3 {
            no_effects()
        } else if self.current_screen == CurrentScreen::Filter && self.input_state.is_typing() {
            match (self.filter_rule_selected, self.filter_id_selected) {
                (Some(i), Some(j)) => {
                    let taken = self.input_state.take();
                    match taken {
                        InputState::Text(editor) => {
                            if !editor.is_empty() {
                                let text = editor.into_string();
                                let found = find_string(&self.filters[j].subgroup.filter_list, &text);
                                proof { lemma_first_pos_found(v.filters[j as int].rules, text@); }
                                match found {
                                    None => {
                                        let mut f = self.take_filter(j);
                                        let ghost l0 = f.subgroup.filter_list@;
                                        f.subgroup.filter_list.remove(i);
                                        let ghost l1 = f.subgroup.filter_list@;
                                        let ghost t = text;
                                        f.subgroup.filter_list.insert(i, text);
                                        proof {
                                            lemma_strings_remove(l0, i as int);
                                            lemma_strings_insert(l1, i as int, t);
                                            assert(string_views(l0).remove(i as int).insert(i as int, t@)
                                                =~= string_views(l0).update(i as int, t@));
                                        }
                                        let sent = copy_filter(&f);
                                        self.put_filter(j, f);
                                        self.input_state = InputState::NotInput;
                                        proof {
                                            let fs = with_rules(v.filters, j as int, v.filters[j as int].rules.update(i as int, t@));
                                            assert(self@.filters =~= fs);
                                        }
                                        one_effect(UiEffect::Send(ClientMsg::InsertFilter(sent)))
                                    },
                                    Some(_) => {
                                        let same = self.filters[j].subgroup.filter_list[i] == text;
                                        self.input_state = InputState::text(text);
                                        if !same {
                                            one_effect(notify_failure("This rule already exists!", 5000))
                                        } else {
                                            no_effects()
                                        }
                                    },
                                }
                            } else {
                                no_effects()
                            }
                        },
                        InputState::NotInput => no_effects(),
                    }
                },
                (None, Some(j)) => {
                    let taken = self.input_state.take();
                    match taken {
                        InputState::Text(editor) => {
                            if !editor.is_empty() {
                                let text = editor.into_string();
                                let found = find_filter(&self.filters, &text);
                                proof { lemma_first_pos_found(filter_ids(v.filters), text@); }
                                if found.is_none() {
                                    let old_id = self.filters[j].id.clone();
                                    let mut f = self.take_filter(j);
                                    let ghost t = text;
                                    f.id = text;
                                    let sent = copy_filter(&f);
                                    self.put_filter(j, f);
                                    self.input_state = InputState::NotInput;
                                    proof {
                                        assert(self@.filters =~= v.filters.update(j as int, FilterView { id: t@, ..v.filters[j as int] }));
                                    }
                                    if !old_id.as_str().is_empty() {
                                        let r = two_effects(UiEffect::Send(ClientMsg::DelFilter(old_id)), UiEffect::Send(ClientMsg::InsertFilter(sent)));
                                        proof {
                                            let fs = v.filters.update(j as int, FilterView { id: t@, ..v.filters[j as int] });
                                            assert(effects_view(r@) =~= seq![EffectView::DelFilter(v.filters[j as int].id)] + seq![EffectView::InsertFilter(fs[j as int])]);
                                        }
                                        r
                                    } else {
                                        let r = one_effect(UiEffect::Send(ClientMsg::InsertFilter(sent)));
                                        proof {
                                            let fs = v.filters.update(j as int, FilterView { id: t@, ..v.filters[j as int] });
                                            assert(effects_view(r@) =~= Seq::<EffectView>::empty() + seq![EffectView::InsertFilter(fs[j as int])]);
                                        }
                                        r
                                    }
                                } else {
                                    let same = self.filters[j].id == text;
                                    self.input_state = InputState::text(text);
                                    if !same {
                                        one_effect(notify_failure("This filter already exists!", 5000))
                                    } else {
                                        no_effects()
                                    }
                                }
                            } else {
                                no_effects()
                            }
                        },
                        InputState::NotInput => no_effects(),
                    }
                },
                _ => no_effects(),
            }
        } else {
            no_effects()
        }
    }

    /// Down.
    fn handle_down(&mut self) -> (r: Vec<UiEffect>)
        requires
            key_ready(old(self)@, Key { code: KeyKind::Down, mods: KeyMods::Empty }),
        ensures
            (final(self)@, effects_view(r@)) == down_step(old(self)@),
    {
        match self.current_screen {
            CurrentScreen::Main => {
                if self.current_popup.is_none() && self.rss_data.len() > 0 {
                    match self.rss_selected {
                        Some(i) => {
                            if i < self.rss_data.len() - 1 {
                                self.rss_selected = Some(i + 1);
                            }
                        },
                        None => {
                            self.rss_selected = Some(0);
                        },
                    }
                }
                no_effects()
            },
            CurrentScreen::Downloading => {
                self.downloading = scroll_down_exec(self.downloading);
                no_effects()
            },
            CurrentScreen::Finished => {
                self.finished = scroll_down_exec(self.finished);
                no_effects()
            },
            CurrentScreen::Filter => {
                if self.filters.len() > 0 && !self.input_state.is_typing() {
                    match (self.filter_rule_selected, self.filter_id_selected) {
                        (Some(i), Some(j)) => {
                            let n = self.filters[j].subgroup.filter_list.len();
                            if n > 0 && i < n - 1 {
                                self.filter_rule_selected = Some(i + 1);
                            }
                        },
                        (Some(_), None) => {},
                        (None, Some(j)) => {
                            if j < self.filters.len() - 1 {
                                self.filter_id_selected = Some(j + 1);
                            }
                        },
                        (None, None) => {
                            self.filter_id_selected = Some(0);
                        },
                    }
                }
                no_effects()
            },
            CurrentScreen::Log => one_effect(UiEffect::LogNextPage),
            _ => no_effects(),
        }
    }

    /// Up.
    fn handle_up(&mut self) -> (r: Vec<UiEffect>)
        ensures
            (final(self)@, effects_view(r@)) == up_step(old(self)@),
    {
        match self.current_screen {
            CurrentScreen::Main => {
                if self.current_popup.is_none() && self.rss_data.len() > 0 {
                    match self.rss_selected {
                        Some(i) => {
                            self.rss_selected = Some(dec_exec(i));
                        },
                        None => {
                            self.rss_selected = Some(self.rss_data.len() - 1);
                        },
                    }
                }
                no_effects()
            },
            CurrentScreen::Downloading => {
                self.downloading = scroll_up_exec(self.downloading);
                no_effects()
            },
            CurrentScreen::Finished => {
                self.finished = scroll_up_exec(self.finished);
                no_effects()
            },
            CurrentScreen::Filter => {
                if self.filters.len() > 0 && !self.input_state.is_typing() {
                    match (self.filter_rule_selected, self.filter_id_selected) {
                        (Some(i), _) => {
                            self.filter_rule_selected = Some(dec_exec(i));
                        },
                        (None, Some(j)) => {
                            self.filter_id_selected = Some(dec_exec(j));
                        },
                        (None, None) => {
                            self.filter_id_selected = Some(self.filters.len() - 1);
                        },
                    }
                }
                no_effects()
            },
            CurrentScreen::Log => one_effect(UiEffect::LogPrevPage),
            _ => no_effects(),
        }
    }

    /// Right.
    fn handle_right(&mut self)
        requires
            key_ready(old(self)@, Key { code: KeyKind::Right, mods: KeyMods::Empty }),
        ensures
            final(self)@ == right_step(old(self)@),
    {
        let ghost v = self@;
        match &mut self.input_state {
            InputState::Text(editor) => {
                editor.right_arrow();
                return;
            },
            InputState::NotInput => {},
        }
        if self.current_screen == CurrentScreen::Filter && self.filter_rule_selected.is_none() {
            match self.filter_id_selected {
                Some(j) => {
                    if self.filters[j].subgroup.filter_list.len() > 0 {
                        self.filter_rule_selected = Some(0);
                    } else {
                        let mut f = self.take_filter(j);
                        let ghost l0 = f.subgroup.filter_list@;
                        let blank = String::new();
                        let ghost b = blank;
                        f.subgroup.filter_list.push(blank);
                        proof { assert(string_views(f.subgroup.filter_list@) =~= string_views(l0).push(b@)); }
                        self.put_filter(j, f);
                        self.input_state = InputState::empty_text();
                        self.filter_rule_selected = Some(0);
                        proof {
                            assert(self@.filters =~= with_rules(v.filters, j as int, v.filters[j as int].rules.push(Seq::empty())));
                        }
                    }
                },
                None => {},
            }
        }
    }

    /// Left.
    fn handle_left(&mut self)
        ensures
            final(self)@ == left_step(old(self)@),
    {
        match &mut self.input_state {
            InputState::Text(editor) => {
                editor.left_arrow();
                return;
            },
            InputState::NotInput => {},
        }
        if self.current_screen == CurrentScreen::Filter && self.filter_rule_selected.is_some() {
            self.filter_rule_selected = None;
        }
    }

    /// Whether the selected filter is there.
    fn filter_is_ok(&self) -> (r: bool)
        ensures
            r == filter_ok(self@),
    {
        match self.filter_id_selected {
            Some(j) => j < self.filters.len(),
            None => false,
        }
    }

    /// Whether the selected filter and its keyword `i` are there, `slack`
    /// past the end allowed.
    fn rule_is_ok(&self, i: usize, slack: usize) -> (r: bool)
        requires
            slack <= 1,
        ensures
            r == rule_ok(self@, i, slack as int),
    {
        match self.filter_id_selected {
            Some(j) => {
                if j < self.filters.len() {
                    let n = self.filters[j].subgroup.filter_list.len();
                    proof { assert(self@.filters[j as int].rules.len() == n); }
                    i < n || (slack == 1 && i == n)
                } else {
                    false
                }
            },
            None => false,
        }
    }

    /// Whether the filter at the selected position, if any, is there; one past
    /// the end allowed when `past_end`.
    fn id_is_ok(&self, past_end: bool) -> (r: bool)
        ensures
            r == (self.filter_id_selected matches Some(j) ==> (if past_end { j <= self.filters@.len() } else { j < self.filters@.len() })),
    {
        match self.filter_id_selected {
            Some(j) => if past_end { j <= self.filters.len() } else { j < self.filters.len() },
            None => true,
        }
    }

    /// Whether the entries `key` reads or changes are there, so that
    /// `handle_key_events` can take it.
    pub fn key_is_ready(&self, key: Key) -> (r: bool)
        ensures
            r == key_ready(self@, key),
    {
        if key.mods != KeyMods::Empty {
            if key.mods == KeyMods::Alt && self.current_screen == CurrentScreen::Filter {
                match (key.code, self.filter_rule_selected) {
                    (KeyKind::Up, Some(i)) => i == 0 || self.rule_is_ok(i, 0),
                    (KeyKind::Down, Some(_)) => self.filter_is_ok(),
                    _ => true,
                }
            } else {
                true
            }
        } else {
            let editing = match &self.input_state {
                InputState::Text(_) => true,
                InputState::NotInput => false,
            };
            match key.code {
                KeyKind::Char(c) => match &self.input_state {
                    InputState::Text(e) => e.can_insert(),
                    InputState::NotInput => {
                        let nav = c == 'q' || c == '1' || c == '2' || c == '3' || c == '4' || c == '5' || c == '6';
                        let main_ok = if !nav && self.current_screen == CurrentScreen::Main && self.current_popup.is_none()
                            && c == 'D' {
                            match self.rss_selected {
                                Some(i) => i < self.rss_data.len(),
                                None => true,
                            }
                        } else {
                            true
                        };
                        let filter_screen_ok = if !nav && self.current_screen == CurrentScreen::Filter
                            && self.current_popup.is_none() {
                            match self.filter_rule_selected {
                                Some(i) => (c != 'a' || self.rule_is_ok(i, 0)) && (c != 'i' || self.rule_is_ok(i, 1))
                                    && ((c != 'e' && c != 'D') || self.rule_is_ok(i, 0)),
                                None => (c != 'a' || self.id_is_ok(false)) && (c != 'i' || self.id_is_ok(true))
                                    && ((c != 'e' && c != 'D') || self.id_is_ok(false)),
                            }
                        } else {
                            true
                        };
                        main_ok && filter_screen_ok
                    },
                },
                KeyKind::Esc | KeyKind::Enter => {
                    if self.current_popup.is_none() && self.current_screen == CurrentScreen::Filter && editing {
                        match self.filter_rule_selected {
                            Some(i) => self.rule_is_ok(i, 0),
                            None => self.id_is_ok(false),
                        }
                    } else {
                        true
                    }
                },
                KeyKind::Down => {
                    if self.current_screen == CurrentScreen::Filter && self.filters.len() > 0 && !editing
                        && self.filter_rule_selected.is_some() {
                        self.filter_is_ok()
                    } else {
                        true
                    }
                },
                KeyKind::Right => {
                    if !editing && self.current_screen == CurrentScreen::Filter && self.filter_rule_selected.is_none() {
                        self.id_is_ok(false)
                    } else {
                        true
                    }
                },
                _ => true,
            }
        }
    }

    /// Handles a key: changes the state and gives whether the program is to
    /// leave and the effects to carry out, in order.
    pub fn handle_key_events(&mut self, key: Key) -> (r: (bool, Vec<UiEffect>))
        requires
            key_ready(old(self)@, key),
        ensures
            (final(self)@, effects_view(r.1@), r.0) == key_step(old(self)@, key),
    {
        if key.mods != KeyMods::Empty {
            return (false, self.handle_modified(key));
        }
        match key.code {
            KeyKind::Char(c) => {
                match &mut self.input_state {
                    InputState::Text(editor) => {
                        editor.insert(c);
                        return (false, no_effects());
                    },
                    InputState::NotInput => {},
                }
                self.handle_command_char(c)
            },
            KeyKind::Esc => {
                self.handle_esc();
                (false, no_effects())
            },
            KeyKind::Backspace => {
                match &mut self.input_state {
                    InputState::Text(editor) => editor.backspace(),
                    InputState::NotInput => {},
                }
                (false, no_effects())
            },
            KeyKind::Enter => (false, self.handle_enter()),
            KeyKind::Down => (false, self.handle_down()),
            KeyKind::Up => (false, self.handle_up()),
            KeyKind::Right => {
                self.handle_right();
                (false, no_effects())
            },
            KeyKind::Left => {
                self.handle_left();
                (false, no_effects())
            },
            KeyKind::Other => (false, no_effects()),
        }
    }
}

/// Every selection points at an entry that is there: a bangumi, a filter,
/// and a keyword of the selected filter.
pub open spec fn selections_ok(v: UiView) -> bool {
    &&& v.rss_sel matches Some(i) ==> i < v.rss.len()
    &&& v.id_sel matches Some(j) ==> j < v.filters.len()
    &&& v.rule_sel matches Some(i) ==> (v.id_sel matches Some(j) && j < v.filters.len() && i < v.filters[j as int].rules.len())
}

/// Moving with the arrow keys keeps every selection on an entry that is there.
pub proof fn law_arrows_keep_selections(v: UiView, code: KeyKind)
    requires
        selections_ok(v),
        code == KeyKind::Up || code == KeyKind::Down || code == KeyKind::Left || code == KeyKind::Right,
    ensures
        selections_ok(key_step(v, Key { code, mods: KeyMods::Empty }).0),
{
    let w = key_step(v, Key { code, mods: KeyMods::Empty }).0;
    if code == KeyKind::Right && v.input is None && v.screen == CurrentScreen::Filter && v.rule_sel is None && v.id_sel is Some {
        let j = v.id_sel->0 as int;
        if v.filters[j].rules.len() == 0 {
            assert(w.filters[j].rules =~= v.filters[j].rules.push(Seq::empty()));
        }
    }
}

/// Adding, inserting or editing on the filter screen keeps every selection on
/// an entry that is there.
pub proof fn law_filter_edits_keep_selections(v: UiView, c: char)
    requires
        selections_ok(v),
        key_ready(v, Key { code: KeyKind::Char(c), mods: KeyMods::Empty }),
        v.input is None,
        v.popup is None,
        v.screen == CurrentScreen::Filter,
        c == 'a' || c == 'i' || c == 'e',
    ensures
        selections_ok(key_step(v, Key { code: KeyKind::Char(c), mods: KeyMods::Empty }).0),
{
    let w = key_step(v, Key { code: KeyKind::Char(c), mods: KeyMods::Empty }).0;
    match (v.rule_sel, v.id_sel) {
        (Some(i), Some(j)) => {
            if c == 'a' {
                assert(w.filters[j as int].rules =~= v.filters[j as int].rules.insert(i + 1, Seq::empty()));
            } else if c == 'i' {
                assert(w.filters[j as int].rules =~= v.filters[j as int].rules.insert(i as int, Seq::empty()));
            }
        },
        _ => {},
    }
}

/// What a client does with a report on a download: a download that starts
/// gets a bar; a finished one fills its bar, and when its bar is unknown the
/// client is to ask the server for the whole state (`true`); a failed one
/// drops its bar.
pub fn apply_download_msg(suit: &mut ProgressSuit<SimpleBar>, msg: DownloadMsg) -> (need_sync: bool)
    requires
        old(suit).wf(),
    ensures
        final(suit).wf(),
        ({
            let id = msg.id.0 as u128;
            let before = old(suit)@;
            let after = final(suit)@;
            match msg.state {
                DownloadState::Start(info) => {
                    &&& after.list == before.list.push(id)
                    &&& after.bars == before.bars.insert(id, after.bars[id])
                    &&& after.bars[id].spec_name() == info.0@
                    &&& after.bars[id].bar_size() == info.1
                    &&& after.bars[id].bar_current() == 0
                    &&& after.bars[id].spec_current_speed() == 0
                    &&& !need_sync
                },
                DownloadState::Downloading(_) => after == before && !need_sync,
                DownloadState::Finished => if before.bars.contains_key(id) {
                    &&& after.list == before.list
                    &&& after.bars == before.bars.insert(id, before.bars[id].with_current(before.bars[id].bar_size()))
                    &&& !need_sync
                } else {
                    after == before && need_sync
                },
                DownloadState::Failed => {
                    &&& after.list == list_without(before.list, id)
                    &&& after.bars =~= before.bars.remove(id)
                    &&& !need_sync
                },
            }
        }),
{
    let id: u128 = msg.id.0 as u128;
    match msg.state {
        DownloadState::Start(info) => {
            let (name, size) = *info;
            suit.add(id, SimpleBar::new(name, size));
            false
        },
        DownloadState::Downloading(_) => false,
        DownloadState::Finished => {
            match suit.get_bar_mut(id) {
                Some(bar) => {
                    bar.inc_to_finished();
                    false
                },
                None => true,
            }
        },
        DownloadState::Failed => {
            suit.remove(id);
            false
        },
    }
}

/// The bars after the states reported, in order: each known bar takes the
/// count and the speed of its state; unknown ids are passed over.
pub open spec fn synced(bars: Map<u128, SimpleBar>, states: Seq<ProgressState>) -> Map<u128, SimpleBar>
    decreases states.len(),
{
    if states.len() == 0 {
        bars
    } else {
        let b = synced(bars, states.drop_last());
        let st = states.last();
        if b.contains_key(st.id) {
            b.insert(st.id, b[st.id].with_current(st.current_size).with_speed(st.current_speed))
        } else {
            b
        }
    }
}

proof fn lemma_synced_dom(bars: Map<u128, SimpleBar>, states: Seq<ProgressState>)
    ensures
        synced(bars, states).dom() == bars.dom(),
    decreases states.len(),
{
    if states.len() > 0 {
        lemma_synced_dom(bars, states.drop_last());
        let b = synced(bars, states.drop_last());
        let st = states.last();
        if b.contains_key(st.id) {
            assert(b.insert(st.id, b[st.id].with_current(st.current_size).with_speed(st.current_speed)).dom() =~= b.dom());
        }
    }
}

/// Some state names a download without a bar.
pub open spec fn lossy(bars: Map<u128, SimpleBar>, states: Seq<ProgressState>) -> bool {
    exists|i: int| 0 <= i < states.len() && !bars.contains_key(#[trigger] states[i].id)
}

/// What a client does with the server's download states: every known bar
/// takes its count and speed; the answer tells whether some state names a
/// download without a bar, in which case the client asks for the whole state.
pub fn apply_download_sync(suit: &mut ProgressSuit<SimpleBar>, states: &[ProgressState]) -> (is_lossy: bool)
    requires
        old(suit).wf(),
    ensures
        final(suit).wf(),
        final(suit)@.list == old(suit)@.list,
        final(suit)@.bars == synced(old(suit)@.bars, states@),
        is_lossy == lossy(old(suit)@.bars, states@),
{
    let ghost bars0 = suit@.bars;
    let mut is_lossy = false;
    let mut i: usize = 0;
    while i < states.len()
        invariant
            i <= states@.len(),
            suit.wf(),
            suit@.list == old(suit)@.list,
            bars0 == old(suit)@.bars,
            suit@.bars == synced(bars0, states@.take(i as int)),
            is_lossy == exists|k: int| 0 <= k < i && !bars0.contains_key(#[trigger] states@[k].id),
        decreases states@.len() - i,
    {
        let st = states[i];
        proof {
            assert(states@.take(i + 1).drop_last() =~= states@.take(i as int));
            assert(states@.take(i + 1).last() == st);
            lemma_synced_dom(bars0, states@.take(i as int));
        }
        match suit.get_bar_mut(st.id) {
            Some(bar) => {
                bar.set_current_size(st.current_size);
                bar.set_current_speed(st.current_speed);
            },
            None => {
                is_lossy = true;
            },
        }
        proof {
            if !bars0.contains_key(st.id) {
                assert(!bars0.contains_key(states@[i as int].id));
            }
        }
        i = i + 1;
    }
    proof { assert(states@.take(states@.len() as int) =~= states@); }
    is_lossy
}

/// The bangumi are ordered from the latest update to the oldest.
pub open spec fn latest_first(animes: Seq<Anime>) -> bool {
    forall|i: int, j: int| 0 <= i < j < animes.len() ==> not_after(animes[j].last_update, animes[i].last_update)
}

/// Two time stamps stand for the same instant.
pub open spec fn same_instant(a: TimeStamp, b: TimeStamp) -> bool {
    a.secs == b.secs && a.nanos == b.nanos
}

/// Whether a bangumi was last updated at the instant of `t`.
pub open spec fn updated_at_instant(t: TimeStamp) -> spec_fn(Anime) -> bool {
    |a: Anime| same_instant(a.last_update, t)
}

/// The bangumi of `animes` last updated at the instant of `t`, in order.
pub open spec fn updated_at(animes: Seq<Anime>, t: TimeStamp) -> Seq<Anime> {
    animes.filter(updated_at_instant(t))
}

/// Inserting `x` at `p`, after the entries strictly later than it, keeps the
/// bangumi of each instant in order with `x` first among its equals.
proof fn lemma_insert_keeps_instants(o: Seq<Anime>, p: int, x: Anime, t: TimeStamp)
    requires
        0 <= p <= o.len(),
        forall|k: int| 0 <= k < p ==> !not_after(#[trigger] o[k].last_update, x.last_update),
    ensures
        updated_at(o.insert(p, x), t) == updated_at(seq![x] + o, t),
{
    let pred = updated_at_instant(t);
    let a = o.take(p);
    let b = o.skip(p);
    assert(o =~= a + b);
    assert(o.insert(p, x) =~= (a + seq![x]) + b);
    Seq::filter_distributes_over_add(a + seq![x], b, pred);
    Seq::filter_distributes_over_add(a, seq![x], pred);
    Seq::filter_distributes_over_add(a, b, pred);
    o.lemma_filter_prepend(x, pred);
    seq![x].lemma_filter_prepend(x, pred);
    assert(seq![x] + Seq::<Anime>::empty() =~= seq![x]);
    Seq::<Anime>::empty().lemma_filter_prepend(x, pred);
    assert(Seq::<Anime>::empty().filter(pred) =~= Seq::<Anime>::empty());
    if pred(x) {
        assert forall|k: int| 0 <= k < a.len() implies !pred(#[trigger] a[k]) by {
            assert(a[k] == o[k]);
        }
        assert(a.all(|y: Anime| !pred(y)));
        a.lemma_all_neg_filter_empty(pred);
        assert(a.filter(pred) =~= Seq::<Anime>::empty());
        assert(a.filter(pred) + seq![x] =~= seq![x]);
        assert(seq![x] + b.filter(pred) =~= seq![x] + (a.filter(pred) + b.filter(pred)));
    } else {
        assert(a.filter(pred) + Seq::<Anime>::empty() =~= a.filter(pred));
        assert(Seq::<Anime>::empty() + o.filter(pred) =~= o.filter(pred));
    }
}

/// Orders bangumi from the latest update to the oldest; those updated at the
/// same instant keep their order.
pub fn sort_by_update(animes: Vec<Anime>) -> (r: Vec<Anime>)
    ensures
        latest_first(r@),
        r@.to_multiset() == animes@.to_multiset(),
        forall|t: TimeStamp| #[trigger] updated_at(r@, t) == updated_at(animes@, t),
{
    broadcast use vstd::seq_lib::group_to_multiset_ensures, vstd::multiset::group_multiset_axioms, vstd::multiset::lemma_multiset_empty_len;
    let mut input = animes;
    let ghost all = input@;
    let mut out: Vec<Anime> = Vec::new();
    proof {
        vstd::seq_lib::to_multiset_len(out@);
        assert(out@.to_multiset().len() == 0);
        assert(out@.to_multiset() =~= vstd::multiset::Multiset::<Anime>::empty());
        assert(input@.to_multiset().add(out@.to_multiset()) =~= all.to_multiset());
        assert(all.skip(all.len() as int) =~= Seq::<Anime>::empty());
        assert(all.take(all.len() as int) =~= all);
    }
    while input.len() > 0
        invariant
            latest_first(out@),
            input@.to_multiset().add(out@.to_multiset()) == all.to_multiset(),
            input@.len() <= all.len(),
            input@ == all.take(input@.len() as int),
            forall|t: TimeStamp| #[trigger] updated_at(out@, t) == updated_at(all.skip(input@.len() as int), t),
        decreases input@.len(),
    {
        let ghost before = input@;
        let x = input.pop().unwrap();
        proof { assert(before == input@.push(x)); }
        let mut p: usize = 0;
        while p < out.len() && !out[p].last_update.not_after(&x.last_update)
            invariant
                p <= out@.len(),
                forall|k: int| 0 <= k < p ==> !not_after(#[trigger] out@[k].last_update, x.last_update),
            decreases out@.len() - p,
        {
            p = p + 1;
        }
        let ghost o = out@;
        out.insert(p, x);
        proof {
            assert forall|a: int, b: int| 0 <= a < b < out@.len() implies not_after(#[trigger] out@[b].last_update, #[trigger] out@[a].last_update) by {
                if b < p {
                    assert(out@[a] == o[a] && out@[b] == o[b]);
                } else if b == p {
                    assert(out@[b] == x);
                    assert(out@[a] == o[a]);
                } else if a == p {
                    assert(out@[a] == x);
                    assert(out@[b] == o[b - 1]);
                    assert(not_after(o[p as int].last_update, x.last_update));
                    if b - 1 > p {
                        assert(not_after(o[b - 1].last_update, o[p as int].last_update));
                    }
                } else if a < p {
                    assert(out@[a] == o[a] && out@[b] == o[b - 1]);
                } else {
                    assert(out@[a] == o[a - 1] && out@[b] == o[b - 1]);
                }
            }
            vstd::seq_lib::to_multiset_insert(o, p as int, x);
            vstd::seq_lib::to_multiset_build(input@, x);
            assert(out@.to_multiset() == o.to_multiset().insert(x));
            assert(before.to_multiset() == input@.to_multiset().insert(x));
            assert(input@.to_multiset().add(out@.to_multiset()) =~= before.to_multiset().add(o.to_multiset()));
            let n = before.len() as int;
            assert(x == all[n - 1]);
            assert(input@ =~= all.take(n - 1));
            assert(all.skip(n - 1) =~= seq![x] + all.skip(n));
            assert(out@ =~= o.insert(p as int, x));
            assert forall|t: TimeStamp| #[trigger] updated_at(out@, t) == updated_at(all.skip(input@.len() as int), t) by {
                lemma_insert_keeps_instants(o, p as int, x, t);
                let pred = updated_at_instant(t);
                o.lemma_filter_prepend(x, pred);
                all.skip(n).lemma_filter_prepend(x, pred);
                assert(updated_at(o, t) == updated_at(all.skip(n), t));
            }
        }
    }
    proof {
        vstd::seq_lib::to_multiset_len(input@);
        assert(input@.to_multiset().len() == 0);
        assert(input@.to_multiset() =~= vstd::multiset::Multiset::<Anime>::empty());
        assert(input@.to_multiset().add(out@.to_multiset()) =~= out@.to_multiset());
        assert(all.skip(0) =~= all);
    }
    out
}

impl UiState {
    /// New RSS data from the server: the bangumi are shown from the latest
    /// update on, those updated at the same instant in the order they came,
    /// and the bangumi that was selected stays selected where it
    /// now is, if it is still there.
    pub fn receive_animes(&mut self, animes: Vec<Anime>)
        requires
            old(self).rss_selected matches Some(i) ==> i < old(self).rss_data@.len(),
        ensures
            latest_first(final(self).rss_data@),
            final(self).rss_data@.to_multiset() == animes@.to_multiset(),
            forall|t: TimeStamp| #[trigger] updated_at(final(self).rss_data@, t) == updated_at(animes@, t),
            final(self).rss_selected == match old(self).rss_selected {
                Some(i) => {
                    let k = first_pos(anime_ids(final(self).rss_data@), old(self).rss_data@[i as int].id@);
                    if k >= 0 { Some(k as usize) } else { None::<usize> }
                },
                None => None::<usize>,
            },
            final(self)@ == (UiView { rss: final(self)@.rss, rss_sel: final(self)@.rss_sel, ..old(self)@ }),
    {
        let sorted = sort_by_update(animes);
        match self.rss_selected {
            Some(i) => {
                let current_id = self.rss_data[i].id.clone();
                self.rss_selected = find_anime(&sorted, &current_id);
            },
            None => {},
        }
        self.rss_data = sorted;
    }

    /// New filters from the server: nothing is selected any more.
    pub fn receive_filters(&mut self, filters: Vec<Filter>)
        ensures
            final(self)@ == (UiView {
                filters: filters@.map_values(|f: Filter| filter_view(f)),
                id_sel: None,
                rule_sel: None,
                ..old(self)@
            }),
    {
        self.filter_id_selected = None;
        self.filter_rule_selected = None;
        self.filters = filters;
    }
}

/// Every entry before the first position of `x` differs from `x`.
proof fn lemma_first_pos_first(s: Seq<Seq<char>>, x: Seq<char>)
    ensures
        forall|j: int| 0 <= j < first_pos(s, x) ==> s[j] != x,
    decreases s.len(),
{
    if s.len() > 0 && s[0] != x {
        let t = s.drop_first();
        lemma_first_pos_first(t, x);
        lemma_first_pos_found(s, x);
        assert forall|j: int| 0 <= j < first_pos(s, x) implies s[j] != x by {
            if j > 0 {
                assert(s[j] == t[j - 1]);
            }
        }
    }
}

/// Confirming the deletion of a subtitle group's filter ('y' or 'Y') closes
/// the question, removes the first filter with that id from the list and
/// sends the server exactly one `DelFilter` carrying that id; when no filter
/// has the id, nothing is removed and nothing is sent.
pub proof fn law_confirmed_filter_deletion_is_sent(v: UiView, c: char, q: Seq<char>, t: Seq<char>, fid: Seq<char>)
    requires
        v.input is None,
        v.popup == Some(PopupView::Confirm(q, t, ConfirmView::DeleteFilter(fid))),
        c == 'y' || c == 'Y',
    ensures
        ({
            let r = key_step(v, Key { code: KeyKind::Char(c), mods: KeyMods::Empty });
            &&& !r.2
            &&& r.0.popup is None
            &&& r.0.screen == v.screen
            &&& r.0.rss == v.rss
            &&& filter_ids(v.filters).contains(fid) ==> {
                &&& r.1 == seq![EffectView::DelFilter(fid)]
                &&& exists|k: int|
                    0 <= k < v.filters.len() && #[trigger] v.filters[k].id == fid
                        && (forall|j: int| 0 <= j < k ==> v.filters[j].id != fid)
                        && r.0.filters == v.filters.remove(k)
            }
            &&& !filter_ids(v.filters).contains(fid) ==> r.1.len() == 0 && r.0.filters == v.filters
        }),
{
    let ids = filter_ids(v.filters);
    lemma_first_pos_found(ids, fid);
    lemma_first_pos_first(ids, fid);
    let k = first_pos(ids, fid);
    if k >= 0 {
        assert(ids[k] == v.filters[k].id);
        assert forall|j: int| 0 <= j < k implies v.filters[j].id != fid by {
            assert(ids[j] == v.filters[j].id);
        }
        assert(ids.contains(fid));
    } else {
        assert(!ids.contains(fid));
    }
}

/// Confirming that a bangumi is no longer followed ('y' or 'Y') closes the
/// question, removes the first bangumi with that id and sends the server
/// exactly one `DeleteAnime` carrying that id; an unknown id changes and
/// sends nothing.
pub proof fn law_confirmed_anime_deletion_is_sent(v: UiView, c: char, q: Seq<char>, t: Seq<char>, id: Seq<char>)
    requires
        v.input is None,
        v.popup == Some(PopupView::Confirm(q, t, ConfirmView::DeleteAnime(id))),
        c == 'y' || c == 'Y',
    ensures
        ({
            let r = key_step(v, Key { code: KeyKind::Char(c), mods: KeyMods::Empty });
            &&& !r.2
            &&& r.0.popup is None
            &&& r.0.filters == v.filters
            &&& anime_ids(v.rss).contains(id) ==> {
                &&& r.1 == seq![EffectView::DeleteAnime(id)]
                &&& exists|k: int|
                    0 <= k < v.rss.len() && #[trigger] v.rss[k].id@ == id
                        && (forall|j: int| 0 <= j < k ==> v.rss[j].id@ != id)
                        && r.0.rss == v.rss.remove(k)
            }
            &&& !anime_ids(v.rss).contains(id) ==> r.1.len() == 0 && r.0.rss == v.rss
        }),
{
    let ids = anime_ids(v.rss);
    lemma_first_pos_found(ids, id);
    lemma_first_pos_first(ids, id);
    let k = first_pos(ids, id);
    if k >= 0 {
        assert(ids[k] == v.rss[k].id@);
        assert forall|j: int| 0 <= j < k implies v.rss[j].id@ != id by {
            assert(ids[j] == v.rss[j].id@);
        }
        assert(ids.contains(id));
    } else {
        assert(!ids.contains(id));
    }
}

/// Answering 'n' or 'N' to a question only closes it: nothing is deleted and
/// nothing is sent.
pub proof fn law_declined_question_changes_nothing(v: UiView, c: char, q: Seq<char>, t: Seq<char>, a: ConfirmView)
    requires
        v.input is None,
        v.popup == Some(PopupView::Confirm(q, t, a)),
        c == 'n' || c == 'N',
    ensures
        key_step(v, Key { code: KeyKind::Char(c), mods: KeyMods::Empty }) == (UiView { popup: None, ..v }, Seq::<EffectView>::empty(), false),
{
}

/// Enter in the popup for an RSS link sends the server the typed link to
/// follow (`AddRSS`), and in the popup for a cloud folder the typed folder id
/// to download (`DownloadFolder`); either way the popup and the typing close.
/// With nothing typed nothing is sent and the popup stays.
pub proof fn law_enter_sends_the_typed_text(v: UiView, e: EditorView)
    requires
        v.input == Some(e),
        v.popup == Some(PopupView::AddRSSLink) || v.popup == Some(PopupView::DownloadFolder),
    ensures
        ({
            let r = key_step(v, Key { code: KeyKind::Enter, mods: KeyMods::Empty });
            &&& !r.2
            &&& (e.text.len() > 0 && v.popup == Some(PopupView::AddRSSLink)) ==> r.1 == seq![EffectView::AddRSS(e.text)]
            &&& (e.text.len() > 0 && v.popup == Some(PopupView::DownloadFolder)) ==> r.1 == seq![EffectView::DownloadFolder(e.text)]
            &&& e.text.len() > 0 ==> r.0 == UiView { input: None, popup: None, ..v }
            &&& e.text.len() == 0 ==> r.1.len() == 0 && r.0.popup == v.popup
        }),
{
}

/// On the state screen, with no popup and nothing typed, 'r' asks the server
/// to resume its waiting jobs, sending exactly one `Recover`, when there are
/// any, and sends nothing when there are none; the interface stays as it is.
pub proof fn law_r_resumes_waiting_jobs(v: UiView)
    requires
        v.screen == CurrentScreen::State,
        v.popup is None,
        v.input is None,
    ensures
        ({
            let r = key_step(v, Key { code: KeyKind::Char('r'), mods: KeyMods::Empty });
            &&& r.0 == v
            &&& !r.2
            &&& v.waiting > 0 ==> r.1 == seq![EffectView::Recover]
            &&& v.waiting == 0 ==> r.1.len() == 0
        }),
{
}

/// On the main screen, with no popup and nothing typed: 'a' opens the popup
/// for an RSS link with an empty input and sends nothing; 'l' opens the login
/// popup and sends a login request; once logged in, 'r' asks the server to
/// refresh the feeds and starts the loading animation, and 'd' opens the
/// popup for a cloud folder; before a login, 'r' and 'd' only tell to log in
/// first.
pub proof fn law_main_screen_commands(v: UiView)
    requires
        v.screen == CurrentScreen::Main,
        v.popup is None,
        v.input is None,
    ensures
        key_step(v, Key { code: KeyKind::Char('a'), mods: KeyMods::Empty }) == (
        UiView { input: Some(empty_editor()), popup: Some(PopupView::AddRSSLink), ..v }, Seq::<EffectView>::empty(), false),
        key_step(v, Key { code: KeyKind::Char('l'), mods: KeyMods::Empty }) == (
        UiView { popup: Some(PopupView::Login), ..v }, seq![EffectView::LoginReq], false),
        v.logged_in ==> key_step(v, Key { code: KeyKind::Char('r'), mods: KeyMods::Empty }) == (
        v, seq![EffectView::RefreshRSS, EffectView::StartLoading], false),
        v.logged_in ==> key_step(v, Key { code: KeyKind::Char('d'), mods: KeyMods::Empty }) == (
        UiView { input: Some(empty_editor()), popup: Some(PopupView::DownloadFolder), ..v }, Seq::<EffectView>::empty(), false),
        !v.logged_in ==> key_step(v, Key { code: KeyKind::Char('r'), mods: KeyMods::Empty }) == (v, seq![login_first()], false),
        !v.logged_in ==> key_step(v, Key { code: KeyKind::Char('d'), mods: KeyMods::Empty }) == (v, seq![login_first()], false),
{
}

/// On the main screen, with no popup and nothing typed, 'D' asks whether to
/// stop following the selected bangumi, naming it, and the question carries
/// that bangumi's id; nothing is sent yet.
pub proof fn law_delete_anime_asks_first(v: UiView, i: usize)
    requires
        v.screen == CurrentScreen::Main,
        v.popup is None,
        v.input is None,
        v.rss_sel == Some(i),
    ensures
        ({
            let r = key_step(v, Key { code: KeyKind::Char('D'), mods: KeyMods::Empty });
            &&& r.1.len() == 0
            &&& !r.2
            &&& r.0.rss == v.rss
            &&& r.0.popup matches Some(PopupView::Confirm(_, name, ConfirmView::DeleteAnime(id))) && id == v.rss[i as int].id@
                && name == v.rss[i as int].name@
        }),
{
}

/// On the filter screen, with no popup and nothing typed, 'D' asks whether to
/// delete the selected keyword, or the selected filter when no keyword is
/// selected; the question carries the group's id (and the keyword), and
/// nothing is changed or sent yet.
pub proof fn law_filter_delete_asks_first(v: UiView, j: usize)
    requires
        v.screen == CurrentScreen::Filter,
        v.popup is None,
        v.input is None,
        v.id_sel == Some(j),
    ensures
        ({
            let r = key_step(v, Key { code: KeyKind::Char('D'), mods: KeyMods::Empty });
            &&& r.1.len() == 0
            &&& !r.2
            &&& r.0.filters == v.filters
            &&& v.rule_sel is None ==> (r.0.popup matches Some(PopupView::Confirm(_, _, ConfirmView::DeleteFilter(id)))
                && id == v.filters[j as int].id)
            &&& v.rule_sel matches Some(i) ==> (r.0.popup matches Some(PopupView::Confirm(_, _, ConfirmView::DeleteRule(id, rule)))
                && id == v.filters[j as int].id && rule == v.filters[j as int].rules[i as int])
        }),
{
}

/// Confirming the deletion of a keyword ('y' or 'Y') removes its first
/// occurrence from the first filter with that id and sends the server that
/// filter, as it now is, to store in place of the old one.
pub proof fn law_confirmed_rule_deletion_is_sent(v: UiView, c: char, q: Seq<char>, t: Seq<char>, fid: Seq<char>, rule: Seq<char>)
    requires
        v.input is None,
        v.popup == Some(PopupView::Confirm(q, t, ConfirmView::DeleteRule(fid, rule))),
        c == 'y' || c == 'Y',
    ensures
        ({
            let r = key_step(v, Key { code: KeyKind::Char(c), mods: KeyMods::Empty });
            let k = first_pos(filter_ids(v.filters), fid);
            &&& !r.2
            &&& r.0.popup is None
            &&& (k >= 0 && v.filters[k].rules.contains(rule)) ==> {
                &&& v.filters[k].id == fid
                &&& r.0.filters.len() == v.filters.len()
                &&& r.0.filters[k].id == fid
                &&& r.0.filters[k].rules.len() + 1 == v.filters[k].rules.len()
                &&& r.1 == seq![EffectView::InsertFilter(r.0.filters[k])]
            }
            &&& !(k >= 0 && v.filters[k].rules.contains(rule)) ==> r.1.len() == 0 && r.0.filters == v.filters
        }),
{
    let ids = filter_ids(v.filters);
    lemma_first_pos_found(ids, fid);
    let k = first_pos(ids, fid);
    if k >= 0 {
        assert(ids[k] == v.filters[k].id);
        lemma_first_pos_found(v.filters[k].rules, rule);
    }
}

/// 'q' with no popup and nothing typed tells the server the client leaves,
/// then leaves; with a popup open it does nothing.
pub proof fn law_q_leaves(v: UiView)
    requires
        v.input is None,
    ensures
        v.popup is None ==> key_step(v, Key { code: KeyKind::Char('q'), mods: KeyMods::Empty }) == (v, seq![
            EffectView::ExitMsg,
            EffectView::Exit,
        ], true),
        v.popup is Some ==> key_step(v, Key { code: KeyKind::Char('q'), mods: KeyMods::Empty }) == (v, Seq::<EffectView>::empty(), false),
{
}

/// Alt with Up or Down on the filter screen moves the selected keyword one
/// place, the selection following it, and sends the filter so changed; at the
/// end of the list it does nothing.
pub proof fn law_alt_moves_a_keyword(v: UiView, i: usize, j: usize)
    requires
        v.screen == CurrentScreen::Filter,
        v.rule_sel == Some(i),
        v.id_sel == Some(j),
        j < v.filters.len(),
        i < v.filters[j as int].rules.len(),
    ensures
        ({
            let r = key_step(v, Key { code: KeyKind::Up, mods: KeyMods::Alt });
            let rules = v.filters[j as int].rules;
            &&& i > 0 ==> {
                &&& r.0.rule_sel == Some((i - 1) as usize)
                &&& r.0.filters[j as int].rules == rules.update(i - 1, rules[i as int]).update(i as int, rules[i - 1])
                &&& r.0.filters[j as int].id == v.filters[j as int].id
                &&& r.1 == seq![EffectView::InsertFilter(r.0.filters[j as int])]
            }
            &&& i == 0 ==> r.0 == v && r.1.len() == 0
        }),
        ({
            let r = key_step(v, Key { code: KeyKind::Down, mods: KeyMods::Alt });
            let rules = v.filters[j as int].rules;
            &&& i + 1 < rules.len() ==> {
                &&& r.0.rule_sel == Some((i + 1) as usize)
                &&& r.0.filters[j as int].rules == rules.update(i + 1, rules[i as int]).update(i as int, rules[i + 1])
                &&& r.0.filters[j as int].id == v.filters[j as int].id
                &&& r.1 == seq![EffectView::InsertFilter(r.0.filters[j as int])]
            }
            &&& i + 1 == rules.len() ==> r.0 == v && r.1.len() == 0
        }),
{
    let rules = v.filters[j as int].rules;
    if i > 0 {
        assert(swapped(rules, i as int, i - 1) =~= rules.update(i - 1, rules[i as int]).update(i as int, rules[i - 1]));
    }
    if i + 1 < rules.len() {
        assert(swapped(rules, i as int, i + 1) =~= rules.update(i + 1, rules[i as int]).update(i as int, rules[i + 1]));
    }
}

} // verus!
