//! State of the terminal dashboard: screens, selection, confirmations and
//! how each key press changes them. Times are milliseconds of a monotonic
//! clock read by the caller.

use vstd::prelude::*;
use vstd::utf8::*;
use vstd::string::StringSliceAdditionalSpecFns;
use crate::protocol::{
    ClusterStatusResponse, EventResponse, ModelSummary, NodeDetailResponse, NodeSummary,
    RequestSummary,
};

verus! {

broadcast use vstd::utf8::encode_utf8_decode_utf8;

/// Available dashboard screens.
#[derive(Debug, Clone, Copy, PartialEq, Eq, Structural)]
pub enum Screen {
    Overview,
    Nodes,
    NodeDetail,
    Models,
    Requests,
    Events,
    Config,
    Help,
}

/// The navigable screens in tab order (the node detail screen is reached
/// from the node list, not by tab).
pub open spec fn all_screens() -> Seq<Screen> {
    seq![
        Screen::Overview,
        Screen::Nodes,
        Screen::Models,
        Screen::Requests,
        Screen::Events,
        Screen::Config,
        Screen::Help,
    ]
}

/// The tab label of a screen.
pub open spec fn screen_label(s: Screen) -> Seq<char> {
    match s {
        Screen::Overview => "Overview"@,
        Screen::Nodes => "Nodes"@,
        Screen::NodeDetail => "Node"@,
        Screen::Models => "Models"@,
        Screen::Requests => "Requests"@,
        Screen::Events => "Events"@,
        Screen::Config => "Config"@,
        Screen::Help => "Help"@,
    }
}

/// The position of a screen in tab order; the node detail screen, which
/// has none, counts as the first.
pub open spec fn tab_position(s: Screen) -> int {
    match s {
        Screen::Overview => 0,
        Screen::Nodes => 1,
        Screen::NodeDetail => 0,
        Screen::Models => 2,
        Screen::Requests => 3,
        Screen::Events => 4,
        Screen::Config => 5,
        Screen::Help => 6,
    }
}

/// The screen the tab key leads to, forward or backward, wrapping around.
pub open spec fn next_tab(s: Screen, forward: bool) -> Screen {
    let c = tab_position(s);
    all_screens()[if forward { (c + 1) % 7 } else { (c + 6) % 7 }]
}

impl Screen {
    /// All navigable screens in tab order.
    pub fn all() -> (r: Vec<Screen>)
        ensures
            r@ == all_screens(),
    {
        let r = vec![
            Screen::Overview,
            Screen::Nodes,
            Screen::Models,
            Screen::Requests,
            Screen::Events,
            Screen::Config,
            Screen::Help,
        ];
        assert(r@ =~= all_screens());
        r
    }

    /// Human-readable tab label.
    pub fn label(self) -> (r: &'static str)
        ensures
            r@ == screen_label(self),
    {
        match self {
            Screen::Overview => "Overview",
            Screen::Nodes => "Nodes",
            Screen::NodeDetail => "Node",
            Screen::Models => "Models",
            Screen::Requests => "Requests",
            Screen::Events => "Events",
            Screen::Config => "Config",
            Screen::Help => "Help",
        }
    }
}

/// Pending destructive action awaiting confirmation.
#[derive(Debug)]
pub enum PendingAction {
    DisableNode { name: String },
    DrainNode { name: String },
}

impl Clone for PendingAction {
    fn clone(&self) -> (r: Self)
        ensures
            r == *self,
    {
        match self {
            PendingAction::DisableNode { name } => PendingAction::DisableNode { name: name.clone() },
            PendingAction::DrainNode { name } => PendingAction::DrainNode { name: name.clone() },
        }
    }
}

/// The node an action is about.
pub open spec fn action_node(a: PendingAction) -> Seq<char> {
    match a {
        PendingAction::DisableNode { name } => name@,
        PendingAction::DrainNode { name } => name@,
    }
}

/// A key on the keyboard.
#[derive(Debug, Clone, Copy, PartialEq, Eq, Structural)]
pub enum KeyCode {
    Char(char),
    F(u8),
    Tab,
    BackTab,
    Up,
    Down,
    Enter,
    Esc,
    Other,
}

/// Modifier keys held with a key.
#[derive(Debug, Clone, Copy, PartialEq, Eq, Structural)]
pub struct KeyModifiers {
    pub control: bool,
    pub shift: bool,
    pub alt: bool,
}

impl KeyModifiers {
    /// Whether no modifier key is held.
    pub fn is_empty(&self) -> (r: bool)
        ensures
            r == (!self.control && !self.shift && !self.alt),
    {
        !self.control && !self.shift && !self.alt
    }
}

/// A key press.
#[derive(Debug, Clone, Copy, PartialEq, Eq, Structural)]
pub struct KeyEvent {
    pub code: KeyCode,
    pub modifiers: KeyModifiers,
}

/// Snapshot of management API data shown in the dashboard; the
/// configuration is held as its pretty-printed JSON text.
#[derive(Debug)]
pub struct DashboardData {
    pub status: Option<ClusterStatusResponse>,
    pub nodes: Vec<NodeSummary>,
    pub models: Vec<ModelSummary>,
    pub requests: Vec<RequestSummary>,
    pub events: Vec<EventResponse>,
    pub config: Option<String>,
    pub node_detail: Option<NodeDetailResponse>,
    pub last_error: Option<String>,
}

impl Default for DashboardData {
    fn default() -> (r: Self)
        ensures
            r.status is None,
            r.nodes@.len() == 0,
            r.models@.len() == 0,
            r.requests@.len() == 0,
            r.events@.len() == 0,
            r.config is None,
            r.node_detail is None,
            r.last_error is None,
    {
        DashboardData {
            status: None,
            nodes: Vec::new(),
            models: Vec::new(),
            requests: Vec::new(),
            events: Vec::new(),
            config: None,
            node_detail: None,
            last_error: None,
        }
    }
}

/// What the dashboard asks its driver to do against the management API
/// after a key press on the node screens.
#[derive(Debug)]
pub enum DashboardCommand {
    /// Run a confirmed action.
    Execute(PendingAction),
    /// Enable this node.
    EnableNode(String),
    /// Probe this node.
    ProbeNode(String),
    /// Synchronise models across the cluster.
    SyncModels,
    /// Nothing to run.
    Nothing,
}

/// Dashboard application state.
#[derive(Debug)]
pub struct App {
    pub screen: Screen,
    pub data: DashboardData,
    pub selected_index: usize,
    pub status_message: String,
    pub pending_action: Option<PendingAction>,
    pub quit: bool,
    pub force_refresh: bool,
    pub last_refresh_ms: u64,
}

/// The data refresh period.
pub open spec fn refresh_period_ms() -> u64 {
    2000
}

/// The length of the list the current screen shows.
pub open spec fn list_len(app: App) -> int {
    match app.screen {
        Screen::Nodes | Screen::NodeDetail => app.data.nodes@.len() as int,
        Screen::Models => app.data.models@.len() as int,
        Screen::Requests => app.data.requests@.len() as int,
        Screen::Events => app.data.events@.len() as int,
        _ => 0,
    }
}

/// The selection kept within the current list: the last entry when past
/// its end, 0 for an empty list.
pub open spec fn clamped_index(app: App) -> usize {
    let len = list_len(app);
    if len == 0 {
        0
    } else if app.selected_index >= len {
        (len - 1) as usize
    } else {
        app.selected_index
    }
}

/// The name of the selected node, or the empty text when the selection is
/// past the node list.
pub open spec fn selected_name(app: App) -> Seq<char> {
    if app.selected_index < app.data.nodes@.len() {
        app.data.nodes@[app.selected_index as int].name@
    } else {
        Seq::empty()
    }
}

/// `b` is `a` with only the screen, selection and node detail changed.
pub open spec fn same_but_view(a: App, b: App) -> bool {
    b == App { screen: b.screen, selected_index: b.selected_index, data: b.data, ..a }
        && b.data == DashboardData { node_detail: b.data.node_detail, ..a.data }
}

/// The state after moving to the next (or previous) tab.
pub open spec fn tab_moved(a: App, b: App, forward: bool) -> bool {
    &&& same_but_view(a, b)
    &&& b.screen == next_tab(a.screen, forward)
    &&& b.selected_index == 0
    &&& b.data.node_detail is None
}

/// The state after queueing an action on the selected node: unchanged when
/// no node is selected.
pub open spec fn queued(a: App, b: App, disable: bool) -> bool {
    if selected_name(a).len() == 0 {
        b == a
    } else {
        &&& b == App { pending_action: b.pending_action, ..a }
        &&& b.pending_action matches Some(p) && action_node(p) == selected_name(a) && (if disable {
            p is DisableNode
        } else {
            p is DrainNode
        })
    }
}

/// The state after a key press while an action awaits confirmation: `n`
/// and Escape cancel it, other keys change nothing (confirmation itself is
/// taken on the node screens).
pub open spec fn confirm_key_post(a: App, key: KeyEvent, b: App) -> bool {
    if key.code == KeyCode::Char('n') || key.code == KeyCode::Esc {
        &&& b == App { status_message: b.status_message, pending_action: None, ..a }
        &&& b.status_message@ == "Action cancelled"@
    } else {
        b == a
    }
}

/// The state after a key press.
pub open spec fn key_post(a: App, key: KeyEvent, b: App) -> bool {
    if key.modifiers.control && key.code == KeyCode::Char('c') {
        b == App { quit: true, ..a }
    } else if a.pending_action is Some {
        confirm_key_post(a, key, b)
    } else {
        match key.code {
            KeyCode::Char('q') => b == App { quit: true, ..a },
            KeyCode::Char('?') | KeyCode::F(1) => b == App { screen: Screen::Help, ..a },
            KeyCode::Tab => tab_moved(a, b, true),
            KeyCode::BackTab => tab_moved(a, b, false),
            KeyCode::Char('r') => b == App { force_refresh: true, ..a },
            KeyCode::Up | KeyCode::Char('k') => b == App {
                selected_index: if a.selected_index == 0 { 0 } else { (a.selected_index - 1) as usize },
                ..a
            },
            KeyCode::Down | KeyCode::Char('j') => {
                let moved = App {
                    selected_index: if a.selected_index == usize::MAX { usize::MAX } else { (
                    a.selected_index + 1) as usize },
                    ..a
                };
                b == App { selected_index: clamped_index(moved), ..moved }
            },
            KeyCode::Enter => if a.screen == Screen::Nodes && a.data.nodes@.len() > 0 {
                b == App { screen: Screen::NodeDetail, force_refresh: true, ..a }
            } else {
                b == a
            },
            KeyCode::Char('d') => queued(a, b, true),
            KeyCode::Char('D') => queued(a, b, false),
            _ => b == a,
        }
    }
}

impl App {
    /// A new dashboard on the overview screen that refreshes at once.
    pub fn new(now_ms: u64) -> (r: App)
        ensures
            r.screen == Screen::Overview,
            r.data.status is None,
            r.data.nodes@.len() == 0,
            r.data.node_detail is None,
            r.data.last_error is None,
            r.selected_index == 0,
            r.status_message@ == "Connecting…"@,
            r.pending_action is None,
            !r.quit,
            r.force_refresh,
            r.last_refresh_ms == (if now_ms >= 10_000 { now_ms - 10_000 } else { 0 }),
    {
        App {
            screen: Screen::Overview,
            data: DashboardData::default(),
            selected_index: 0,
            status_message: "Connecting…".to_owned(),
            pending_action: None,
            quit: false,
            force_refresh: true,
            last_refresh_ms: now_ms.saturating_sub(10_000),
        }
    }

    /// Whether data should be refreshed from the management API: on
    /// demand, or once the refresh period has passed.
    pub fn should_refresh(&self, now_ms: u64) -> (r: bool)
        ensures
            r == (self.force_refresh || now_ms >= self.last_refresh_ms + refresh_period_ms()),
    {
        self.force_refresh || now_ms.saturating_sub(self.last_refresh_ms) >= 2000
    }

    /// Mark refresh complete.
    pub fn refreshed(&mut self, now_ms: u64)
        ensures
            *final(self) == (App { force_refresh: false, last_refresh_ms: now_ms, ..*old(self) }),
    {
        self.force_refresh = false;
        self.last_refresh_ms = now_ms;
    }

    /// Move tab selection forward or backward.
    pub fn next_screen(&mut self, forward: bool)
        ensures
            tab_moved(*old(self), *final(self), forward),
    {
        let screens = Screen::all();
        let current: usize = match self.screen {
            Screen::Overview => 0,
            Screen::Nodes => 1,
            Screen::NodeDetail => 0,
            Screen::Models => 2,
            Screen::Requests => 3,
            Screen::Events => 4,
            Screen::Config => 5,
            Screen::Help => 6,
        };
        let next = if forward {
            (current + 1) % screens.len()
        } else {
            (current + screens.len() - 1) % screens.len()
        };
        self.screen = screens[next];
        self.selected_index = 0;
        if self.screen != Screen::NodeDetail {
            self.data.node_detail = None;
        }
    }

    /// Clamp list selection after data changes.
    pub fn clamp_selection(&mut self)
        ensures
            *final(self) == (App { selected_index: clamped_index(*old(self)), ..*old(self) }),
    {
        let len = match self.screen {
            Screen::Nodes | Screen::NodeDetail => self.data.nodes.len(),
            Screen::Models => self.data.models.len(),
            Screen::Requests => self.data.requests.len(),
            Screen::Events => self.data.events.len(),
            _ => 0,
        };
        if len == 0 {
            self.selected_index = 0;
        } else if self.selected_index >= len {
            self.selected_index = len - 1;
        }
    }

    /// Handle keyboard input.
    pub fn handle_key(&mut self, key: KeyEvent)
        ensures
            key_post(*old(self), key, *final(self)),
    {
        if key.modifiers.control && key.code == KeyCode::Char('c') {
            self.quit = true;
            return;
        }
        if self.pending_action.is_some() {
            self.handle_confirm_key(key);
            return;
        }
        match key.code {
            KeyCode::Char('q') => self.quit = true,
            KeyCode::Char('?') | KeyCode::F(1) => self.screen = Screen::Help,
            KeyCode::Tab => self.next_screen(true),
            KeyCode::BackTab => self.next_screen(false),
            KeyCode::Char('r') => self.force_refresh = true,
            KeyCode::Up | KeyCode::Char('k') => {
                self.selected_index = self.selected_index.saturating_sub(1);
            },
            KeyCode::Down | KeyCode::Char('j') => {
                self.selected_index = self.selected_index.saturating_add(1);
                self.clamp_selection();
            },
            KeyCode::Enter => self.handle_enter(),
            KeyCode::Char('d') => {
                let name = self.selected_node_name();
                self.queue_action(PendingAction::DisableNode { name });
            },
            KeyCode::Char('D') => {
                let name = self.selected_node_name();
                self.queue_action(PendingAction::DrainNode { name });
            },
            _ => {},
        }
    }

    fn handle_confirm_key(&mut self, key: KeyEvent)
        ensures
            confirm_key_post(*old(self), key, *final(self)),
    {
        match key.code {
            KeyCode::Char('n') | KeyCode::Esc => {
                self.status_message = "Action cancelled".to_owned();
                self.pending_action = None;
            },
            _ => {},
        }
    }

    fn handle_enter(&mut self)
        ensures
            if old(self).screen == Screen::Nodes && old(self).data.nodes@.len() > 0 {
                *final(self) == (App { screen: Screen::NodeDetail, force_refresh: true, ..*old(self) })
            } else {
                *final(self) == *old(self)
            },
    {
        if self.screen == Screen::Nodes && self.data.nodes.len() > 0 {
            self.screen = Screen::NodeDetail;
            self.force_refresh = true;
        }
    }

    /// The name of the selected node, empty when none is selected.
    pub fn selected_node_name(&self) -> (r: String)
        ensures
            r@ == selected_name(*self),
    {
        if self.selected_index < self.data.nodes.len() {
            self.data.nodes[self.selected_index].name.clone()
        } else {
            String::new()
        }
    }

    fn queue_action(&mut self, action: PendingAction)
        ensures
            if action_node(action).len() == 0 {
                *final(self) == *old(self)
            } else {
                *final(self) == (App { pending_action: Some(action), ..*old(self) })
            },
    {
        let empty = match &action {
            PendingAction::DisableNode { name } => name.as_str().is_empty(),
            PendingAction::DrainNode { name } => name.as_str().is_empty(),
        };
        if empty {
            return;
        }
        self.pending_action = Some(action);
    }
}

} // verus!

verus! {

/// Whether no modifier key is held.
pub open spec fn unmodified(key: KeyEvent) -> bool {
    !key.modifiers.control && !key.modifiers.shift && !key.modifiers.alt
}

/// The state and command after a key press on the node screens: `y`
/// confirms a pending action, `n` and Escape cancel it; without modifiers,
/// `E` enables and `p` probes the selected node, `s` synchronises models
/// and is then handled as any other key; every other key is handled as on
/// the other screens.
pub open spec fn node_key_post(a: App, key: KeyEvent, b: App, r: DashboardCommand) -> bool {
    if a.pending_action is Some && key.code == KeyCode::Char('y') {
        &&& b == App { pending_action: None, ..a }
        &&& r == DashboardCommand::Execute(a.pending_action->0)
    } else if a.pending_action is Some && (key.code == KeyCode::Char('n') || key.code
        == KeyCode::Esc) {
        &&& confirm_key_post(a, key, b)
        &&& r is Nothing
    } else if unmodified(key) && key.code == KeyCode::Char('E') {
        &&& b == a
        &&& if selected_name(a).len() == 0 {
            r is Nothing
        } else {
            r matches DashboardCommand::EnableNode(n) && n@ == selected_name(a)
        }
    } else if unmodified(key) && key.code == KeyCode::Char('p') {
        &&& b == a
        &&& if selected_name(a).len() == 0 {
            r is Nothing
        } else {
            r matches DashboardCommand::ProbeNode(n) && n@ == selected_name(a)
        }
    } else if unmodified(key) && key.code == KeyCode::Char('s') {
        &&& key_post(a, key, b)
        &&& r is SyncModels
    } else {
        &&& key_post(a, key, b)
        &&& r is Nothing
    }
}

/// The status line after a command ran: the operation's message, or the
/// failure with a prefix naming the command.
pub open spec fn outcome_message(command: DashboardCommand, result: Result<String, String>) -> Seq<
    char,
> {
    match (command, result) {
        (DashboardCommand::ProbeNode(name), Ok(_)) => "Probe succeeded for "@ + name@,
        (DashboardCommand::ProbeNode(_), Err(e)) => "Probe failed: "@ + e@,
        (DashboardCommand::Execute(_), Err(e)) => "Action failed: "@ + e@,
        (DashboardCommand::EnableNode(_), Err(e)) => "Enable failed: "@ + e@,
        (DashboardCommand::SyncModels, Err(e)) => "Sync failed: "@ + e@,
        (_, Ok(m)) => m@,
        (_, Err(e)) => e@,
    }
}

/// The status line after a refresh.
pub open spec fn refresh_message(last_error: Option<String>) -> Seq<char> {
    match last_error {
        None => "Connected — auto-refresh every 2s"@,
        Some(e) => "Error: "@ + e@,
    }
}

impl App {
    /// Handle a key press on the node screens, which may ask the driver to
    /// run a command against the management API.
    pub fn handle_node_key(&mut self, key: KeyEvent) -> (r: DashboardCommand)
        ensures
            node_key_post(*old(self), key, *final(self), r),
    {
        let pending = match &self.pending_action {
            Some(a) => Some(a.clone()),
            None => None,
        };
        if let Some(action) = pending {
            if key.code == KeyCode::Char('y') {
                self.pending_action = None;
                return DashboardCommand::Execute(action);
            }
            if key.code == KeyCode::Char('n') || key.code == KeyCode::Esc {
                self.status_message = "Action cancelled".to_owned();
                self.pending_action = None;
                return DashboardCommand::Nothing;
            }
        }
        if key.modifiers.is_empty() {
            if key.code == KeyCode::Char('E') {
                let name = self.selected_node_name();
                if name.as_str().is_empty() {
                    return DashboardCommand::Nothing;
                }
                return DashboardCommand::EnableNode(name);
            }
            if key.code == KeyCode::Char('p') {
                let name = self.selected_node_name();
                if name.as_str().is_empty() {
                    return DashboardCommand::Nothing;
                }
                return DashboardCommand::ProbeNode(name);
            }
            if key.code == KeyCode::Char('s') {
                self.handle_key(key);
                return DashboardCommand::SyncModels;
            }
        }
        self.handle_key(key);
        DashboardCommand::Nothing
    }

    /// Take note of how a command ran: its message or failure becomes the
    /// status line, and every command but model synchronisation asks for a
    /// refresh.
    pub fn command_outcome(&mut self, command: &DashboardCommand, result: Result<String, String>)
        ensures
            *command is Nothing ==> *final(self) == *old(self),
            !(*command is Nothing) ==> {
                &&& *final(self) == (App {
                    status_message: final(self).status_message,
                    force_refresh: final(self).force_refresh,
                    ..*old(self)
                })
                &&& final(self).status_message@ == outcome_message(*command, result)
                &&& final(self).force_refresh == (old(self).force_refresh || !(*command is SyncModels))
            },
    {
        let (prefix, refresh) = match command {
            DashboardCommand::Nothing => {
                return;
            },
            DashboardCommand::Execute(_) => ("Action failed: ", true),
            DashboardCommand::EnableNode(_) => ("Enable failed: ", true),
            DashboardCommand::ProbeNode(_) => ("Probe failed: ", true),
            DashboardCommand::SyncModels => ("Sync failed: ", false),
        };
        let message = match result {
            Ok(m) => match command {
                DashboardCommand::ProbeNode(name) => {
                    let mut s = "Probe succeeded for ".to_owned();
                    s.append(name.as_str());
                    s
                },
                _ => m,
            },
            Err(e) => {
                let mut s = prefix.to_owned();
                s.append(e.as_str());
                s
            },
        };
        self.status_message = message;
        if refresh {
            self.force_refresh = true;
        }
    }

    /// The node whose detail a refresh fetches: the selected node, on the
    /// node detail screen.
    pub fn detail_target(&self) -> (r: Option<String>)
        ensures
            (self.screen == Screen::NodeDetail && selected_name(*self).len() > 0) ==> (r matches Some(
                n,
            ) && n@ == selected_name(*self)),
            !(self.screen == Screen::NodeDetail && selected_name(*self).len() > 0) ==> r is None,
    {
        if self.screen != Screen::NodeDetail {
            return None;
        }
        let name = self.selected_node_name();
        if name.as_str().is_empty() {
            None
        } else {
            Some(name)
        }
    }

    /// Install freshly fetched data: the selection is kept within the new
    /// lists and the status line tells whether the cluster answered.
    pub fn apply_refresh(&mut self, data: DashboardData)
        ensures
            final(self).data == data,
            final(self).selected_index == clamped_index(App { data, ..*old(self) }),
            final(self).status_message@ == refresh_message(data.last_error),
            *final(self) == (App {
                data: final(self).data,
                selected_index: final(self).selected_index,
                status_message: final(self).status_message,
                ..*old(self)
            }),
    {
        self.data = data;
        self.clamp_selection();
        let message = match &self.data.last_error {
            None => "Connected — auto-refresh every 2s".to_owned(),
            Some(err) => {
                let mut s = "Error: ".to_owned();
                s.append(err.as_str());
                s
            },
        };
        self.status_message = message;
    }
}

/// A text cut to at most `max` bytes: unchanged when it fits, otherwise its
/// first `max - 1` bytes followed by an ellipsis.
pub open spec fn truncated(s: Seq<char>, max: usize) -> Seq<char> {
    if encode_utf8(s).len() <= max {
        s
    } else {
        decode_utf8(encode_utf8(s).take(if max == 0 { 0 } else { max - 1 })) + "…"@
    }
}

/// Cut a text for a table cell of `max` bytes. The cut must fall on a
/// character boundary.
pub fn truncate(value: &str, max: usize) -> (r: String)
    requires
        value.spec_bytes().len() <= max || is_char_boundary(
            value.spec_bytes(),
            if max == 0 { 0 } else { max - 1 },
        ),
    ensures
        r@ == truncated(value@, max),
{
    if value.as_bytes().len() <= max {
        value.to_owned()
    } else {
        let cut = max.saturating_sub(1);
        let (left, _) = value.split_at(cut);
        proof {
            assert(cut == (if max == 0 { 0 } else { max - 1 }));
            assert(left.spec_bytes() == encode_utf8(left@));
            assert(decode_utf8(encode_utf8(left@)) == left@);
            assert(encode_utf8(value@).take(cut as int) =~= encode_utf8(value@).subrange(0, cut as int));
            assert(left@ == decode_utf8(encode_utf8(value@).take(cut as int)));
        }
        let mut out = left.to_owned();
        out.append("…");
        assert(out@ == left@ + "…"@);
        out
    }
}

/// Moving one tab forward and then one back (or back, then forward) returns
/// to the screen one started on, for every screen in the tab order.
pub proof fn lemma_tab_round_trip(s: Screen)
    requires
        s != Screen::NodeDetail,
    ensures
        next_tab(next_tab(s, true), false) == s,
        next_tab(next_tab(s, false), true) == s,
{
}

/// The tab order visits every navigable screen: seven steps forward come
/// back to the start.
pub proof fn lemma_tab_cycle(s: Screen)
    requires
        s != Screen::NodeDetail,
    ensures
        next_tab(next_tab(next_tab(next_tab(next_tab(next_tab(next_tab(s, true), true), true), true), true), true), true) == s,
{
}

/// After clamping, the selection points into the list shown, or is 0 when
/// the list is empty.
pub proof fn lemma_clamped_in_range(app: App)
    ensures
        list_len(app) == 0 ==> clamped_index(app) == 0,
        list_len(app) > 0 ==> clamped_index(app) < list_len(app),
{
}

/// A destructive node action runs only once confirmed: the dashboard asks
/// to execute an action only for `y` while that action is pending, and the
/// action is no longer pending afterwards.
pub proof fn lemma_execute_needs_confirmation(a: App, key: KeyEvent, b: App, r: DashboardCommand)
    requires
        node_key_post(a, key, b, r),
    ensures
        r is Execute ==> {
            &&& a.pending_action == Some(r->Execute_0)
            &&& key.code == KeyCode::Char('y')
            &&& b.pending_action is None
        },
{
    if r is Execute {
        if !(a.pending_action is Some && key.code == KeyCode::Char('y')) {
            if a.pending_action is Some && (key.code == KeyCode::Char('n') || key.code == KeyCode::Esc) {
            } else if unmodified(key) && (key.code == KeyCode::Char('E') || key.code == KeyCode::Char('p')) {
            } else {
                assert(false);
            }
        }
    }
}

} // verus!
