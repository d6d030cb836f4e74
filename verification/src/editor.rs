//! The configuration editor: a dialogue that changes a configuration and saves it at its end.
//!
//! The editor is told each line that was typed and answers what to show and what to ask next.
//! Reading and writing are outside.
use vstd::prelude::*;
use vstd::string::StringExecFns;

use crate::answer::{
    no_line, one_line, prompt_bool, prompt_index, prompt_optional, prompt_protocol,
    prompt_socket_addr,
};
use crate::config::{AppConfig, AppMode, ConfigView, Protocol, TunnelConfig, TunnelView};
use crate::screen::render_tunnels;
use crate::text::{same_text, trim};

verus! {

/// What a tunnel is picked for.
#[derive(Debug, Clone, Copy, PartialEq, Eq, Structural)]
pub enum Task {
    Edit,
    Toggle,
    Delete,
}

/// What is asked for of a tunnel that is added or edited, in this order.
#[derive(Debug, Clone, Copy, PartialEq, Eq, Structural)]
pub enum Field {
    Name,
    Protocol,
    Listen,
    Target,
    Enabled,
}

/// What the editor waits for.
#[derive(Debug)]
pub enum EditState {
    /// For an action.
    Menu,
    /// For the number of a tunnel.
    Pick { task: Task },
    /// For the word to delete the tunnel at `index`.
    Confirm { index: usize },
    /// For `field` of `draft`, which is to take the place of the tunnel at `at`, or to be added.
    Form { at: Option<usize>, field: Field, draft: TunnelConfig },
    /// For the configuration to be saved.
    Saving,
    /// For nothing.
    Over,
}

/// Where a draft belongs.
pub open spec fn place(at: Option<usize>) -> Option<int> {
    match at {
        Some(index) => Some(index as int),
        None => None,
    }
}

/// What an `EditState` holds.
pub enum EditStateView {
    Menu,
    Pick { task: Task },
    Confirm { index: int },
    Form { at: Option<int>, field: Field, draft: TunnelView },
    Saving,
    Over,
}

impl View for EditState {
    type V = EditStateView;

    open spec fn view(&self) -> EditStateView {
        match self {
            EditState::Menu => EditStateView::Menu,
            EditState::Pick { task } => EditStateView::Pick { task: *task },
            EditState::Confirm { index } => EditStateView::Confirm { index: *index as int },
            EditState::Form { at, field, draft } => EditStateView::Form {
                at: place(*at),
                field: *field,
                draft: draft@,
            },
            EditState::Saving => EditStateView::Saving,
            EditState::Over => EditStateView::Over,
        }
    }
}

/// What happened.
#[derive(Debug)]
pub enum EditEvent {
    /// A line was typed.
    Line { text: String },
    /// No line could be read, or nothing could be shown.
    Broken { error: String },
    /// The configuration was saved, or could not be.
    Saved { outcome: Result<(), String> },
}

/// What a `EditEvent` holds.
pub enum EditEventView {
    Line { text: Seq<char> },
    Broken { error: Seq<char> },
    Saved { outcome: Result<(), Seq<char>> },
}

impl View for EditEvent {
    type V = EditEventView;

    open spec fn view(&self) -> EditEventView {
        match self {
            EditEvent::Line { text } => EditEventView::Line { text: text@ },
            EditEvent::Broken { error } => EditEventView::Broken { error: error@ },
            EditEvent::Saved { outcome } => EditEventView::Saved {
                outcome: crate::supervisor::outcome_view(*outcome),
            },
        }
    }
}

/// What is to be done.
#[derive(Debug)]
pub enum EditAction {
    /// Show the lines, then ask the question and read a line.
    Ask { lines: Vec<String>, question: String },
    /// Save the configuration.
    Save { config: AppConfig },
    /// Show the lines and end.
    End { lines: Vec<String>, outcome: Result<(), String> },
    /// Nothing: what happened was not waited for.
    Nothing,
}

/// What an `EditAction` holds.
pub enum EditActionView {
    Ask { lines: Seq<Seq<char>>, question: Seq<char> },
    Save { config: ConfigView },
    End { lines: Seq<Seq<char>>, outcome: Result<(), Seq<char>> },
    Nothing,
}

impl View for EditAction {
    type V = EditActionView;

    open spec fn view(&self) -> EditActionView {
        match self {
            EditAction::Ask { lines, question } => EditActionView::Ask {
                lines: crate::text::texts(lines@),
                question: question@,
            },
            EditAction::Save { config } => EditActionView::Save { config: config@ },
            EditAction::End { lines, outcome } => EditActionView::End {
                lines: crate::text::texts(lines@),
                outcome: crate::supervisor::outcome_view(*outcome),
            },
            EditAction::Nothing => EditActionView::Nothing,
        }
    }
}

/// The configuration editor.
#[derive(Debug)]
pub struct Editor {
    config: AppConfig,
    path: String,
    state: EditState,
}

/// What an `Editor` holds: the configuration as it stands, the file that it comes from, and what
/// is waited for.
pub struct EditView {
    pub config: ConfigView,
    pub path: Seq<char>,
    pub state: EditStateView,
}

impl View for Editor {
    type V = EditView;

    closed spec fn view(&self) -> EditView {
        EditView { config: self.config@, path: self.path@, state: self.state@ }
    }
}

/// The word for what a tunnel is picked for.
pub open spec fn task_text(task: Task) -> Seq<char> {
    match task {
        Task::Edit => "edit"@,
        Task::Toggle => "toggle"@,
        Task::Delete => "delete"@,
    }
}

/// The number that stands for a protocol.
pub open spec fn protocol_number(protocol: Protocol) -> Seq<char> {
    match protocol {
        Protocol::Tcp => "1"@,
        Protocol::Udp => "2"@,
        Protocol::Both => "3"@,
    }
}

/// `value` where there is something to keep, which is where a tunnel is edited.
pub open spec fn kept<T>(at: Option<int>, value: T) -> Option<T> {
    if at is Some {
        Some(value)
    } else {
        None
    }
}

/// The question for one field of a tunnel.
pub open spec fn field_question(at: Option<int>, field: Field, draft: TunnelView) -> Seq<char> {
    match field {
        Field::Name => crate::answer::with_default("Name"@, kept(at, draft.name)),
        Field::Protocol => crate::answer::with_default(
            "Protocol"@,
            kept(at, protocol_number(draft.protocol)),
        ),
        Field::Listen => crate::answer::with_default(
            if at is Some {
                "Listen address"@
            } else {
                "Listen address (for example 0.0.0.0:8080)"@
            },
            kept(at, draft.listen),
        ),
        Field::Target => crate::answer::with_default(
            if at is Some {
                "Target address"@
            } else {
                "Target address (for example 127.0.0.1:80)"@
            },
            kept(at, draft.target),
        ),
        Field::Enabled => if draft.enabled {
            "Enable this tunnel? [Y/n]"@
        } else {
            "Enable this tunnel? [y/N]"@
        },
    }
}

impl EditView {
    /// The same dialogue with another state.
    pub open spec fn to(self, state: EditStateView) -> EditView {
        EditView { config: self.config, path: self.path, state }
    }

    /// The same dialogue back at the menu, with other tunnels.
    pub open spec fn with_tunnels(self, tunnels: Seq<TunnelView>) -> EditView {
        EditView {
            config: ConfigView {
                daemon_log: self.config.daemon_log,
                mode: self.config.mode,
                tunnels,
            },
            path: self.path,
            state: EditStateView::Menu,
        }
    }

    /// What is shown before the question, and the question.
    pub open spec fn ask(self) -> (Seq<Seq<char>>, Seq<char>) {
        match self.state {
            EditStateView::Menu => (
                crate::screen::screen(self.path, self.config),
                "Action [a/e/t/d/m/l/s/q]"@,
            ),
            EditStateView::Pick { task } => (seq![], "Tunnel number to "@ + task_text(task)),
            EditStateView::Confirm { index } => (
                seq![],
                "Delete tunnel '"@ + self.config.tunnels[index].name + "' ? [y/N]"@,
            ),
            EditStateView::Form { at, field, draft } => (
                if field is Protocol {
                    seq!["Select protocol: 1. TCP  2. UDP  3. Both"@]
                } else {
                    seq![]
                },
                field_question(at, field, draft),
            ),
            _ => (seq![], seq![]),
        }
    }

    /// The dialogue goes on: `lines` are shown, then what the new state asks.
    pub open spec fn go_on(self, lines: Seq<Seq<char>>) -> (EditView, EditActionView) {
        (self, EditActionView::Ask { lines: lines + self.ask().0, question: self.ask().1 })
    }

    /// Picking a tunnel, where there is one.
    pub open spec fn pick(self, task: Task) -> (EditView, EditActionView) {
        if self.config.tunnels.len() == 0 {
            self.go_on(seq!["There are no tunnels to "@ + task_text(task) + "."@])
        } else {
            self.to(EditStateView::Pick { task }).go_on(seq![])
        }
    }

    /// What follows a line at the menu.
    pub open spec fn on_menu(self, line: Seq<char>) -> (EditView, EditActionView) {
        let choice = crate::text::trimmed(line);
        if choice == "a"@ {
            self.to(
                EditStateView::Form { at: None, field: Field::Name, draft: blank_tunnel() },
            ).go_on(seq!["Add a new tunnel:"@])
        } else if choice == "e"@ {
            self.pick(Task::Edit)
        } else if choice == "t"@ {
            self.pick(Task::Toggle)
        } else if choice == "d"@ {
            self.pick(Task::Delete)
        } else if choice == "m"@ {
            EditView {
                config: ConfigView { mode: other_mode(self.config.mode), ..self.config },
                ..self
            }.go_on(seq![])
        } else if choice == "l"@ {
            EditView {
                config: ConfigView { daemon_log: !self.config.daemon_log, ..self.config },
                ..self
            }.go_on(seq![])
        } else if choice == "s"@ {
            (self.to(EditStateView::Saving), EditActionView::Save { config: self.config })
        } else if choice == "q"@ {
            (
                self.to(EditStateView::Over),
                EditActionView::End { lines: seq!["Exited without saving."@], outcome: Ok(()) },
            )
        } else {
            self.go_on(seq!["Invalid choice. Please try again."@])
        }
    }

    /// What follows a line where the number of a tunnel is asked for.
    pub open spec fn on_pick(self, task: Task, line: Seq<char>) -> (EditView, EditActionView) {
        let tunnels = self.config.tunnels;
        match crate::answer::index_answer(line, tunnels.len()) {
            Err(lines) => self.go_on(lines),
            Ok(index) => match task {
                Task::Edit => self.to(
                    EditStateView::Form {
                        at: Some(index),
                        field: Field::Name,
                        draft: tunnels[index],
                    },
                ).go_on(seq![]),
                Task::Toggle => self.with_tunnels(toggled(tunnels, index)).go_on(seq![]),
                Task::Delete => self.to(EditStateView::Confirm { index }).go_on(seq![]),
            },
        }
    }

    /// What follows a line where the word to delete is asked for.
    pub open spec fn on_confirm(self, index: int, line: Seq<char>) -> (EditView, EditActionView) {
        match crate::answer::bool_answer(line, false) {
            Err(lines) => self.go_on(lines),
            Ok(true) => self.with_tunnels(self.config.tunnels.remove(index)).go_on(
                seq!["Tunnel deleted."@],
            ),
            Ok(false) => self.to(EditStateView::Menu).go_on(seq!["Delete cancelled."@]),
        }
    }

    /// The form with the next field, and another draft.
    pub open spec fn form(self, at: Option<int>, field: Field, draft: TunnelView) -> EditView {
        self.to(EditStateView::Form { at, field, draft })
    }

    /// What follows a line where the name of a tunnel is asked for. Where a name is
    /// refused, a tunnel that is added is asked for another, and one that is edited keeps its own.
    pub open spec fn on_name(self, at: Option<int>, draft: TunnelView, line: Seq<char>) -> (
        EditView,
        EditActionView,
    ) {
        let name = crate::text::trimmed(line);
        let named = self.form(at, Field::Protocol, TunnelView { name, ..draft });
        match at {
            None => if name.len() == 0 {
                self.go_on(seq!["Name cannot be empty."@])
            } else if taken(self.config.tunnels, None, name) {
                self.go_on(seq!["That name already exists. Please choose another."@])
            } else {
                named.go_on(seq![])
            },
            Some(index) => {
                let unnamed = self.form(at, Field::Protocol, draft);
                if name == draft.name {
                    unnamed.go_on(seq![])
                } else if name.len() == 0 {
                    unnamed.go_on(seq!["Name left empty. Keeping the current value."@])
                } else if taken(self.config.tunnels, Some(index), name) {
                    unnamed.go_on(
                        seq!["That name is already in use. Keeping the current value."@],
                    )
                } else {
                    named.go_on(seq![])
                }
            },
        }
    }

    /// What follows a line where a field of a tunnel is asked for.
    pub open spec fn on_form(
        self,
        at: Option<int>,
        field: Field,
        draft: TunnelView,
        line: Seq<char>,
    ) -> (EditView, EditActionView) {
        match field {
            Field::Name => self.on_name(at, draft, line),
            Field::Protocol => match crate::answer::protocol_answer(
                line,
                kept(at, draft.protocol),
            ) {
                Err(lines) => self.go_on(lines),
                Ok(protocol) => self.form(
                    at,
                    Field::Listen,
                    TunnelView { protocol, ..draft },
                ).go_on(seq![]),
            },
            Field::Listen => match crate::answer::address_answer(line, kept(at, draft.listen)) {
                Err(lines) => self.go_on(lines),
                Ok(listen) => self.form(
                    at,
                    Field::Target,
                    TunnelView { listen, ..draft },
                ).go_on(seq![]),
            },
            Field::Target => match crate::answer::address_answer(line, kept(at, draft.target)) {
                Err(lines) => self.go_on(lines),
                Ok(target) => self.form(
                    at,
                    Field::Enabled,
                    TunnelView { target, ..draft },
                ).go_on(seq![]),
            },
            Field::Enabled => match crate::answer::bool_answer(line, draft.enabled) {
                Err(lines) => self.go_on(lines),
                Ok(enabled) => self.with_tunnels(
                    placed(self.config.tunnels, at, TunnelView { enabled, ..draft }),
                ).go_on(seq![]),
            },
        }
    }

    /// What the editor becomes, and does, on an event. One that it does not wait for changes
    /// nothing.
    pub open spec fn next(self, event: EditEventView) -> (EditView, EditActionView) {
        match (self.state, event) {
            (EditStateView::Saving, EditEventView::Saved { outcome }) => (
                self.to(EditStateView::Over),
                EditActionView::End {
                    lines: if outcome is Ok {
                        seq!["Saved configuration to "@ + self.path + "."@]
                    } else {
                        seq![]
                    },
                    outcome,
                },
            ),
            (EditStateView::Saving, _) => (self, EditActionView::Nothing),
            (EditStateView::Over, _) => (self, EditActionView::Nothing),
            (_, EditEventView::Saved { .. }) => (self, EditActionView::Nothing),
            (_, EditEventView::Broken { error }) => (
                self.to(EditStateView::Over),
                EditActionView::End { lines: seq![], outcome: Err(error) },
            ),
            (EditStateView::Menu, EditEventView::Line { text }) => self.on_menu(text),
            (EditStateView::Pick { task }, EditEventView::Line { text }) => self.on_pick(
                task,
                text,
            ),
            (EditStateView::Confirm { index }, EditEventView::Line { text }) => self.on_confirm(
                index,
                text,
            ),
            (EditStateView::Form { at, field, draft }, EditEventView::Line { text }) =>
                self.on_form(at, field, draft, text),
        }
    }

    /// Whether the configuration is valid, and the draft of a tunnel is valid as far as it was
    /// asked for.
    pub open spec fn sound(self) -> bool {
        let tunnels = self.config.tunnels;
        &&& crate::config::valid_tunnels(tunnels)
        &&& self.state matches EditStateView::Confirm { index } ==> 0 <= index < tunnels.len()
        &&& self.state matches EditStateView::Form { at, field, draft } ==> {
            &&& at matches Some(index) ==> 0 <= index < tunnels.len()
            &&& at is Some || !(field is Name) ==> {
                &&& crate::text::trimmed(draft.name).len() > 0
                &&& !taken(tunnels, at, draft.name)
            }
            &&& at is Some || field is Target || field is Enabled ==> crate::addr::socket_addr(
                draft.listen,
            ) is Some
            &&& at is Some || field is Enabled ==> crate::addr::socket_addr(draft.target) is Some
        }
    }
}

/// What a tunnel that is added starts from.
pub open spec fn blank_tunnel() -> TunnelView {
    TunnelView {
        name: ""@,
        listen: "0.0.0.0:0"@,
        target: "127.0.0.1:0"@,
        protocol: Protocol::Tcp,
        tcp_mode: crate::config::TcpMode::Auto,
        enabled: true,
    }
}

/// The other way to forward traffic.
pub open spec fn other_mode(mode: AppMode) -> AppMode {
    match mode {
        AppMode::Socket => AppMode::Nft,
        AppMode::Nft => AppMode::Socket,
    }
}

/// Whether a tunnel other than the one at `at` has the name `name`.
pub open spec fn taken(tunnels: Seq<TunnelView>, at: Option<int>, name: Seq<char>) -> bool {
    exists|j: int|
        0 <= j < tunnels.len() && at != Some(j) && (#[trigger] tunnels[j]).name == name
}

/// The tunnels with the one at `index` switched.
pub open spec fn toggled(tunnels: Seq<TunnelView>, index: int) -> Seq<TunnelView> {
    tunnels.update(index, TunnelView { enabled: !tunnels[index].enabled, ..tunnels[index] })
}

/// The tunnels with `tunnel` at `at`, or behind the others.
pub open spec fn placed(tunnels: Seq<TunnelView>, at: Option<int>, tunnel: TunnelView) -> Seq<
    TunnelView,
> {
    match at {
        None => tunnels.push(tunnel),
        Some(index) => tunnels.update(index, tunnel),
    }
}

/// A valid tunnel whose name no other one has can be placed among valid tunnels.
pub proof fn lemma_placed_is_valid(tunnels: Seq<TunnelView>, at: Option<int>, tunnel: TunnelView)
    requires
        crate::config::valid_tunnels(tunnels),
        crate::config::tunnel_fault(tunnel) is None,
        at matches Some(index) ==> 0 <= index < tunnels.len(),
        !taken(tunnels, at, tunnel.name),
    ensures
        crate::config::valid_tunnels(placed(tunnels, at, tunnel)),
{
    let r = placed(tunnels, at, tunnel);
    let k = match at {
        None => tunnels.len() as int,
        Some(index) => index,
    };
    assert forall|i: int| 0 <= i < r.len() implies crate::config::tunnel_fault(
        #[trigger] r[i],
    ) is None by {
        if i != k {
            assert(r[i] == tunnels[i]);
        }
    }
    assert forall|i: int, j: int| 0 <= i < j < r.len() implies (#[trigger] r[i]).name != (
    #[trigger] r[j]).name by {
        if i != k {
            assert(r[i] == tunnels[i]);
        }
        if j != k {
            assert(r[j] == tunnels[j]);
        }
    }
}

/// Valid tunnels stay valid without one of them.
pub proof fn lemma_removed_is_valid(tunnels: Seq<TunnelView>, index: int)
    requires
        crate::config::valid_tunnels(tunnels),
        0 <= index < tunnels.len(),
    ensures
        crate::config::valid_tunnels(tunnels.remove(index)),
{
    let r = tunnels.remove(index);
    assert forall|i: int| 0 <= i < r.len() implies crate::config::tunnel_fault(
        #[trigger] r[i],
    ) is None by {
        let o = if i < index { i } else { i + 1 };
        assert(r[i] == tunnels[o]);
    }
    assert forall|i: int, j: int| 0 <= i < j < r.len() implies (#[trigger] r[i]).name != (
    #[trigger] r[j]).name by {
        let oi = if i < index { i } else { i + 1 };
        let oj = if j < index { j } else { j + 1 };
        assert(r[i] == tunnels[oi] && r[j] == tunnels[oj]);
    }
}

/// Whatever is typed, a valid configuration stays valid.
pub proof fn editing_keeps_it_valid(v: EditView, event: EditEventView)
    requires
        v.sound(),
    ensures
        v.next(event).0.sound(),
{
    let tunnels = v.config.tunnels;
    match (v.state, event) {
        (EditStateView::Pick { task }, EditEventView::Line { text }) => {
            crate::answer::answered_index_is_in_range(text, tunnels.len());
            match crate::answer::index_answer(text, tunnels.len()) {
                Ok(index) => {
                    let t = tunnels[index];
                    assert(crate::config::tunnel_fault(t) is None);
                    assert(!taken(tunnels, Some(index), t.name)) by {
                        assert forall|j: int| 0 <= j < tunnels.len() && j != index implies (
                        #[trigger] tunnels[j]).name != t.name by {
                            if j < index {
                                assert(tunnels[j].name != tunnels[index].name);
                            } else {
                                assert(tunnels[index].name != tunnels[j].name);
                            }
                        }
                    }
                    let u = TunnelView { enabled: !t.enabled, ..t };
                    lemma_placed_is_valid(tunnels, Some(index), u);
                },
                Err(_) => {},
            }
        },
        (EditStateView::Confirm { index }, EditEventView::Line { text }) => {
            lemma_removed_is_valid(tunnels, index);
        },
        (EditStateView::Form { at, field, draft }, EditEventView::Line { text }) => {
            crate::text::lemma_trimmed_again(text);
            if field is Enabled {
                match crate::answer::bool_answer(text, draft.enabled) {
                    Ok(enabled) => {
                        lemma_placed_is_valid(tunnels, at, TunnelView { enabled, ..draft });
                    },
                    Err(_) => {},
                }
            }
        },
        _ => {},
    }
}

fn task_label(task: Task) -> (r: &'static str)
    ensures
        r@ == task_text(task),
{
    match task {
        Task::Edit => "edit",
        Task::Toggle => "toggle",
        Task::Delete => "delete",
    }
}

fn protocol_label(protocol: Protocol) -> (r: &'static str)
    ensures
        r@ == protocol_number(protocol),
{
    match protocol {
        Protocol::Tcp => "1",
        Protocol::Udp => "2",
        Protocol::Both => "3",
    }
}

/// Whether a tunnel other than the one at `at` has the name `name`.
pub fn name_is_taken(tunnels: &Vec<TunnelConfig>, at: Option<usize>, name: &String) -> (r: bool)
    ensures
        r == taken(
            TunnelConfig::views(tunnels@),
            place(at),
            name@,
        ),
{
    let ghost all = TunnelConfig::views(tunnels@);
    let mut j: usize = 0;
    while j < tunnels.len()
        invariant
            j <= tunnels.len(),
            all == TunnelConfig::views(tunnels@),
            forall|k: int|
                0 <= k < j && !(at matches Some(i) && i == k) ==> (#[trigger] all[k]).name
                    != name@,
        decreases tunnels.len() - j,
    {
        assert(all[j as int] == tunnels@[j as int]@);
        let own = match at {
            Some(i) => i == j,
            None => false,
        };
        if !own && tunnels[j].name == *name {
            return true;
        }
        j = j + 1;
    }
    false
}

/// Adds a tunnel behind the others.
pub fn add_tunnel(config: &mut AppConfig, tunnel: TunnelConfig)
    ensures
        final(config)@ == (ConfigView {
            tunnels: placed(old(config)@.tunnels, None, tunnel@),
            ..old(config)@
        }),
{
    let ghost before = config@;
    config.tunnels.push(tunnel);
    assert(config@.tunnels =~= before.tunnels.push(tunnel@));
}

/// Puts a tunnel in the place of the one at `index`.
pub fn edit_tunnel(config: &mut AppConfig, index: usize, tunnel: TunnelConfig)
    requires
        index < old(config).tunnels@.len(),
    ensures
        final(config)@ == (ConfigView {
            tunnels: placed(old(config)@.tunnels, Some(index as int), tunnel@),
            ..old(config)@
        }),
{
    let ghost before = config@;
    config.tunnels.set(index, tunnel);
    assert(config@.tunnels =~= before.tunnels.update(index as int, tunnel@));
}

/// Switches the tunnel at `index`.
pub fn toggle_tunnel(config: &mut AppConfig, index: usize)
    requires
        index < old(config).tunnels@.len(),
    ensures
        final(config)@ == (ConfigView {
            tunnels: toggled(old(config)@.tunnels, index as int),
            ..old(config)@
        }),
{
    let mut tunnel = config.tunnels[index].clone();
    tunnel.enabled = !tunnel.enabled;
    edit_tunnel(config, index, tunnel);
}

/// Takes the tunnel at `index` away.
pub fn delete_tunnel(config: &mut AppConfig, index: usize)
    requires
        index < old(config).tunnels@.len(),
    ensures
        final(config)@ == (ConfigView {
            tunnels: old(config)@.tunnels.remove(index as int),
            ..old(config)@
        }),
{
    let ghost before = config@;
    let _ = config.tunnels.remove(index);
    assert(config@.tunnels =~= before.tunnels.remove(index as int));
}

fn question_for(at: Option<usize>, field: Field, draft: &TunnelConfig) -> (r: String)
    ensures
        r@ == field_question(
            place(at),
            field,
            draft@,
        ),
{
    let editing = at.is_some();
    match field {
        Field::Name => prompt_optional(
            "Name",
            if editing {
                Some(draft.name.as_str())
            } else {
                None
            },
        ),
        Field::Protocol => prompt_optional(
            "Protocol",
            if editing {
                Some(protocol_label(draft.protocol))
            } else {
                None
            },
        ),
        Field::Listen => if editing {
            prompt_optional("Listen address", Some(draft.listen.as_str()))
        } else {
            prompt_optional("Listen address (for example 0.0.0.0:8080)", None)
        },
        Field::Target => if editing {
            prompt_optional("Target address", Some(draft.target.as_str()))
        } else {
            prompt_optional("Target address (for example 127.0.0.1:80)", None)
        },
        Field::Enabled => if draft.enabled {
            "Enable this tunnel? [Y/n]".to_owned()
        } else {
            "Enable this tunnel? [y/N]".to_owned()
        },
    }
}

fn append_lines(a: Vec<String>, b: Vec<String>) -> (r: Vec<String>)
    ensures
        crate::text::texts(r@) == crate::text::texts(a@) + crate::text::texts(b@),
{
    let mut a = a;
    let mut b = b;
    let ghost x = a@;
    let ghost y = b@;
    a.append(&mut b);
    assert(crate::text::texts(a@) =~= crate::text::texts(x) + crate::text::texts(y));
    a
}

impl Editor {
    /// Whether the editor holds a valid configuration, and a draft that is valid as far as it was
    /// asked for.
    pub open spec fn wf(self) -> bool {
        self@.sound()
    }

    /// Opens a valid configuration, which comes from the file `path`.
    pub fn open(config: AppConfig, path: &str) -> (r: (Editor, EditAction))
        requires
            crate::config::tunnels_fault(config@.tunnels) is None,
        ensures
            r.0.wf(),
            (r.0@, r.1@) == (EditView {
                config: config@,
                path: path@,
                state: EditStateView::Menu,
            }).go_on(seq![]),
    {
        proof {
            crate::config::accepted_iff_valid(config@.tunnels);
        }
        Editor { config, path: path.to_owned(), state: EditState::Menu }.carry_on(no_line())
    }

    /// The configuration as it stands.
    pub fn config(&self) -> (r: &AppConfig)
        ensures
            r@ == self@.config,
    {
        &self.config
    }

    fn carry_on(self, lines: Vec<String>) -> (r: (Editor, EditAction))
        requires
            self.wf(),
            !(self@.state is Saving),
            !(self@.state is Over),
        ensures
            (r.0@, r.1@) == self@.go_on(crate::text::texts(lines@)),
    {
        let (extra, question) = match &self.state {
            EditState::Menu => (
                render_tunnels(self.path.as_str(), &self.config),
                "Action [a/e/t/d/m/l/s/q]".to_owned(),
            ),
            EditState::Pick { task } => (
                no_line(),
                "Tunnel number to ".to_owned().concat(task_label(*task)),
            ),
            EditState::Confirm { index } => (
                no_line(),
                "Delete tunnel '".to_owned().concat(
                    self.config.tunnels[*index].name.as_str(),
                ).concat("' ? [y/N]"),
            ),
            EditState::Form { at, field, draft } => (
                match field {
                    Field::Protocol => one_line(
                        "Select protocol: 1. TCP  2. UDP  3. Both".to_owned(),
                    ),
                    _ => no_line(),
                },
                question_for(*at, *field, draft),
            ),
            EditState::Saving => (no_line(), "".to_owned()),
            EditState::Over => (no_line(), "".to_owned()),
        };
        let action = EditAction::Ask { lines: append_lines(lines, extra), question };
        (self, action)
    }

    fn pick_tunnel(self, task: Task) -> (r: (Editor, EditAction))
        requires
            self.wf(),
            self@.state is Menu,
        ensures
            (r.0@, r.1@) == self@.pick(task),
    {
        if self.config.tunnels.len() == 0 {
            self.carry_on(
                one_line(
                    "There are no tunnels to ".to_owned().concat(task_label(task)).concat("."),
                ),
            )
        } else {
            Editor { state: EditState::Pick { task }, ..self }.carry_on(no_line())
        }
    }

    fn take_choice(self, line: &str) -> (r: (Editor, EditAction))
        requires
            self.wf(),
            self@.state is Menu,
        ensures
            (r.0@, r.1@) == self@.on_menu(line@),
    {
        let choice = trim(line);
        let word = choice.as_str();
        if same_text(word, "a") {
            let state = EditState::Form {
                at: None,
                field: Field::Name,
                draft: TunnelConfig::default(),
            };
            Editor { state, ..self }.carry_on(one_line("Add a new tunnel:".to_owned()))
        } else if same_text(word, "e") {
            self.pick_tunnel(Task::Edit)
        } else if same_text(word, "t") {
            self.pick_tunnel(Task::Toggle)
        } else if same_text(word, "d") {
            self.pick_tunnel(Task::Delete)
        } else if same_text(word, "m") {
            let mode = match self.config.mode {
                AppMode::Socket => AppMode::Nft,
                AppMode::Nft => AppMode::Socket,
            };
            let config = AppConfig { mode, ..self.config };
            Editor { config, ..self }.carry_on(no_line())
        } else if same_text(word, "l") {
            let config = AppConfig { daemon_log: !self.config.daemon_log, ..self.config };
            Editor { config, ..self }.carry_on(no_line())
        } else if same_text(word, "s") {
            let config = self.config.clone();
            (Editor { state: EditState::Saving, ..self }, EditAction::Save { config })
        } else if same_text(word, "q") {
            (
                Editor { state: EditState::Over, ..self },
                EditAction::End {
                    lines: one_line("Exited without saving.".to_owned()),
                    outcome: Ok(()),
                },
            )
        } else {
            self.carry_on(one_line("Invalid choice. Please try again.".to_owned()))
        }
    }

    fn take_number(self, task: Task, line: &str) -> (r: (Editor, EditAction))
        requires
            self.wf(),
            self@.state == (EditStateView::Pick { task }),
        ensures
            (r.0@, r.1@) == self@.on_pick(task, line@),
    {
        let ghost v = self@;
        let index = match prompt_index(line, self.config.tunnels.len()) {
            Ok(index) => index,
            Err(lines) => {
                return self.carry_on(lines);
            },
        };
        proof {
            editing_keeps_it_valid(v, EditEventView::Line { text: line@ });
        }
        match task {
            Task::Edit => {
                let draft = self.config.tunnels[index].clone();
                let state = EditState::Form { at: Some(index), field: Field::Name, draft };
                Editor { state, ..self }.carry_on(no_line())
            },
            Task::Toggle => {
                let Editor { mut config, path, state } = self;
                toggle_tunnel(&mut config, index);
                Editor { config, path, state: EditState::Menu }.carry_on(no_line())
            },
            Task::Delete => Editor { state: EditState::Confirm { index }, ..self }.carry_on(
                no_line(),
            ),
        }
    }

    fn take_confirmation(self, index: usize, line: &str) -> (r: (Editor, EditAction))
        requires
            self.wf(),
            self@.state == (EditStateView::Confirm { index: index as int }),
        ensures
            (r.0@, r.1@) == self@.on_confirm(index as int, line@),
    {
        proof {
            editing_keeps_it_valid(self@, EditEventView::Line { text: line@ });
        }
        match prompt_bool(line, false) {
            Err(lines) => self.carry_on(lines),
            Ok(true) => {
                let Editor { mut config, path, state } = self;
                delete_tunnel(&mut config, index);
                Editor { config, path, state: EditState::Menu }.carry_on(
                    one_line("Tunnel deleted.".to_owned()),
                )
            },
            Ok(false) => Editor { state: EditState::Menu, ..self }.carry_on(
                one_line("Delete cancelled.".to_owned()),
            ),
        }
    }

    fn take_name(self, at: Option<usize>, draft: TunnelConfig, line: &str) -> (r: (
        Editor,
        EditAction,
    ))
        requires
            self.wf(),
            self@.state == (EditStateView::Form {
                at: place(at),
                field: Field::Name,
                draft: draft@,
            }),
        ensures
            (r.0@, r.1@) == self@.on_name(place(at), draft@, line@),
    {
        proof {
            editing_keeps_it_valid(self@, EditEventView::Line { text: line@ });
        }
        let name = trim(line);
        let blank = name.as_str().is_empty();
        let clash = name_is_taken(&self.config.tunnels, at, &name);
        let field = Field::Protocol;
        match at {
            None => if blank {
                self.carry_on(one_line("Name cannot be empty.".to_owned()))
            } else if clash {
                self.carry_on(
                    one_line("That name already exists. Please choose another.".to_owned()),
                )
            } else {
                let draft = TunnelConfig { name, ..draft };
                Editor { state: EditState::Form { at, field, draft }, ..self }.carry_on(no_line())
            },
            Some(_) => if name == draft.name {
                Editor { state: EditState::Form { at, field, draft }, ..self }.carry_on(no_line())
            } else if blank {
                Editor { state: EditState::Form { at, field, draft }, ..self }.carry_on(
                    one_line("Name left empty. Keeping the current value.".to_owned()),
                )
            } else if clash {
                Editor { state: EditState::Form { at, field, draft }, ..self }.carry_on(
                    one_line("That name is already in use. Keeping the current value.".to_owned()),
                )
            } else {
                let draft = TunnelConfig { name, ..draft };
                Editor { state: EditState::Form { at, field, draft }, ..self }.carry_on(no_line())
            },
        }
    }

    fn take_field(self, at: Option<usize>, field: Field, draft: TunnelConfig, line: &str) -> (r: (
        Editor,
        EditAction,
    ))
        requires
            self.wf(),
            self@.state == (EditStateView::Form { at: place(at), field, draft: draft@ }),
        ensures
            (r.0@, r.1@) == self@.on_form(place(at), field, draft@, line@),
    {
        proof {
            editing_keeps_it_valid(self@, EditEventView::Line { text: line@ });
        }
        let editing = at.is_some();
        match field {
            Field::Name => self.take_name(at, draft, line),
            Field::Protocol => {
                let current = if editing {
                    Some(draft.protocol)
                } else {
                    None
                };
                match prompt_protocol(line, current) {
                    Err(lines) => self.carry_on(lines),
                    Ok(protocol) => {
                        let draft = TunnelConfig { protocol, ..draft };
                        let state = EditState::Form { at, field: Field::Listen, draft };
                        Editor { state, ..self }.carry_on(no_line())
                    },
                }
            },
            Field::Listen => {
                let current = if editing {
                    Some(draft.listen.as_str())
                } else {
                    None
                };
                match prompt_socket_addr(line, current) {
                    Err(lines) => self.carry_on(lines),
                    Ok(listen) => {
                        let draft = TunnelConfig { listen, ..draft };
                        let state = EditState::Form { at, field: Field::Target, draft };
                        Editor { state, ..self }.carry_on(no_line())
                    },
                }
            },
            Field::Target => {
                let current = if editing {
                    Some(draft.target.as_str())
                } else {
                    None
                };
                match prompt_socket_addr(line, current) {
                    Err(lines) => self.carry_on(lines),
                    Ok(target) => {
                        let draft = TunnelConfig { target, ..draft };
                        let state = EditState::Form { at, field: Field::Enabled, draft };
                        Editor { state, ..self }.carry_on(no_line())
                    },
                }
            },
            Field::Enabled => match prompt_bool(line, draft.enabled) {
                Err(lines) => self.carry_on(lines),
                Ok(enabled) => {
                    let Editor { mut config, path, state } = self;
                    let tunnel = TunnelConfig { enabled, ..draft };
                    match at {
                        None => add_tunnel(&mut config, tunnel),
                        Some(index) => edit_tunnel(&mut config, index, tunnel),
                    }
                    Editor { config, path, state: EditState::Menu }.carry_on(no_line())
                },
            },
        }
    }

    /// Goes on with the dialogue after an event.
    pub fn manage_config(self, event: EditEvent) -> (r: (Editor, EditAction))
        requires
            self.wf(),
        ensures
            r.0.wf(),
            (r.0@, r.1@) == self@.next(event@),
    {
        let ghost v = self@;
        proof {
            editing_keeps_it_valid(v, event@);
        }
        let text = match event {
            EditEvent::Line { text } => text,
            EditEvent::Broken { error } => {
                return match self.state {
                    EditState::Saving | EditState::Over => (self, EditAction::Nothing),
                    _ => (
                        Editor { state: EditState::Over, ..self },
                        EditAction::End { lines: no_line(), outcome: Err(error) },
                    ),
                };
            },
            EditEvent::Saved { outcome } => {
                if !matches!(self.state, EditState::Saving) {
                    return (self, EditAction::Nothing);
                }
                let lines = match &outcome {
                    Ok(()) => one_line(
                        "Saved configuration to ".to_owned().concat(self.path.as_str()).concat("."),
                    ),
                    Err(_) => no_line(),
                };
                return (
                    Editor { state: EditState::Over, ..self },
                    EditAction::End { lines, outcome },
                );
            },
        };
        let line = text.as_str();
        match &self.state {
            EditState::Menu => self.take_choice(line),
            EditState::Pick { task } => {
                let task = *task;
                self.take_number(task, line)
            },
            EditState::Confirm { index } => {
                let index: usize = *index;
                self.take_confirmation(index, line)
            },
            EditState::Form { at, field, draft } => {
                let at = *at;
                let field = *field;
                let draft = draft.clone();
                self.take_field(at, field, draft, line)
            },
            EditState::Saving | EditState::Over => (self, EditAction::Nothing),
        }
    }
}

impl EditView {
    /// The editor after the lines `lines` were typed.
    pub open spec fn after(self, lines: Seq<Seq<char>>) -> EditView
        decreases lines.len(),
    {
        if lines.len() == 0 {
            self
        } else {
            self.after(lines.drop_last()).next(EditEventView::Line { text: lines.last() }).0
        }
    }
}

proof fn lemma_after_one_more(v: EditView, lines: Seq<Seq<char>>, line: Seq<char>)
    ensures
        v.after(lines.push(line)) == v.after(lines).next(EditEventView::Line { text: line }).0,
{
    assert(lines.push(line).drop_last() =~= lines);
}

/// What the editor saves is accepted when it is loaded again.
pub proof fn edited_config_is_accepted(v: EditView, event: EditEventView)
    requires
        v.sound(),
    ensures
        v.next(event).1 matches EditActionView::Save { config } ==> crate::config::accepted(config)
            == Ok::<ConfigView, crate::config::ConfigFault>(config),
{
    crate::config::accepted_iff_valid(v.config.tunnels);
}

/// Switching a tunnel twice leaves everything as it was.
pub proof fn toggling_twice_restores(v: EditView, t: Seq<char>, number: Seq<char>)
    requires
        v.state is Menu,
        crate::text::trimmed(t) == "t"@,
        crate::answer::index_answer(number, v.config.tunnels.len()) is Ok,
    ensures
        v.after(seq![t, number, t, number]) == v,
{
    reveal_strlit("a");
    reveal_strlit("e");
    reveal_strlit("t");
    let n = v.config.tunnels.len();
    crate::answer::answered_index_is_in_range(number, n);
    let index = crate::answer::index_answer(number, n)->Ok_0;
    let l1 = Seq::empty().push(t);
    let l2 = l1.push(number);
    let l3 = l2.push(t);
    lemma_after_one_more(v, seq![], t);
    lemma_after_one_more(v, l1, number);
    lemma_after_one_more(v, l2, t);
    lemma_after_one_more(v, l3, number);
    assert(l3.push(number) =~= seq![t, number, t, number]);
    assert("t"@[0] == 't' && "a"@[0] == 'a' && "e"@[0] == 'e');
    assert(v.after(l1) == v.to(EditStateView::Pick { task: Task::Toggle }));
    let once = toggled(v.config.tunnels, index);
    assert(v.after(l2) == v.with_tunnels(once));
    assert(v.after(l3) == v.with_tunnels(once).to(EditStateView::Pick { task: Task::Toggle }));
    assert(toggled(once, index) =~= v.config.tunnels);
}

/// Switching the way to forward, or the log, twice leaves everything as it was.
pub proof fn switching_twice_restores(v: EditView, switch: Seq<char>)
    requires
        v.state is Menu,
        crate::text::trimmed(switch) == "m"@ || crate::text::trimmed(switch) == "l"@,
    ensures
        v.after(seq![switch, switch]) == v,
{
    reveal_strlit("a");
    reveal_strlit("e");
    reveal_strlit("t");
    reveal_strlit("d");
    reveal_strlit("m");
    reveal_strlit("l");
    lemma_after_one_more(v, seq![], switch);
    lemma_after_one_more(v, Seq::empty().push(switch), switch);
    assert(Seq::empty().push(switch).push(switch) =~= seq![switch, switch]);
    assert("t"@[0] == 't' && "a"@[0] == 'a' && "e"@[0] == 'e' && "d"@[0] == 'd' && "m"@[0] == 'm'
        && "l"@[0] == 'l');
}

/// A tunnel that is added with taken answers stands behind the others, which stay as they are.
pub proof fn answers_add_a_tunnel(
    v: EditView,
    a: Seq<char>,
    name: Seq<char>,
    protocol: Seq<char>,
    listen: Seq<char>,
    target: Seq<char>,
    enabled: Seq<char>,
)
    requires
        v.state is Menu,
        crate::text::trimmed(a) == "a"@,
        crate::text::trimmed(name).len() > 0,
        !taken(v.config.tunnels, None, crate::text::trimmed(name)),
        crate::answer::protocol_answer(protocol, None) is Ok,
        crate::answer::address_answer(listen, None) is Ok,
        crate::answer::address_answer(target, None) is Ok,
        crate::answer::bool_answer(enabled, true) is Ok,
    ensures
        v.after(seq![a, name, protocol, listen, target, enabled]) == v.with_tunnels(
            v.config.tunnels.push(
                TunnelView {
                    name: crate::text::trimmed(name),
                    listen: crate::text::trimmed(listen),
                    target: crate::text::trimmed(target),
                    protocol: crate::answer::protocol_answer(protocol, None)->Ok_0,
                    tcp_mode: crate::config::TcpMode::Auto,
                    enabled: crate::answer::bool_answer(enabled, true)->Ok_0,
                },
            ),
        ),
{
    let l1 = Seq::empty().push(a);
    let l2 = l1.push(name);
    let l3 = l2.push(protocol);
    let l4 = l3.push(listen);
    let l5 = l4.push(target);
    lemma_after_one_more(v, seq![], a);
    lemma_after_one_more(v, l1, name);
    lemma_after_one_more(v, l2, protocol);
    lemma_after_one_more(v, l3, listen);
    lemma_after_one_more(v, l4, target);
    lemma_after_one_more(v, l5, enabled);
    let d1 = TunnelView { name: crate::text::trimmed(name), ..blank_tunnel() };
    let d2 = TunnelView {
        protocol: crate::answer::protocol_answer(protocol, None)->Ok_0,
        ..d1
    };
    let d3 = TunnelView { listen: crate::text::trimmed(listen), ..d2 };
    let d4 = TunnelView { target: crate::text::trimmed(target), ..d3 };
    assert(v.after(l1) == v.form(None, Field::Name, blank_tunnel()));
    assert(v.after(l2) == v.form(None, Field::Protocol, d1));
    assert(v.after(l3) == v.form(None, Field::Listen, d2));
    assert(v.after(l4) == v.form(None, Field::Target, d3));
    assert(v.after(l5) == v.form(None, Field::Enabled, d4));
    assert(l5.push(enabled) =~= seq![a, name, protocol, listen, target, enabled]);
}

/// A tunnel that is edited with blank answers stays as it is.
pub proof fn blank_answers_keep_the_tunnel(
    v: EditView,
    e: Seq<char>,
    number: Seq<char>,
    blank: Seq<char>,
)
    requires
        v.state is Menu,
        crate::text::trimmed(e) == "e"@,
        crate::answer::index_answer(number, v.config.tunnels.len()) is Ok,
        crate::text::trimmed(blank).len() == 0,
    ensures
        v.after(seq![e, number, blank, blank, blank, blank, blank]) == v,
{
    reveal_strlit("a");
    reveal_strlit("e");
    let n = v.config.tunnels.len();
    crate::answer::answered_index_is_in_range(number, n);
    let index = crate::answer::index_answer(number, n)->Ok_0;
    let at = Some(index);
    let t = v.config.tunnels[index];
    let l1 = Seq::empty().push(e);
    let l2 = l1.push(number);
    let l3 = l2.push(blank);
    let l4 = l3.push(blank);
    let l5 = l4.push(blank);
    let l6 = l5.push(blank);
    lemma_after_one_more(v, seq![], e);
    lemma_after_one_more(v, l1, number);
    lemma_after_one_more(v, l2, blank);
    lemma_after_one_more(v, l3, blank);
    lemma_after_one_more(v, l4, blank);
    lemma_after_one_more(v, l5, blank);
    lemma_after_one_more(v, l6, blank);
    assert("a"@[0] == 'a' && "e"@[0] == 'e');
    assert(v.after(l1) == v.to(EditStateView::Pick { task: Task::Edit }));
    assert(v.after(l2) == v.form(at, Field::Name, t));
    assert(v.after(l3) == v.form(at, Field::Protocol, t));
    assert(v.after(l4) == v.form(at, Field::Listen, t));
    assert(v.after(l5) == v.form(at, Field::Target, t));
    assert(v.after(l6) == v.form(at, Field::Enabled, t));
    assert(l6.push(blank) =~= seq![e, number, blank, blank, blank, blank, blank]);
    assert(crate::text::lowered(crate::text::trimmed(blank)).len() == 0);
    assert(placed(v.config.tunnels, at, t) =~= v.config.tunnels);
}

/// A configuration is saved only where that was asked for, and as it stands; every other event
/// changes at most the one tunnel that was picked or is added, or one of the two switches.
pub proof fn no_change_goes_unasked(v: EditView, event: EditEventView)
    ensures
        v.next(event).1 matches EditActionView::Save { config } ==> {
            &&& v.state is Menu
            &&& event matches EditEventView::Line { text }
            &&& crate::text::trimmed(text) == "s"@
            &&& config == v.config
        },
        v.next(event).0.path == v.path,
        !(v.state is Menu) ==> v.next(event).0.config.mode == v.config.mode && v.next(
            event,
        ).0.config.daemon_log == v.config.daemon_log,
        v.next(event).0.config.tunnels != v.config.tunnels ==> {
            let tunnels = v.next(event).0.config.tunnels;
            ||| v.state == (EditStateView::Pick { task: Task::Toggle }) && exists|i: int|
                tunnels == #[trigger] toggled(v.config.tunnels, i)
            ||| v.state matches EditStateView::Confirm { index } && tunnels
                == v.config.tunnels.remove(index)
            ||| v.state matches EditStateView::Form { at, field, draft } && field is Enabled
                && exists|on: bool|
                tunnels == #[trigger] placed(
                    v.config.tunnels,
                    at,
                    TunnelView { enabled: on, ..draft },
                )
        },
{
}

/// Whether the editor goes on: it shows `lines`, then what the state asks.
pub open spec fn asks(after: EditView, action: EditActionView, lines: Seq<Seq<char>>) -> bool {
    action == (EditActionView::Ask { lines: lines + after.ask().0, question: after.ask().1 })
}

/// A number picks the tunnel at its position and no other: to be edited, the form is for that
/// position and starts from that tunnel; to be deleted, the question is about that tunnel; to be
/// switched, that tunnel is switched and nothing else changes.
pub proof fn number_picks_its_tunnel(v: EditView, task: Task, number: Seq<char>, i: int)
    requires
        v.state == (EditStateView::Pick { task }),
        crate::answer::index_answer(number, v.config.tunnels.len()) == Ok::<int, Seq<Seq<char>>>(i),
    ensures
        ({
            let (after, action) = v.next(EditEventView::Line { text: number });
            let tunnels = v.config.tunnels;
            &&& asks(after, action, seq![])
            &&& after.path == v.path
            &&& after.config.mode == v.config.mode
            &&& after.config.daemon_log == v.config.daemon_log
            &&& task == Task::Edit ==> {
                &&& after.config.tunnels == tunnels
                &&& after.state == (EditStateView::Form {
                    at: Some(i),
                    field: Field::Name,
                    draft: tunnels[i],
                })
            }
            &&& task == Task::Delete ==> {
                &&& after.config.tunnels == tunnels
                &&& after.state == (EditStateView::Confirm { index: i })
            }
            &&& task == Task::Toggle ==> {
                &&& after.state is Menu
                &&& after.config.tunnels.len() == tunnels.len()
                &&& after.config.tunnels[i].enabled == !tunnels[i].enabled
                &&& after.config.tunnels[i].name == tunnels[i].name
                &&& after.config.tunnels[i].listen == tunnels[i].listen
                &&& after.config.tunnels[i].target == tunnels[i].target
                &&& after.config.tunnels[i].protocol == tunnels[i].protocol
                &&& after.config.tunnels[i].tcp_mode == tunnels[i].tcp_mode
                &&& forall|j: int|
                    0 <= j < tunnels.len() && j != i ==> #[trigger] after.config.tunnels[j]
                        == tunnels[j]
            }
        }),
{
    crate::answer::answered_index_is_in_range(number, v.config.tunnels.len());
}

/// A number that is not taken is asked for again, and nothing changes.
pub proof fn wrong_number_is_asked_for_again(v: EditView, task: Task, number: Seq<char>)
    requires
        v.state == (EditStateView::Pick { task }),
        crate::answer::index_answer(number, v.config.tunnels.len()) is Err,
    ensures
        v.next(EditEventView::Line { text: number }).0 == v,
        asks(
            v,
            v.next(EditEventView::Line { text: number }).1,
            seq![
                "Please enter a number between 1 and "@ + crate::number::decimal(
                    v.config.tunnels.len(),
                ) + "."@,
            ],
        ),
{
    crate::answer::position_is_the_number_less_one(number, v.config.tunnels.len(), 0);
}

/// The tunnel that was picked is deleted on a yes, and those behind it move up. On a no everything
/// stays. On any other answer the question comes again.
pub proof fn only_a_yes_deletes(v: EditView, index: int, line: Seq<char>)
    requires
        v.state == (EditStateView::Confirm { index }),
        0 <= index < v.config.tunnels.len(),
    ensures
        ({
            let (after, action) = v.next(EditEventView::Line { text: line });
            let tunnels = v.config.tunnels;
            match crate::answer::bool_answer(line, false) {
                Ok(true) => {
                    &&& after.state is Menu
                    &&& after.path == v.path
                    &&& after.config.mode == v.config.mode
                    &&& after.config.daemon_log == v.config.daemon_log
                    &&& after.config.tunnels.len() == tunnels.len() - 1
                    &&& forall|j: int|
                        0 <= j < index ==> #[trigger] after.config.tunnels[j] == tunnels[j]
                    &&& forall|j: int|
                        index <= j < tunnels.len() - 1 ==> #[trigger] after.config.tunnels[j]
                            == tunnels[j + 1]
                    &&& asks(after, action, seq!["Tunnel deleted."@])
                },
                Ok(false) => {
                    &&& after == v.to(EditStateView::Menu)
                    &&& after.config == v.config
                    &&& asks(after, action, seq!["Delete cancelled."@])
                },
                Err(_) => {
                    &&& after == v
                    &&& asks(after, action, seq!["Please enter y or n."@])
                },
            }
        }),
{
    crate::answer::yes_and_no_are_told_apart(line, false);
}

/// Each letter of the menu does what its line says; any other answer changes nothing.
pub proof fn menu_does_what_it_says(v: EditView, line: Seq<char>)
    requires
        v.state is Menu,
    ensures
        ({
            let choice = crate::text::trimmed(line);
            let (after, action) = v.next(EditEventView::Line { text: line });
            let config = v.config;
            let none = config.tunnels.len() == 0;
            &&& after.path == v.path
            &&& after.config.tunnels == config.tunnels
            &&& choice != "m"@ ==> after.config.mode == config.mode
            &&& choice != "l"@ ==> after.config.daemon_log == config.daemon_log
            &&& choice == "a"@ ==> {
                &&& after.state matches EditStateView::Form { at: None, field: Field::Name, draft }
                &&& draft.tcp_mode == crate::config::TcpMode::Auto
                &&& draft.enabled
                &&& asks(after, action, seq!["Add a new tunnel:"@])
            }
            &&& choice == "e"@ && !none ==> after.state == (EditStateView::Pick {
                task: Task::Edit,
            }) && asks(after, action, seq![])
            &&& choice == "t"@ && !none ==> after.state == (EditStateView::Pick {
                task: Task::Toggle,
            }) && asks(after, action, seq![])
            &&& choice == "d"@ && !none ==> after.state == (EditStateView::Pick {
                task: Task::Delete,
            }) && asks(after, action, seq![])
            &&& choice == "e"@ && none ==> after == v && asks(
                after,
                action,
                seq!["There are no tunnels to "@ + "edit"@ + "."@],
            )
            &&& choice == "t"@ && none ==> after == v && asks(
                after,
                action,
                seq!["There are no tunnels to "@ + "toggle"@ + "."@],
            )
            &&& choice == "d"@ && none ==> after == v && asks(
                after,
                action,
                seq!["There are no tunnels to "@ + "delete"@ + "."@],
            )
            &&& choice == "m"@ ==> {
                &&& after.state is Menu
                &&& config.mode == AppMode::Socket ==> after.config.mode == AppMode::Nft
                &&& config.mode == AppMode::Nft ==> after.config.mode == AppMode::Socket
                &&& asks(after, action, seq![])
            }
            &&& choice == "l"@ ==> {
                &&& after.state is Menu
                &&& after.config.daemon_log == !config.daemon_log
                &&& asks(after, action, seq![])
            }
            &&& choice == "s"@ ==> after.state is Saving && action == (EditActionView::Save {
                config,
            })
            &&& choice == "q"@ ==> after.state is Over && action == (EditActionView::End {
                lines: seq!["Exited without saving."@],
                outcome: Ok(()),
            })
            &&& choice != "a"@ && choice != "e"@ && choice != "t"@ && choice != "d"@ && choice
                != "m"@ && choice != "l"@ && choice != "s"@ && choice != "q"@ ==> after == v
                && asks(after, action, seq!["Invalid choice. Please try again."@])
        }),
{
    reveal_strlit("a");
    reveal_strlit("e");
    reveal_strlit("t");
    reveal_strlit("d");
    reveal_strlit("m");
    reveal_strlit("l");
    reveal_strlit("s");
    reveal_strlit("q");
    assert("a"@[0] == 'a' && "e"@[0] == 'e' && "t"@[0] == 't' && "d"@[0] == 'd' && "m"@[0] == 'm'
        && "l"@[0] == 'l' && "s"@[0] == 's' && "q"@[0] == 'q');
}

/// A new name is taken exactly where it is not blank and no other tunnel has it. Where a tunnel is
/// added, another name is asked for until one is taken; where one is edited, it keeps its name.
/// Nothing but the name of the draft changes.
pub proof fn names_are_taken_once(
    v: EditView,
    at: Option<int>,
    draft: TunnelView,
    line: Seq<char>,
)
    requires
        v.state == (EditStateView::Form { at, field: Field::Name, draft }),
    ensures
        ({
            let name = crate::text::trimmed(line);
            let (after, action) = v.next(EditEventView::Line { text: line });
            let tunnels = v.config.tunnels;
            let clash = exists|j: int|
                0 <= j < tunnels.len() && at != Some(j) && (#[trigger] tunnels[j]).name == name;
            let named = EditStateView::Form {
                at,
                field: Field::Protocol,
                draft: TunnelView {
                    name,
                    listen: draft.listen,
                    target: draft.target,
                    protocol: draft.protocol,
                    tcp_mode: draft.tcp_mode,
                    enabled: draft.enabled,
                },
            };
            let unnamed = EditStateView::Form { at, field: Field::Protocol, draft };
            &&& after.config == v.config
            &&& after.path == v.path
            &&& name.len() > 0 && !clash ==> after.state == named && asks(after, action, seq![])
            &&& at is None && name.len() == 0 ==> after == v && asks(
                after,
                action,
                seq!["Name cannot be empty."@],
            )
            &&& at is None && name.len() > 0 && clash ==> after == v && asks(
                after,
                action,
                seq!["That name already exists. Please choose another."@],
            )
            &&& at is Some && name.len() == 0 && name != draft.name ==> after.state == unnamed
                && asks(after, action, seq!["Name left empty. Keeping the current value."@])
            &&& at is Some && name.len() > 0 && clash && name != draft.name ==> after.state
                == unnamed && asks(
                after,
                action,
                seq!["That name is already in use. Keeping the current value."@],
            )
            &&& at is Some && name == draft.name ==> after.state == unnamed && asks(
                after,
                action,
                seq![],
            )
        }),
{
    let name = crate::text::trimmed(line);
    if at is Some && name == draft.name {
        assert(draft == (TunnelView { name, ..draft }));
    }
}

/// The fields behind the name are filled in one after the other: each answer that is taken sets its
/// own field of the draft and no other, and any other answer changes nothing. The configuration
/// stays until the last of them.
pub proof fn answers_fill_their_field(
    v: EditView,
    at: Option<int>,
    field: Field,
    draft: TunnelView,
    line: Seq<char>,
)
    requires
        v.state == (EditStateView::Form { at, field, draft }),
        field != Field::Name,
        field != Field::Enabled,
    ensures
        ({
            let (after, action) = v.next(EditEventView::Line { text: line });
            let editing = at is Some;
            &&& after.config == v.config
            &&& after.path == v.path
            &&& field == Field::Protocol ==> match crate::answer::protocol_answer(
                line,
                if editing {
                    Some(draft.protocol)
                } else {
                    None
                },
            ) {
                Ok(protocol) => {
                    &&& after.state == (EditStateView::Form {
                        at,
                        field: Field::Listen,
                        draft: TunnelView {
                            name: draft.name,
                            listen: draft.listen,
                            target: draft.target,
                            protocol,
                            tcp_mode: draft.tcp_mode,
                            enabled: draft.enabled,
                        },
                    })
                    &&& asks(after, action, seq![])
                },
                Err(lines) => after == v && asks(after, action, lines),
            }
            &&& field == Field::Listen ==> match crate::answer::address_answer(
                line,
                if editing {
                    Some(draft.listen)
                } else {
                    None
                },
            ) {
                Ok(listen) => {
                    &&& after.state == (EditStateView::Form {
                        at,
                        field: Field::Target,
                        draft: TunnelView {
                            name: draft.name,
                            listen,
                            target: draft.target,
                            protocol: draft.protocol,
                            tcp_mode: draft.tcp_mode,
                            enabled: draft.enabled,
                        },
                    })
                    &&& asks(after, action, seq![])
                },
                Err(lines) => after == v && asks(after, action, lines),
            }
            &&& field == Field::Target ==> match crate::answer::address_answer(
                line,
                if editing {
                    Some(draft.target)
                } else {
                    None
                },
            ) {
                Ok(target) => {
                    &&& after.state == (EditStateView::Form {
                        at,
                        field: Field::Enabled,
                        draft: TunnelView {
                            name: draft.name,
                            listen: draft.listen,
                            target,
                            protocol: draft.protocol,
                            tcp_mode: draft.tcp_mode,
                            enabled: draft.enabled,
                        },
                    })
                    &&& asks(after, action, seq![])
                },
                Err(lines) => after == v && asks(after, action, lines),
            }
        }),
{
}

/// The last answer puts the draft where it belongs: behind the other tunnels, or in the place of
/// the one that is edited. Every other tunnel stays as it is, and where it is.
pub proof fn finished_form_changes_one_tunnel(
    v: EditView,
    at: Option<int>,
    draft: TunnelView,
    line: Seq<char>,
)
    requires
        v.state == (EditStateView::Form { at, field: Field::Enabled, draft }),
        at matches Some(i) ==> 0 <= i < v.config.tunnels.len(),
    ensures
        ({
            let (after, action) = v.next(EditEventView::Line { text: line });
            let tunnels = v.config.tunnels;
            let place = match at {
                Some(i) => i,
                None => tunnels.len() as int,
            };
            match crate::answer::bool_answer(line, draft.enabled) {
                Ok(on) => {
                    &&& after.state is Menu
                    &&& after.path == v.path
                    &&& after.config.mode == v.config.mode
                    &&& after.config.daemon_log == v.config.daemon_log
                    &&& after.config.tunnels.len() == (if at is Some {
                        tunnels.len()
                    } else {
                        tunnels.len() + 1
                    })
                    &&& after.config.tunnels[place] == (TunnelView {
                        name: draft.name,
                        listen: draft.listen,
                        target: draft.target,
                        protocol: draft.protocol,
                        tcp_mode: draft.tcp_mode,
                        enabled: on,
                    })
                    &&& forall|j: int|
                        0 <= j < tunnels.len() && j != place ==> #[trigger] after.config.tunnels[j]
                            == tunnels[j]
                    &&& asks(after, action, seq![])
                },
                Err(lines) => after == v && asks(after, action, lines),
            }
        }),
{
}

/// Editing the tunnel with a number, with answers that are taken, changes the tunnel at that
/// position as they say and leaves every other tunnel as it is.
pub proof fn answers_edit_the_numbered_tunnel(
    v: EditView,
    e: Seq<char>,
    number: Seq<char>,
    i: int,
    name: Seq<char>,
    protocol: Seq<char>,
    listen: Seq<char>,
    target: Seq<char>,
    enabled: Seq<char>,
)
    requires
        v.state is Menu,
        crate::text::trimmed(e) == "e"@,
        crate::answer::index_answer(number, v.config.tunnels.len()) == Ok::<int, Seq<Seq<char>>>(i),
        crate::text::trimmed(name).len() > 0,
        forall|j: int|
            0 <= j < v.config.tunnels.len() && j != i ==> (#[trigger] v.config.tunnels[j]).name
                != crate::text::trimmed(name),
        crate::answer::protocol_answer(protocol, Some(v.config.tunnels[i].protocol)) is Ok,
        crate::answer::address_answer(listen, Some(v.config.tunnels[i].listen)) is Ok,
        crate::answer::address_answer(target, Some(v.config.tunnels[i].target)) is Ok,
        crate::answer::bool_answer(enabled, v.config.tunnels[i].enabled) is Ok,
    ensures
        ({
            let after = v.after(seq![e, number, name, protocol, listen, target, enabled]);
            let t = v.config.tunnels[i];
            &&& after.state is Menu
            &&& after.config.mode == v.config.mode
            &&& after.config.daemon_log == v.config.daemon_log
            &&& after.config.tunnels.len() == v.config.tunnels.len()
            &&& after.config.tunnels[i] == (TunnelView {
                name: crate::text::trimmed(name),
                listen: crate::answer::address_answer(listen, Some(t.listen))->Ok_0,
                target: crate::answer::address_answer(target, Some(t.target))->Ok_0,
                protocol: crate::answer::protocol_answer(protocol, Some(t.protocol))->Ok_0,
                tcp_mode: t.tcp_mode,
                enabled: crate::answer::bool_answer(enabled, t.enabled)->Ok_0,
            })
            &&& forall|j: int|
                0 <= j < v.config.tunnels.len() && j != i ==> #[trigger] after.config.tunnels[j]
                    == v.config.tunnels[j]
        }),
{
    let n = v.config.tunnels.len();
    crate::answer::answered_index_is_in_range(number, n);
    let at = Some(i);
    let t = v.config.tunnels[i];
    let l1 = Seq::empty().push(e);
    let l2 = l1.push(number);
    let l3 = l2.push(name);
    let l4 = l3.push(protocol);
    let l5 = l4.push(listen);
    let l6 = l5.push(target);
    lemma_after_one_more(v, seq![], e);
    lemma_after_one_more(v, l1, number);
    lemma_after_one_more(v, l2, name);
    lemma_after_one_more(v, l3, protocol);
    lemma_after_one_more(v, l4, listen);
    lemma_after_one_more(v, l5, target);
    lemma_after_one_more(v, l6, enabled);
    menu_does_what_it_says(v, e);
    let d1 = TunnelView { name: crate::text::trimmed(name), ..t };
    let d2 = TunnelView {
        protocol: crate::answer::protocol_answer(protocol, Some(t.protocol))->Ok_0,
        ..d1
    };
    let d3 = TunnelView {
        listen: crate::answer::address_answer(listen, Some(t.listen))->Ok_0,
        ..d2
    };
    let d4 = TunnelView {
        target: crate::answer::address_answer(target, Some(t.target))->Ok_0,
        ..d3
    };
    assert(v.after(seq![]) == v);
    assert(v.after(l1) == v.to(EditStateView::Pick { task: Task::Edit }));
    assert(v.after(l2) == v.form(at, Field::Name, t));
    names_are_taken_once(v.after(l2), at, t, name);
    assert(v.after(l3) == v.form(at, Field::Protocol, d1));
    assert(v.after(l4) == v.form(at, Field::Listen, d2));
    assert(v.after(l5) == v.form(at, Field::Target, d3));
    assert(v.after(l6) == v.form(at, Field::Enabled, d4));
    finished_form_changes_one_tunnel(v.after(l6), at, d4, enabled);
    assert(l6.push(enabled) =~= seq![e, number, name, protocol, listen, target, enabled]);
}

/// What is asked: at the menu, for an action, below the screen; for a number, what it is for; before
/// a deletion, about the tunnel by its name.
pub proof fn questions_name_their_subject(v: EditView, task: Task, index: int)
    ensures
        v.to(EditStateView::Menu).ask() == (
            crate::screen::screen(v.path, v.config),
            "Action [a/e/t/d/m/l/s/q]"@,
        ),
        v.to(EditStateView::Pick { task }).ask() == (
            Seq::<Seq<char>>::empty(),
            "Tunnel number to "@ + (match task {
                Task::Edit => "edit"@,
                Task::Toggle => "toggle"@,
                Task::Delete => "delete"@,
            }),
        ),
        v.to(EditStateView::Confirm { index }).ask() == (
            Seq::<Seq<char>>::empty(),
            "Delete tunnel '"@ + v.config.tunnels[index].name + "' ? [y/N]"@,
        ),
{
}

/// What is asked of a tunnel: where it is added, each field by itself, with an example for the
/// addresses; where it is edited, each field with the value that it has.
pub proof fn form_shows_what_would_be_kept(v: EditView, index: int, draft: TunnelView)
    ensures
        ({
            let new = |field: Field|
                v.to(EditStateView::Form { at: None, field, draft }).ask();
            let edit = |field: Field|
                v.to(EditStateView::Form { at: Some(index), field, draft }).ask();
            let none = Seq::<Seq<char>>::empty();
            let choices = seq!["Select protocol: 1. TCP  2. UDP  3. Both"@];
            let number = match draft.protocol {
                Protocol::Tcp => "1"@,
                Protocol::Udp => "2"@,
                Protocol::Both => "3"@,
            };
            let switch = if draft.enabled {
                "Enable this tunnel? [Y/n]"@
            } else {
                "Enable this tunnel? [y/N]"@
            };
            &&& new(Field::Name) == (none, "Name"@)
            &&& new(Field::Protocol) == (choices, "Protocol"@)
            &&& new(Field::Listen) == (none, "Listen address (for example 0.0.0.0:8080)"@)
            &&& new(Field::Target) == (none, "Target address (for example 127.0.0.1:80)"@)
            &&& new(Field::Enabled) == (none, switch)
            &&& draft.name.len() > 0 ==> edit(Field::Name) == (
                none,
                "Name"@ + " [default: "@ + draft.name + "]"@,
            )
            &&& edit(Field::Protocol) == (choices, "Protocol"@ + " [default: "@ + number + "]"@)
            &&& draft.listen.len() > 0 ==> edit(Field::Listen) == (
                none,
                "Listen address"@ + " [default: "@ + draft.listen + "]"@,
            )
            &&& draft.target.len() > 0 ==> edit(Field::Target) == (
                none,
                "Target address"@ + " [default: "@ + draft.target + "]"@,
            )
            &&& edit(Field::Enabled) == (none, switch)
        }),
{
    reveal_strlit("1");
    reveal_strlit("2");
    reveal_strlit("3");
}

/// A save that was asked for ends the editor: it names the file on success, and hands on the error
/// on failure. Where no line can be read, the editor ends with that error and saves nothing. Once
/// it is over, nothing more happens.
pub proof fn editor_ends_once(v: EditView, event: EditEventView, error: Seq<char>)
    ensures
        v.state is Saving ==> {
            let (saved, end) = v.next(EditEventView::Saved { outcome: Ok(()) });
            let (unsaved, failure) = v.next(EditEventView::Saved { outcome: Err(error) });
            &&& saved == v.to(EditStateView::Over)
            &&& end == (EditActionView::End {
                lines: seq!["Saved configuration to "@ + v.path + "."@],
                outcome: Ok(()),
            })
            &&& unsaved == v.to(EditStateView::Over)
            &&& failure == (EditActionView::End { lines: seq![], outcome: Err(error) })
        },
        !(v.state is Saving) && !(v.state is Over) ==> v.next(EditEventView::Broken { error }) == (
            v.to(EditStateView::Over),
            EditActionView::End { lines: seq![], outcome: Err(error) },
        ),
        v.state is Saving && !(event is Saved) ==> v.next(event) == (v, EditActionView::Nothing),
        !(v.state is Saving) && event is Saved ==> v.next(event) == (v, EditActionView::Nothing),
        v.state is Over ==> v.next(event) == (v, EditActionView::Nothing),
{
}

/// What an event of the editor holds is what it is made of.
pub proof fn edit_events_hold_what_they_say(event: EditEvent)
    ensures
        match event {
            EditEvent::Line { text } => event@ == (EditEventView::Line { text: text@ }),
            EditEvent::Broken { error } => event@ == (EditEventView::Broken { error: error@ }),
            EditEvent::Saved { outcome: Ok(()) } => event@ == (EditEventView::Saved {
                outcome: Ok(()),
            }),
            EditEvent::Saved { outcome: Err(e) } => event@ == (EditEventView::Saved {
                outcome: Err(e@),
            }),
        },
{
}

/// What an action of the editor holds is what it is made of.
pub proof fn edit_actions_hold_what_they_say(action: EditAction)
    ensures
        match action {
            EditAction::Ask { lines, question } => action@ == (EditActionView::Ask {
                lines: lines@.map_values(|s: String| s@),
                question: question@,
            }),
            EditAction::Save { config } => action@ == (EditActionView::Save { config: config@ }),
            EditAction::End { lines, outcome: Ok(()) } => action@ == (EditActionView::End {
                lines: lines@.map_values(|s: String| s@),
                outcome: Ok(()),
            }),
            EditAction::End { lines, outcome: Err(e) } => action@ == (EditActionView::End {
                lines: lines@.map_values(|s: String| s@),
                outcome: Err(e@),
            }),
            EditAction::Nothing => action@ is Nothing,
        },
{
}

} // verus!
