//! The manager of one nftables table: which commands bring the table in step with a list of
//! tunnels, and what their outcomes mean.
use vstd::prelude::*;
use vstd::string::StringExecFns;

use crate::addr::Ipv4Addr;
use crate::config::{same_tunnels, TunnelConfig, TunnelView};
use crate::nft::{NamesView, NftNames, NftRuleset};
use crate::text::{contains_text, trim};

verus! {

/// A call of the `nft` program.
#[derive(Debug)]
pub enum NftCommand {
    /// Deletes a table.
    DeleteTable { table: String },
    /// Runs a script.
    RunScript { script: String },
}

/// What an `NftCommand` holds.
pub enum CommandView {
    DeleteTable { table: Seq<char> },
    RunScript { script: Seq<char> },
}

impl View for NftCommand {
    type V = CommandView;

    open spec fn view(&self) -> CommandView {
        match self {
            NftCommand::DeleteTable { table } => CommandView::DeleteTable { table: table@ },
            NftCommand::RunScript { script } => CommandView::RunScript { script: script@ },
        }
    }
}

impl CommandView {
    /// The arguments of the `nft` program.
    pub open spec fn arguments(self) -> Seq<Seq<char>> {
        match self {
            CommandView::DeleteTable { table } => seq!["delete"@, "table"@, "ip"@, table],
            CommandView::RunScript { .. } => seq!["-f"@, "-"@],
        }
    }

    /// What the `nft` program reads from its standard input, if anything.
    pub open spec fn input(self) -> Option<Seq<char>> {
        match self {
            CommandView::DeleteTable { .. } => None,
            CommandView::RunScript { script } => Some(script),
        }
    }
}

impl NftCommand {
    /// The arguments of the `nft` program.
    pub fn args(&self) -> (r: Vec<String>)
        ensures
            crate::text::texts(r@) == self@.arguments(),
    {
        let mut r: Vec<String> = Vec::new();
        match self {
            NftCommand::DeleteTable { table } => {
                r.push("delete".to_owned());
                r.push("table".to_owned());
                r.push("ip".to_owned());
                r.push(table.clone());
            },
            NftCommand::RunScript { .. } => {
                r.push("-f".to_owned());
                r.push("-".to_owned());
            },
        }
        assert(crate::text::texts(r@) =~= self@.arguments());
        r
    }

    /// What the `nft` program reads from its standard input, if anything.
    pub fn stdin(&self) -> (r: Option<&str>)
        ensures
            match r {
                Some(text) => self@.input() == Some(text@),
                None => self@.input() is None,
            },
    {
        match self {
            NftCommand::DeleteTable { .. } => None,
            NftCommand::RunScript { script } => Some(script.as_str()),
        }
    }
}

/// What came of a call of the `nft` program.
#[derive(Debug)]
pub enum CommandOutcome {
    /// It could not be run, or spoken to.
    NotRun { error: String },
    /// It ended.
    Ended { success: bool, stderr: String },
}

/// What a failed deletion of a table is reported as; a table that was not there is no failure.
pub open spec fn delete_fault(outcome: CommandOutcome) -> Option<Seq<char>> {
    match outcome {
        CommandOutcome::NotRun { error } => Some(error@),
        CommandOutcome::Ended { success, stderr } => if success || crate::text::has_piece(
            stderr@,
            "No such file or directory"@,
        ) {
            None
        } else {
            Some("nft delete table failed: "@ + crate::text::trimmed(stderr@))
        },
    }
}

/// What a failed script is reported as.
pub open spec fn script_fault(outcome: CommandOutcome) -> Option<Seq<char>> {
    match outcome {
        CommandOutcome::NotRun { error } => Some(error@),
        CommandOutcome::Ended { success, stderr } => if success {
            None
        } else {
            Some("nft apply failed: "@ + crate::text::trimmed(stderr@))
        },
    }
}

/// Judges a deletion of a table.
pub fn delete_table(outcome: CommandOutcome) -> (r: Result<(), String>)
    ensures
        match r {
            Ok(()) => delete_fault(outcome) is None,
            Err(e) => delete_fault(outcome) == Some(e@),
        },
{
    match outcome {
        CommandOutcome::NotRun { error } => Err(error),
        CommandOutcome::Ended { success, stderr } => if success || contains_text(
            stderr.as_str(),
            "No such file or directory",
        ) {
            Ok(())
        } else {
            Err("nft delete table failed: ".to_owned().concat(trim(stderr.as_str()).as_str()))
        },
    }
}

/// Judges the run of a script.
pub fn run_nft_script(outcome: CommandOutcome) -> (r: Result<(), String>)
    ensures
        match r {
            Ok(()) => script_fault(outcome) is None,
            Err(e) => script_fault(outcome) == Some(e@),
        },
{
    match outcome {
        CommandOutcome::NotRun { error } => Err(error),
        CommandOutcome::Ended { success, stderr } => if success {
            Ok(())
        } else {
            Err("nft apply failed: ".to_owned().concat(trim(stderr.as_str()).as_str()))
        },
    }
}

/// The manager of one table.
#[derive(Debug)]
pub struct NftManager {
    names: NftNames,
    active_specs: Vec<TunnelConfig>,
    table_active: bool,
}

/// What an `NftManager` holds: the names of its table, the tunnels that it forwards, and whether
/// the table was installed and has not been given up since.
pub struct NftState {
    pub names: NamesView,
    pub active: Seq<TunnelView>,
    pub table_active: bool,
}

impl View for NftManager {
    type V = NftState;

    closed spec fn view(&self) -> NftState {
        NftState {
            names: self.names@,
            active: TunnelConfig::views(self.active_specs@),
            table_active: self.table_active,
        }
    }
}

impl NftState {
    /// The table is installed exactly where it forwards tunnels.
    pub open spec fn wf(self) -> bool {
        self.table_active <==> self.active.len() > 0
    }

    /// Whether `desired` is what the table forwards already.
    pub open spec fn settled_on(self, desired: Seq<TunnelView>) -> bool {
        self.table_active && self.active == desired
    }

    /// The state once `desired` is installed.
    pub open spec fn with(self, desired: Seq<TunnelView>) -> NftState {
        NftState { names: self.names, active: desired, table_active: desired.len() > 0 }
    }
}

/// The addresses of a set in ascending order.
pub open spec fn sorted(set: Set<Ipv4Addr>) -> Seq<Ipv4Addr> {
    choose|s: Seq<Ipv4Addr>| crate::nft::ascending(s) && s.to_set() == set
}

/// The commands that install `tunnels` under the names `n`, where there is no table.
pub open spec fn install_script(n: NamesView, tunnels: Seq<TunnelView>) -> Seq<char> {
    crate::nft::script_text(
        n,
        crate::nft::all_rules(tunnels),
        sorted(crate::nft::outside_targets(tunnels)),
    )
}

/// The commands that leave no table `table`, whether there is one or not.
pub open spec fn clear_text(table: Seq<char>) -> Seq<char> {
    "add table ip "@ + table + "\ndelete table ip "@ + table + "\n"@
}

/// The script that puts a table for `tunnels` in the place of the one that may be there. The `nft`
/// program runs a script wholly or not at all, so the old table stays where the script is refused.
pub open spec fn replace_script(n: NamesView, tunnels: Seq<TunnelView>) -> Seq<char> {
    clear_text(n.table) + install_script(n, tunnels)
}

impl NftState {
    /// The one command that brings the table in step with `desired`.
    pub open spec fn command_for(self, desired: Seq<TunnelView>) -> CommandView {
        if desired.len() == 0 {
            CommandView::DeleteTable { table: self.names.table }
        } else {
            CommandView::RunScript { script: replace_script(self.names, desired) }
        }
    }

    /// What that command is for.
    pub open spec fn stage_for(self, desired: Seq<TunnelView>) -> NftStage {
        if desired.len() == 0 {
            NftStage::Removing
        } else {
            NftStage::Installing
        }
    }

    /// The state after a pass: `desired` is installed where the command succeeded, else all is as
    /// it was.
    pub open spec fn after(
        self,
        stage: NftStage,
        desired: Seq<TunnelView>,
        outcome: CommandOutcome,
    ) -> NftState {
        if pass_fault(stage, outcome) is Some {
            self
        } else {
            self.with(desired)
        }
    }
}

/// Why a pass failed, where it did.
pub open spec fn pass_fault(stage: NftStage, outcome: CommandOutcome) -> Option<Seq<char>> {
    match stage {
        NftStage::Installing => script_fault(outcome),
        NftStage::Removing => delete_fault(outcome),
    }
}

/// What the command of a pass is for.
#[derive(Debug, Clone, Copy, PartialEq, Eq, Structural)]
pub enum NftStage {
    /// Puts the new table in the place of the old one.
    Installing,
    /// Deletes the table, with none to take its place.
    Removing,
}

/// A change of the table that is under way.
#[derive(Debug)]
pub struct NftPass {
    pub stage: NftStage,
    pub desired: Vec<TunnelConfig>,
}

/// What a change of the table has come to.
#[derive(Debug)]
pub enum NftProgress {
    /// It is over: whether the table is as desired, and what there is to report.
    Settled { applied: bool, report: Option<String> },
    /// A command is to be run, and its outcome to be handed to `NftManager::advance`.
    Run { command: NftCommand, pass: NftPass },
}

/// What is reported where rules cannot be applied.
pub open spec fn apply_report(fault: Seq<char>) -> Seq<char> {
    "Failed to apply nft rules: "@ + fault
}

impl NftProgress {
    /// Whether this is the end of a change, with the table as desired and nothing to report.
    pub open spec fn done(self) -> bool {
        self matches NftProgress::Settled { applied, report } && applied && report is None
    }

    /// Whether this is the end of a change that failed for the reason `fault`.
    pub open spec fn failed(self, fault: Seq<char>) -> bool {
        &&& self matches NftProgress::Settled { applied, report }
        &&& !applied
        &&& report matches Some(text)
        &&& text@ == apply_report(fault)
    }

    /// Whether this is how a change from `state` to `desired` begins: done where `desired` is
    /// installed already, failed where a tunnel has no rule, else with the one command for it.
    pub open spec fn begins(self, state: NftState, desired: Seq<TunnelView>) -> bool {
        if state.settled_on(desired) {
            self.done()
        } else if crate::nft::routes_fault(desired) is Some {
            self.failed(crate::nft::routes_fault(desired)->0.text())
        } else {
            &&& self matches NftProgress::Run { command, pass }
            &&& TunnelConfig::views(pass.desired@) == desired
            &&& pass.stage == state.stage_for(desired)
            &&& command@ == state.command_for(desired)
        }
    }

    /// Whether this is the end of a change that was not begun, because there is no nftables here.
    pub open spec fn unsupported(self) -> bool {
        &&& self matches NftProgress::Settled { applied, report }
        &&& !applied
        &&& report matches Some(text)
        &&& text@ == "nft mode is only supported on Linux."@
    }
}

fn failure(fault: String) -> (r: NftProgress)
    ensures
        r.failed(fault@),
{
    NftProgress::Settled {
        applied: false,
        report: Some("Failed to apply nft rules: ".to_owned().concat(fault.as_str())),
    }
}

impl NftManager {
    /// A manager with names of its own and no table.
    pub fn new(pid: u32, unique: u128) -> (r: NftManager)
        ensures
            r@ == (NftState {
                names: crate::nft::names_for(pid as nat, unique as nat),
                active: seq![],
                table_active: false,
            }),
            r@.wf(),
    {
        let r = NftManager {
            names: NftNames::new(pid, unique),
            active_specs: Vec::new(),
            table_active: false,
        };
        assert(TunnelConfig::views(r.active_specs@) =~= seq![]);
        r
    }

    /// Begins to bring the table in step with `desired`. Nothing is to be done where it is so
    /// already. Else one command replaces the table or, where there is no tunnel, deletes it;
    /// tunnels that have no rule are refused before any command is run.
    pub fn reconcile(&self, desired: Vec<TunnelConfig>) -> (r: NftProgress)
        ensures
            r.begins(self@, TunnelConfig::views(desired@)),
    {
        if self.table_active && same_tunnels(&self.active_specs, &desired) {
            return NftProgress::Settled { applied: true, report: None };
        }
        match NftRuleset::from_tunnels(&desired, &self.names) {
            Err(e) => failure(e.message()),
            Ok(ruleset) => {
                let ghost ts = TunnelConfig::views(desired@);
                proof {
                    crate::nft::rules_empty_iff_no_tunnels(ts);
                    let m = ruleset.masquerade_targets@;
                    let s = sorted(crate::nft::outside_targets(ts));
                    assert(crate::nft::ascending(m) && m.to_set() == crate::nft::outside_targets(
                        ts,
                    ));
                    crate::nft::ascending_is_unique(m, s);
                }
                if ruleset.is_empty() {
                    NftProgress::Run {
                        command: NftCommand::DeleteTable { table: self.names.table.clone() },
                        pass: NftPass { stage: NftStage::Removing, desired },
                    }
                } else {
                    NftProgress::Run {
                        command: NftCommand::RunScript { script: self.render_replacement(&ruleset) },
                        pass: NftPass { stage: NftStage::Installing, desired },
                    }
                }
            },
        }
    }

    /// Begins to bring the table in step with `desired` on a host that runs Linux, where `linux`
    /// holds. On any other host that fails, and no command is run.
    pub fn reconcile_on(&self, linux: bool, desired: Vec<TunnelConfig>) -> (r: NftProgress)
        ensures
            if linux {
                r.begins(self@, TunnelConfig::views(desired@))
            } else {
                r.unsupported()
            },
    {
        if linux {
            self.reconcile(desired)
        } else {
            NftProgress::Settled {
                applied: false,
                report: Some("nft mode is only supported on Linux.".to_owned()),
            }
        }
    }

    fn render_replacement(&self, ruleset: &NftRuleset) -> (r: String)
        ensures
            r@ == clear_text(self@.names.table) + crate::nft::script_text(
                ruleset.names@,
                ruleset.rules@,
                ruleset.masquerade_targets@,
            ),
    {
        let table = self.names.table.as_str();
        "add table ip ".to_owned().concat(table).concat("\ndelete table ip ").concat(table).concat(
            "\n",
        ).concat(ruleset.render_script().as_str())
    }

    /// Ends a pass, given the outcome of its command. A pass that fails leaves the manager as it
    /// was.
    pub fn advance(&mut self, pass: NftPass, outcome: CommandOutcome) -> (r: NftProgress)
        ensures
            old(self)@.wf() ==> final(self)@.wf(),
            final(self)@ == old(self)@.after(
                pass.stage,
                TunnelConfig::views(pass.desired@),
                outcome,
            ),
            match pass_fault(pass.stage, outcome) {
                Some(fault) => r.failed(fault),
                None => r.done(),
            },
    {
        let result = match pass.stage {
            NftStage::Installing => run_nft_script(outcome),
            NftStage::Removing => delete_table(outcome),
        };
        match result {
            Ok(()) => {
                self.table_active = pass.desired.len() > 0;
                self.active_specs = pass.desired;
                NftProgress::Settled { applied: true, report: None }
            },
            Err(fault) => failure(fault),
        }
    }

    /// Gives the table up: the command that deletes it, where it is there.
    pub fn stop_all(&mut self) -> (r: Option<NftCommand>)
        ensures
            final(self)@ == old(self)@.with(seq![]),
            match r {
                Some(command) => old(self)@.table_active && command@ == (CommandView::DeleteTable {
                    table: old(self)@.names.table,
                }),
                None => !old(self)@.table_active,
            },
    {
        let r = self.teardown();
        self.active_specs.clear();
        self.table_active = false;
        assert(TunnelConfig::views(self.active_specs@) =~= seq![]);
        r
    }

    /// The command that deletes the table, where it is there.
    pub fn teardown(&self) -> (r: Option<NftCommand>)
        ensures
            match r {
                Some(command) => self@.table_active && command@ == (CommandView::DeleteTable {
                    table: self@.names.table,
                }),
                None => !self@.table_active,
            },
    {
        if self.table_active {
            Some(NftCommand::DeleteTable { table: self.names.table.clone() })
        } else {
            None
        }
    }

    /// What is reported of a deletion by `stop_all`; `dropping` where the manager goes away.
    pub fn teardown_report(&self, outcome: CommandOutcome, dropping: bool) -> (r: Option<String>)
        ensures
            match r {
                Some(text) => delete_fault(outcome) is Some && text@ == "Failed to delete nft table '"@
                    + self@.names.table + (if dropping {
                    "' during drop: "@
                } else {
                    "': "@
                }) + delete_fault(outcome)->0,
                None => delete_fault(outcome) is None,
            },
    {
        match delete_table(outcome) {
            Ok(()) => None,
            Err(fault) => {
                let link = if dropping {
                    "' during drop: "
                } else {
                    "': "
                };
                Some(
                    "Failed to delete nft table '".to_owned().concat(
                        self.names.table.as_str(),
                    ).concat(link).concat(fault.as_str()),
                )
            },
        }
    }
}

/// A pass for a list with tunnels runs a script alone. No table is deleted by a command of its own:
/// the script holds its deletion, directly before the commands that install the new table.
pub proof fn no_table_goes_before_its_successor(state: NftState, desired: Seq<TunnelView>)
    requires
        desired.len() > 0,
    ensures
        !(state.command_for(desired) is DeleteTable),
        state.command_for(desired).input() == Some(
            "add table ip "@ + state.names.table + "\ndelete table ip "@ + state.names.table
                + "\n"@ + install_script(state.names, desired),
        ),
{
}

/// A pass that fails keeps the tunnels that run: they count as installed as before, they are still
/// settled, and the tunnels that were refused are not, so that they are tried again.
pub proof fn failed_reload_keeps_the_tunnels(
    state: NftState,
    desired: Seq<TunnelView>,
    outcome: CommandOutcome,
)
    requires
        state.wf(),
        !state.settled_on(desired),
        pass_fault(state.stage_for(desired), outcome) is Some,
    ensures
        ({
            let now = state.after(state.stage_for(desired), desired, outcome);
            &&& now == state
            &&& state.active.len() > 0 ==> now.settled_on(state.active)
            &&& !now.settled_on(desired)
            &&& now.command_for(desired) == state.command_for(desired)
        }),
{
}

/// Once tunnels are installed, asking for the same tunnels again runs no command.
pub proof fn installed_tunnels_are_left_alone(state: NftState, desired: Seq<TunnelView>)
    requires
        desired.len() > 0,
    ensures
        state.with(desired).settled_on(desired),
{
}

/// A manager that has been stopped has nothing to delete, and stopping it again changes nothing.
pub proof fn stopping_twice_is_stopping_once(state: NftState)
    ensures
        state.with(seq![]).wf(),
        !state.with(seq![]).table_active,
        state.with(seq![]).with(seq![]) == state.with(seq![]),
{
}

/// What each command says to the `nft` program: a deletion names the table and brings no input; a
/// script is read from the input.
pub proof fn commands_say_what_they_do(table: Seq<char>, script: Seq<char>)
    ensures
        (CommandView::DeleteTable { table }).arguments() == seq!["delete"@, "table"@, "ip"@, table],
        (CommandView::DeleteTable { table }).input() is None,
        (CommandView::RunScript { script }).arguments() == seq!["-f"@, "-"@],
        (CommandView::RunScript { script }).input() == Some(script),
{
}

/// How a change begins, in every case: done without a command exactly where the table is installed
/// and forwards just the tunnels that are desired; refused without a command exactly where one of
/// them has no route; else with the command that deletes the table, where no tunnel is desired, or
/// with the script that replaces it.
pub proof fn changes_begin_in_one_way(r: NftProgress, state: NftState, desired: Seq<TunnelView>)
    requires
        r.begins(state, desired),
    ensures
        ({
            let same = state.table_active && state.active == desired;
            let refused = crate::nft::routes_fault(desired) is Some;
            &&& r is Run <==> !same && !refused
            &&& r matches NftProgress::Settled { applied, report } ==> {
                &&& applied <==> same
                &&& same ==> report is None
                &&& !same ==> {
                    &&& report is Some
                    &&& report->0@ == "Failed to apply nft rules: "@ + (crate::nft::routes_fault(
                        desired,
                    )->0).text()
                }
            }
            &&& r matches NftProgress::Run { command, pass } ==> {
                &&& TunnelConfig::views(pass.desired@) == desired
                &&& desired.len() == 0 ==> {
                    &&& pass.stage == NftStage::Removing
                    &&& command@ == (CommandView::DeleteTable { table: state.names.table })
                }
                &&& desired.len() > 0 ==> {
                    &&& pass.stage == NftStage::Installing
                    &&& command@ is RunScript
                    &&& command@.input() == Some(
                        "add table ip "@ + state.names.table + "\ndelete table ip "@
                            + state.names.table + "\n"@ + install_script(state.names, desired),
                    )
                }
            }
        }),
{
}

/// The script that installs tunnels holds their rules, in order, and masquerades the addresses
/// outside this host, each once and ascending.
pub proof fn script_installs_the_tunnels(
    n: NamesView,
    tunnels: Seq<TunnelView>,
    targets: Seq<Ipv4Addr>,
)
    requires
        crate::nft::ascending(targets),
        targets.to_set() == crate::nft::outside_targets(tunnels),
    ensures
        install_script(n, tunnels) == crate::nft::script_text(
            n,
            crate::nft::all_rules(tunnels),
            targets,
        ),
{
    crate::nft::ascending_is_unique(targets, sorted(crate::nft::outside_targets(tunnels)));
}

/// A pass that succeeds installs what was desired: those tunnels are on record, and the table counts
/// as installed exactly where there are any. The names stay. A pass that fails changes nothing.
pub proof fn passes_install_what_was_desired(
    state: NftState,
    stage: NftStage,
    desired: Seq<TunnelView>,
    outcome: CommandOutcome,
)
    ensures
        ({
            let after = state.after(stage, desired, outcome);
            &&& after.names == state.names
            &&& pass_fault(stage, outcome) is Some ==> after == state
            &&& pass_fault(stage, outcome) is None ==> after.active == desired && (
            after.table_active <==> desired.len() > 0)
        }),
        state.with(seq![]).names == state.names,
        state.with(seq![]).active.len() == 0,
{
}

/// A script succeeds exactly where the `nft` program ran and reported success. A deletion succeeds
/// there too, and also where the program found no such table. Every failure brings its own words.
pub proof fn outcomes_are_judged(error: String, success: bool, stderr: String)
    ensures
        ({
            let gone = exists|a: Seq<char>, b: Seq<char>| #[trigger]
                (a + "No such file or directory"@ + b) == stderr@;
            let ended = CommandOutcome::Ended { success, stderr };
            let unrun = CommandOutcome::NotRun { error };
            &&& pass_fault(NftStage::Installing, ended) is None <==> success
            &&& !success ==> pass_fault(NftStage::Installing, ended) == Some(
                "nft apply failed: "@ + crate::text::trimmed(stderr@),
            )
            &&& pass_fault(NftStage::Removing, ended) is None <==> success || gone
            &&& !success && !gone ==> pass_fault(NftStage::Removing, ended) == Some(
                "nft delete table failed: "@ + crate::text::trimmed(stderr@),
            )
            &&& pass_fault(NftStage::Installing, unrun) == Some(error@)
            &&& pass_fault(NftStage::Removing, unrun) == Some(error@)
            &&& delete_fault(ended) == pass_fault(NftStage::Removing, ended)
            &&& delete_fault(unrun) == Some(error@)
            &&& script_fault(ended) == pass_fault(NftStage::Installing, ended)
            &&& script_fault(unrun) == Some(error@)
        }),
{
    crate::text::piece_has_something_around_it(stderr@, "No such file or directory"@);
}

/// How a change ends: one that is done is applied and has nothing to report; one that failed is not
/// applied and says why; one that was not begun for want of nftables says that.
pub proof fn changes_end_in_one_way(r: NftProgress, fault: Seq<char>)
    ensures
        r.done() ==> r is Settled && r->applied && r->report is None,
        r.failed(fault) ==> r is Settled && !r->applied && r->report is Some && r->report->0@
            == "Failed to apply nft rules: "@ + fault,
        r.unsupported() ==> r is Settled && !r->applied && r->report is Some && r->report->0@
            == "nft mode is only supported on Linux."@,
{
}

} // verus!
