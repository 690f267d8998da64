//! The dispatch engine: from a write notification and a clock reading to the
//! actions that a runner is to perform, in order.
//!
//! The engine performs nothing itself. It owns one piece of state, the time
//! of the last accepted event, and moves it forward before it hands the
//! actions out, so that the cooldown never waits for a command to finish.

use crate::config::Config;
use crate::error::ConfigError;
use crate::pattern::pattern_valid;
use crate::rules::{
    batch_models, batch_of, copy_optional, every_matching_rule_fires, hits_before, hits_for,
    key_matches, only_marked_entries_fire, optional_text, patterns_valid, resolved,
    resolved_command, Batch, BatchModel, RuleSet, RuleSetModel,
};
use crate::settings::{accepts, ignored_dir, ignored_file, FilterModel, FilterSettings};
use crate::text::extension;
use vstd::prelude::*;

verus! {

/// One thing for the runner to do.
#[derive(Clone, Debug, PartialEq, Eq)]
pub enum Action {
    /// Collect the child processes that have ended, without waiting.
    ReapFinished,
    /// Clear the terminal.
    ClearTerminal,
    /// Start `command` as one shell line, in `working_dir` where one is
    /// given, and do not wait for it.
    Spawn { command: String, working_dir: Option<String> },
}

/// `Action` as mathematics.
pub enum ActionModel {
    ReapFinished,
    ClearTerminal,
    Spawn { command: Seq<char>, working_dir: Option<Seq<char>> },
}

impl View for Action {
    type V = ActionModel;

    open spec fn view(&self) -> ActionModel {
        match *self {
            Action::ReapFinished => ActionModel::ReapFinished,
            Action::ClearTerminal => ActionModel::ClearTerminal,
            Action::Spawn { command, working_dir } => ActionModel::Spawn {
                command: command@,
                working_dir: optional_text(working_dir),
            },
        }
    }
}

/// The views of a list of actions.
pub open spec fn action_models(actions: Seq<Action>) -> Seq<ActionModel> {
    Seq::new(actions.len(), |i: int| actions[i]@)
}

/// One spawn for each command of the batch, in order, each in the batch's
/// working directory.
pub open spec fn spawns_of(batch: BatchModel) -> Seq<ActionModel> {
    Seq::new(
        batch.commands.len(),
        |i: int|
            ActionModel::Spawn { command: batch.commands[i], working_dir: batch.working_dir },
    )
}

/// The spawns of the first `n` batches, batch after batch.
pub open spec fn spawns_upto(batches: Seq<BatchModel>, n: int) -> Seq<ActionModel>
    decreases n,
{
    if n <= 0 {
        Seq::empty()
    } else {
        spawns_upto(batches, n - 1) + spawns_of(batches[n - 1])
    }
}

/// What the runner is to do for the batches of one accepted event: nothing
/// where there is no batch; else reap, then clear the terminal if `clear` is
/// set, then every command of every batch in order.
pub open spec fn dispatched(batches: Seq<BatchModel>, clear: bool) -> Seq<ActionModel> {
    if batches.len() == 0 {
        Seq::empty()
    } else {
        seq![ActionModel::ReapFinished] + (if clear {
            seq![ActionModel::ClearTerminal]
        } else {
            Seq::empty()
        }) + spawns_upto(batches, batches.len() as int)
    }
}

/// The actions for the batches of one accepted event.
pub fn dispatch(batches: &Vec<Batch>, clear_terminal: bool) -> (actions: Vec<Action>)
    ensures
        action_models(actions@) == dispatched(batch_models(batches@), clear_terminal),
{
    let mut actions: Vec<Action> = Vec::new();
    if batches.len() == 0 {
        assert(action_models(actions@) =~= Seq::empty());
        return actions;
    }
    actions.push(Action::ReapFinished);
    if clear_terminal {
        actions.push(Action::ClearTerminal);
    }
    let ghost head = action_models(actions@);
    assert(head =~= seq![ActionModel::ReapFinished] + (if clear_terminal {
        seq![ActionModel::ClearTerminal]
    } else {
        Seq::empty()
    }));
    let mut i: usize = 0;
    assert(action_models(actions@) =~= head + spawns_upto(batch_models(batches@), 0));
    while i < batches.len()
        invariant
            i <= batches.len(),
            action_models(actions@) == head + spawns_upto(batch_models(batches@), i as int),
        decreases batches.len() - i,
    {
        let batch = &batches[i];
        let ghost before = action_models(actions@);
        let mut k: usize = 0;
        assert(spawns_of(batch@).take(0) =~= Seq::empty());
        while k < batch.commands.len()
            invariant
                k <= batch.commands.len(),
                action_models(actions@) == before + spawns_of(batch@).take(k as int),
            decreases batch.commands.len() - k,
        {
            let ghost so_far = action_models(actions@);
            actions.push(
                Action::Spawn {
                    command: batch.commands[k].clone(),
                    working_dir: copy_optional(&batch.working_dir),
                },
            );
            assert(action_models(actions@) =~= so_far.push(spawns_of(batch@)[k as int]));
            assert(spawns_of(batch@).take(k + 1) =~= spawns_of(batch@).take(k as int).push(
                spawns_of(batch@)[k as int],
            ));
            k += 1;
        }
        assert(spawns_of(batch@).take(k as int) =~= spawns_of(batch@));
        assert(batch_models(batches@)[i as int] == batch@);
        i += 1;
    }
    actions
}

/// `Engine` as mathematics.
pub struct EngineModel {
    pub rules: RuleSetModel,
    pub settings: FilterModel,
    pub last_accepted_at: int,
}

/// Whether the engine acts on a write to `path` at `now`.
pub open spec fn accepted(engine: EngineModel, path: Seq<char>, now: int) -> bool {
    accepts(engine.settings, engine.last_accepted_at, path, now)
}

/// The engine after a write to `path` at `now`: an accepted event becomes
/// the last accepted event; any other leaves the engine as it was.
pub open spec fn after(engine: EngineModel, path: Seq<char>, now: int) -> EngineModel {
    if accepted(engine, path, now) {
        EngineModel { last_accepted_at: now, ..engine }
    } else {
        engine
    }
}

/// What the runner is to do for a write to `path` at `now`: nothing for an
/// event that is not accepted; else the actions for the batches of every
/// rule that matches the path.
pub open spec fn reaction(engine: EngineModel, path: Seq<char>, now: int) -> Seq<ActionModel> {
    if accepted(engine, path, now) {
        dispatched(resolved(engine.rules, path), engine.settings.clear_terminal)
    } else {
        Seq::empty()
    }
}

/// The dispatch engine: the rules and settings of one configuration, which
/// never change, and the time of the last accepted event, in milliseconds
/// on the clock of whoever feeds the engine.
pub struct Engine {
    rules: RuleSet,
    settings: FilterSettings,
    last_accepted_at: u64,
}

impl View for Engine {
    type V = EngineModel;

    closed spec fn view(&self) -> EngineModel {
        EngineModel {
            rules: self.rules@,
            settings: self.settings@,
            last_accepted_at: self.last_accepted_at as int,
        }
    }
}

impl Engine {
    /// Every key of the engine's rules can be read by their mode.
    #[verifier::type_invariant]
    spec fn keys_readable(&self) -> bool {
        patterns_valid(self.rules@)
    }

    /// An engine for `config`, made at `now`: the cooldown runs from `now`.
    ///
    /// Fails if, in pattern mode, a key does not compile; the error names
    /// the first such rule.
    pub fn new(config: Config, now: u64) -> (r: Result<Engine, ConfigError>)
        ensures
            r is Ok <==> patterns_valid(config.rules@),
            r matches Ok(engine) ==> engine@ == (EngineModel {
                rules: config.rules@,
                settings: config.settings@,
                last_accepted_at: now as int,
            }),
            r matches Err(e) ==> {
                &&& e matches ConfigError::Pattern { rule }
                &&& rule < config.rules@.entries.len()
                &&& !pattern_valid(config.rules@.entries[rule as int].key)
                &&& forall|j: int|
                    0 <= j < rule ==> pattern_valid(
                        #[trigger] config.rules@.entries[j].key,
                    )
            },
    {
        match config.rules.check_keys() {
            Ok(()) => Ok(
                Engine { rules: config.rules, settings: config.settings, last_accepted_at: now },
            ),
            Err(e) => {
                assert forall|j: int| 0 <= j < e->rule implies pattern_valid(
                    #[trigger] config.rules@.entries[j].key,
                ) by {
                    assert(pattern_valid(config.rules.entries[j].key@));
                }
                Err(e)
            },
        }
    }

    /// The rules of the engine.
    pub fn rules(&self) -> (r: &RuleSet)
        ensures
            r@ == self@.rules,
            patterns_valid(r@),
    {
        proof {
            use_type_invariant(self);
        }
        &self.rules
    }

    /// The filter settings of the engine.
    pub fn settings(&self) -> (r: &FilterSettings)
        ensures
            r@ == self@.settings,
    {
        &self.settings
    }

    /// The time of the last accepted event; before the first, the time at
    /// which the engine was made.
    pub fn last_accepted_at(&self) -> (r: u64)
        ensures
            r == self@.last_accepted_at,
    {
        self.last_accepted_at
    }

    /// Decides whether a write to `path` at `now` is acted on, and if so
    /// makes it the last accepted event.
    ///
    /// The event is suppressed if the base name of the path is an ignored
    /// file, if its parent directory contains an ignored directory, or if
    /// less than the cooldown has passed since the last accepted event.
    pub fn should_process(&mut self, path: &str, now: u64) -> (r: bool)
        ensures
            r == accepted(old(self)@, path@, now as int),
            final(self)@ == after(old(self)@, path@, now as int),
    {
        let r = self.settings.accepts(self.last_accepted_at, path, now);
        if r {
            proof {
                use_type_invariant(&*self);
            }
            self.last_accepted_at = now;
        }
        r
    }

    /// Handles a write to `path` at `now`: filters the event, and where it is
    /// accepted, resolves the rules that match the path into the actions
    /// that the runner is to perform, in order.
    pub fn check_and_run(&mut self, path: &str, now: u64) -> (actions: Vec<Action>)
        ensures
            final(self)@ == after(old(self)@, path@, now as int),
            action_models(actions@) == reaction(old(self)@, path@, now as int),
    {
        if self.should_process(path, now) {
            let batches = self.rules.resolve(path);
            dispatch(&batches, self.settings.clear_terminal)
        } else {
            let actions: Vec<Action> = Vec::new();
            assert(action_models(actions@) =~= Seq::empty());
            actions
        }
    }
}

/// Of two events of which the first was accepted, the second is suppressed
/// if less than the cooldown lies between them, and leaves the engine as
/// it was; with the cooldown or more between them it is accepted, unless its
/// path is ignored.
pub proof fn cooldown_separates_accepted_events(
    engine: EngineModel,
    first_path: Seq<char>,
    first: int,
    second_path: Seq<char>,
    second: int,
)
    requires
        accepted(engine, first_path, first),
    ensures
        second - first < engine.settings.cooldown_ms ==> {
            let rested = after(engine, first_path, first);
            &&& !accepted(rested, second_path, second)
            &&& reaction(rested, second_path, second) == Seq::<ActionModel>::empty()
            &&& after(rested, second_path, second) == rested
        },
        second - first >= engine.settings.cooldown_ms ==> (accepted(
            after(engine, first_path, first),
            second_path,
            second,
        ) <==> !ignored_file(engine.settings, second_path) && !ignored_dir(
            engine.settings,
            second_path,
        )),
{
}

/// An ignored path never changes the engine and never gives an action,
/// whatever the rules and the clock.
pub proof fn ignored_path_gives_nothing(engine: EngineModel, path: Seq<char>, now: int)
    requires
        ignored_file(engine.settings, path) || ignored_dir(engine.settings, path),
    ensures
        !accepted(engine, path, now),
        after(engine, path, now) == engine,
        reaction(engine, path, now) == Seq::<ActionModel>::empty(),
{
}

/// In extension mode a path without an extension matches no rule: the
/// event gives no action, accepted or not.
pub proof fn no_extension_gives_nothing(engine: EngineModel, path: Seq<char>, now: int)
    requires
        engine.rules.mode is Extension,
        extension(path) is None,
    ensures
        resolved(engine.rules, path) == Seq::<BatchModel>::empty(),
        reaction(engine, path, now) == Seq::<ActionModel>::empty(),
{
    only_marked_entries_fire(engine.rules.entries, hits_for(engine.rules, path), path);
    assert(resolved(engine.rules, path) =~= Seq::<BatchModel>::empty());
}

/// How many actions stand before the first spawn where there is a batch.
pub open spec fn actions_before_spawns(clear: bool) -> int {
    if clear {
        2
    } else {
        1
    }
}

/// How many commands the first `n` batches hold.
pub open spec fn commands_before(batches: Seq<BatchModel>, n: int) -> int
    decreases n,
{
    if n <= 0 {
        0
    } else {
        commands_before(batches, n - 1) + batches[n - 1].commands.len()
    }
}

/// Every command of every batch is handed to the runner, with the working
/// directory of its batch, batch after batch and within a batch in the
/// order of its commands: command `k` of batch `b` stands behind the
/// commands of the batches before `b` and the `k` commands before it.
pub proof fn every_command_is_dispatched_in_order(
    batches: Seq<BatchModel>,
    clear: bool,
    b: int,
    k: int,
)
    requires
        0 <= b < batches.len(),
        0 <= k < batches[b].commands.len(),
    ensures
        dispatched(batches, clear).len() == actions_before_spawns(clear) + commands_before(
            batches,
            batches.len() as int,
        ),
        0 <= commands_before(batches, b),
        commands_before(batches, b) + k < commands_before(batches, batches.len() as int),
        dispatched(batches, clear)[actions_before_spawns(clear) + commands_before(batches, b) + k]
            == (ActionModel::Spawn {
            command: batches[b].commands[k],
            working_dir: batches[b].working_dir,
        }),
        dispatched(batches, clear)[0] == ActionModel::ReapFinished,
        clear ==> dispatched(batches, clear)[1] == ActionModel::ClearTerminal,
{
    spawns_upto_shape(batches, batches.len() as int, b, k);
}

/// When an event is accepted, every command of every rule whose key matches
/// the path reaches the runner, made ready for the path and with the
/// working directory of its rule: command `k` of rule `i` stands behind the
/// commands of the matching rules before `i` and the `k` commands before it.
pub proof fn every_matching_command_reaches_the_runner(
    engine: EngineModel,
    path: Seq<char>,
    now: int,
    i: int,
    k: int,
)
    requires
        accepted(engine, path, now),
        0 <= i < engine.rules.entries.len(),
        key_matches(engine.rules.mode, engine.rules.entries[i].key, path),
        0 <= k < engine.rules.entries[i].rule.commands().len(),
    ensures
        ({
            let batches = resolved(engine.rules, path);
            let b = hits_before(hits_for(engine.rules, path), i);
            let at = actions_before_spawns(engine.settings.clear_terminal) + commands_before(
                batches,
                b,
            ) + k;
            &&& 0 <= at < reaction(engine, path, now).len()
            &&& reaction(engine, path, now)[at] == (ActionModel::Spawn {
                command: resolved_command(engine.rules.entries[i].rule.commands()[k], path),
                working_dir: engine.rules.entries[i].rule.working_dir(),
            })
        }),
{
    let batches = resolved(engine.rules, path);
    let b = hits_before(hits_for(engine.rules, path), i);
    every_matching_rule_fires(engine.rules, path, i);
    assert(batches[b] == batch_of(engine.rules.entries[i].rule, path));
    every_command_is_dispatched_in_order(batches, engine.settings.clear_terminal, b, k);
}

/// There are as many spawns as commands.
proof fn spawns_upto_len(batches: Seq<BatchModel>, n: int)
    ensures
        spawns_upto(batches, n).len() == commands_before(batches, n),
        0 <= commands_before(batches, n),
    decreases n,
{
    if n > 0 {
        spawns_upto_len(batches, n - 1);
    }
}

/// Where command `k` of batch `b` stands among the spawns of the first `n`
/// batches.
proof fn spawns_upto_shape(batches: Seq<BatchModel>, n: int, b: int, k: int)
    requires
        0 <= b < n <= batches.len(),
        0 <= k < batches[b].commands.len(),
    ensures
        spawns_upto(batches, n).len() == commands_before(batches, n),
        0 <= commands_before(batches, b),
        commands_before(batches, b) + k < commands_before(batches, n),
        spawns_upto(batches, n)[commands_before(batches, b) + k] == (ActionModel::Spawn {
            command: batches[b].commands[k],
            working_dir: batches[b].working_dir,
        }),
    decreases n,
{
    spawns_upto_len(batches, n);
    spawns_upto_len(batches, n - 1);
    spawns_upto_len(batches, b);
    if b < n - 1 {
        spawns_upto_shape(batches, n - 1, b, k);
    }
}

} // verus!
