//! The server start-up sequence as a state machine.
//!
//! The caller performs each [`Action`] (load the configuration, open the
//! connection pool, apply one migration, build the router, bind, serve) and
//! reports how it went as an [`Event`]; [`Bootstrap::step`] decides what comes
//! next. Every failure ends the sequence; nothing is retried, and migrations
//! that were applied stay applied.

use crate::config::{AppConfig, ConfigError};
use vstd::prelude::*;

verus! {

/// Where the start-up sequence stands.
#[derive(Debug, Clone, Copy, PartialEq, Eq, Structural)]
pub enum Stage {
    Starting,
    LoadingConfig,
    Connecting,
    Migrating,
    BuildingRouter,
    Binding,
    Serving,
    Finished,
}

/// Why start-up or serving ended in failure.
#[derive(Debug, Clone, PartialEq, Eq)]
pub enum BootstrapError {
    /// The configuration could not be loaded.
    Config(ConfigError),
    /// The connection pool could not be established.
    DatabaseConnect { message: String },
    /// The named migration failed; those before it stay applied.
    Migration { migration: String, message: String },
    /// The listener could not be bound.
    Bind { message: String },
    /// Serving stopped, which it does only on a failure.
    Serve { message: String },
}

/// What the caller reports after performing an action.
#[derive(Debug)]
pub enum Event {
    /// The sequence is to begin.
    Start,
    /// The configuration was loaded, or why not.
    ConfigLoaded(Result<AppConfig, ConfigError>),
    /// The pool was opened, with the names of the pending migrations in the
    /// order they are to be applied; or why it could not be opened.
    Connected(Result<Vec<String>, String>),
    /// The requested migration was applied, or why it failed.
    MigrationApplied(Result<(), String>),
    /// The router was built.
    RouterBuilt,
    /// The listener was bound, or why not.
    Bound(Result<(), String>),
    /// Serving stopped, for the reason given; serving never ends normally.
    ServeEnded(String),
}

/// What the caller is to do next.
#[derive(Debug)]
pub enum Action {
    LoadConfig,
    ConnectDb,
    /// Apply the next pending migration, which is the one named.
    ApplyMigration { name: String },
    /// Invoke the router-building function, once.
    BuildRouter,
    Bind { address: String },
    Serve,
    /// Stop, with the error that ended the sequence.
    Finish(BootstrapError),
    /// Nothing: the event did not answer the action that was asked for.
    Wait,
}

/// A [`BootstrapError`] as values.
pub enum BootstrapErrorView {
    Config(ConfigError),
    DatabaseConnect(Seq<char>),
    Migration(Seq<char>, Seq<char>),
    Bind(Seq<char>),
    Serve(Seq<char>),
}

/// An [`Action`] as values.
pub enum ActionView {
    LoadConfig,
    ConnectDb,
    ApplyMigration(Seq<char>),
    BuildRouter,
    Bind(Seq<char>),
    Serve,
    Finish(BootstrapErrorView),
    Wait,
}

impl View for BootstrapError {
    type V = BootstrapErrorView;

    open spec fn view(&self) -> BootstrapErrorView {
        match self {
            BootstrapError::Config(e) => BootstrapErrorView::Config(*e),
            BootstrapError::DatabaseConnect { message } => BootstrapErrorView::DatabaseConnect(
                message@,
            ),
            BootstrapError::Migration { migration, message } => BootstrapErrorView::Migration(
                migration@,
                message@,
            ),
            BootstrapError::Bind { message } => BootstrapErrorView::Bind(message@),
            BootstrapError::Serve { message } => BootstrapErrorView::Serve(message@),
        }
    }
}

impl View for Action {
    type V = ActionView;

    open spec fn view(&self) -> ActionView {
        match self {
            Action::LoadConfig => ActionView::LoadConfig,
            Action::ConnectDb => ActionView::ConnectDb,
            Action::ApplyMigration { name } => ActionView::ApplyMigration(name@),
            Action::BuildRouter => ActionView::BuildRouter,
            Action::Bind { address } => ActionView::Bind(address@),
            Action::Serve => ActionView::Serve,
            Action::Finish(e) => ActionView::Finish(e@),
            Action::Wait => ActionView::Wait,
        }
    }
}

/// The state of the sequence as values.
pub struct BootState {
    pub stage: Stage,
    pub run_migrations: bool,
    /// The bind address, once the configuration is loaded.
    pub address: Seq<char>,
    /// The pending migrations, once the pool is open.
    pub pending: Seq<Seq<char>>,
    /// How many of them have been applied.
    pub applied: nat,
}

/// The start-up sequence.
pub struct Bootstrap {
    stage: Stage,
    run_migrations: bool,
    address: String,
    pending: Vec<String>,
    applied: usize,
}

impl View for Bootstrap {
    type V = BootState;

    closed spec fn view(&self) -> BootState {
        BootState {
            stage: self.stage,
            run_migrations: self.run_migrations,
            address: self.address@,
            pending: names(self.pending@),
            applied: self.applied as nat,
        }
    }
}

/// Names as values.
pub open spec fn names(v: Seq<String>) -> Seq<Seq<char>> {
    v.map_values(|s: String| s@)
}

/// The state before the sequence begins.
pub open spec fn initial_state(run_migrations: bool) -> BootState {
    BootState {
        stage: Stage::Starting,
        run_migrations,
        address: seq![],
        pending: seq![],
        applied: 0,
    }
}

/// The state after a failure or a stop.
pub open spec fn finished(s: BootState) -> BootState {
    BootState { stage: Stage::Finished, ..s }
}

/// The next state and action, given the current state and what the caller reports.
pub open spec fn step_spec(s: BootState, e: Event) -> (BootState, ActionView) {
    match (s.stage, e) {
        (Stage::Starting, Event::Start) => (
            BootState { stage: Stage::LoadingConfig, ..s },
            ActionView::LoadConfig,
        ),
        (Stage::LoadingConfig, Event::ConfigLoaded(Ok(c))) => (
            BootState { stage: Stage::Connecting, address: c.bind_address_spec(), ..s },
            ActionView::ConnectDb,
        ),
        (Stage::LoadingConfig, Event::ConfigLoaded(Err(err))) => (
            finished(s),
            ActionView::Finish(BootstrapErrorView::Config(err)),
        ),
        (Stage::Connecting, Event::Connected(Ok(p))) => if s.run_migrations && p@.len() > 0 {
            (
                BootState { stage: Stage::Migrating, pending: names(p@), applied: 0, ..s },
                ActionView::ApplyMigration(p@[0]@),
            )
        } else {
            (BootState { stage: Stage::BuildingRouter, ..s }, ActionView::BuildRouter)
        },
        (Stage::Connecting, Event::Connected(Err(m))) => (
            finished(s),
            ActionView::Finish(BootstrapErrorView::DatabaseConnect(m@)),
        ),
        (Stage::Migrating, Event::MigrationApplied(Ok(()))) => if s.applied + 1 < s.pending.len() {
            (
                BootState { applied: s.applied + 1, ..s },
                ActionView::ApplyMigration(s.pending[s.applied + 1 as int]),
            )
        } else {
            (
                BootState { stage: Stage::BuildingRouter, applied: s.applied + 1, ..s },
                ActionView::BuildRouter,
            )
        },
        (Stage::Migrating, Event::MigrationApplied(Err(m))) => (
            finished(s),
            ActionView::Finish(
                BootstrapErrorView::Migration(s.pending[s.applied as int], m@),
            ),
        ),
        (Stage::BuildingRouter, Event::RouterBuilt) => (
            BootState { stage: Stage::Binding, ..s },
            ActionView::Bind(s.address),
        ),
        (Stage::Binding, Event::Bound(Ok(()))) => (
            BootState { stage: Stage::Serving, ..s },
            ActionView::Serve,
        ),
        (Stage::Binding, Event::Bound(Err(m))) => (
            finished(s),
            ActionView::Finish(BootstrapErrorView::Bind(m@)),
        ),
        (Stage::Serving, Event::ServeEnded(m)) => (
            finished(s),
            ActionView::Finish(BootstrapErrorView::Serve(m@)),
        ),
        _ => (s, ActionView::Wait),
    }
}

impl Bootstrap {
    /// Well-formed: while migrating, the next migration is one of the pending ones.
    pub closed spec fn wf(&self) -> bool {
        self.stage == Stage::Migrating ==> self.applied < self.pending@.len()
    }

    /// A sequence that has not begun; migrations are applied only when
    /// `run_migrations` holds.
    pub fn new(run_migrations: bool) -> (r: Bootstrap)
        ensures
            r@ == initial_state(run_migrations),
            r.wf(),
    {
        let r = Bootstrap {
            stage: Stage::Starting,
            run_migrations,
            address: String::new(),
            pending: Vec::new(),
            applied: 0,
        };
        assert(names(r.pending@) =~= seq![]);
        r
    }

    /// Takes in what the caller reports and says what to do next.
    pub fn step(&mut self, event: Event) -> (r: Action)
        requires
            old(self).wf(),
        ensures
            final(self).wf(),
            (final(self)@, r@) == step_spec(old(self)@, event),
    {
        let ghost e = event;
        match (self.stage, event) {
            (Stage::Starting, Event::Start) => {
                self.stage = Stage::LoadingConfig;
                Action::LoadConfig
            },
            (Stage::LoadingConfig, Event::ConfigLoaded(Ok(c))) => {
                self.address = c.bind_address();
                self.stage = Stage::Connecting;
                Action::ConnectDb
            },
            (Stage::LoadingConfig, Event::ConfigLoaded(Err(err))) => {
                self.stage = Stage::Finished;
                Action::Finish(BootstrapError::Config(err))
            },
            (Stage::Connecting, Event::Connected(Ok(p))) => {
                if self.run_migrations && p.len() > 0 {
                    let name = p[0].clone();
                    self.pending = p;
                    self.applied = 0;
                    self.stage = Stage::Migrating;
                    Action::ApplyMigration { name }
                } else {
                    self.stage = Stage::BuildingRouter;
                    Action::BuildRouter
                }
            },
            (Stage::Connecting, Event::Connected(Err(m))) => {
                self.stage = Stage::Finished;
                Action::Finish(BootstrapError::DatabaseConnect { message: m })
            },
            (Stage::Migrating, Event::MigrationApplied(Ok(()))) => {
                let n = self.pending.len();
                self.applied = self.applied + 1;
                if self.applied < n {
                    Action::ApplyMigration { name: self.pending[self.applied].clone() }
                } else {
                    self.stage = Stage::BuildingRouter;
                    Action::BuildRouter
                }
            },
            (Stage::Migrating, Event::MigrationApplied(Err(m))) => {
                self.stage = Stage::Finished;
                Action::Finish(
                    BootstrapError::Migration {
                        migration: self.pending[self.applied].clone(),
                        message: m,
                    },
                )
            },
            (Stage::BuildingRouter, Event::RouterBuilt) => {
                self.stage = Stage::Binding;
                Action::Bind { address: self.address.clone() }
            },
            (Stage::Binding, Event::Bound(Ok(()))) => {
                self.stage = Stage::Serving;
                Action::Serve
            },
            (Stage::Binding, Event::Bound(Err(m))) => {
                self.stage = Stage::Finished;
                Action::Finish(BootstrapError::Bind { message: m })
            },
            (Stage::Serving, Event::ServeEnded(m)) => {
                self.stage = Stage::Finished;
                Action::Finish(BootstrapError::Serve { message: m })
            },
            _ => Action::Wait,
        }
    }
}

/// The final state and the actions that a run of events leads to, from `s`.
pub open spec fn run_spec(s: BootState, events: Seq<Event>) -> (BootState, Seq<ActionView>)
    decreases events.len(),
{
    if events.len() == 0 {
        (s, seq![])
    } else {
        let (next, a) = step_spec(s, events[0]);
        let (last, rest) = run_spec(next, events.skip(1));
        (last, seq![a] + rest)
    }
}

/// `applied` successful migrations, then one that fails with `message`, then `later`.
pub open spec fn migration_events(applied: nat, message: String, later: Seq<Event>) -> Seq<Event> {
    Seq::new(applied, |i: int| Event::MigrationApplied(Ok(()))) + seq![
        Event::MigrationApplied(Err(message)),
    ] + later
}

/// Once the sequence has finished, every later event is answered with `Wait`.
pub proof fn lemma_finished_stays_finished(s: BootState, events: Seq<Event>)
    requires
        s.stage == Stage::Finished,
    ensures
        run_spec(s, events).1.len() == events.len(),
        forall|i: int| 0 <= i < events.len() ==> run_spec(s, events).1[i] == ActionView::Wait,
    decreases events.len(),
{
    if events.len() > 0 {
        lemma_finished_stays_finished(s, events.skip(1));
    }
}

proof fn lemma_migrations_until_failure(s: BootState, left: nat, message: String, later: Seq<Event>)
    requires
        s.stage == Stage::Migrating,
        s.applied + left < s.pending.len(),
    ensures
        ({
            let actions = run_spec(s, migration_events(left, message, later)).1;
            &&& actions.len() == left + 1 + later.len()
            &&& forall|i: int|
                0 <= i < left ==> actions[i] == ActionView::ApplyMigration(
                    s.pending[s.applied + 1 + i],
                )
            &&& actions[left as int] == ActionView::Finish(
                BootstrapErrorView::Migration(s.pending[s.applied + left as int], message@),
            )
            &&& forall|i: int|
                left < i < actions.len() ==> actions[i] == ActionView::Wait
        }),
    decreases left,
{
    let events = migration_events(left, message, later);
    if left == 0 {
        assert(events[0] == Event::MigrationApplied(Err(message)));
        assert(events.skip(1) =~= later);
        let next = step_spec(s, events[0]).0;
        lemma_finished_stays_finished(next, later);
    } else {
        let next = step_spec(s, events[0]).0;
        assert(events[0] == Event::MigrationApplied(Ok(())));
        assert(events.skip(1) =~= migration_events((left - 1) as nat, message, later));
        lemma_migrations_until_failure(next, (left - 1) as nat, message, later);
    }
}

/// With migrations on, when the migration after the first `applied` pending
/// ones fails: the configuration is loaded, the pool opened, the migrations
/// are applied one at a time up to the failing one, the sequence finishes
/// with a migration error that names it, and the router is never built.
pub proof fn lemma_failed_migration_stops_startup(
    config: AppConfig,
    pending: Vec<String>,
    applied: nat,
    message: String,
    later: Seq<Event>,
)
    requires
        applied < pending@.len(),
    ensures
        ({
            let events = seq![
                Event::Start,
                Event::ConfigLoaded(Ok(config)),
                Event::Connected(Ok(pending)),
            ] + migration_events(applied, message, later);
            let actions = run_spec(initial_state(true), events).1;
            &&& actions.len() == events.len()
            &&& actions[0] == ActionView::LoadConfig
            &&& actions[1] == ActionView::ConnectDb
            &&& forall|i: int|
                0 <= i <= applied ==> actions[2 + i] == ActionView::ApplyMigration(pending@[i]@)
            &&& actions[3 + applied as int] == ActionView::Finish(
                BootstrapErrorView::Migration(pending@[applied as int]@, message@),
            )
            &&& forall|i: int| 3 + applied < i < actions.len() ==> actions[i] == ActionView::Wait
            &&& forall|i: int| 0 <= i < actions.len() ==> actions[i] != ActionView::BuildRouter
        }),
{
    let tail = migration_events(applied, message, later);
    let events = seq![
        Event::Start,
        Event::ConfigLoaded(Ok(config)),
        Event::Connected(Ok(pending)),
    ] + tail;
    let s0 = initial_state(true);
    let s1 = step_spec(s0, events[0]).0;
    let s2 = step_spec(s1, events.skip(1)[0]).0;
    let s3 = step_spec(s2, events.skip(2)[0]).0;
    assert(events.skip(1).skip(1) =~= events.skip(2));
    assert(events.skip(2).skip(1) =~= tail);
    lemma_migrations_until_failure(s3, applied, message, later);
    let rest = run_spec(s3, tail).1;
    assert(s3.pending == names(pending@));
    assert(s3.applied == 0);
    assert(step_spec(s2, events.skip(2)[0]).1 == ActionView::ApplyMigration(pending@[0]@));
    assert(run_spec(s2, events.skip(2)).1 == seq![ActionView::ApplyMigration(pending@[0]@)]
        + rest);
    assert(run_spec(s1, events.skip(1)).1 == seq![ActionView::ConnectDb] + run_spec(
        s2,
        events.skip(2),
    ).1);
    let actions = run_spec(s0, events).1;
    assert(actions == seq![ActionView::LoadConfig] + run_spec(s1, events.skip(1)).1);
    assert(actions =~= seq![ActionView::LoadConfig, ActionView::ConnectDb,
        ActionView::ApplyMigration(pending@[0]@)] + rest);
    assert(forall|i: int|
        0 <= i < applied ==> rest[i] == ActionView::ApplyMigration(pending@[1 + i]@));
    assert forall|i: int| 0 <= i <= applied implies actions[2 + i]
        == ActionView::ApplyMigration(pending@[i]@) by {
        if i > 0 {
            assert(actions[2 + i] == rest[i - 1]);
        }
    }
    assert(actions[3 + applied as int] == rest[applied as int]);
}

} // verus!
