//! The diagnostics worker: what it does next, and what it writes.
//!
//! The worker itself performs nothing. [`Worker::step`] takes what came of the last action and
//! says which action is next; reading memory and storage, writing and sleeping are the caller's.
use crate::history::{newest, newest_of_newest, History, HISTORY_LEN};
use crate::json::{json, json_text, jsons, Json};
use crate::metrics::{no_counts, AgentCounts, MemorySample};
use crate::plugin::{
    caption, home_pane_json, home_pane_payload, home_pane_slot, memory_entry,
    notification_key_by_key, pane_key_by_key, tone, ui_state_set_json, ui_state_set_line,
    Thresholds,
};
use crate::text::decimal;
use serde_json::Value;
use vstd::prelude::*;

verus! {

/// Seconds between samples.
pub const REFRESH_SECS: u64 = 1;

/// What became of the session storage.
pub enum StorageEvent<S> {
    /// The counts are due.
    Due,
    /// Opening the storage gave this handle, or failed.
    Opened(Option<S>),
    /// Loading the sessions gave these counts, or failed.
    Loaded(Option<AgentCounts>),
}

/// What to do for the counts.
pub enum CountsStep {
    /// Open the storage of this profile.
    Open(String),
    /// Load the sessions from the open storage, and count them.
    Load,
    /// These are the counts.
    Counted(AgentCounts),
}

/// What a [`CountsStep`] says.
pub enum CountsStepView {
    Open(Seq<char>),
    Load,
    Counted(AgentCounts),
}

impl View for CountsStep {
    type V = CountsStepView;

    open spec fn view(&self) -> CountsStepView {
        match self {
            CountsStep::Open(profile) => CountsStepView::Open(profile@),
            CountsStep::Load => CountsStepView::Load,
            CountsStep::Counted(counts) => CountsStepView::Counted(*counts),
        }
    }
}

/// The storage handle after `event`: a handle that is there stays.
pub open spec fn storage_after<S>(storage: Option<S>, event: StorageEvent<S>) -> Option<S> {
    match event {
        StorageEvent::Opened(opened) if storage is None => opened,
        _ => storage,
    }
}

/// What to do next for the counts, with the handle as it is after `event`.
pub open spec fn counts_step<S>(
    storage: Option<S>,
    profile: Seq<char>,
    event: StorageEvent<S>,
) -> CountsStepView {
    match (event, storage) {
        (StorageEvent::Due, None) => CountsStepView::Open(profile),
        (StorageEvent::Due, Some(_)) | (StorageEvent::Opened(_), Some(_)) => CountsStepView::Load,
        (StorageEvent::Loaded(Some(counts)), Some(_)) => CountsStepView::Counted(counts),
        _ => CountsStepView::Counted(no_counts()),
    }
}

/// Counts agents and processes for `profile`, one step at a time, degrading to zero counts (not
/// an error) when storage cannot be read: a diagnostics tick never fails over a transient read.
/// The storage is opened lazily and the handle reused; only the load repeats each tick.
pub fn sample_counts<S>(storage: &mut Option<S>, profile: &str, event: StorageEvent<S>) -> (step:
    CountsStep)
    ensures
        *final(storage) == storage_after(*old(storage), event),
        step@ == counts_step(*final(storage), profile@, event),
        match event {
            StorageEvent::Due => {
                &&& *final(storage) == *old(storage)
                &&& *old(storage) is None ==> (step matches CountsStep::Open(named) && named@
                    == profile@)
                &&& *old(storage) is Some ==> step is Load
            },
            StorageEvent::Opened(opened) => {
                &&& *old(storage) is None ==> *final(storage) == opened
                &&& *old(storage) is Some ==> *final(storage) == *old(storage)
                &&& *final(storage) is Some ==> step is Load
                &&& *final(storage) is None ==> step == CountsStep::Counted(
                    AgentCounts { agents: 0, procs: 0 },
                )
            },
            StorageEvent::Loaded(loaded) => {
                &&& *final(storage) == *old(storage)
                &&& *old(storage) is Some && loaded is Some ==> step == CountsStep::Counted(
                    loaded->0,
                )
                &&& *old(storage) is None || loaded is None ==> step == CountsStep::Counted(
                    AgentCounts { agents: 0, procs: 0 },
                )
            },
        },
{
    match event {
        StorageEvent::Due => {
            if storage.is_none() {
                CountsStep::Open(String::from_str(profile))
            } else {
                CountsStep::Load
            }
        },
        StorageEvent::Opened(opened) => {
            if storage.is_none() {
                *storage = opened;
            }
            if storage.is_some() {
                CountsStep::Load
            } else {
                CountsStep::Counted(AgentCounts::default())
            }
        },
        StorageEvent::Loaded(loaded) => {
            match loaded {
                Some(counts) => {
                    if storage.is_some() {
                        CountsStep::Counted(counts)
                    } else {
                        CountsStep::Counted(AgentCounts::default())
                    }
                },
                None => CountsStep::Counted(AgentCounts::default()),
            }
        },
    }
}

/// One reading of memory, with the exact share in use as a JSON number.
pub struct Reading {
    pub memory: MemorySample,
    pub fraction: Value,
}

/// What came of the last action.
pub enum Event<S> {
    /// Memory was sampled.
    Sampled(Reading),
    /// The storage was opened, or could not be.
    Opened(Option<S>),
    /// The sessions were loaded and counted, or could not be.
    Loaded(Option<AgentCounts>),
    /// The line was written and flushed, or could not be.
    Written(bool),
    /// The pause is over.
    Rested,
}

/// What the worker wants done.
pub enum Action {
    /// Sample memory.
    SampleMemory,
    /// Open the session storage of this profile.
    OpenStorage(String),
    /// Load the sessions from the open storage, and count them.
    LoadSessions,
    /// Write this line and a line break to the host, and flush.
    Write(String),
    /// Pause for so many seconds.
    Rest(u64),
    /// Leave: the host has closed the pipe.
    Exit,
}

/// What an [`Action`] says.
pub enum ActionView {
    SampleMemory,
    OpenStorage(Seq<char>),
    LoadSessions,
    Write(Seq<char>),
    Rest(u64),
    Exit,
}

impl View for Action {
    type V = ActionView;

    open spec fn view(&self) -> ActionView {
        match self {
            Action::SampleMemory => ActionView::SampleMemory,
            Action::OpenStorage(profile) => ActionView::OpenStorage(profile@),
            Action::LoadSessions => ActionView::LoadSessions,
            Action::Write(line) => ActionView::Write(line@),
            Action::Rest(secs) => ActionView::Rest(*secs),
            Action::Exit => ActionView::Exit,
        }
    }
}

/// The action that the worker awaits the outcome of.
pub enum Pending {
    Sample,
    /// This reading waits for the storage to open.
    Open(Reading),
    /// This reading waits for the sessions.
    Load(Reading),
    Write,
    Rest,
    Exited,
}

/// What a worker knows.
#[verifier::ext_equal]
pub struct WorkerState<S> {
    pub profile: Seq<char>,
    pub thresholds: Thresholds,
    pub storage: Option<S>,
    pub history: Seq<Value>,
    pub pending: Pending,
}

/// The line that shows `history`, the reading at its end and the counts.
pub open spec fn line_text(
    history: Seq<Value>,
    memory: MemorySample,
    counts: AgentCounts,
    thresholds: Thresholds,
) -> Seq<char> {
    json_text(
        ui_state_set_json(
            home_pane_slot(),
            memory_entry(),
            home_pane_json(
                jsons(history),
                memory,
                counts,
                json(thresholds.warn),
                json(thresholds.critical),
            ),
        ),
    )
}

impl<S> WorkerState<S> {
    /// The worker after a storage event of the tick that began with `reading`, and its action.
    pub open spec fn counting(self, reading: Reading, event: StorageEvent<S>) -> (
        WorkerState<S>,
        ActionView,
    ) {
        let storage = storage_after(self.storage, event);
        match counts_step(storage, self.profile, event) {
            CountsStepView::Open(profile) => (
                WorkerState { storage, pending: Pending::Open(reading), ..self },
                ActionView::OpenStorage(profile),
            ),
            CountsStepView::Load => (
                WorkerState { storage, pending: Pending::Load(reading), ..self },
                ActionView::LoadSessions,
            ),
            CountsStepView::Counted(counts) => {
                let history = newest(self.history.push(reading.fraction), HISTORY_LEN as nat);
                (
                    WorkerState { storage, history, pending: Pending::Write, ..self },
                    ActionView::Write(line_text(history, reading.memory, counts, self.thresholds)),
                )
            },
        }
    }

    /// The worker after `event`, and its action. An event that is not the outcome of the pending
    /// action changes nothing and is answered by none.
    pub open spec fn step(self, event: Event<S>) -> (WorkerState<S>, Option<ActionView>) {
        match (self.pending, event) {
            (Pending::Sample, Event::Sampled(reading)) => {
                let (next, action) = self.counting(reading, StorageEvent::Due);
                (next, Some(action))
            },
            (Pending::Open(reading), Event::Opened(opened)) => {
                let (next, action) = self.counting(reading, StorageEvent::Opened(opened));
                (next, Some(action))
            },
            (Pending::Load(reading), Event::Loaded(loaded)) => {
                let (next, action) = self.counting(reading, StorageEvent::Loaded(loaded));
                (next, Some(action))
            },
            (Pending::Write, Event::Written(true)) => (
                WorkerState { pending: Pending::Rest, ..self },
                Some(ActionView::Rest(REFRESH_SECS)),
            ),
            (Pending::Write, Event::Written(false)) => (
                WorkerState { pending: Pending::Exited, ..self },
                Some(ActionView::Exit),
            ),
            (Pending::Rest, Event::Rested) => (
                WorkerState { pending: Pending::Sample, ..self },
                Some(ActionView::SampleMemory),
            ),
            _ => (self, None),
        }
    }
}

/// The diagnostics worker. `S` is the handle of the session storage.
pub struct Worker<S> {
    profile: String,
    thresholds: Thresholds,
    storage: Option<S>,
    history: History<Value>,
    pending: Pending,
}

impl<S> View for Worker<S> {
    type V = WorkerState<S>;

    closed spec fn view(&self) -> WorkerState<S> {
        WorkerState {
            profile: self.profile@,
            thresholds: self.thresholds,
            storage: self.storage,
            history: self.history@,
            pending: self.pending,
        }
    }
}

impl<S> Worker<S> {
    /// The plot never holds more than [`HISTORY_LEN`] samples.
    pub open spec fn wf(&self) -> bool {
        self@.history.len() <= HISTORY_LEN
    }

    /// A worker that counts the sessions of `profile`, and its first action.
    pub fn start(profile: String, thresholds: Thresholds) -> (started: (Self, Action))
        ensures
            started.0.wf(),
            started.0@ == (WorkerState {
                profile: profile@,
                thresholds,
                storage: None::<S>,
                history: Seq::empty(),
                pending: Pending::Sample,
            }),
            started.1@ == ActionView::SampleMemory,
    {
        let worker = Worker {
            profile,
            thresholds,
            storage: None,
            history: History::new(),
            pending: Pending::Sample,
        };
        (worker, Action::SampleMemory)
    }

    /// The open storage, if there is one.
    pub fn storage(&self) -> (storage: Option<&S>)
        ensures
            storage == (match self@.storage {
                Some(handle) => Some(&handle),
                None => None,
            }),
    {
        match &self.storage {
            Some(handle) => Some(handle),
            None => None,
        }
    }

    /// Goes on with the tick that began with `reading`, after a storage event.
    fn counting(self, reading: Reading, event: StorageEvent<S>) -> (next: (Self, Action))
        requires
            self.wf(),
        ensures
            next.0.wf(),
            (next.0@, next.1@) == self@.counting(reading, event),
            next.1 matches Action::Write(line) ==> !line@.contains('\n') && !line@.contains('\r'),
    {
        let Worker { profile, thresholds, mut storage, mut history, pending } = self;
        match sample_counts(&mut storage, profile.as_str(), event) {
            CountsStep::Open(opened) => (
                Worker { profile, thresholds, storage, history, pending: Pending::Open(reading) },
                Action::OpenStorage(opened),
            ),
            CountsStep::Load => (
                Worker { profile, thresholds, storage, history, pending: Pending::Load(reading) },
                Action::LoadSessions,
            ),
            CountsStep::Counted(counts) => {
                history.record(reading.fraction);
                let payload = home_pane_payload(
                    history.samples(),
                    &reading.memory,
                    &counts,
                    &thresholds,
                );
                let line = ui_state_set_line("home-pane", "memory", payload);
                (
                    Worker { profile, thresholds, storage, history, pending: Pending::Write },
                    Action::Write(line),
                )
            },
        }
    }

    /// Takes what came of the last action; gives the next one. An event that is not the outcome
    /// of the pending action changes nothing and is answered by none. What is to be written is
    /// always a single line.
    pub fn step(self, event: Event<S>) -> (next: (Self, Option<Action>))
        requires
            self.wf(),
        ensures
            next.0.wf(),
            next.0@ == self@.step(event).0,
            match next.1 {
                Some(action) => self@.step(event).1 == Some(action@),
                None => self@.step(event).1 is None,
            },
            next.1 matches Some(Action::Write(line)) ==> !line@.contains('\n')
                && !line@.contains('\r'),
            next.1 matches Some(Action::OpenStorage(named)) ==> named@ == self@.profile,
            next.1 matches Some(Action::Rest(secs)) ==> secs == 1,
            (next.1 is Some && next.1->0 is Rest) <==> (self@.pending is Write && event
                == Event::<S>::Written(true)),
            (next.1 is Some && next.1->0 is Exit) <==> (self@.pending is Write && event
                == Event::<S>::Written(false)),
            next.0@.profile == self@.profile,
            next.0@.thresholds == self@.thresholds,
            self@.storage is Some ==> next.0@.storage == self@.storage,
    {
        let Worker { profile, thresholds, storage, history, pending } = self;
        match (pending, event) {
            (Pending::Sample, Event::Sampled(reading)) => {
                let worker = Worker {
                    profile,
                    thresholds,
                    storage,
                    history,
                    pending: Pending::Sample,
                };
                let (next, action) = worker.counting(reading, StorageEvent::Due);
                (next, Some(action))
            },
            (Pending::Open(reading), Event::Opened(opened)) => {
                let worker = Worker {
                    profile,
                    thresholds,
                    storage,
                    history,
                    pending: Pending::Sample,
                };
                let (next, action) = worker.counting(reading, StorageEvent::Opened(opened));
                (next, Some(action))
            },
            (Pending::Load(reading), Event::Loaded(loaded)) => {
                let worker = Worker {
                    profile,
                    thresholds,
                    storage,
                    history,
                    pending: Pending::Sample,
                };
                let (next, action) = worker.counting(reading, StorageEvent::Loaded(loaded));
                (next, Some(action))
            },
            (Pending::Write, Event::Written(written)) => {
                if written {
                    (
                        Worker { profile, thresholds, storage, history, pending: Pending::Rest },
                        Some(Action::Rest(REFRESH_SECS)),
                    )
                } else {
                    (
                        Worker { profile, thresholds, storage, history, pending: Pending::Exited },
                        Some(Action::Exit),
                    )
                }
            },
            (Pending::Rest, Event::Rested) => (
                Worker { profile, thresholds, storage, history, pending: Pending::Sample },
                Some(Action::SampleMemory),
            ),
            (pending, _) => (Worker { profile, thresholds, storage, history, pending }, None),
        }
    }
}

/// The worker after `events`, one after another.
pub open spec fn after<S>(start: WorkerState<S>, events: Seq<Event<S>>) -> WorkerState<S>
    decreases events.len(),
{
    if events.len() == 0 {
        start
    } else {
        after(start, events.drop_last()).step(events.last()).0
    }
}

/// The actions that `events` are answered with, in order.
pub open spec fn answers<S>(start: WorkerState<S>, events: Seq<Event<S>>) -> Seq<ActionView>
    decreases events.len(),
{
    if events.len() == 0 {
        Seq::empty()
    } else {
        let before = answers(start, events.drop_last());
        match after(start, events.drop_last()).step(events.last()).1 {
            Some(action) => before.push(action),
            None => before,
        }
    }
}

/// The reading that the tick in progress began with, where `event` goes on with it.
pub open spec fn reading_of<S>(state: WorkerState<S>, event: Event<S>) -> Option<Reading> {
    match (state.pending, event) {
        (Pending::Sample, Event::Sampled(reading)) => Some(reading),
        (Pending::Open(reading), Event::Opened(_)) => Some(reading),
        (Pending::Load(reading), Event::Loaded(_)) => Some(reading),
        _ => None,
    }
}

/// The shares in use of the ticks that `events` finished, in order: those that came to a line.
pub open spec fn ticked<S>(start: WorkerState<S>, events: Seq<Event<S>>) -> Seq<Value>
    decreases events.len(),
{
    if events.len() == 0 {
        Seq::empty()
    } else {
        let state = after(start, events.drop_last());
        let before = ticked(start, events.drop_last());
        match (state.step(events.last()).1, reading_of(state, events.last())) {
            (Some(ActionView::Write(_)), Some(reading)) => before.push(reading.fraction),
            _ => before,
        }
    }
}

/// Whatever happens, the plot shows the last [`HISTORY_LEN`] of the shares that were ticked off,
/// in order, after those that it showed at the start.
pub proof fn plot_shows_the_newest_ticks<S>(start: WorkerState<S>, events: Seq<Event<S>>)
    requires
        start.history.len() <= HISTORY_LEN,
    ensures
        after(start, events).history == newest(
            start.history + ticked(start, events),
            HISTORY_LEN as nat,
        ),
        after(start, events).history.len() <= HISTORY_LEN,
    decreases events.len(),
{
    if events.len() == 0 {
        assert(start.history + ticked(start, events) =~= start.history);
    } else {
        let earlier = events.drop_last();
        let state = after(start, earlier);
        plot_shows_the_newest_ticks(start, earlier);
        match (state.step(events.last()).1, reading_of(state, events.last())) {
            (Some(ActionView::Write(_)), Some(reading)) => {
                let all = start.history + ticked(start, earlier);
                newest_of_newest(all, seq![reading.fraction], HISTORY_LEN as nat);
                assert(state.history.push(reading.fraction) =~= state.history
                    + seq![reading.fraction]);
                assert(all + seq![reading.fraction] =~= start.history + ticked(start, events));
            },
            _ => {},
        }
    }
}

/// Every finished tick came to one line, and every line came of a tick.
pub proof fn one_line_for_each_tick<S>(start: WorkerState<S>, events: Seq<Event<S>>)
    ensures
        answers(start, events).filter(|action: ActionView| action is Write).len() == ticked(
            start,
            events,
        ).len(),
    decreases events.len(),
{
    let is_line = |action: ActionView| action is Write;
    reveal(Seq::filter);
    if events.len() > 0 {
        let earlier = events.drop_last();
        one_line_for_each_tick(start, earlier);
        match after(start, earlier).step(events.last()).1 {
            Some(action) => {
                assert(answers(start, events).drop_last() =~= answers(start, earlier));
            },
            None => {},
        }
    }
}

/// The storage is opened once: a handle that is there stays, whatever happens.
pub proof fn storage_is_opened_once<S>(start: WorkerState<S>, events: Seq<Event<S>>)
    requires
        start.storage is Some,
    ensures
        after(start, events).storage == start.storage,
        forall|i: int|
            0 <= i < answers(start, events).len() ==> !(#[trigger] answers(
                start,
                events,
            )[i] is OpenStorage),
    decreases events.len(),
{
    if events.len() > 0 {
        storage_is_opened_once(start, events.drop_last());
    }
}

/// A worker that has left does nothing more.
pub proof fn exit_is_final<S>(start: WorkerState<S>, events: Seq<Event<S>>)
    requires
        start.pending is Exited,
    ensures
        after(start, events) == start,
        answers(start, events) == Seq::<ActionView>::empty(),
    decreases events.len(),
{
    if events.len() > 0 {
        exit_is_final(start, events.drop_last());
    }
}

/// What the storage is asked during a tick, and what comes of it: the sessions of a handle that
/// is there, or of one that opening it now gives; zero counts where there is none, or where the
/// sessions cannot be loaded.
pub open spec fn tick_events<S>(
    storage: Option<S>,
    reading: Reading,
    opened: Option<S>,
    loaded: Option<AgentCounts>,
) -> Seq<Event<S>> {
    if storage is Some {
        seq![Event::Sampled(reading), Event::Loaded(loaded)]
    } else if opened is Some {
        seq![Event::Sampled(reading), Event::Opened(opened), Event::Loaded(loaded)]
    } else {
        seq![Event::Sampled(reading), Event::Opened(opened)]
    }
}

/// A tick never fails over storage: whatever the storage does, the tick ends in one line, which
/// shows the new sample, and the counts that were loaded or else zero counts.
pub proof fn tick_always_comes_to_a_line<S>(
    start: WorkerState<S>,
    reading: Reading,
    opened: Option<S>,
    loaded: Option<AgentCounts>,
)
    requires
        start.pending is Sample,
    ensures
        ({
            let events = tick_events(start.storage, reading, opened, loaded);
            let history = newest(start.history.push(reading.fraction), HISTORY_LEN as nat);
            let readable = (start.storage is Some || opened is Some) && loaded is Some;
            let counts = if readable {
                loaded->0
            } else {
                no_counts()
            };
            &&& after(start, events).pending is Write
            &&& after(start, events).history == history
            &&& history.last() == reading.fraction
            &&& answers(start, events).last() == ActionView::Write(
                line_text(history, reading.memory, counts, start.thresholds),
            )
        }),
{
    let events = tick_events(start.storage, reading, opened, loaded);
    reveal_with_fuel(after, 4);
    reveal_with_fuel(answers, 4);
    let one = seq![Event::<S>::Sampled(reading)];
    let two = if start.storage is Some {
        one.push(Event::Loaded(loaded))
    } else {
        one.push(Event::Opened(opened))
    };
    assert(one.drop_last() =~= Seq::empty());
    assert(two.drop_last() =~= one);
    if start.storage is None && opened is Some {
        assert(events.drop_last() =~= two);
    } else {
        assert(events =~= two);
    }
}

/// An action says what it is, with the profile, the line and the seconds as they are.
pub proof fn action_says_what_it_is(action: Action)
    ensures
        match action {
            Action::SampleMemory => action@ == ActionView::SampleMemory,
            Action::OpenStorage(profile) => action@ == ActionView::OpenStorage(profile@),
            Action::LoadSessions => action@ == ActionView::LoadSessions,
            Action::Write(line) => action@ == ActionView::Write(line@),
            Action::Rest(secs) => action@ == ActionView::Rest(secs),
            Action::Exit => action@ == ActionView::Exit,
        },
{
}

/// A step of the counting says what it is, with the profile and the counts as they are.
pub proof fn counts_step_says_what_it_is(step: CountsStep)
    ensures
        match step {
            CountsStep::Open(profile) => step@ == CountsStepView::Open(profile@),
            CountsStep::Load => step@ == CountsStepView::Load,
            CountsStep::Counted(counts) => step@ == CountsStepView::Counted(counts),
        },
{
}

/// Counts that are due are asked of the storage of the given profile: it is opened where there is
/// no handle, and loaded where there is one.
pub proof fn due_counts_open_the_profile<S>(storage: Option<S>, profile: Seq<char>)
    ensures
        storage_after(storage, StorageEvent::Due) == storage,
        storage is None ==> counts_step(storage, profile, StorageEvent::Due)
            == CountsStepView::Open(profile),
        storage is Some ==> counts_step(storage, profile, StorageEvent::Due)
            == CountsStepView::Load,
{
}

/// What opening the storage gives is kept, unless there was a handle; with a handle the sessions
/// are loaded, and without one the counts are zero.
pub proof fn opened_storage_is_kept<S>(storage: Option<S>, profile: Seq<char>, opened: Option<S>)
    ensures
        ({
            let event = StorageEvent::Opened(opened);
            let kept = storage_after(storage, event);
            &&& storage is Some ==> kept == storage
            &&& storage is None ==> kept == opened
            &&& kept is Some ==> counts_step(kept, profile, event) == CountsStepView::Load
            &&& kept is None ==> counts_step(kept, profile, event) == CountsStepView::Counted(
                AgentCounts { agents: 0, procs: 0 },
            )
        }),
{
}

/// The counts that loading gives are the counts; where it gives none they are zero.
pub proof fn loaded_counts_are_the_counts<S>(
    storage: Option<S>,
    profile: Seq<char>,
    loaded: Option<AgentCounts>,
)
    ensures
        ({
            let event = StorageEvent::Loaded(loaded);
            let zero = AgentCounts { agents: 0, procs: 0 };
            let step = counts_step(storage, profile, event);
            &&& storage_after(storage, event) == storage
            &&& storage is Some && loaded is Some ==> step == CountsStepView::Counted(loaded->0)
            &&& storage is None || loaded is None ==> step == CountsStepView::Counted(zero)
        }),
{
}

/// A write decides: whatever else the worker knows, a failed one is answered with leaving, and a
/// successful one with a rest of one second. Nothing but the rest or the leaving changes.
pub proof fn failed_write_ends_the_worker<S>(state: WorkerState<S>)
    requires
        state.pending is Write,
    ensures
        state.step(Event::Written(false)).1 == Some(ActionView::Exit),
        state.step(Event::Written(false)).0 == (WorkerState { pending: Pending::Exited, ..state }),
        state.step(Event::Written(true)).1 == Some(ActionView::Rest(1)),
        state.step(Event::Written(true)).0 == (WorkerState { pending: Pending::Rest, ..state }),
{
}

/// The worker rests after a successful write and at no other time, and leaves after a failed
/// write and at no other time.
pub proof fn only_a_write_is_answered_with_rest_or_exit<S>(state: WorkerState<S>, event: Event<S>)
    ensures
        state.step(event).1 matches Some(ActionView::Rest(secs)) ==> secs == 1,
        (state.step(event).1 == Some(ActionView::Rest(1))) <==> (state.pending is Write && event
            == Event::<S>::Written(true)),
        (state.step(event).1 == Some(ActionView::Exit)) <==> (state.pending is Write && event
            == Event::<S>::Written(false)),
        (state.step(event).0.pending is Exited) <==> (state.pending is Exited || state.step(
            event,
        ).1 == Some(ActionView::Exit)),
{
}

/// After the rest comes the next sample.
pub proof fn rest_is_followed_by_a_sample<S>(state: WorkerState<S>)
    requires
        state.pending is Rest,
    ensures
        state.step(Event::Rested).1 == Some(ActionView::SampleMemory),
        state.step(Event::Rested).0 == (WorkerState { pending: Pending::Sample, ..state }),
{
}

/// A sample is followed by the counts: a handle that is there is loaded from, and otherwise the
/// storage of the worker's own profile is opened. The reading waits.
pub proof fn sample_is_followed_by_the_counts<S>(state: WorkerState<S>, reading: Reading)
    requires
        state.pending is Sample,
    ensures
        state.storage is Some ==> state.step(Event::Sampled(reading)) == (
            WorkerState { pending: Pending::Load(reading), ..state },
            Some(ActionView::LoadSessions),
        ),
        state.storage is None ==> state.step(Event::Sampled(reading)) == (
            WorkerState { pending: Pending::Open(reading), ..state },
            Some(ActionView::OpenStorage(state.profile)),
        ),
{
}

/// A storage that was opened is kept and loaded from; one that was there already stays.
pub proof fn opened_storage_is_loaded<S>(state: WorkerState<S>, reading: Reading, opened: Option<S>)
    requires
        state.pending == Pending::Open(reading),
        state.storage is Some || opened is Some,
    ensures
        state.step(Event::Opened(opened)).1 == Some(ActionView::LoadSessions),
        state.step(Event::Opened(opened)).0 == (WorkerState {
            storage: if state.storage is Some {
                state.storage
            } else {
                opened
            },
            pending: Pending::Load(reading),
            ..state
        }),
{
}

/// An event that is not the outcome of the pending action is answered by nothing and changes
/// nothing.
pub proof fn other_events_change_nothing<S>(state: WorkerState<S>, event: Event<S>)
    requires
        !(state.pending is Sample && event is Sampled),
        !(state.pending is Open && event is Opened),
        !(state.pending is Load && event is Loaded),
        !(state.pending is Write && event is Written),
        !(state.pending is Rest && event is Rested),
    ensures
        state.step(event) == (state, None::<ActionView>),
{
}

/// The line that a tick comes to, field by field. The tick ends where the storage cannot be
/// opened, or with what the sessions gave; the counts that did not come are zero. The reading's
/// share goes to the end of the plot, whose first sample leaves where there were 120. The line is
/// the text of a `ui.state.set` notification for the entry `memory` of the slot `home-pane`: the
/// plot of the samples with a band of tone `warn` at the worker's warn threshold and one of tone
/// `danger` at its critical threshold, over the rows of the counts.
pub proof fn tick_line_field_by_field<S>(
    state: WorkerState<S>,
    event: Event<S>,
    reading: Reading,
    counts: AgentCounts,
)
    requires
        state.history.len() <= 120,
        ({
            let zero = AgentCounts { agents: 0, procs: 0 };
            ||| (state.pending == Pending::Open(reading) && state.storage is None && event
                == Event::<S>::Opened(None) && counts == zero)
            ||| (state.pending == Pending::Load(reading) && state.storage is Some && event
                == Event::<S>::Loaded(Some(counts)))
            ||| (state.pending == Pending::Load(reading) && event == Event::<S>::Loaded(None)
                && counts == zero)
            ||| (state.pending == Pending::Load(reading) && state.storage is None && event is Loaded
                && counts == zero)
        }),
    ensures
        ({
            let samples = if state.history.len() < 120 {
                state.history.push(reading.fraction)
            } else {
                state.history.subrange(1, 120).push(reading.fraction)
            };
            let values = Seq::new(samples.len(), |i: int| json(samples[i]));
            let warn_band = Json::Object(
                map!["at"@ => json(state.thresholds.warn), "tone"@ => Json::Text("warn"@)],
            );
            let critical_band = Json::Object(
                map!["at"@ => json(state.thresholds.critical), "tone"@ => Json::Text("danger"@)],
            );
            let plot = Json::Object(
                map![
                    "kind"@ => Json::Text("sparkline"@),
                    "values"@ => Json::List(values),
                    "max"@ => Json::Float(1),
                    "tone"@ => Json::Text(tone(reading.memory.band)),
                    "bands"@ => Json::List(seq![warn_band, critical_band]),
                    "caption"@ => Json::Text(caption(reading.memory)),
                ],
            );
            let agents = Json::Object(
                map![
                    "kind"@ => Json::Text("row"@),
                    "label"@ => Json::Text("agents"@),
                    "value"@ => Json::Text(decimal(counts.agents as nat)),
                ],
            );
            let processes = Json::Object(
                map![
                    "kind"@ => Json::Text("row"@),
                    "label"@ => Json::Text("processes"@),
                    "value"@ => Json::Text(decimal(counts.procs as nat)),
                ],
            );
            let pane = Json::Object(
                map![
                    "title"@ => Json::Text("System"@),
                    "blocks"@ => Json::List(seq![plot, agents, processes]),
                ],
            );
            let message = Json::Object(
                map![
                    "jsonrpc"@ => Json::Text("2.0"@),
                    "method"@ => Json::Text("ui.state.set"@),
                    "params"@ => Json::Object(
                        map![
                            "slot"@ => Json::Text("home-pane"@),
                            "id"@ => Json::Text("memory"@),
                            "payload"@ => pane,
                        ],
                    ),
                ],
            );
            &&& state.step(event).1 == Some(ActionView::Write(json_text(message)))
            &&& state.step(event).0 == (WorkerState {
                history: samples,
                pending: Pending::Write,
                ..state
            })
        }),
{
    let samples = if state.history.len() < 120 {
        state.history.push(reading.fraction)
    } else {
        state.history.subrange(1, 120).push(reading.fraction)
    };
    assert(newest(state.history.push(reading.fraction), HISTORY_LEN as nat) =~= samples);
    assert(jsons(samples) =~= Seq::new(samples.len(), |i: int| json(samples[i])));
    let warn = json(state.thresholds.warn);
    let critical = json(state.thresholds.critical);
    pane_key_by_key(jsons(samples), reading.memory, counts, warn, critical);
    notification_key_by_key(
        home_pane_slot(),
        memory_entry(),
        home_pane_json(jsons(samples), reading.memory, counts, warn, critical),
    );
}

/// Whatever happens, the worker keeps the profile and the thresholds it was started with, and
/// every storage it asks for is that of its own profile.
pub proof fn worker_keeps_to_its_profile<S>(start: WorkerState<S>, events: Seq<Event<S>>)
    ensures
        after(start, events).profile == start.profile,
        after(start, events).thresholds == start.thresholds,
        forall|i: int|
            0 <= i < answers(start, events).len() ==> (#[trigger] answers(start, events)[i] matches
                ActionView::OpenStorage(profile) ==> profile == start.profile),
    decreases events.len(),
{
    if events.len() > 0 {
        worker_keeps_to_its_profile(start, events.drop_last());
    }
}

/// The worker after a run of events, and its answers, are those of the events one by one.
pub proof fn events_are_taken_one_by_one<S>(
    start: WorkerState<S>,
    events: Seq<Event<S>>,
    event: Event<S>,
)
    ensures
        after(start, Seq::empty()) == start,
        answers(start, Seq::empty()) == Seq::<ActionView>::empty(),
        after(start, events.push(event)) == after(start, events).step(event).0,
        answers(start, events.push(event)) == (match after(start, events).step(event).1 {
            Some(action) => answers(start, events).push(action),
            None => answers(start, events),
        }),
{
    assert(events.push(event).drop_last() =~= events);
}

} // verus!
