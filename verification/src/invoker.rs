//! The life of one invocation: locate the artifact, load it, resolve the
//! entry point, call it, unload the module, answer.
//!
//! The invoker decides; its driver acts. In each state the invoker names one
//! action. The driver performs it and reports what happened as an event, on
//! which the invoker moves to its next state. An event that does not answer
//! the action of the current state changes nothing.

use vstd::prelude::*;
use crate::bytes::copy_of;
use crate::error::{ErrorKind, ErrorModel};
use crate::router::InvocationRequest;
use crate::store::{ArtifactStore, artifact_path};

verus! {

/// How an invocation ended.
#[derive(Clone, Debug, PartialEq, Eq)]
pub enum InvocationResult {
    /// The entry point returned this output.
    Success(Vec<u8>),
    /// The invocation failed for this reason.
    Failure(ErrorKind),
}

/// What the driver reports back.
#[derive(Debug, PartialEq, Eq)]
pub enum Event {
    /// Whether the artifact's file exists.
    ArtifactChecked(bool),
    /// Whether the module could be loaded.
    ModuleLoaded(bool),
    /// Whether the module exports the entry point.
    SymbolResolved(bool),
    /// What the entry point returned: its output, or its own failure message.
    Returned(Result<Vec<u8>, Vec<u8>>),
    /// The module was released, or the attempt to release it failed.
    Unloaded(bool),
}

/// What the driver is to do next.
#[derive(Clone, Debug, PartialEq, Eq)]
pub enum Action {
    /// Test whether a file exists at this path.
    CheckArtifact(Vec<u8>),
    /// Load the file at this path as a module.
    Load(Vec<u8>),
    /// Look up the entry point of this name in the loaded module.
    Resolve(Vec<u8>),
    /// Call the entry point with this argument.
    Call(Vec<u8>),
    /// Release the loaded module.
    Unload,
    /// Hand this result to the caller; nothing is left to do.
    Finish(InvocationResult),
}

/// The state of an invocation.
#[derive(Clone, Debug, PartialEq, Eq)]
pub enum InvokerState {
    LocateArtifact,
    LoadModule,
    ResolveSymbol,
    Invoke,
    /// The module is being released; the result is held until it is.
    Unload(InvocationResult),
    /// The invocation succeeded with this output.
    Done(Vec<u8>),
    /// The invocation failed for this reason.
    Failed(ErrorKind),
}

/// An invocation result over plain bytes.
pub enum ResultModel {
    Success(Seq<u8>),
    Failure(ErrorModel),
}

/// An event over plain bytes.
pub enum EventModel {
    ArtifactChecked(bool),
    ModuleLoaded(bool),
    SymbolResolved(bool),
    Returned(Result<Seq<u8>, Seq<u8>>),
    Unloaded(bool),
}

/// An action over plain bytes.
pub enum ActionModel {
    CheckArtifact(Seq<u8>),
    Load(Seq<u8>),
    Resolve(Seq<u8>),
    Call(Seq<u8>),
    Unload,
    Finish(ResultModel),
}

/// A state over plain bytes.
pub enum StateModel {
    LocateArtifact,
    LoadModule,
    ResolveSymbol,
    Invoke,
    Unload(ResultModel),
    Done(Seq<u8>),
    Failed(ErrorModel),
}

impl View for InvocationResult {
    type V = ResultModel;

    open spec fn view(&self) -> ResultModel {
        match self {
            InvocationResult::Success(output) => ResultModel::Success(output@),
            InvocationResult::Failure(kind) => ResultModel::Failure(kind@),
        }
    }
}

impl View for Event {
    type V = EventModel;

    open spec fn view(&self) -> EventModel {
        match self {
            Event::ArtifactChecked(found) => EventModel::ArtifactChecked(*found),
            Event::ModuleLoaded(loaded) => EventModel::ModuleLoaded(*loaded),
            Event::SymbolResolved(found) => EventModel::SymbolResolved(*found),
            Event::Returned(Ok(output)) => EventModel::Returned(Ok(output@)),
            Event::Returned(Err(message)) => EventModel::Returned(Err(message@)),
            Event::Unloaded(released) => EventModel::Unloaded(*released),
        }
    }
}

impl View for Action {
    type V = ActionModel;

    open spec fn view(&self) -> ActionModel {
        match self {
            Action::CheckArtifact(path) => ActionModel::CheckArtifact(path@),
            Action::Load(path) => ActionModel::Load(path@),
            Action::Resolve(symbol) => ActionModel::Resolve(symbol@),
            Action::Call(argument) => ActionModel::Call(argument@),
            Action::Unload => ActionModel::Unload,
            Action::Finish(result) => ActionModel::Finish(result@),
        }
    }
}

impl View for InvokerState {
    type V = StateModel;

    open spec fn view(&self) -> StateModel {
        match self {
            InvokerState::LocateArtifact => StateModel::LocateArtifact,
            InvokerState::LoadModule => StateModel::LoadModule,
            InvokerState::ResolveSymbol => StateModel::ResolveSymbol,
            InvokerState::Invoke => StateModel::Invoke,
            InvokerState::Unload(held) => StateModel::Unload(held@),
            InvokerState::Done(output) => StateModel::Done(output@),
            InvokerState::Failed(kind) => StateModel::Failed(kind@),
        }
    }
}

/// The result that a state yields once the module is released.
pub open spec fn settle(held: ResultModel) -> StateModel {
    match held {
        ResultModel::Success(output) => StateModel::Done(output),
        ResultModel::Failure(kind) => StateModel::Failed(kind),
    }
}

/// The state that follows `state` on `event`.
///
/// A missing artifact and a module that does not load end the invocation at
/// once, since nothing is loaded then. A missing entry point and every
/// return of the entry point lead to `Unload`, which holds the result until
/// the driver reports on the release; whether the release succeeded does not
/// change the result. Any other pair leaves the state as it is.
pub open spec fn next_state(state: StateModel, event: EventModel) -> StateModel {
    match (state, event) {
        (StateModel::LocateArtifact, EventModel::ArtifactChecked(found)) => if found {
            StateModel::LoadModule
        } else {
            StateModel::Failed(ErrorModel::ArtifactNotFound)
        },
        (StateModel::LoadModule, EventModel::ModuleLoaded(loaded)) => if loaded {
            StateModel::ResolveSymbol
        } else {
            StateModel::Failed(ErrorModel::LoadError)
        },
        (StateModel::ResolveSymbol, EventModel::SymbolResolved(found)) => if found {
            StateModel::Invoke
        } else {
            StateModel::Unload(ResultModel::Failure(ErrorModel::SymbolNotFound))
        },
        (StateModel::Invoke, EventModel::Returned(Ok(output))) => StateModel::Unload(
            ResultModel::Success(output),
        ),
        (StateModel::Invoke, EventModel::Returned(Err(message))) => StateModel::Unload(
            ResultModel::Failure(ErrorModel::InvocationFailure(message)),
        ),
        (StateModel::Unload(held), EventModel::Unloaded(_)) => settle(held),
        _ => state,
    }
}

/// Whether nothing is left to do.
pub open spec fn is_terminal(state: StateModel) -> bool {
    state is Done || state is Failed
}

/// Whether a module is loaded while the invocation is in `state`.
pub open spec fn is_resident(state: StateModel) -> bool {
    state is ResolveSymbol || state is Invoke || state is Unload
}

impl InvocationResult {
    /// A copy of this result.
    pub fn copy(&self) -> (same: InvocationResult)
        ensures
            same@ == self@,
    {
        match self {
            InvocationResult::Success(output) => InvocationResult::Success(
                copy_of(output.as_slice()),
            ),
            InvocationResult::Failure(kind) => InvocationResult::Failure(kind.copy()),
        }
    }
}

/// Moves a state on by one event.
pub fn advance(state: InvokerState, event: Event) -> (next: InvokerState)
    ensures
        next@ == next_state(state@, event@),
{
    match state {
        InvokerState::LocateArtifact => match event {
            Event::ArtifactChecked(true) => InvokerState::LoadModule,
            Event::ArtifactChecked(false) => InvokerState::Failed(ErrorKind::ArtifactNotFound),
            _ => InvokerState::LocateArtifact,
        },
        InvokerState::LoadModule => match event {
            Event::ModuleLoaded(true) => InvokerState::ResolveSymbol,
            Event::ModuleLoaded(false) => InvokerState::Failed(ErrorKind::LoadError),
            _ => InvokerState::LoadModule,
        },
        InvokerState::ResolveSymbol => match event {
            Event::SymbolResolved(true) => InvokerState::Invoke,
            Event::SymbolResolved(false) => InvokerState::Unload(
                InvocationResult::Failure(ErrorKind::SymbolNotFound),
            ),
            _ => InvokerState::ResolveSymbol,
        },
        InvokerState::Invoke => match event {
            Event::Returned(Ok(output)) => InvokerState::Unload(InvocationResult::Success(output)),
            Event::Returned(Err(message)) => InvokerState::Unload(
                InvocationResult::Failure(ErrorKind::InvocationFailure(message)),
            ),
            _ => InvokerState::Invoke,
        },
        InvokerState::Unload(held) => match event {
            Event::Unloaded(_) => match held {
                InvocationResult::Success(output) => InvokerState::Done(output),
                InvocationResult::Failure(kind) => InvokerState::Failed(kind),
            },
            _ => InvokerState::Unload(held),
        },
        InvokerState::Done(output) => InvokerState::Done(output),
        InvokerState::Failed(kind) => InvokerState::Failed(kind),
    }
}

/// One invocation under way: the request, the path of its artifact, and
/// the state reached.
#[derive(Debug, PartialEq, Eq)]
pub struct Invoker {
    pub request: InvocationRequest,
    pub path: Vec<u8>,
    pub state: InvokerState,
}

/// An invocation under way, over plain bytes.
pub struct InvokerModel {
    pub name: Seq<u8>,
    pub argument: Seq<u8>,
    pub path: Seq<u8>,
    pub state: StateModel,
}

impl View for Invoker {
    type V = InvokerModel;

    open spec fn view(&self) -> InvokerModel {
        InvokerModel {
            name: self.request.function_name@,
            argument: self.request.argument@,
            path: self.path@,
            state: self.state@,
        }
    }
}

/// The action that the driver is to perform for an invocation. The entry
/// point that is resolved bears the name of the function, and is called
/// with the argument of the request.
pub open spec fn action_of(invoker: InvokerModel) -> ActionModel {
    match invoker.state {
        StateModel::LocateArtifact => ActionModel::CheckArtifact(invoker.path),
        StateModel::LoadModule => ActionModel::Load(invoker.path),
        StateModel::ResolveSymbol => ActionModel::Resolve(invoker.name),
        StateModel::Invoke => ActionModel::Call(invoker.argument),
        StateModel::Unload(_) => ActionModel::Unload,
        StateModel::Done(output) => ActionModel::Finish(ResultModel::Success(output)),
        StateModel::Failed(kind) => ActionModel::Finish(ResultModel::Failure(kind)),
    }
}

impl Invoker {
    /// Begins the invocation of `request` against `store`: the artifact is
    /// the one that the store keeps for the requested name, and the first
    /// thing to do is to locate it.
    pub fn start(store: &ArtifactStore, request: InvocationRequest) -> (invoker: Invoker)
        ensures
            invoker@ == (InvokerModel {
                name: request.function_name@,
                argument: request.argument@,
                path: artifact_path(
                    store.upload_dir@,
                    request.function_name@,
                    store.extension@,
                ),
                state: StateModel::LocateArtifact,
            }),
    {
        let path = store.resolve_path(request.function_name.as_slice());
        Invoker { request, path, state: InvokerState::LocateArtifact }
    }

    /// The action that the driver is to perform now.
    pub fn action(&self) -> (action: Action)
        ensures
            action@ == action_of(self@),
    {
        match &self.state {
            InvokerState::LocateArtifact => Action::CheckArtifact(copy_of(self.path.as_slice())),
            InvokerState::LoadModule => Action::Load(copy_of(self.path.as_slice())),
            InvokerState::ResolveSymbol => Action::Resolve(
                copy_of(self.request.function_name.as_slice()),
            ),
            InvokerState::Invoke => Action::Call(copy_of(self.request.argument.as_slice())),
            InvokerState::Unload(_) => Action::Unload,
            InvokerState::Done(output) => Action::Finish(
                InvocationResult::Success(copy_of(output.as_slice())),
            ),
            InvokerState::Failed(kind) => Action::Finish(InvocationResult::Failure(kind.copy())),
        }
    }

    /// Takes the driver's report and moves to the next state; the request
    /// and the path stay as they are.
    pub fn step(self, event: Event) -> (next: Invoker)
        ensures
            next@ == (InvokerModel { state: next_state(self@.state, event@), ..self@ }),
    {
        let Invoker { request, path, state } = self;
        Invoker { request, path, state: advance(state, event) }
    }

    /// The result of the invocation, once nothing is left to do.
    pub fn result(&self) -> (result: Option<InvocationResult>)
        ensures
            match self@.state {
                StateModel::Done(output) => result.is_some() && result.unwrap()@
                    == ResultModel::Success(output),
                StateModel::Failed(kind) => result.is_some() && result.unwrap()@
                    == ResultModel::Failure(kind),
                _ => result.is_none(),
            },
    {
        match &self.state {
            InvokerState::Done(output) => Some(
                InvocationResult::Success(copy_of(output.as_slice())),
            ),
            InvokerState::Failed(kind) => Some(InvocationResult::Failure(kind.copy())),
            _ => None,
        }
    }
}

/// The state reached from `state` after the driver has reported `events`,
/// one after the other.
pub open spec fn run(state: StateModel, events: Seq<EventModel>) -> StateModel
    decreases events.len(),
{
    if events.len() == 0 {
        state
    } else {
        run(next_state(state, events.first()), events.skip(1))
    }
}

/// One if a module is loaded in `state`, else zero.
pub open spec fn residents(state: StateModel) -> int {
    if is_resident(state) {
        1
    } else {
        0
    }
}

/// One if `event` reports in `state` that a module was loaded, else zero.
pub open spec fn loads_on(state: StateModel, event: EventModel) -> int {
    if state is LoadModule && event == EventModel::ModuleLoaded(true) {
        1
    } else {
        0
    }
}

/// One if `event` reports in `state` on the release of the module, else zero.
pub open spec fn unloads_on(state: StateModel, event: EventModel) -> int {
    if state is Unload && event is Unloaded {
        1
    } else {
        0
    }
}

/// How many modules were loaded while `events` were taken from `state` on.
pub open spec fn loads(state: StateModel, events: Seq<EventModel>) -> int
    decreases events.len(),
{
    if events.len() == 0 {
        0
    } else {
        loads_on(state, events.first()) + loads(
            next_state(state, events.first()),
            events.skip(1),
        )
    }
}

/// How many modules were released while `events` were taken from `state` on.
pub open spec fn unloads(state: StateModel, events: Seq<EventModel>) -> int
    decreases events.len(),
{
    if events.len() == 0 {
        0
    } else {
        unloads_on(state, events.first()) + unloads(
            next_state(state, events.first()),
            events.skip(1),
        )
    }
}

/// An invocation that has ended stays as it ended, whatever is reported.
pub proof fn lemma_terminal_stays(state: StateModel, events: Seq<EventModel>)
    requires
        is_terminal(state),
    ensures
        run(state, events) == state,
    decreases events.len(),
{
    if events.len() > 0 {
        lemma_terminal_stays(state, events.skip(1));
    }
}

/// The invocation of a name under which nothing is stored fails with
/// `ArtifactNotFound`, and nothing that is reported later changes that.
pub proof fn lemma_missing_artifact(later: Seq<EventModel>)
    ensures
        run(StateModel::LocateArtifact, seq![EventModel::ArtifactChecked(false)] + later)
            == StateModel::Failed(ErrorModel::ArtifactNotFound),
{
    let events = seq![EventModel::ArtifactChecked(false)] + later;
    assert(events.skip(1) =~= later);
    lemma_terminal_stays(StateModel::Failed(ErrorModel::ArtifactNotFound), later);
}

/// The module is always released after the call. Whatever the entry point
/// returns, the next state is `Unload`; a loaded module leaves only from
/// `Unload`, on the report of its release; and no ended invocation holds a
/// module.
pub proof fn lemma_unload_follows_call(state: StateModel, event: EventModel)
    ensures
        state is Invoke && event is Returned ==> next_state(state, event) is Unload,
        state is Invoke ==> next_state(state, event) is Invoke || next_state(state, event) is Unload,
        is_resident(state) && !is_resident(next_state(state, event)) ==> state is Unload && event
            is Unloaded,
        is_terminal(next_state(state, event)) && !is_terminal(state) && is_resident(state)
            ==> state is Unload,
        is_terminal(state) ==> !is_resident(state),
{
}

/// Loads and releases stay in balance: over any reports, the modules
/// loaded exceed the modules released by exactly the one that is loaded at
/// the end, if any.
pub proof fn lemma_loads_balance(state: StateModel, events: Seq<EventModel>)
    ensures
        loads(state, events) + residents(state) == unloads(state, events) + residents(
            run(state, events),
        ),
    decreases events.len(),
{
    if events.len() > 0 {
        lemma_loads_balance(next_state(state, events.first()), events.skip(1));
    }
}

/// After any number of invocations the count of loaded modules is back
/// where it began: an invocation that has ended released every module that
/// it loaded.
pub proof fn lemma_ended_invocation_holds_nothing(events: Seq<EventModel>)
    requires
        is_terminal(run(StateModel::LocateArtifact, events)),
    ensures
        loads(StateModel::LocateArtifact, events) == unloads(StateModel::LocateArtifact, events),
{
    lemma_loads_balance(StateModel::LocateArtifact, events);
}

/// An invocation in which every step succeeds ends with exactly what the
/// entry point returned: its output as a success, its message as an
/// `InvocationFailure`. Whether the release succeeded makes no difference.
pub proof fn lemma_result_is_what_was_returned(
    reply: Result<Seq<u8>, Seq<u8>>,
    released: bool,
)
    ensures
        run(
            StateModel::LocateArtifact,
            seq![
                EventModel::ArtifactChecked(true),
                EventModel::ModuleLoaded(true),
                EventModel::SymbolResolved(true),
                EventModel::Returned(reply),
                EventModel::Unloaded(released),
            ],
        ) == match reply {
            Ok(output) => StateModel::Done(output),
            Err(message) => StateModel::Failed(ErrorModel::InvocationFailure(message)),
        },
{
    let e = seq![
        EventModel::ArtifactChecked(true),
        EventModel::ModuleLoaded(true),
        EventModel::SymbolResolved(true),
        EventModel::Returned(reply),
        EventModel::Unloaded(released),
    ];
    let s1 = next_state(StateModel::LocateArtifact, e[0]);
    let s2 = next_state(s1, e[1]);
    let s3 = next_state(s2, e[2]);
    let s4 = next_state(s3, e[3]);
    let s5 = next_state(s4, e[4]);
    assert(e.skip(1).first() == e[1]);
    assert(e.skip(1).skip(1) =~= e.skip(2));
    assert(e.skip(2).first() == e[2]);
    assert(e.skip(2).skip(1) =~= e.skip(3));
    assert(e.skip(3).first() == e[3]);
    assert(e.skip(3).skip(1) =~= e.skip(4));
    assert(e.skip(4).first() == e[4]);
    assert(e.skip(4).skip(1) =~= e.skip(5));
    assert(e.skip(5).len() == 0);
    assert(run(s5, e.skip(5)) == s5);
    assert(run(s4, e.skip(4)) == s5);
    assert(run(s3, e.skip(3)) == s5);
    assert(run(s2, e.skip(2)) == s5);
    assert(run(s1, e.skip(1)) == s5);
}

} // verus!
