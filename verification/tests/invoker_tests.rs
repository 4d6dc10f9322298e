use rustfaas::error::ErrorKind;
use rustfaas::invoker::{advance, Action, Event, InvocationResult, Invoker, InvokerState};
use rustfaas::router::InvocationRequest;
use rustfaas::store::ArtifactStore;

fn begin(name: &[u8], argument: &[u8]) -> Invoker {
    let store = ArtifactStore::new(b"uploads".to_vec(), b"so".to_vec());
    Invoker::start(
        &store,
        InvocationRequest { function_name: name.to_vec(), argument: argument.to_vec() },
    )
}

#[test]
fn invocation_starts_by_locating_the_artifact() {
    let invoker = begin(b"sum", b"1,2,3");
    assert_eq!(invoker.state, InvokerState::LocateArtifact);
    assert_eq!(invoker.action(), Action::CheckArtifact(b"uploads/sum.so".to_vec()));
    assert_eq!(invoker.result(), None);
}

#[test]
fn successful_invocation_walks_every_state() {
    let invoker = begin(b"sum", b"1,2,3");
    let invoker = invoker.step(Event::ArtifactChecked(true));
    assert_eq!(invoker.action(), Action::Load(b"uploads/sum.so".to_vec()));
    let invoker = invoker.step(Event::ModuleLoaded(true));
    assert_eq!(invoker.action(), Action::Resolve(b"sum".to_vec()));
    let invoker = invoker.step(Event::SymbolResolved(true));
    assert_eq!(invoker.action(), Action::Call(b"1,2,3".to_vec()));
    let invoker = invoker.step(Event::Returned(Ok(b"6".to_vec())));
    assert_eq!(invoker.action(), Action::Unload);
    assert_eq!(invoker.result(), None);
    let invoker = invoker.step(Event::Unloaded(true));
    assert_eq!(invoker.state, InvokerState::Done(b"6".to_vec()));
    assert_eq!(invoker.action(), Action::Finish(InvocationResult::Success(b"6".to_vec())));
    assert_eq!(invoker.result(), Some(InvocationResult::Success(b"6".to_vec())));
}

#[test]
fn missing_artifact_fails_at_once() {
    let invoker = begin(b"missing", b"1").step(Event::ArtifactChecked(false));
    assert_eq!(invoker.state, InvokerState::Failed(ErrorKind::ArtifactNotFound));
    assert_eq!(
        invoker.result(),
        Some(InvocationResult::Failure(ErrorKind::ArtifactNotFound))
    );
    let invoker = invoker.step(Event::ModuleLoaded(true)).step(Event::Returned(Ok(b"x".to_vec())));
    assert_eq!(invoker.state, InvokerState::Failed(ErrorKind::ArtifactNotFound));
}

#[test]
fn module_that_does_not_load_fails_without_unload() {
    let invoker = begin(b"sum", b"1")
        .step(Event::ArtifactChecked(true))
        .step(Event::ModuleLoaded(false));
    assert_eq!(invoker.state, InvokerState::Failed(ErrorKind::LoadError));
}

#[test]
fn missing_symbol_is_reported_after_unload() {
    let invoker = begin(b"sum", b"1")
        .step(Event::ArtifactChecked(true))
        .step(Event::ModuleLoaded(true))
        .step(Event::SymbolResolved(false));
    assert_eq!(
        invoker.state,
        InvokerState::Unload(InvocationResult::Failure(ErrorKind::SymbolNotFound))
    );
    assert_eq!(invoker.action(), Action::Unload);
    let invoker = invoker.step(Event::Unloaded(true));
    assert_eq!(invoker.state, InvokerState::Failed(ErrorKind::SymbolNotFound));
}

#[test]
fn failure_of_the_function_is_reported_after_unload() {
    let invoker = begin(b"sum", b"1,x,3")
        .step(Event::ArtifactChecked(true))
        .step(Event::ModuleLoaded(true))
        .step(Event::SymbolResolved(true))
        .step(Event::Returned(Err(b"bad number".to_vec())));
    assert_eq!(invoker.action(), Action::Unload);
    let invoker = invoker.step(Event::Unloaded(true));
    assert_eq!(
        invoker.result(),
        Some(InvocationResult::Failure(ErrorKind::InvocationFailure(b"bad number".to_vec())))
    );
}

#[test]
fn failed_unload_does_not_change_the_result() {
    let invoker = begin(b"sum", b"1")
        .step(Event::ArtifactChecked(true))
        .step(Event::ModuleLoaded(true))
        .step(Event::SymbolResolved(true))
        .step(Event::Returned(Ok(b"1".to_vec())))
        .step(Event::Unloaded(false));
    assert_eq!(invoker.result(), Some(InvocationResult::Success(b"1".to_vec())));
}

#[test]
fn report_that_answers_another_action_changes_nothing() {
    assert_eq!(
        advance(InvokerState::LocateArtifact, Event::ModuleLoaded(true)),
        InvokerState::LocateArtifact
    );
    assert_eq!(
        advance(InvokerState::LoadModule, Event::Unloaded(true)),
        InvokerState::LoadModule
    );
    assert_eq!(
        advance(InvokerState::ResolveSymbol, Event::Returned(Ok(b"x".to_vec()))),
        InvokerState::ResolveSymbol
    );
    assert_eq!(
        advance(InvokerState::Invoke, Event::Unloaded(true)),
        InvokerState::Invoke
    );
    assert_eq!(
        advance(
            InvokerState::Unload(InvocationResult::Success(b"x".to_vec())),
            Event::Returned(Ok(b"y".to_vec()))
        ),
        InvokerState::Unload(InvocationResult::Success(b"x".to_vec()))
    );
    assert_eq!(
        advance(InvokerState::Done(b"x".to_vec()), Event::ArtifactChecked(false)),
        InvokerState::Done(b"x".to_vec())
    );
}

#[test]
fn loads_and_unloads_balance_over_many_invocations() {
    let replies: Vec<Vec<Event>> = vec![
        vec![
            Event::ArtifactChecked(true),
            Event::ModuleLoaded(true),
            Event::SymbolResolved(true),
            Event::Returned(Ok(b"6".to_vec())),
            Event::Unloaded(true),
        ],
        vec![
            Event::ArtifactChecked(true),
            Event::ModuleLoaded(true),
            Event::SymbolResolved(true),
            Event::Returned(Err(b"no".to_vec())),
            Event::Unloaded(true),
        ],
        vec![
            Event::ArtifactChecked(true),
            Event::ModuleLoaded(true),
            Event::SymbolResolved(false),
            Event::Unloaded(false),
        ],
        vec![Event::ArtifactChecked(true), Event::ModuleLoaded(false)],
        vec![Event::ArtifactChecked(false)],
    ];
    let mut loaded: i64 = 0;
    for events in replies {
        let mut invoker = begin(b"sum", b"1");
        for event in events {
            match (invoker.action(), &event) {
                (Action::Load(_), Event::ModuleLoaded(true)) => loaded += 1,
                (Action::Unload, Event::Unloaded(_)) => loaded -= 1,
                _ => {}
            }
            invoker = invoker.step(event);
        }
        assert!(invoker.result().is_some());
        assert_eq!(loaded, 0);
    }
}

#[test]
fn copy_of_a_result_is_equal_to_it() {
    let ok = InvocationResult::Success(b"out".to_vec());
    assert_eq!(ok.copy(), ok);
    let failed = InvocationResult::Failure(ErrorKind::InvocationFailure(b"m".to_vec()));
    assert_eq!(failed.copy(), failed);
    assert_eq!(ErrorKind::LoadError.copy(), ErrorKind::LoadError);
}
