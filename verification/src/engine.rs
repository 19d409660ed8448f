//! The orchestrator: from raw bytecode to an effect set, and from an effect
//! set to a new version of the store.
use vstd::prelude::*;
use vstd::string::StringExecFns;
use parity_wasm::elements::Module;
pub use crate::error::{Error, ExecutionError};
use crate::global_state::{commit_outcome, EffectSet, GlobalState, StateView};
use crate::key::Key;
use crate::tracking_copy::{TrackingCopy, TrackingCopyView};
use crate::transform::Transform;
use crate::wasm_prep::{has_module_header, preprocessed, process};

verus! {

/// The tracking copy that an execution starts from: the store as the
/// snapshot, nothing cached, nothing written.
pub open spec fn fresh_overlay(state: StateView) -> TrackingCopyView {
    TrackingCopyView { snapshot: state.store, cache: Map::empty(), effects: Map::empty() }
}

/// What the engine returns for the outcome of an execution: the effect set
/// as it is, or the failure, wrapped.
pub open spec fn execution_result(outcome: Result<EffectSet, ExecutionError>) -> Result<
    EffectSet,
    Error,
> {
    match outcome {
        Ok(effects) => Ok(effects),
        Err(error) => Err(Error::ExecError(error)),
    }
}

/// Wraps the outcome of an execution for the caller of the engine.
pub fn finish_execution(outcome: Result<EffectSet, ExecutionError>) -> (result: Result<
    EffectSet,
    Error,
>)
    ensures
        result == execution_result(outcome),
{
    match outcome {
        Ok(effects) => Ok(effects),
        Err(error) => Err(Error::from(error)),
    }
}

/// Wraps the outcome of preprocessing for the caller of the engine: the
/// preprocessor's message goes into the error word for word.
pub fn finish_preprocessing(outcome: Result<Module, String>) -> (result: Result<Module, Error>)
    ensures
        match outcome {
            Ok(module) => result == Ok::<Module, Error>(module),
            Err(message) => result == Err::<Module, Error>(
                Error::PreprocessingError { error: message },
            ),
        },
{
    match outcome {
        Ok(module) => Ok(module),
        Err(message) => Err(Error::PreprocessingError { error: message }),
    }
}

/// Turns deploys into effect sets and commits effect sets to the store it
/// owns. Running a deploy never changes the store; only a commit does.
#[derive(Clone, Debug)]
pub struct EngineState {
    state: GlobalState,
}

impl View for EngineState {
    type V = StateView;

    closed spec fn view(&self) -> StateView {
        self.state@
    }
}

impl EngineState {
    pub fn new(state: GlobalState) -> (engine: EngineState)
        ensures
            engine@ == state@,
    {
        EngineState { state }
    }

    /// The store as it is committed now.
    pub fn state(&self) -> (state: &GlobalState)
        ensures
            state@ == self@,
    {
        &self.state
    }

    /// Runs one deploy: validates the bytecode, then hands the module, the
    /// entry address and a fresh tracking copy of the current snapshot to
    /// `exec`. Bytecode that fails validation gives a preprocessing error
    /// and `exec` is not called. Otherwise the result is what `exec`
    /// returned, a failure being wrapped. The store is not changed either
    /// way: the effect set is returned, not committed.
    pub fn run_deploy<F>(&self, module_bytes: &[u8], address: [u8; 20], exec: F) -> (result: Result<
        EffectSet,
        Error,
    >) where F: FnOnce(Module, [u8; 20], TrackingCopy) -> Result<EffectSet, ExecutionError>
        requires
            forall|module: Module, overlay: TrackingCopy|
                preprocessed(module_bytes@) == Ok::<Module, Seq<char>>(module) && overlay@
                    == fresh_overlay(self@) ==> #[trigger] exec.requires(
                    (module, address, overlay),
                ),
        ensures
            match preprocessed(module_bytes@) {
                Err(text) => result matches Err(Error::PreprocessingError { error }) && error@
                    == text,
                Ok(module) => exists|overlay: TrackingCopy, outcome: Result<EffectSet, ExecutionError>|
                    overlay@ == fresh_overlay(self@) && #[trigger] exec.ensures(
                        (module, address, overlay),
                        outcome,
                    ) && result == execution_result(outcome),
            },
            !has_module_header(module_bytes@) ==> result matches Err(
                Error::PreprocessingError { .. },
            ),
    {
        let module = match self.preprocess_module(module_bytes) {
            Ok(module) => module,
            Err(error) => {
                return Err(error);
            },
        };
        let overlay = TrackingCopy::new(self.state.snapshot());
        let ghost handed = overlay;
        let outcome = exec(module, address, overlay);
        assert(exec.ensures((module, address, handed), outcome));
        finish_execution(outcome)
    }

    /// Commits a single transform, computed earlier, to the store.
    pub fn apply_effect(&mut self, key: Key, eff: Transform) -> (result: Result<(), Error>)
        ensures
            match commit_outcome(old(self)@, Map::empty().insert(key, eff@)) {
                Ok(next) => result == Ok::<(), Error>(()) && final(self)@ == next,
                Err(e) => result == Err::<(), Error>(Error::StorageError(e)) && final(self)@
                    == old(self)@,
            },
    {
        match self.state.apply(key, eff) {
            Ok(()) => Ok(()),
            Err(error) => Err(Error::from(error)),
        }
    }

    /// Commits a whole effect set to the store: all of it or nothing.
    pub fn commit(&mut self, effects: &EffectSet) -> (result: Result<u64, Error>)
        ensures
            match commit_outcome(old(self)@, effects@) {
                Ok(next) => result == Ok::<u64, Error>(next.version) && final(self)@ == next,
                Err(e) => result == Err::<u64, Error>(Error::StorageError(e)) && final(self)@
                    == old(self)@,
            },
    {
        match self.state.commit(effects) {
            Ok(version) => Ok(version),
            Err(error) => Err(Error::from(error)),
        }
    }

    fn preprocess_module(&self, module_bytes: &[u8]) -> (result: Result<Module, Error>)
        ensures
            match preprocessed(module_bytes@) {
                Ok(module) => result == Ok::<Module, Error>(module),
                Err(text) => result matches Err(Error::PreprocessingError { error }) && error@
                    == text,
            },
            !has_module_header(module_bytes@) ==> result is Err,
    {
        finish_preprocessing(process(module_bytes))
    }

    /// The place where a deploy's authorization is to be checked before it
    /// is preprocessed. No check is made: every deploy is accepted.
    pub fn validate_signatures(&self, _deploy: &[u8], _signature: &[u8], _signature_alg: &str) -> (result:
        Result<String, Error>)
        ensures
            result matches Ok(answer) && answer@ == "OK"@,
    {
        Ok(String::from_str("OK"))
    }
}

} // verus!
