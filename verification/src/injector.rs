//! The strategy gate and the description of an injected module.

use crate::error::{outcome, Error, ErrorView, Result};
use crate::strategy::commit::finished_injection;
use crate::strategy::load_library::RemoteLoadView;
use crate::strategy::queue_apc::queued_of;
use crate::strategy::Strategy;
use crate::target::{LoaderState, Target};
use vstd::prelude::*;

verus! {

/// The point at which loading is confirmed or prepared.
#[derive(Debug, Clone, Copy, PartialEq, Eq, Structural)]
pub enum LoadTiming {
    /// The DLL is present and the LoadLibrary thread has terminated.
    Immediate,
    /// Loading is prepared. Resume and confirm success through a caller-owned protocol.
    OnResume,
}

/// A non-owning remote module address and load timing.
///
/// [`LoadTiming::Immediate`] carries a module address; [`LoadTiming::OnResume`]
/// does not. Dropping this value does not unload the DLL. DLL load does not prove
/// that an asynchronous payload worker is ready.
#[derive(Debug, Clone, Copy, PartialEq, Eq, Structural)]
#[must_use]
pub struct InjectedModule {
    /// Non-owning remote address. Never pass it to local `CloseHandle` or `FreeLibrary`.
    pub module: Option<usize>,
    /// Whether loading completed during injection or was prepared for resume.
    pub timing: LoadTiming,
}

impl InjectedModule {
    /// The timing says whether there is a module address.
    pub open spec fn well_formed(self) -> bool {
        self.module is Some <==> self.timing == LoadTiming::Immediate
    }

    /// A module that is present in the target at this address.
    pub fn immediate(module: usize) -> (injected: Self)
        ensures
            injected == (InjectedModule {
                module: Some(module),
                timing: LoadTiming::Immediate,
            }),
            injected.well_formed(),
    {
        InjectedModule { module: Some(module), timing: LoadTiming::Immediate }
    }

    /// A module that loads when the primary thread runs.
    pub fn on_resume() -> (injected: Self)
        ensures
            injected == (InjectedModule { module: None, timing: LoadTiming::OnResume }),
            injected.well_formed(),
    {
        InjectedModule { module: None, timing: LoadTiming::OnResume }
    }
}

/// An explicit injection strategy. The default uses a remote LoadLibrary thread.
#[derive(Debug)]
#[must_use]
pub struct Injector {
    strategy: Strategy,
}

impl Default for Injector {
    fn default() -> (injector: Self)
        ensures
            injector@ == Strategy::LoadLibraryRemoteThread,
    {
        Injector { strategy: Strategy::LoadLibraryRemoteThread }
    }
}

impl View for Injector {
    type V = Strategy;

    closed spec fn view(&self) -> Strategy {
        self.strategy
    }
}

impl Injector {
    /// Create an injector using [`Strategy::LoadLibraryRemoteThread`].
    pub fn new() -> (injector: Self)
        ensures
            injector@ == Strategy::LoadLibraryRemoteThread,
    {
        Self::with_strategy(Strategy::LoadLibraryRemoteThread)
    }

    /// Create an injector that queues loading before application execution.
    ///
    /// Successful injection returns [`LoadTiming::OnResume`]. The caller must
    /// provide the primary-thread handle and attest [`LoaderState::NotStarted`]
    /// or a verified [`LoaderState::EarlyApc`] handoff.
    pub fn queue_apc() -> (injector: Self)
        ensures
            injector@ == Strategy::QueueUserApc,
    {
        Self::with_strategy(Strategy::QueueUserApc)
    }

    /// Create an injector that rewrites imports in a never-run target.
    ///
    /// Successful injection returns [`LoadTiming::OnResume`]. The caller must
    /// attest [`LoaderState::NotStarted`]; the payload must export ordinal 1.
    pub fn import_table() -> (injector: Self)
        ensures
            injector@ == Strategy::ImportTableHijack,
    {
        Self::with_strategy(Strategy::ImportTableHijack)
    }

    /// Create an injector using `strategy`, without automatic fallback.
    pub fn with_strategy(strategy: Strategy) -> (injector: Self)
        ensures
            injector@ == strategy,
    {
        Injector { strategy }
    }

    /// Return the selected strategy.
    pub fn strategy(&self) -> (strategy: Strategy)
        ensures
            strategy == self@,
    {
        self.strategy
    }
}

/// What an injection asks for next.
#[derive(Debug, Clone, Copy, PartialEq, Eq, Structural)]
pub enum InjectionStep {
    /// Validate the target.
    Validate,
    /// Read and validate the payload.
    LoadPayload,
    /// Run the strategy with the payload.
    Run(Strategy),
}

/// What the steps before the strategy make of an injection.
pub open spec fn injection_of(
    strategy: Strategy,
    target: Target,
    validated: Option<std::result::Result<(), ErrorView>>,
    loaded: Option<std::result::Result<(), ErrorView>>,
) -> std::result::Result<InjectionStep, ErrorView> {
    match gate_of(strategy, target) {
        Err(fault) => Err(fault),
        Ok(_) => match validated {
            None => Ok(InjectionStep::Validate),
            Some(Err(fault)) => Err(fault),
            Some(Ok(_)) => match loaded {
                None => Ok(InjectionStep::LoadPayload),
                Some(Err(fault)) => Err(fault),
                Some(Ok(_)) => Ok(InjectionStep::Run(strategy)),
            },
        },
    }
}

/// An optional result with its error viewed.
pub open spec fn known(result: Option<Result<()>>) -> Option<std::result::Result<(), ErrorView>> {
    match result {
        None => None,
        Some(result) => Some(outcome(result)),
    }
}

impl Injector {
    /// The next step of an injection, given what the steps before came to:
    /// the strategy must be admitted, the target valid and the payload loaded
    /// before the strategy runs, in this order.
    ///
    /// The caller owns process creation and resume.
    pub fn inject(
        &self,
        target: &Target,
        validated: Option<Result<()>>,
        loaded: Option<Result<()>>,
    ) -> (result: Result<InjectionStep>)
        ensures
            outcome(result) == injection_of(self@, *target, known(validated), known(loaded)),
    {
        match gate(self.strategy, target) {
            Err(error) => return Err(error),
            Ok(_) => {},
        }
        match validated {
            None => return Ok(InjectionStep::Validate),
            Some(Err(error)) => return Err(error),
            Some(Ok(())) => {},
        }
        match loaded {
            None => return Ok(InjectionStep::LoadPayload),
            Some(Err(error)) => return Err(error),
            Some(Ok(())) => {},
        }
        Ok(InjectionStep::Run(self.strategy))
    }
}

/// The next step of an injection with the default remote-thread strategy.
///
/// Equivalent to [`Injector::inject`] of a new injector.
pub fn inject(
    target: &Target,
    validated: Option<Result<()>>,
    loaded: Option<Result<()>>,
) -> (result: Result<InjectionStep>)
    ensures
        outcome(result) == injection_of(
            Strategy::LoadLibraryRemoteThread,
            *target,
            known(validated),
            known(loaded),
        ),
{
    Injector::new().inject(target, validated, loaded)
}

/// A strategy runs only for a target whose loader state admits it, that is
/// valid, and with a payload that loaded. Nothing but the selected strategy
/// ever runs.
pub proof fn strategies_run_when_everything_is_checked(
    strategy: Strategy,
    target: Target,
    validated: Option<std::result::Result<(), ErrorView>>,
    loaded: Option<std::result::Result<(), ErrorView>>,
    run: Strategy,
)
    ensures
        injection_of(strategy, target, validated, loaded) == Ok::<InjectionStep, ErrorView>(
            InjectionStep::Run(run),
        ) <==> {
            &&& run == strategy
            &&& gate_of(strategy, target) is Ok
            &&& validated matches Some(result) && result is Ok
            &&& loaded matches Some(result) && result is Ok
        },
{
}

/// Whether a strategy accepts a loader-state assertion.
pub open spec fn accepts(strategy: Strategy, state: LoaderState) -> bool {
    match strategy {
        Strategy::LoadLibraryRemoteThread => state != LoaderState::EarlyApc,
        Strategy::QueueUserApc => state == LoaderState::NotStarted || state
            == LoaderState::EarlyApc,
        Strategy::ImportTableHijack => state == LoaderState::NotStarted,
    }
}

/// Why a strategy does not accept a loader-state assertion.
pub open spec fn state_required(strategy: Strategy) -> Seq<char> {
    match strategy {
        Strategy::LoadLibraryRemoteThread => "an early-APC handoff permits only APC injection"@,
        Strategy::QueueUserApc =>
            "a never-run thread or verified early-APC handoff is required"@,
        Strategy::ImportTableHijack => "a never-run primary thread and loader are required"@,
    }
}

/// Whether a strategy may begin, decided before anything touches the target.
pub open spec fn gate_of(strategy: Strategy, target: Target) -> std::result::Result<
    (),
    ErrorView,
> {
    if strategy == Strategy::QueueUserApc && target.main_thread is None {
        Err(ErrorView::MissingThreadHandle)
    } else if !accepts(strategy, target.loader_state) {
        Err(ErrorView::StrategyUnavailable { strategy, reason: state_required(strategy) })
    } else {
        Ok(())
    }
}

/// Refuse a strategy that the target's loader state or handles do not allow.
pub fn gate(strategy: Strategy, target: &Target) -> (result: Result<()>)
    ensures
        outcome(result) == gate_of(strategy, *target),
{
    if strategy == Strategy::QueueUserApc && target.main_thread.is_none() {
        return Err(Error::MissingThreadHandle);
    }
    let allowed = match strategy {
        Strategy::LoadLibraryRemoteThread => target.loader_state != LoaderState::EarlyApc,
        Strategy::QueueUserApc => target.loader_state == LoaderState::NotStarted
            || target.loader_state == LoaderState::EarlyApc,
        Strategy::ImportTableHijack => target.loader_state == LoaderState::NotStarted,
    };
    if !allowed {
        return Err(
            Error::StrategyUnavailable {
                strategy,
                reason: match strategy {
                    Strategy::LoadLibraryRemoteThread =>
                        "an early-APC handoff permits only APC injection",
                    Strategy::QueueUserApc =>
                        "a never-run thread or verified early-APC handoff is required",
                    Strategy::ImportTableHijack =>
                        "a never-run primary thread and loader are required",
                },
            },
        );
    }
    Ok(())
}

/// Only a never-run target admits every strategy, and an early-APC handoff
/// admits only the APC strategy.
pub proof fn gate_by_loader_state(target: Target)
    requires
        target.main_thread is Some,
    ensures
        (forall|s: Strategy| #[trigger] gate_of(s, target) is Ok) <==> target.loader_state
            == LoaderState::NotStarted,
        target.loader_state == LoaderState::EarlyApc ==> forall|s: Strategy|
            (#[trigger] gate_of(s, target) is Ok) <==> s == Strategy::QueueUserApc,
        target.loader_state == LoaderState::LoaderComplete || target.loader_state
            == LoaderState::Unknown ==> forall|s: Strategy|
            (#[trigger] gate_of(s, target) is Ok) <==> s == Strategy::LoadLibraryRemoteThread,
{
    assert(target.loader_state != LoaderState::NotStarted ==> gate_of(
        Strategy::ImportTableHijack,
        target,
    ) is Err);
}

/// A successful injection reports the timing of its strategy: a remote thread
/// has loaded the module, and the other two have prepared a load that happens
/// on resume. Only the former has a module address.
pub proof fn timing_follows_the_strategy(
    load: RemoteLoadView,
    queued: std::result::Result<(), ErrorView>,
    committed: std::result::Result<(), ErrorView>,
    release: std::result::Result<(), ErrorView>,
)
    ensures
        load.injected() matches Ok(injected) ==> injected.timing == LoadTiming::Immediate
            && injected.well_formed(),
        queued_of(queued, release) matches Ok(injected) ==> injected.timing == LoadTiming::OnResume
            && injected.well_formed(),
        finished_injection(committed, release) matches Ok(injected) ==> injected.timing
            == LoadTiming::OnResume && injected.well_formed(),
{
}

} // verus!
