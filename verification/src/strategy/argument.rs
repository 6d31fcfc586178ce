//! The argument that LoadLibrary gets in the target.
//!
//! The remote-thread and the APC strategy both hand LoadLibrary a path in
//! memory of the target. Preparing it finds the function, allocates, and
//! writes; an allocation that could not be written is given back.

use crate::error::{combine, combined, outcome, viewed, Error, ErrorView, Result};
use crate::paths::{
    canonical_of, import_path_of, stripped, verbatim_prefix, wide, wide_of, Resolved,
};
use crate::pe::layout::{le16_bytes, Record};
use vstd::prelude::*;

verus! {

/// The little-endian bytes of units.
pub open spec fn unit_bytes(units: Seq<u16>) -> Seq<u8>
    decreases units.len(),
{
    if units.len() == 0 {
        Seq::empty()
    } else {
        unit_bytes(units.drop_last()) + le16_bytes(units.last())
    }
}

/// The argument that LoadLibrary gets for a path: its units and a NUL, as bytes.
pub open spec fn argument_of(path: Seq<u16>) -> std::result::Result<Seq<u8>, ErrorView> {
    match wide_of(path) {
        Err(fault) => Err(fault),
        Ok(units) => Ok(unit_bytes(units)),
    }
}

/// The bytes of the argument that LoadLibrary gets for `path`.
pub fn load_argument(path: &[u16]) -> (result: Result<Vec<u8>>)
    ensures
        viewed(result) == argument_of(path@),
{
    let units = match wide(path) {
        Err(error) => return Err(error),
        Ok(units) => units,
    };
    let mut bytes: Vec<u8> = Vec::new();
    let mut i: usize = 0;
    while i < units.len()
        invariant
            i <= units@.len(),
            bytes@ == unit_bytes(units@.take(i as int)),
        decreases units@.len() - i,
    {
        let mut encoded = units[i].encode();
        bytes.append(&mut encoded);
        i += 1;
        proof {
            let taken = units@.take(i as int);
            assert(taken.drop_last() =~= units@.take(i - 1));
        }
    }
    assert(units@.take(i as int) =~= units@);
    Ok(bytes)
}

/// The argument is twice as many bytes as the path has units, and two for its NUL.
pub proof fn argument_length(path: Seq<u16>)
    requires
        argument_of(path) is Ok,
    ensures
        argument_of(path)->Ok_0.len() == 2 * (path.len() + 1),
{
    lemma_unit_bytes_len(path.push(0));
}

proof fn lemma_unit_bytes_len(units: Seq<u16>)
    ensures
        unit_bytes(units).len() == 2 * units.len(),
    decreases units.len(),
{
    if units.len() > 0 {
        lemma_unit_bytes_len(units.drop_last());
    }
}

/// How far the preparation has come.
#[derive(Debug, Clone, Copy, PartialEq, Eq, Structural)]
pub enum ArgumentPhase {
    /// The function is looked for.
    Resolve,
    /// Memory is allocated.
    Allocate,
    /// The argument is written.
    Write,
    /// The allocation is given back.
    Release,
    /// The argument lies in the target.
    Ready,
    /// There is no argument in the target.
    Failed,
}

/// What the preparation asks for next.
#[derive(Debug, Clone, Copy, PartialEq, Eq, Structural)]
pub enum ArgumentAction {
    /// Find LoadLibrary in the target.
    Resolve,
    /// Allocate this many bytes.
    Allocate(usize),
    /// Write the argument at this address.
    Write(usize),
    /// Release the allocation at this address.
    Release(usize),
    /// Take the outcome.
    Finish,
}

/// What came of an action.
#[derive(Debug)]
pub enum ArgumentEvent {
    Resolved(Result<usize>),
    Allocated(Result<usize>),
    Wrote(Result<()>),
    Released(Result<()>),
}

/// The mathematical content of an [`ArgumentEvent`].
#[verifier::ext_equal]
pub enum ArgumentEventView {
    Resolved(std::result::Result<usize, ErrorView>),
    Allocated(std::result::Result<usize, ErrorView>),
    Wrote(std::result::Result<(), ErrorView>),
    Released(std::result::Result<(), ErrorView>),
}

impl View for ArgumentEvent {
    type V = ArgumentEventView;

    open spec fn view(&self) -> ArgumentEventView {
        match *self {
            ArgumentEvent::Resolved(result) => ArgumentEventView::Resolved(outcome(result)),
            ArgumentEvent::Allocated(result) => ArgumentEventView::Allocated(outcome(result)),
            ArgumentEvent::Wrote(result) => ArgumentEventView::Wrote(outcome(result)),
            ArgumentEvent::Released(result) => ArgumentEventView::Released(outcome(result)),
        }
    }
}

/// An argument for LoadLibrary in preparation.
#[derive(Debug)]
pub struct Argument {
    pub path: Vec<u16>,
    pub phase: ArgumentPhase,
    /// LoadLibrary in the target.
    pub function: usize,
    /// Where the argument lies in the target.
    pub address: usize,
    pub bytes: Vec<u8>,
    pub failure: Option<Error>,
}

/// The mathematical content of an [`Argument`].
#[verifier::ext_equal]
pub struct ArgumentView {
    pub path: Seq<u16>,
    pub phase: ArgumentPhase,
    pub function: usize,
    pub address: usize,
    pub bytes: Seq<u8>,
    pub failure: std::result::Result<(), ErrorView>,
}

impl View for Argument {
    type V = ArgumentView;

    open spec fn view(&self) -> ArgumentView {
        ArgumentView {
            path: self.path@,
            phase: self.phase,
            function: self.function,
            address: self.address,
            bytes: self.bytes@,
            failure: match self.failure {
                Some(error) => Err(error@),
                None => Ok(()),
            },
        }
    }
}

/// A function in the target and the argument that it is to get there.
#[derive(Debug, Clone, Copy, PartialEq, Eq, Structural)]
pub struct Prepared {
    pub function: usize,
    pub address: usize,
}

impl ArgumentView {
    /// What the preparation asks for.
    pub open spec fn action(self) -> ArgumentAction {
        match self.phase {
            ArgumentPhase::Resolve => ArgumentAction::Resolve,
            ArgumentPhase::Allocate => ArgumentAction::Allocate(self.bytes.len() as usize),
            ArgumentPhase::Write => ArgumentAction::Write(self.address),
            ArgumentPhase::Release => ArgumentAction::Release(self.address),
            ArgumentPhase::Ready | ArgumentPhase::Failed => ArgumentAction::Finish,
        }
    }

    /// The preparation ends without an argument in the target.
    pub open spec fn failed(self, error: ErrorView) -> ArgumentView {
        ArgumentView { phase: ArgumentPhase::Failed, failure: Err(error), ..self }
    }

    /// The state after an event. One that the preparation does not wait for
    /// changes nothing.
    pub open spec fn after(self, event: ArgumentEventView) -> ArgumentView {
        match (self.phase, event) {
            (ArgumentPhase::Resolve, ArgumentEventView::Resolved(Err(error))) => self.failed(
                error,
            ),
            (ArgumentPhase::Resolve, ArgumentEventView::Resolved(Ok(function))) => match argument_of(
                self.path,
            ) {
                Err(error) => self.failed(error),
                Ok(bytes) => ArgumentView {
                    phase: ArgumentPhase::Allocate,
                    function,
                    bytes,
                    ..self
                },
            },
            (ArgumentPhase::Allocate, ArgumentEventView::Allocated(Err(error))) => self.failed(
                error,
            ),
            (ArgumentPhase::Allocate, ArgumentEventView::Allocated(Ok(address))) => ArgumentView {
                phase: ArgumentPhase::Write,
                address,
                ..self
            },
            (ArgumentPhase::Write, ArgumentEventView::Wrote(Err(error))) => ArgumentView {
                phase: ArgumentPhase::Release,
                failure: Err(error),
                ..self
            },
            (ArgumentPhase::Write, ArgumentEventView::Wrote(Ok(_))) => ArgumentView {
                phase: ArgumentPhase::Ready,
                ..self
            },
            (ArgumentPhase::Release, ArgumentEventView::Released(release)) => ArgumentView {
                phase: ArgumentPhase::Failed,
                failure: combined(self.failure, release),
                ..self
            },
            _ => self,
        }
    }

    /// What was prepared, or why nothing was.
    pub open spec fn prepared(self) -> std::result::Result<Prepared, ErrorView> {
        match self.failure {
            Err(error) => Err(error),
            Ok(_) => Ok(Prepared { function: self.function, address: self.address }),
        }
    }
}

impl Argument {
    /// Begin to prepare the argument for `path`.
    pub fn start(path: &[u16]) -> (argument: Self)
        ensures
            argument@ == (ArgumentView {
                path: path@,
                phase: ArgumentPhase::Resolve,
                function: 0,
                address: 0,
                bytes: Seq::empty(),
                failure: Ok(()),
            }),
    {
        let mut units: Vec<u16> = Vec::new();
        units.extend_from_slice(path);
        assert(units@ =~= path@);
        Argument {
            path: units,
            phase: ArgumentPhase::Resolve,
            function: 0,
            address: 0,
            bytes: Vec::new(),
            failure: None,
        }
    }

    /// What to do next.
    pub fn action(&self) -> (action: ArgumentAction)
        ensures
            action == self@.action(),
    {
        match self.phase {
            ArgumentPhase::Resolve => ArgumentAction::Resolve,
            ArgumentPhase::Allocate => ArgumentAction::Allocate(self.bytes.len()),
            ArgumentPhase::Write => ArgumentAction::Write(self.address),
            ArgumentPhase::Release => ArgumentAction::Release(self.address),
            ArgumentPhase::Ready | ArgumentPhase::Failed => ArgumentAction::Finish,
        }
    }

    fn failed(&mut self, error: Error)
        ensures
            final(self)@ == old(self)@.failed(error@),
    {
        self.phase = ArgumentPhase::Failed;
        self.failure = Some(error);
    }

    /// Take what came of the action.
    pub fn step(&mut self, event: ArgumentEvent)
        ensures
            final(self)@ == old(self)@.after(event@),
    {
        match (self.phase, event) {
            (ArgumentPhase::Resolve, ArgumentEvent::Resolved(Err(error))) => {
                self.failed(error);
            },
            (ArgumentPhase::Resolve, ArgumentEvent::Resolved(Ok(function))) => {
                match load_argument(&self.path) {
                    Err(error) => self.failed(error),
                    Ok(bytes) => {
                        self.function = function;
                        self.bytes = bytes;
                        self.phase = ArgumentPhase::Allocate;
                    },
                }
            },
            (ArgumentPhase::Allocate, ArgumentEvent::Allocated(Err(error))) => {
                self.failed(error);
            },
            (ArgumentPhase::Allocate, ArgumentEvent::Allocated(Ok(address))) => {
                self.address = address;
                self.phase = ArgumentPhase::Write;
            },
            (ArgumentPhase::Write, ArgumentEvent::Wrote(Err(error))) => {
                self.failure = Some(error);
                self.phase = ArgumentPhase::Release;
            },
            (ArgumentPhase::Write, ArgumentEvent::Wrote(Ok(()))) => {
                self.phase = ArgumentPhase::Ready;
            },
            (ArgumentPhase::Release, ArgumentEvent::Released(release)) => {
                let written = match self.failure.take() {
                    Some(error) => Err(error),
                    None => Ok(()),
                };
                self.failure = match combine(written, release) {
                    Ok(()) => None,
                    Err(error) => Some(error),
                };
                self.phase = ArgumentPhase::Failed;
            },
            _ => {},
        }
    }

    /// The outcome.
    pub fn finish(self) -> (result: Result<Prepared>)
        ensures
            outcome(result) == self@.prepared(),
    {
        match self.failure {
            Some(error) => Err(error),
            None => Ok(Prepared { function: self.function, address: self.address }),
        }
    }
}

/// A preparation from its first step on: it has failed only where it says so,
/// and what it allocates and writes is the argument for its path.
pub open spec fn is_preparing(argument: ArgumentView) -> bool {
    &&& argument.failure is Err <==> argument.phase is Release || argument.phase is Failed
    &&& argument.phase is Allocate || argument.phase is Write || argument.phase is Release
        || argument.phase is Ready ==> argument_of(argument.path) == Ok::<Seq<u8>, ErrorView>(
        argument.bytes,
    )
}

/// Every step keeps [`is_preparing`]: a path with an embedded NUL is refused
/// before anything is allocated, the bytes that are written are the argument
/// for the path, and an allocation ends either written or released.
pub proof fn arguments_are_written_or_released(argument: ArgumentView, event: ArgumentEventView)
    requires
        is_preparing(argument),
    ensures
        is_preparing(argument.after(event)),
        argument.after(event).path == argument.path,
        argument.after(event).prepared() is Ok && argument.after(event).action() is Finish
            ==> argument.after(event).phase is Ready,
        argument.phase is Write && argument.after(event).phase != argument.phase
            ==> argument.after(event).phase is Ready || argument.after(event).action()
            == ArgumentAction::Release(argument.address),
        argument.phase is Release && event is Released ==> argument.after(event).phase is Failed
            && argument.after(event).failure == combined(argument.failure, event->Released_0),
{
}

/// No strategy takes a path with an embedded NUL.
pub proof fn embedded_nuls_are_refused(path: Seq<u16>, resolved: Resolved)
    requires
        path.contains(0),
    ensures
        canonical_of(path, resolved) is Err,
        argument_of(path) is Err,
        import_path_of(path) is Err,
{
    let i = choose|i: int| 0 <= i < path.len() && path[i] == 0;
    if verbatim_prefix().is_prefix_of(path) {
        assert(verbatim_prefix() == path.subrange(0, 4));
        assert forall|k: int| 0 <= k < 4 implies path[k] == #[trigger] verbatim_prefix()[k] by {
            assert(path.subrange(0, 4)[k] == path[k]);
        }
        assert(i >= 4) by {
            if i < 4 {
                assert(path[i] == verbatim_prefix()[i]);
            }
        }
        assert(stripped(path)[i - 4] == 0);
    } else {
        assert(stripped(path)[i] == 0);
    }
}

} // verus!
