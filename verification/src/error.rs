//! Error details, cleanup composition, and caller recovery decisions.

use crate::strategy::Strategy;
use crate::text;
use vstd::prelude::*;

verus! {

/// The operating-system error of `std`, carried through unread.
#[verifier::external_type_specification]
#[verifier::external_body]
pub struct ExIoError(std::io::Error);

/// An injection or validation failure.
///
/// Use [`Self::is_pending`] and [`Self::must_not_resume`] before deciding how
/// to recover. Neither method returning `false` certifies that retry or resume
/// is safe; the caller's loader-state and synchronization contract still applies.
///
/// A path is held as its UTF-16 units.
#[derive(Debug)]
#[allow(inconsistent_fields)]
#[non_exhaustive]
pub enum Error {
    DllNotFound(Vec<u16>),
    StrategyUnavailable { strategy: Strategy, reason: &'static str },
    MissingThreadHandle,
    BitnessMismatch { injector_64: bool, target_64: bool },
    ModuleNotFound,
    Pe(String),
    RemoteTimeout,
    RemotePending(std::io::Error),
    InvalidTarget(&'static str),
    AmbiguousPrimaryThread,
    UnsupportedMachine(u16),
    UnsupportedPath(&'static str),
    IatRollbackFailed,
    ProtectionRestore(Box<Error>),
    Cleanup { operation: Box<Error>, cleanup: Box<Error> },
    Io { operation: &'static str, path: Vec<u16>, source: std::io::Error },
    PayloadTooLarge { limit: u64 },
    Win32 { call: &'static str, source: std::io::Error },
    UnknownStrategy(String),
}

/// What an [`Error`] says, with texts and paths as sequences.
#[verifier::ext_equal]
#[allow(inconsistent_fields)]
pub enum ErrorView {
    DllNotFound(Seq<u16>),
    StrategyUnavailable { strategy: Strategy, reason: Seq<char> },
    MissingThreadHandle,
    BitnessMismatch { injector_64: bool, target_64: bool },
    ModuleNotFound,
    Pe(Seq<char>),
    RemoteTimeout,
    RemotePending(std::io::Error),
    InvalidTarget(Seq<char>),
    AmbiguousPrimaryThread,
    UnsupportedMachine(u16),
    UnsupportedPath(Seq<char>),
    IatRollbackFailed,
    ProtectionRestore(Box<ErrorView>),
    Cleanup { operation: Box<ErrorView>, cleanup: Box<ErrorView> },
    Io { operation: Seq<char>, path: Seq<u16>, source: std::io::Error },
    PayloadTooLarge { limit: u64 },
    Win32 { call: Seq<char>, source: std::io::Error },
    UnknownStrategy(Seq<char>),
}

impl Error {
    pub open spec fn view(self) -> ErrorView
        decreases self,
    {
        match self {
            Error::DllNotFound(path) => ErrorView::DllNotFound(path@),
            Error::StrategyUnavailable { strategy, reason } => ErrorView::StrategyUnavailable {
                strategy,
                reason: reason@,
            },
            Error::MissingThreadHandle => ErrorView::MissingThreadHandle,
            Error::BitnessMismatch { injector_64, target_64 } => ErrorView::BitnessMismatch {
                injector_64,
                target_64,
            },
            Error::ModuleNotFound => ErrorView::ModuleNotFound,
            Error::Pe(message) => ErrorView::Pe(message@),
            Error::RemoteTimeout => ErrorView::RemoteTimeout,
            Error::RemotePending(source) => ErrorView::RemotePending(source),
            Error::InvalidTarget(reason) => ErrorView::InvalidTarget(reason@),
            Error::AmbiguousPrimaryThread => ErrorView::AmbiguousPrimaryThread,
            Error::UnsupportedMachine(machine) => ErrorView::UnsupportedMachine(machine),
            Error::UnsupportedPath(reason) => ErrorView::UnsupportedPath(reason@),
            Error::IatRollbackFailed => ErrorView::IatRollbackFailed,
            Error::ProtectionRestore(source) => ErrorView::ProtectionRestore(
                Box::new((*source).view()),
            ),
            Error::Cleanup { operation, cleanup } => ErrorView::Cleanup {
                operation: Box::new((*operation).view()),
                cleanup: Box::new((*cleanup).view()),
            },
            Error::Io { operation, path, source } => ErrorView::Io {
                operation: operation@,
                path: path@,
                source,
            },
            Error::PayloadTooLarge { limit } => ErrorView::PayloadTooLarge { limit },
            Error::Win32 { call, source } => ErrorView::Win32 { call: call@, source },
            Error::UnknownStrategy(name) => ErrorView::UnknownStrategy(name@),
        }
    }
}

impl ErrorView {
    /// A remote load may still be running.
    pub open spec fn is_pending(self) -> bool
        decreases self,
    {
        match self {
            ErrorView::RemoteTimeout | ErrorView::RemotePending(_) => true,
            ErrorView::Cleanup { operation, cleanup } => {
                (*operation).is_pending() || (*cleanup).is_pending()
            },
            ErrorView::ProtectionRestore(source) => (*source).is_pending(),
            _ => false,
        }
    }

    /// A failed rollback or protection restoration forbids resume.
    pub open spec fn must_not_resume(self) -> bool
        decreases self,
    {
        match self {
            ErrorView::IatRollbackFailed | ErrorView::ProtectionRestore(_) => true,
            ErrorView::Cleanup { operation, cleanup } => {
                (*operation).must_not_resume() || (*cleanup).must_not_resume()
            },
            _ => false,
        }
    }

    /// Both errors, with `self` as the operation that failed first.
    pub open spec fn with_cleanup(self, cleanup: ErrorView) -> ErrorView {
        ErrorView::Cleanup { operation: Box::new(self), cleanup: Box::new(cleanup) }
    }
}

impl Error {
    /// Whether a remote load may still be running. Do not retry blindly.
    ///
    /// Checks both branches of a combined operation/cleanup error.
    pub fn is_pending(&self) -> (pending: bool)
        ensures
            pending == self@.is_pending(),
        decreases self,
    {
        match self {
            Self::RemoteTimeout | Self::RemotePending(_) => true,
            Self::Cleanup { operation, cleanup } => operation.is_pending() || cleanup.is_pending(),
            Self::ProtectionRestore(source) => source.is_pending(),
            _ => false,
        }
    }

    /// Whether failed rollback or protection restoration forbids resume.
    ///
    /// A `false` result is not permission to resume or repeat injection.
    pub fn must_not_resume(&self) -> (forbidden: bool)
        ensures
            forbidden == self@.must_not_resume(),
        decreases self,
    {
        match self {
            Self::IatRollbackFailed | Self::ProtectionRestore(_) => true,
            Self::Cleanup { operation, cleanup } => operation.must_not_resume()
                || cleanup.must_not_resume(),
            _ => false,
        }
    }

    /// Preserve a second error while keeping this operation as the source.
    pub fn with_cleanup(self, cleanup: Error) -> (both: Error)
        ensures
            both@ == self@.with_cleanup(cleanup@),
    {
        Self::Cleanup { operation: Box::new(self), cleanup: Box::new(cleanup) }
    }
}

/// The result type for this crate.
pub type Result<T> = std::result::Result<T, Error>;

/// A result with its error viewed.
pub open spec fn outcome<T>(result: std::result::Result<T, Error>) -> std::result::Result<
    T,
    ErrorView,
> {
    match result {
        Ok(value) => Ok(value),
        Err(error) => Err(error@),
    }
}

/// A result with its value and its error viewed.
pub open spec fn viewed<T: View>(result: std::result::Result<T, Error>) -> std::result::Result<
    T::V,
    ErrorView,
> {
    match result {
        Ok(value) => Ok(value@),
        Err(error) => Err(error@),
    }
}

/// What [`combine`] keeps of an operation and its cleanup.
pub open spec fn combined<T>(
    operation: std::result::Result<T, ErrorView>,
    cleanup: std::result::Result<(), ErrorView>,
) -> std::result::Result<T, ErrorView> {
    match (operation, cleanup) {
        (Ok(value), Ok(_)) => Ok(value),
        (Err(error), Ok(_)) => Err(error),
        (Ok(_), Err(error)) => Err(error),
        (Err(operation), Err(cleanup)) => Err(operation.with_cleanup(cleanup)),
    }
}

/// Keep the successful value only when cleanup also succeeds.
pub fn combine<T>(operation: Result<T>, cleanup: Result<()>) -> (result: Result<T>)
    ensures
        outcome(result) == combined(outcome(operation), outcome(cleanup)),
{
    match (operation, cleanup) {
        (Ok(value), Ok(())) => Ok(value),
        (Err(error), Ok(())) => Err(error),
        (Ok(_), Err(error)) => Err(error),
        (Err(operation), Err(cleanup)) => Err(operation.with_cleanup(cleanup)),
    }
}

/// The result failed, and a remote load may still be running.
pub open spec fn pending<T>(result: std::result::Result<T, ErrorView>) -> bool {
    result matches Err(error) && error.is_pending()
}

/// The result failed, and the target must not resume.
pub open spec fn forbids_resume<T>(result: std::result::Result<T, ErrorView>) -> bool {
    result matches Err(error) && error.must_not_resume()
}

/// Combining an operation with its cleanup succeeds exactly when both did, and
/// loses neither branch's recovery facts: the outcome is pending, or forbids
/// resume, exactly when one of the two did.
pub proof fn combine_keeps_recovery_facts<T>(
    operation: std::result::Result<T, ErrorView>,
    cleanup: std::result::Result<(), ErrorView>,
)
    ensures
        combined(operation, cleanup) is Ok <==> operation is Ok && cleanup is Ok,
        pending(combined(operation, cleanup)) == (pending(operation) || pending(cleanup)),
        forbids_resume(combined(operation, cleanup)) == (forbids_resume(operation)
            || forbids_resume(cleanup)),
{
    reveal_with_fuel(ErrorView::is_pending, 2);
    reveal_with_fuel(ErrorView::must_not_resume, 2);
}

/// `std::io::Error::last_os_error` reads the error of the last operating-system
/// call of this thread. Nothing is claimed of which error that is.
#[verifier::external_body]
pub(crate) fn last_os_error() -> (source: std::io::Error) {
    std::io::Error::last_os_error()
}

/// Capture last-error immediately, before another Windows call can overwrite it.
pub fn win32(call: &'static str) -> (error: Error)
    ensures
        error matches Error::Win32 { call: named, .. } && named@ == call@,
{
    from_win32(call, last_os_error())
}

/// Wrap a previously captured Windows error without reading last-error again.
pub fn from_win32(call: &'static str, source: std::io::Error) -> (error: Error)
    ensures
        error@ == (ErrorView::Win32 { call: call@, source }),
{
    Error::Win32 { call, source }
}

/// A failed file operation, with the path it was about.
pub fn file_io(operation: &'static str, path: &[u16], source: std::io::Error) -> (error: Error)
    ensures
        error@ == (ErrorView::Io { operation: operation@, path: path@, source }),
{
    Error::Io { operation, path: copy_units(path), source }
}

/// A malformed image.
pub fn pe(message: &str) -> (error: Error)
    ensures
        error@ == ErrorView::Pe(message@),
{
    Error::Pe(message.to_owned())
}

/// A copy of `units`.
pub fn copy_units(units: &[u16]) -> (copy: Vec<u16>)
    ensures
        copy@ == units@,
{
    let mut copy: Vec<u16> = Vec::new();
    copy.extend_from_slice(units);
    proof {
        assert(copy@ =~= units@);
    }
    copy
}

/// The error that an [`Error`] came from.
pub enum Source<'a> {
    Library(&'a Error),
    Os(&'a std::io::Error),
}

impl Error {
    /// The underlying error: the operation of a combined error, the failure
    /// behind a protection restoration, or the operating system's own error.
    pub fn source(&self) -> (source: Option<Source<'_>>)
        ensures
            source == match *self {
                Error::ProtectionRestore(inner) => Some(Source::Library(&*inner)),
                Error::Cleanup { operation, .. } => Some(Source::Library(&*operation)),
                Error::RemotePending(os) => Some(Source::Os(&os)),
                Error::Io { source: os, .. } => Some(Source::Os(&os)),
                Error::Win32 { source: os, .. } => Some(Source::Os(&os)),
                _ => None,
            },
    {
        match self {
            Error::ProtectionRestore(inner) => Some(Source::Library(inner)),
            Error::Cleanup { operation, .. } => Some(Source::Library(operation)),
            Error::RemotePending(os) => Some(Source::Os(os)),
            Error::Io { source: os, .. } => Some(Source::Os(os)),
            Error::Win32 { source: os, .. } => Some(Source::Os(os)),
            _ => None,
        }
    }
}

/// The name of a strategy's variant.
pub open spec fn variant_name(strategy: Strategy) -> Seq<char> {
    match strategy {
        Strategy::LoadLibraryRemoteThread => "LoadLibraryRemoteThread"@,
        Strategy::QueueUserApc => "QueueUserApc"@,
        Strategy::ImportTableHijack => "ImportTableHijack"@,
    }
}

/// `true` or `false`.
pub open spec fn bool_text(value: bool) -> Seq<char> {
    if value {
        "true"@
    } else {
        "false"@
    }
}

/// The message of a failed protection restoration.
pub open spec fn restore_text(inner: Seq<char>) -> Seq<char> {
    "protection restoration failed; do not resume: "@ + inner
}

/// The message of two combined errors.
pub open spec fn cleanup_text(operation: Seq<char>, cleanup: Seq<char>) -> Seq<char> {
    "operation failed: "@ + operation + "; cleanup also failed: "@ + cleanup
}

impl ErrorView {
    /// `text` is the message of this error.
    ///
    /// The words of an operating-system error depend on the system's language,
    /// so they may be anything.
    pub open spec fn says(self, text: Seq<char>) -> bool
        decreases self,
    {
        match self {
            ErrorView::DllNotFound(path) => text == "the DLL path does not exist: "@
                + text::utf16_text(path),
            ErrorView::StrategyUnavailable { strategy, reason } => text == "the strategy "@
                + variant_name(strategy) + " is not available: "@ + reason,
            ErrorView::MissingThreadHandle => text
                == "this strategy needs the target main-thread handle"@,
            ErrorView::BitnessMismatch { injector_64, target_64 } => text
                == "the injector and target bitness differ (injector_64="@ + bool_text(injector_64)
                + ", target_64="@ + bool_text(target_64) + ")"@,
            ErrorView::ModuleNotFound => text
                == "could not confirm the injected module in the target"@,
            ErrorView::Pe(message) => text == "PE parse error: "@ + message,
            ErrorView::RemoteTimeout => text
                == "the remote thread timed out; outcome pending; do not retry"@,
            ErrorView::RemotePending(_) => (
            "the remote wait failed; outcome pending; allocation retained: "@).is_prefix_of(text),
            ErrorView::InvalidTarget(reason) => text == "invalid target or state: "@ + reason,
            ErrorView::AmbiguousPrimaryThread => text
                == "could not identify the primary thread unambiguously"@,
            ErrorView::UnsupportedMachine(machine) => text == "unsupported machine type: "@
                + text::hex4(machine),
            ErrorView::UnsupportedPath(reason) => text == "unsupported payload path: "@ + reason,
            ErrorView::IatRollbackFailed => text
                == "IAT rollback failed; the target is modified and must not resume"@,
            ErrorView::ProtectionRestore(source) => exists|inner: Seq<char>|
                source.says(inner) && text == #[trigger] restore_text(inner),
            ErrorView::Cleanup { operation, cleanup } => exists|first: Seq<char>, second: Seq<char>|
                operation.says(first) && cleanup.says(second) && text == #[trigger] cleanup_text(
                    first,
                    second,
                ),
            ErrorView::Io { operation, path, .. } => (operation + " failed for "@
                + text::utf16_text(path) + ": "@).is_prefix_of(text),
            ErrorView::PayloadTooLarge { limit } => text == "payload file exceeds the "@
                + text::decimal(limit as nat) + "-byte limit"@,
            ErrorView::Win32 { call, .. } => (call + " failed: "@).is_prefix_of(text),
            ErrorView::UnknownStrategy(name) => text == "unknown injection strategy: "@ + name,
        }
    }
}

/// The `Display` text of `std::io::Error`. It depends on the system's language,
/// so nothing is claimed of it.
#[verifier::external_body]
fn os_error_text(source: &std::io::Error) -> (text: String) {
    format!("{}", source)
}

fn push_bool(text: &mut String, value: bool)
    ensures
        final(text)@ == old(text)@ + bool_text(value),
{
    if value {
        text.append("true");
    } else {
        text.append("false");
    }
}

fn push_variant(text: &mut String, strategy: Strategy)
    ensures
        final(text)@ == old(text)@ + variant_name(strategy),
{
    match strategy {
        Strategy::LoadLibraryRemoteThread => text.append("LoadLibraryRemoteThread"),
        Strategy::QueueUserApc => text.append("QueueUserApc"),
        Strategy::ImportTableHijack => text.append("ImportTableHijack"),
    }
}

impl Error {
    /// The message of this error.
    pub fn to_string(&self) -> (text: String)
        ensures
            self@.says(text@),
        decreases self,
    {
        match self {
            Error::DllNotFound(path) => {
                let mut text = "the DLL path does not exist: ".to_owned();
                text.append(text::from_utf16_lossy(path).as_str());
                text
            },
            Error::StrategyUnavailable { strategy, reason } => {
                let mut text = "the strategy ".to_owned();
                push_variant(&mut text, *strategy);
                text.append(" is not available: ");
                text.append(reason);
                text
            },
            Error::MissingThreadHandle => "this strategy needs the target main-thread handle".to_owned(),
            Error::BitnessMismatch { injector_64, target_64 } => {
                let mut text = "the injector and target bitness differ (injector_64=".to_owned();
                push_bool(&mut text, *injector_64);
                text.append(", target_64=");
                push_bool(&mut text, *target_64);
                text.append(")");
                text
            },
            Error::ModuleNotFound => "could not confirm the injected module in the target".to_owned(),
            Error::Pe(message) => {
                let mut text = "PE parse error: ".to_owned();
                text.append(message.as_str());
                text
            },
            Error::RemoteTimeout => "the remote thread timed out; outcome pending; do not retry".to_owned(),
            Error::RemotePending(source) => {
                let mut text = "the remote wait failed; outcome pending; allocation retained: ".to_owned();
                text.append(os_error_text(source).as_str());
                text
            },
            Error::InvalidTarget(reason) => {
                let mut text = "invalid target or state: ".to_owned();
                text.append(reason);
                text
            },
            Error::AmbiguousPrimaryThread => "could not identify the primary thread unambiguously".to_owned(),
            Error::UnsupportedMachine(machine) => {
                let mut text = "unsupported machine type: ".to_owned();
                text::push_hex4(&mut text, *machine);
                text
            },
            Error::UnsupportedPath(reason) => {
                let mut text = "unsupported payload path: ".to_owned();
                text.append(reason);
                text
            },
            Error::IatRollbackFailed => "IAT rollback failed; the target is modified and must not resume".to_owned(),
            Error::ProtectionRestore(source) => {
                let inner = source.to_string();
                let mut text = "protection restoration failed; do not resume: ".to_owned();
                text.append(inner.as_str());
                proof {
                    assert(text@ == restore_text(inner@));
                }
                text
            },
            Error::Cleanup { operation, cleanup } => {
                let first = operation.to_string();
                let second = cleanup.to_string();
                let mut text = "operation failed: ".to_owned();
                text.append(first.as_str());
                text.append("; cleanup also failed: ");
                text.append(second.as_str());
                proof {
                    assert(text@ == cleanup_text(first@, second@));
                }
                text
            },
            Error::Io { operation, path, source } => {
                let mut text = (*operation).to_owned();
                text.append(" failed for ");
                text.append(text::from_utf16_lossy(path).as_str());
                text.append(": ");
                text.append(os_error_text(source).as_str());
                text
            },
            Error::PayloadTooLarge { limit } => {
                let mut text = "payload file exceeds the ".to_owned();
                text::push_decimal(&mut text, *limit);
                text.append("-byte limit");
                text
            },
            Error::Win32 { call, source } => {
                let mut text = (*call).to_owned();
                text.append(" failed: ");
                text.append(os_error_text(source).as_str());
                text
            },
            Error::UnknownStrategy(name) => {
                let mut text = "unknown injection strategy: ".to_owned();
                text.append(name.as_str());
                text
            },
        }
    }
}

} // verus!
