use vstd::prelude::*;

verus! {

/// The error kinds of a trace run. Each kind that reports a failing system
/// request carries the underlying numeric code (an `errno` value or a
/// negative unwind-engine status) so a caller can triage the failure.
#[derive(Clone, Copy, PartialEq, Eq, Structural, Debug)]
pub enum TraceError {
    /// Bad or missing command-line input.
    UsageError,
    /// The target process or its metadata could not be found.
    ProcessNotFound,
    /// The target's metadata could not be read; carries the `errno` value.
    IoFailure(i32),
    /// The tracing attach was denied, or the thread was found stopped for an
    /// unrelated reason; carries the `errno` value, or zero for the
    /// unexpected-stop case.
    AttachFailure(i32),
    /// The wait for the attach-induced stop failed, other than by the handled
    /// no-child race; carries the `errno` value.
    WaitFailure(i32),
    /// An explicitly requested detach was denied; carries the `errno` value.
    DetachFailure(i32),
    /// An unwind resource — the shared address space or the per-thread
    /// unwind argument — could not be created.
    UnwindSetupFailure,
    /// The cursor could not be initialized; carries the negative status.
    UnwindInitFailure(i32),
    /// Advancing the cursor one frame failed; carries the negative status.
    UnwindStepFailure(i32),
    /// A register could not be read from a frame; carries the negative status.
    RegisterReadFailure(i32),
    /// The target's executable image was unreadable or unparsable.
    SymbolTableLoadFailure,
}

} // verus!
