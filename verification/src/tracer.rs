use vstd::prelude::*;

use crate::errors::TraceError;
use crate::wait_status::{is_stopped, spec_is_stopped, spec_stop_signal, stop_signal, ECHILD,
    SIGSTOP};

verus! {

/// What one wait for a specific thread reported: a status word, or the
/// `errno` value of a failed wait.
pub enum WaitOutcome {
    Status(u32),
    Failed(i32),
}

/// What one wildcard wait over clone-created threads reported: a stopped
/// thread with its status word, or the `errno` value of a failed wait.
pub enum WaitAnyOutcome {
    Observed(i32, u32),
    Failed(i32),
}

/// The protocol's view of the operating system's tracing facility. The model
/// counts, per thread, the acknowledged attach requests and the issued
/// resume and detach requests, and tracks whether the caller currently holds
/// attach control; nothing is promised about the status words the waits
/// report, since those are the target's behaviour.
pub trait Tracer: Sized {
    /// Whether the caller currently holds attach control over `thread`.
    open spec fn tracing(&self, thread: i32) -> bool {
        false
    }

    /// How many attach requests for `thread` were acknowledged so far.
    open spec fn attach_count(&self, thread: i32) -> nat {
        0
    }

    /// How many resume requests for `thread` were issued so far.
    open spec fn resume_count(&self, thread: i32) -> nat {
        0
    }

    /// How many detach requests for `thread` were issued so far.
    open spec fn detach_count(&self, thread: i32) -> nat {
        0
    }

    /// Requests attach control over `thread`; an error carries the `errno`
    /// value of the denial.
    fn request_attach(&mut self, thread: i32) -> (r: Result<(), i32>)
        requires
            !old(self).tracing(thread),
        ensures
            forall|t: i32|
                #![trigger final(self).tracing(t)]
                t != thread ==> final(self).tracing(t) == old(self).tracing(t),
            forall|t: i32|
                #![trigger final(self).attach_count(t)]
                t != thread ==> final(self).attach_count(t) == old(self).attach_count(t),
            forall|t: i32|
                #![trigger final(self).resume_count(t)]
                final(self).resume_count(t) == old(self).resume_count(t),
            forall|t: i32|
                #![trigger final(self).detach_count(t)]
                final(self).detach_count(t) == old(self).detach_count(t),
            r is Ok ==> final(self).tracing(thread) && final(self).attach_count(thread) == old(self).attach_count(thread) + 1,
            r is Err ==> !final(self).tracing(thread) && final(self).attach_count(thread) == old(self).attach_count(thread),
    ;

    /// Waits for `thread` to report a stop.
    fn wait_for(&mut self, thread: i32) -> (r: WaitOutcome)
        requires
            old(self).tracing(thread),
        ensures
            forall|t: i32|
                #![trigger final(self).tracing(t)]
                final(self).tracing(t) == old(self).tracing(t),
            forall|t: i32|
                #![trigger final(self).attach_count(t)]
                final(self).attach_count(t) == old(self).attach_count(t),
            forall|t: i32|
                #![trigger final(self).resume_count(t)]
                final(self).resume_count(t) == old(self).resume_count(t),
            forall|t: i32|
                #![trigger final(self).detach_count(t)]
                final(self).detach_count(t) == old(self).detach_count(t),
    ;

    /// Waits for any clone-created thread of the target to report a stop.
    fn wait_any_clone(&mut self) -> (r: WaitAnyOutcome)
        ensures
            forall|t: i32|
                #![trigger final(self).tracing(t)]
                final(self).tracing(t) == old(self).tracing(t),
            forall|t: i32|
                #![trigger final(self).attach_count(t)]
                final(self).attach_count(t) == old(self).attach_count(t),
            forall|t: i32|
                #![trigger final(self).resume_count(t)]
                final(self).resume_count(t) == old(self).resume_count(t),
            forall|t: i32|
                #![trigger final(self).detach_count(t)]
                final(self).detach_count(t) == old(self).detach_count(t),
    ;

    /// Issues a resume (continue) request for a thread that was found
    /// stopped for an unrelated reason, restoring its original state; attach
    /// control is kept. The request is counted whether or not the facility
    /// reports success.
    fn resume(&mut self, thread: i32) -> (r: Result<(), i32>)
        requires
            old(self).tracing(thread),
        ensures
            forall|t: i32|
                #![trigger final(self).tracing(t)]
                final(self).tracing(t) == old(self).tracing(t),
            forall|t: i32|
                #![trigger final(self).attach_count(t)]
                final(self).attach_count(t) == old(self).attach_count(t),
            forall|t: i32|
                #![trigger final(self).resume_count(t)]
                t != thread ==> final(self).resume_count(t) == old(self).resume_count(t),
            forall|t: i32|
                #![trigger final(self).detach_count(t)]
                final(self).detach_count(t) == old(self).detach_count(t),
            final(self).resume_count(thread) == old(self).resume_count(thread) + 1,
    ;

    /// Issues a detach (resume-and-release-control) request for `thread`.
    /// The request is counted and control is released whether or not the
    /// facility reports success.
    fn detach(&mut self, thread: i32) -> (r: Result<(), i32>)
        requires
            old(self).tracing(thread),
        ensures
            forall|t: i32|
                #![trigger final(self).tracing(t)]
                t != thread ==> final(self).tracing(t) == old(self).tracing(t),
            forall|t: i32|
                #![trigger final(self).attach_count(t)]
                final(self).attach_count(t) == old(self).attach_count(t),
            forall|t: i32|
                #![trigger final(self).resume_count(t)]
                final(self).resume_count(t) == old(self).resume_count(t),
            forall|t: i32|
                #![trigger final(self).detach_count(t)]
                t != thread ==> final(self).detach_count(t) == old(self).detach_count(t),
            !final(self).tracing(thread),
            final(self).detach_count(thread) == old(self).detach_count(thread) + 1,
    ;
}

/// Proof that a thread is currently paused and traceable: only a successful
/// attach creates one, and detaching consumes it.
#[derive(Debug)]
pub struct Attachment {
    thread: i32,
}

impl Attachment {
    /// The paused thread's identifier.
    pub closed spec fn id(&self) -> i32 {
        self.thread
    }

    /// The paused thread's identifier.
    pub fn thread(&self) -> (r: i32)
        ensures
            r == self.id(),
    {
        self.thread
    }
}

/// Retries the wait through the wildcard that also observes clone-created
/// threads, until `thread` is seen stopped or a wait fails; the failing
/// wait's `errno` value comes back as the error.
#[verifier::loop_isolation(false)]
fn wait_wildcard<T: Tracer>(tracer: &mut T, thread: i32) -> (r: Result<u32, i32>)
    requires
        old(tracer).tracing(thread),
    ensures
        forall|t: i32|
            #![trigger final(tracer).tracing(t)]
            final(tracer).tracing(t) == old(tracer).tracing(t),
        forall|t: i32|
            #![trigger final(tracer).attach_count(t)]
            final(tracer).attach_count(t) == old(tracer).attach_count(t),
        forall|t: i32|
            #![trigger final(tracer).resume_count(t)]
            final(tracer).resume_count(t) == old(tracer).resume_count(t),
        forall|t: i32|
            #![trigger final(tracer).detach_count(t)]
            final(tracer).detach_count(t) == old(tracer).detach_count(t),
{
    let mut budget: usize = usize::MAX;
    while budget > 0
        invariant
            tracer.tracing(thread),
            forall|t: i32|
                #![trigger tracer.tracing(t)]
                tracer.tracing(t) == old(tracer).tracing(t),
            forall|t: i32|
                #![trigger tracer.attach_count(t)]
                tracer.attach_count(t) == old(tracer).attach_count(t),
            forall|t: i32|
                #![trigger tracer.resume_count(t)]
                tracer.resume_count(t) == old(tracer).resume_count(t),
            forall|t: i32|
                #![trigger tracer.detach_count(t)]
                tracer.detach_count(t) == old(tracer).detach_count(t),
        decreases budget,
    {
        match tracer.wait_any_clone() {
            WaitAnyOutcome::Observed(pid, status) => {
                if pid == thread {
                    return Ok(status);
                }
            },
            WaitAnyOutcome::Failed(e) => {
                return Err(e);
            },
        }
        budget = budget - 1;
    }
    // Each retry consumes one observed stop of some other thread, so this
    // bound cannot be exhausted in practice; a thread never seen stopped
    // surfaces as the no-child wait failure.
    Err(ECHILD)
}

/// Decides an attach from the observed status word, and it alone: the attach
/// holds exactly when the thread stopped by the suspend signal. A thread
/// found stopped by any other signal is resumed — exactly once — to restore
/// its original state; every rejected status ends with exactly one detach
/// before the attach failure returns, so no thread is left in an unexpected
/// stopped state.
pub fn finish_attach<T: Tracer>(tracer: &mut T, thread: i32, status: u32) -> (r: Result<
    Attachment,
    TraceError,
>)
    requires
        old(tracer).tracing(thread),
    ensures
        forall|t: i32|
            #![trigger final(tracer).tracing(t)]
            t != thread ==> final(tracer).tracing(t) == old(tracer).tracing(t),
        forall|t: i32|
            #![trigger final(tracer).attach_count(t)]
            final(tracer).attach_count(t) == old(tracer).attach_count(t),
        forall|t: i32|
            #![trigger final(tracer).resume_count(t)]
            t != thread ==> final(tracer).resume_count(t) == old(tracer).resume_count(t),
        forall|t: i32|
            #![trigger final(tracer).detach_count(t)]
            t != thread ==> final(tracer).detach_count(t) == old(tracer).detach_count(t),
        r is Ok <==> spec_is_stopped(status) && spec_stop_signal(status) == SIGSTOP,
        r is Ok ==> r->Ok_0.id() == thread && final(tracer).tracing(thread) && final(tracer).detach_count(thread) == old(tracer).detach_count(thread),
        r is Err ==> r->Err_0 is AttachFailure && !final(tracer).tracing(thread) && final(tracer).detach_count(thread) == old(tracer).detach_count(thread) + 1,
        final(tracer).resume_count(thread) == old(tracer).resume_count(thread) + (
        if spec_is_stopped(status) && spec_stop_signal(status) != SIGSTOP {
            1nat
        } else {
            0nat
        }),
{
    if is_stopped(status) && stop_signal(status) == SIGSTOP {
        Ok(Attachment { thread })
    } else {
        if is_stopped(status) {
            match tracer.resume(thread) {
                Ok(()) => (),
                Err(e) => {
                    let _ = tracer.detach(thread);
                    return Err(TraceError::AttachFailure(e));
                },
            }
        }
        let _ = tracer.detach(thread);
        Err(TraceError::AttachFailure(0))
    }
}

/// The thread-attach protocol: request attach control, wait for the
/// attach-induced stop (retrying through the wildcard wait when the thread
/// is not yet visible as a child), and decide the attach from the observed
/// status word through `finish_attach`. On every failure after an
/// acknowledged attach request, exactly one detach is issued before the
/// error returns.
pub fn attach<T: Tracer>(tracer: &mut T, thread: i32) -> (r: Result<Attachment, TraceError>)
    requires
        !old(tracer).tracing(thread),
    ensures
        forall|t: i32|
            #![trigger final(tracer).tracing(t)]
            t != thread ==> final(tracer).tracing(t) == old(tracer).tracing(t),
        forall|t: i32|
            #![trigger final(tracer).attach_count(t)]
            t != thread ==> final(tracer).attach_count(t) == old(tracer).attach_count(t),
        forall|t: i32|
            #![trigger final(tracer).resume_count(t)]
            t != thread ==> final(tracer).resume_count(t) == old(tracer).resume_count(t),
        forall|t: i32|
            #![trigger final(tracer).detach_count(t)]
            t != thread ==> final(tracer).detach_count(t) == old(tracer).detach_count(t),
        final(tracer).resume_count(thread) - old(tracer).resume_count(thread) <= 1,
        r is Ok ==> r->Ok_0.id() == thread
            && final(tracer).tracing(thread)
            && final(tracer).attach_count(thread) == old(tracer).attach_count(thread) + 1
            && final(tracer).detach_count(thread) == old(tracer).detach_count(thread),
        r is Err ==> !final(tracer).tracing(thread)
            && (r->Err_0 is AttachFailure || r->Err_0 is WaitFailure)
            && final(tracer).attach_count(thread) - old(tracer).attach_count(thread) <= 1
            && final(tracer).detach_count(thread) - old(tracer).detach_count(thread)
                == final(tracer).attach_count(thread) - old(tracer).attach_count(thread),
{
    match tracer.request_attach(thread) {
        Ok(()) => (),
        Err(e) => {
            return Err(TraceError::AttachFailure(e));
        },
    }
    let status: u32;
    match tracer.wait_for(thread) {
        WaitOutcome::Status(s) => {
            status = s;
        },
        WaitOutcome::Failed(e) => {
            if e == ECHILD {
                match wait_wildcard(tracer, thread) {
                    Ok(s) => {
                        status = s;
                    },
                    Err(e2) => {
                        let _ = tracer.detach(thread);
                        return Err(TraceError::WaitFailure(e2));
                    },
                }
            } else {
                let _ = tracer.detach(thread);
                return Err(TraceError::WaitFailure(e));
            }
        },
    }
    finish_attach(tracer, thread, status)
}

/// Explicitly releases a paused thread, consuming the attachment; a denied
/// detach is escalated, but the request was still issued and control
/// released.
pub fn detach<T: Tracer>(tracer: &mut T, attachment: Attachment) -> (r: Result<(), TraceError>)
    requires
        old(tracer).tracing(attachment.id()),
    ensures
        forall|t: i32|
            #![trigger final(tracer).tracing(t)]
            t != attachment.id() ==> final(tracer).tracing(t) == old(tracer).tracing(t),
        forall|t: i32|
            #![trigger final(tracer).attach_count(t)]
            final(tracer).attach_count(t) == old(tracer).attach_count(t),
        forall|t: i32|
            #![trigger final(tracer).resume_count(t)]
            final(tracer).resume_count(t) == old(tracer).resume_count(t),
        forall|t: i32|
            #![trigger final(tracer).detach_count(t)]
            t != attachment.id() ==> final(tracer).detach_count(t) == old(tracer).detach_count(t),
        !final(tracer).tracing(attachment.id()),
        final(tracer).detach_count(attachment.id()) == old(tracer).detach_count(attachment.id())
            + 1,
        r is Err ==> r->Err_0 is DetachFailure,
{
    match tracer.detach(attachment.thread) {
        Ok(()) => Ok(()),
        Err(e) => Err(TraceError::DetachFailure(e)),
    }
}

} // verus!
