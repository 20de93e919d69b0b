use vstd::prelude::*;

use crate::errors::TraceError;

verus! {

/// A stack walk never yields more frames than this, whatever the underlying
/// frame chain looks like: the cap defends against corrupted or cyclic
/// unwind data.
pub const FRAME_LIMIT: usize = 1024;

/// The opaque word behind a per-thread unwind-argument handle.
pub struct UnwArgT(pub usize);

/// The opaque word behind an address-space handle.
pub struct UnwAddrSpaceT(pub usize);

/// The unwind engine's cursor buffer, sized for the x86-64 cursor layout.
pub struct UnwCursorT(pub [usize; 127]);

impl UnwCursorT {
    /// A zeroed cursor buffer, ready to be initialized against a thread.
    pub fn new() -> (r: UnwCursorT)
        ensures
            forall|i: int| 0 <= i < 127 ==> r.0@[i] == 0,
    {
        UnwCursorT([0; 127])
    }
}

/// The two registers a walk reads from every frame.
#[derive(Clone, Copy, PartialEq, Eq, Structural, Debug)]
pub enum UnwRegnum {
    UnwRegIp,
    UnwRegSp,
}

/// The architecture-specific register number of `reg` in the unwind engine's
/// numbering.
pub open spec fn spec_register_number(reg: UnwRegnum, arch: crate::symbols::Arch) -> i32 {
    match (arch, reg) {
        (crate::symbols::Arch::X86_64, UnwRegnum::UnwRegIp) => 16,
        (crate::symbols::Arch::X86_64, UnwRegnum::UnwRegSp) => 7,
        (crate::symbols::Arch::Arm, UnwRegnum::UnwRegIp) => 14,
        (crate::symbols::Arch::Arm, UnwRegnum::UnwRegSp) => 13,
    }
}

/// The register number of `reg` on `arch`.
pub fn register_number(reg: UnwRegnum, arch: crate::symbols::Arch) -> (r: i32)
    ensures
        r == spec_register_number(reg, arch),
{
    match (arch, reg) {
        (crate::symbols::Arch::X86_64, UnwRegnum::UnwRegIp) => 16,
        (crate::symbols::Arch::X86_64, UnwRegnum::UnwRegSp) => 7,
        (crate::symbols::Arch::Arm, UnwRegnum::UnwRegIp) => 14,
        (crate::symbols::Arch::Arm, UnwRegnum::UnwRegSp) => 13,
    }
}

/// The mathematical content of one call-stack level.
pub struct FrameView {
    pub ip: u64,
    pub sp: u64,
    pub raw_name: Option<Seq<char>>,
}

/// One call-stack level as the walker reports it: the instruction pointer,
/// the stack pointer, and the raw procedure name when the engine could
/// resolve one.
#[derive(Debug)]
pub struct RawFrame {
    pub ip: u64,
    pub sp: u64,
    pub raw_name: Option<String>,
}

impl View for RawFrame {
    type V = FrameView;

    open spec fn view(&self) -> FrameView {
        FrameView {
            ip: self.ip,
            sp: self.sp,
            raw_name: match self.raw_name {
                Some(s) => Some(s@),
                None => None,
            },
        }
    }
}

/// The frame sequence a vector of frames stands for.
pub open spec fn frame_views(frames: Seq<RawFrame>) -> Seq<FrameView> {
    frames.map_values(|f: RawFrame| f@)
}

/// A chain cut off at the walk's frame limit.
pub open spec fn capped(chain: Seq<FrameView>) -> Seq<FrameView> {
    if chain.len() <= FRAME_LIMIT {
        chain
    } else {
        chain.take(FRAME_LIMIT as int)
    }
}

/// The walker's view of the call-frame-information engine: a per-thread
/// unwind argument, a cursor initialized against it, register and name reads
/// at the current frame, and a step to the next outer frame. The engine's
/// frame chains are modelled per thread; `valid` marks a thread whose chain
/// the engine reports faithfully, and nothing is promised of any other.
pub trait Unwinder: Sized {
    /// Whether a per-thread unwind argument is currently live.
    open spec fn arg_live(&self) -> bool {
        false
    }

    /// Whether the cursor was initialized against the live argument.
    open spec fn cursor_ready(&self) -> bool {
        false
    }

    /// The thread the live argument is bound to.
    open spec fn bound_thread(&self) -> i32 {
        0
    }

    /// Whether the engine holds a well-formed, finite frame chain for
    /// `thread`: an engine that gives no such account leaves this false.
    open spec fn valid(&self, thread: i32) -> bool {
        false
    }

    /// The frame chain the engine reports for `thread`, innermost first.
    open spec fn chain(&self, thread: i32) -> Seq<FrameView> {
        Seq::empty()
    }

    /// The frames at and beyond the cursor's position, innermost first.
    open spec fn remaining(&self) -> Seq<FrameView> {
        Seq::empty()
    }

    /// Creates the per-thread unwind argument; false reports a failed
    /// (null-handle) creation.
    fn create_arg(&mut self, thread: i32) -> (r: bool)
        requires
            !old(self).arg_live(),
        ensures
            forall|t: i32| #![trigger final(self).valid(t)] final(self).valid(t) == old(self).valid(t),
            forall|t: i32| #![trigger final(self).chain(t)] final(self).chain(t) == old(self).chain(t),
            final(self).arg_live() == r,
            r ==> final(self).bound_thread() == thread,
            old(self).valid(thread) ==> r,
    ;

    /// Initializes the cursor against the live argument; a negative result
    /// reports failure.
    fn init_cursor(&mut self) -> (r: i32)
        requires
            old(self).arg_live(),
        ensures
            forall|t: i32| #![trigger final(self).valid(t)] final(self).valid(t) == old(self).valid(t),
            forall|t: i32| #![trigger final(self).chain(t)] final(self).chain(t) == old(self).chain(t),
            final(self).arg_live(),
            final(self).bound_thread() == old(self).bound_thread(),
            r >= 0 ==> final(self).cursor_ready(),
            old(self).valid(old(self).bound_thread()) ==> r >= 0 && final(self).remaining()
                == old(self).chain(old(self).bound_thread()),
    ;

    /// Reads one register at the current frame; a negative code reports
    /// failure.
    fn read_register(&self, reg: UnwRegnum) -> (r: Result<u64, i32>)
        requires
            self.arg_live(),
            self.cursor_ready(),
        ensures
            r is Err ==> r->Err_0 < 0,
            self.valid(self.bound_thread()) && self.remaining().len() > 0 ==> r is Ok && r->Ok_0
                == (if reg is UnwRegIp {
                self.remaining()[0].ip
            } else {
                self.remaining()[0].sp
            }),
    ;

    /// Best-effort fetch of the raw procedure name at the current frame;
    /// failure to resolve one is not an error.
    fn frame_name(&self) -> (r: Option<String>)
        requires
            self.arg_live(),
            self.cursor_ready(),
        ensures
            self.valid(self.bound_thread()) && self.remaining().len() > 0 ==> ((r is Some
                <==> self.remaining()[0].raw_name is Some) && (r is Some ==> r->0@
                == self.remaining()[0].raw_name->0)),
    ;

    /// Advances the cursor one frame: zero means the outermost frame was
    /// reached, a negative value is an error, a positive value means more
    /// frames remain.
    fn step(&mut self) -> (r: i32)
        requires
            old(self).arg_live(),
            old(self).cursor_ready(),
        ensures
            forall|t: i32| #![trigger final(self).valid(t)] final(self).valid(t) == old(self).valid(t),
            forall|t: i32| #![trigger final(self).chain(t)] final(self).chain(t) == old(self).chain(t),
            final(self).arg_live(),
            final(self).cursor_ready(),
            final(self).bound_thread() == old(self).bound_thread(),
            old(self).valid(old(self).bound_thread()) ==> ((old(self).remaining().len() > 1 && r
                > 0 && final(self).remaining() == old(self).remaining().skip(1)) || (old(
                self,
            ).remaining().len() <= 1 && r == 0)),
    ;

    /// Releases the per-thread unwind argument.
    fn destroy_arg(&mut self)
        requires
            old(self).arg_live(),
        ensures
            forall|t: i32| #![trigger final(self).valid(t)] final(self).valid(t) == old(self).valid(t),
            forall|t: i32| #![trigger final(self).chain(t)] final(self).chain(t) == old(self).chain(t),
            !final(self).arg_live(),
    ;
}

/// The engine's per-thread model is untouched: every thread keeps its
/// validity and its chain.
pub open spec fn model_eq<U: Unwinder>(a: U, b: U) -> bool {
    &&& forall|t: i32| #![trigger a.valid(t)] #![trigger b.valid(t)] a.valid(t) == b.valid(t)
    &&& forall|t: i32| #![trigger a.chain(t)] #![trigger b.chain(t)] a.chain(t) == b.chain(t)
}

/// Walks the call stack of one stopped thread, innermost frame first. The
/// per-thread unwind argument is created on entry and released on every exit
/// path. On an engine that reports `thread`'s chain faithfully the walk
/// returns exactly that chain, cut off at the frame limit; on any engine the
/// walk never returns more than the limit.
#[verifier::loop_isolation(false)]
pub fn walk<U: Unwinder>(u: &mut U, thread: i32) -> (r: Result<Vec<RawFrame>, TraceError>)
    requires
        !old(u).arg_live(),
    ensures
        model_eq(*old(u), *final(u)),
        !final(u).arg_live(),
        r is Ok ==> r->Ok_0@.len() <= FRAME_LIMIT,
        old(u).valid(thread) && old(u).chain(thread).len() >= 1 ==> r is Ok && frame_views(
            r->Ok_0@,
        ) == capped(old(u).chain(thread)),
{
    let ghost gvalid = old(u).valid(thread) && old(u).chain(thread).len() >= 1;
    let ghost chain = old(u).chain(thread);
    if !u.create_arg(thread) {
        return Err(TraceError::UnwindSetupFailure);
    }
    let rc = u.init_cursor();
    if rc < 0 {
        u.destroy_arg();
        return Err(TraceError::UnwindInitFailure(rc));
    }
    let mut frames: Vec<RawFrame> = Vec::new();
    let mut count: usize = 0;
    while count < FRAME_LIMIT
        invariant
            u.arg_live(),
            u.cursor_ready(),
            u.bound_thread() == thread,
            model_eq(*old(u), *u),
            count <= FRAME_LIMIT,
            frames@.len() == count,
            gvalid ==> count < chain.len() && frame_views(frames@) == chain.take(count as int)
                && u.remaining() == chain.skip(count as int),
        decreases FRAME_LIMIT - count,
    {
        proof {
            if gvalid {
                assert(u.remaining().len() == chain.len() - count);
            }
        }
        let ip = match u.read_register(UnwRegnum::UnwRegIp) {
            Ok(v) => v,
            Err(c) => {
                u.destroy_arg();
                return Err(TraceError::RegisterReadFailure(c));
            },
        };
        let sp = match u.read_register(UnwRegnum::UnwRegSp) {
            Ok(v) => v,
            Err(c) => {
                u.destroy_arg();
                return Err(TraceError::RegisterReadFailure(c));
            },
        };
        let raw_name = u.frame_name();
        frames.push(RawFrame { ip, sp, raw_name });
        count = count + 1;
        proof {
            if gvalid {
                assert(frames@.last()@ == chain[count - 1]);
                assert(frame_views(frames@) =~= chain.take(count as int));
            }
        }
        let s = u.step();
        if s == 0 {
            u.destroy_arg();
            proof {
                if gvalid {
                    assert(chain.len() == count);
                    assert(frame_views(frames@) =~= capped(chain));
                }
            }
            return Ok(frames);
        } else if s < 0 {
            u.destroy_arg();
            return Err(TraceError::UnwindStepFailure(s));
        }
        proof {
            if gvalid {
                assert(chain.skip(count - 1).skip(1) =~= chain.skip(count as int));
            }
        }
    }
    u.destroy_arg();
    proof {
        if gvalid {
            assert(frame_views(frames@) =~= capped(chain));
        }
    }
    Ok(frames)
}

} // verus!
