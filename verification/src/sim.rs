use vstd::prelude::*;

use crate::tracer::{Tracer, WaitAnyOutcome, WaitOutcome};
use crate::unwind::{frame_views, FrameView, RawFrame, Unwinder, UnwRegnum};

verus! {

/// No identifier occurs twice.
pub open spec fn distinct_seq(s: Seq<i32>) -> bool {
    forall|i: int, j: int| 0 <= i < j < s.len() ==> s[i] != s[j]
}

/// How many times `t` occurs in `s`.
pub open spec fn count_of(s: Seq<i32>, t: i32) -> nat
    decreases s.len(),
{
    if s.len() == 0 {
        0
    } else {
        count_of(s.drop_last(), t) + if s.last() == t {
            1nat
        } else {
            0nat
        }
    }
}

proof fn lemma_count_push(s: Seq<i32>, x: i32, t: i32)
    ensures
        count_of(s.push(x), t) == count_of(s, t) + if x == t {
            1nat
        } else {
            0nat
        },
{
    assert(s.push(x).drop_last() =~= s);
    assert(s.push(x).last() == x);
}

proof fn lemma_contains_push(s: Seq<i32>, x: i32, u: i32)
    ensures
        s.push(x).contains(u) <==> (s.contains(u) || u == x),
{
    if s.contains(u) {
        let i = choose|i: int| 0 <= i < s.len() && s[i] == u;
        assert(s.push(x)[i] == u);
    }
    if u == x {
        assert(s.push(x)[s.len() as int] == u);
    }
    if s.push(x).contains(u) && u != x {
        let i = choose|i: int| 0 <= i < s.push(x).len() && s.push(x)[i] == u;
        assert(s[i] == u);
    }
}

/// A scripted call-frame engine: each thread's chain is given up front, and
/// the cursor replays it. It exercises the walker exactly as the real engine
/// would, including a failing argument creation for an unknown thread.
pub struct SyntheticUnwinder {
    threads: Vec<i32>,
    stacks: Vec<Vec<RawFrame>>,
    arg: bool,
    bound: i32,
    cur: usize,
    pos: usize,
    ready: bool,
}

impl SyntheticUnwinder {
    spec fn sidx(&self, t: i32) -> int {
        choose|i: int| 0 <= i < self.threads@.len() && self.threads@[i] == t
    }

    /// A scripted engine over parallel vectors of thread identifiers and
    /// their frame chains. With distinct identifiers and matching lengths,
    /// every listed thread is reported faithfully, with the given chain.
    pub fn new(threads: Vec<i32>, stacks: Vec<Vec<RawFrame>>) -> (r: SyntheticUnwinder)
        ensures
            !r.arg_live(),
            threads@.len() == stacks@.len() && distinct_seq(threads@) ==> forall|k: int|
                0 <= k < threads@.len() ==> r.valid(#[trigger] threads@[k]) && r.chain(threads@[k])
                    == frame_views(stacks@[k]@),
    {
        let r = SyntheticUnwinder {
            threads,
            stacks,
            arg: false,
            bound: 0,
            cur: 0,
            pos: 0,
            ready: false,
        };
        proof {
            if r.threads@.len() == r.stacks@.len() && distinct_seq(r.threads@) {
                assert forall|k: int| 0 <= k < r.threads@.len() implies r.valid(
                    #[trigger] r.threads@[k],
                ) && r.chain(r.threads@[k]) == frame_views(r.stacks@[k]@) by {
                    assert(r.threads@.contains(r.threads@[k]));
                    let i = r.sidx(r.threads@[k]);
                    assert(r.threads@[i] == r.threads@[k]);
                    assert(i == k);
                }
            }
        }
        r
    }
}

impl Unwinder for SyntheticUnwinder {
    closed spec fn arg_live(&self) -> bool {
        self.arg && self.cur < self.threads@.len() && self.threads@[self.cur as int] == self.bound
    }

    closed spec fn cursor_ready(&self) -> bool {
        self.ready
    }

    closed spec fn bound_thread(&self) -> i32 {
        self.bound
    }

    closed spec fn valid(&self, thread: i32) -> bool {
        self.threads@.len() == self.stacks@.len() && distinct_seq(self.threads@)
            && self.threads@.contains(thread)
    }

    closed spec fn chain(&self, thread: i32) -> Seq<FrameView> {
        if self.threads@.contains(thread) && self.sidx(thread) < self.stacks@.len() {
            frame_views(self.stacks@[self.sidx(thread)]@)
        } else {
            Seq::empty()
        }
    }

    closed spec fn remaining(&self) -> Seq<FrameView> {
        if self.ready && self.cur < self.stacks@.len() && self.pos <= self.stacks@[
            self.cur as int
        ]@.len() {
            frame_views(self.stacks@[self.cur as int]@).skip(self.pos as int)
        } else {
            Seq::empty()
        }
    }

    fn create_arg(&mut self, thread: i32) -> (r: bool) {
        let mut i: usize = 0;
        while i < self.threads.len()
            invariant
                i <= self.threads@.len(),
                *self == *old(self),
                forall|j: int| 0 <= j < i ==> self.threads@[j] != thread,
            decreases self.threads@.len() - i,
        {
            if self.threads[i] == thread {
                self.arg = true;
                self.bound = thread;
                self.cur = i;
                proof {
                    assert(self.threads@.contains(thread));
                }
                return true;
            }
            i = i + 1;
        }
        proof {
            if old(self).valid(thread) {
                let j = choose|j: int|
                    0 <= j < self.threads@.len() && self.threads@[j] == thread;
                assert(false);
            }
        }
        false
    }

    fn init_cursor(&mut self) -> (r: i32) {
        self.pos = 0;
        self.ready = true;
        proof {
            if old(self).valid(old(self).bound_thread()) {
                let b = old(self).bound_thread();
                assert(self.threads@[self.cur as int] == b);
                assert(self.threads@.contains(b));
                let i = self.sidx(b);
                assert(self.threads@[i] == b);
                assert(i == self.cur as int);
                assert(self.remaining() =~= self.chain(b));
            }
        }
        0
    }

    fn read_register(&self, reg: UnwRegnum) -> (r: Result<u64, i32>) {
        if self.cur < self.stacks.len() && self.pos < self.stacks[self.cur].len() {
            let frame = &self.stacks[self.cur][self.pos];
            proof {
                if self.valid(self.bound_thread()) && self.remaining().len() > 0 {
                    assert(self.remaining()[0] == frame@);
                }
            }
            match reg {
                UnwRegnum::UnwRegIp => Ok(frame.ip),
                UnwRegnum::UnwRegSp => Ok(frame.sp),
            }
        } else {
            proof {
                assert(self.remaining().len() == 0);
            }
            Err(-1)
        }
    }

    fn frame_name(&self) -> (r: Option<String>) {
        if self.cur < self.stacks.len() && self.pos < self.stacks[self.cur].len() {
            proof {
                if self.valid(self.bound_thread()) && self.remaining().len() > 0 {
                    assert(self.remaining()[0] == self.stacks@[self.cur as int]@[
                        self.pos as int
                    ]@);
                }
            }
            match &self.stacks[self.cur][self.pos].raw_name {
                Some(s) => Some(s.clone()),
                None => None,
            }
        } else {
            None
        }
    }

    fn step(&mut self) -> (r: i32) {
        if self.cur < self.stacks.len() {
            let len = self.stacks[self.cur].len();
            if len > 0 && self.pos < len - 1 {
                proof {
                    if old(self).valid(old(self).bound_thread()) {
                        assert(old(self).remaining().len() > 1);
                    }
                }
                self.pos = self.pos + 1;
                proof {
                    if old(self).valid(old(self).bound_thread()) {
                        assert(self.remaining() =~= old(self).remaining().skip(1));
                    }
                }
                1
            } else {
                proof {
                    if old(self).valid(old(self).bound_thread()) {
                        assert(old(self).remaining().len() <= 1);
                    }
                }
                0
            }
        } else {
            0
        }
    }

    fn destroy_arg(&mut self) {
        self.arg = false;
    }
}

/// A scripted tracing facility: attach requests are acknowledged or denied
/// by script, every wait reports the scripted status word, and the wildcard
/// wait reports the scripted thread. Acknowledged attaches and issued
/// detaches are logged, so a harness can check their balance.
pub struct SyntheticTracer {
    status: u32,
    deny_attach: bool,
    wait_errno: i32,
    any_pid: i32,
    traced: Vec<i32>,
    attach_log: Vec<i32>,
    resume_log: Vec<i32>,
    detach_log: Vec<i32>,
}

impl SyntheticTracer {
    /// A facility whose waits report `status`; `deny_attach` refuses every
    /// attach request, and a nonzero `wait_errno` makes the direct wait fail
    /// with that `errno` value — the no-child value sends the protocol
    /// through the wildcard wait, which reports `any_pid` stopped.
    pub fn new(status: u32, deny_attach: bool, wait_errno: i32, any_pid: i32) -> (r:
        SyntheticTracer)
        ensures
            forall|t: i32| #![trigger r.tracing(t)] !r.tracing(t),
            forall|t: i32| #![trigger r.attach_count(t)] r.attach_count(t) == 0,
            forall|t: i32| #![trigger r.resume_count(t)] r.resume_count(t) == 0,
            forall|t: i32| #![trigger r.detach_count(t)] r.detach_count(t) == 0,
    {
        SyntheticTracer {
            status,
            deny_attach,
            wait_errno,
            any_pid,
            traced: Vec::new(),
            attach_log: Vec::new(),
            resume_log: Vec::new(),
            detach_log: Vec::new(),
        }
    }

    /// How many attach requests for `thread` were acknowledged.
    pub fn attach_calls(&self, thread: i32) -> (r: usize)
        ensures
            r == self.attach_count(thread),
    {
        count_in(&self.attach_log, thread)
    }

    /// How many resume requests for `thread` were issued.
    pub fn resume_calls(&self, thread: i32) -> (r: usize)
        ensures
            r == self.resume_count(thread),
    {
        count_in(&self.resume_log, thread)
    }

    /// How many detach requests for `thread` were issued.
    pub fn detach_calls(&self, thread: i32) -> (r: usize)
        ensures
            r == self.detach_count(thread),
    {
        count_in(&self.detach_log, thread)
    }
}

/// Counts the occurrences of `t` in `v`.
fn count_in(v: &Vec<i32>, t: i32) -> (r: usize)
    ensures
        r == count_of(v@, t),
{
    let mut n: usize = 0;
    let mut i: usize = 0;
    while i < v.len()
        invariant
            i <= v@.len(),
            n == count_of(v@.take(i as int), t),
            n <= i,
        decreases v@.len() - i,
    {
        proof {
            assert(v@.take(i + 1).drop_last() =~= v@.take(i as int));
            assert(v@.take(i + 1).last() == v@[i as int]);
        }
        if v[i] == t {
            n = n + 1;
        }
        i = i + 1;
    }
    proof {
        assert(v@.take(v@.len() as int) =~= v@);
    }
    n
}

impl Tracer for SyntheticTracer {
    closed spec fn tracing(&self, thread: i32) -> bool {
        self.traced@.contains(thread)
    }

    closed spec fn attach_count(&self, thread: i32) -> nat {
        count_of(self.attach_log@, thread)
    }

    closed spec fn resume_count(&self, thread: i32) -> nat {
        count_of(self.resume_log@, thread)
    }

    closed spec fn detach_count(&self, thread: i32) -> nat {
        count_of(self.detach_log@, thread)
    }

    fn request_attach(&mut self, thread: i32) -> (r: Result<(), i32>) {
        if self.deny_attach {
            proof {
                assert forall|t: i32| #![trigger self.attach_count(t)]
                    self.attach_count(t) == old(self).attach_count(t) by {}
            }
            Err(1)
        } else {
            self.traced.push(thread);
            self.attach_log.push(thread);
            proof {
                assert forall|t: i32| #![trigger self.tracing(t)]
                    t != thread ==> self.tracing(t) == old(self).tracing(t) by {
                    lemma_contains_push(old(self).traced@, thread, t);
                }
                assert forall|t: i32| #![trigger self.attach_count(t)]
                    self.attach_count(t) == old(self).attach_count(t) + (if t == thread {
                        1nat
                    } else {
                        0nat
                    }) by {
                    lemma_count_push(old(self).attach_log@, thread, t);
                }
                lemma_contains_push(old(self).traced@, thread, thread);
            }
            Ok(())
        }
    }

    fn wait_for(&mut self, thread: i32) -> (r: WaitOutcome) {
        if self.wait_errno != 0 {
            WaitOutcome::Failed(self.wait_errno)
        } else {
            WaitOutcome::Status(self.status)
        }
    }

    fn wait_any_clone(&mut self) -> (r: WaitAnyOutcome) {
        WaitAnyOutcome::Observed(self.any_pid, self.status)
    }

    fn resume(&mut self, thread: i32) -> (r: Result<(), i32>) {
        self.resume_log.push(thread);
        proof {
            assert forall|t: i32| #![trigger self.resume_count(t)]
                self.resume_count(t) == old(self).resume_count(t) + (if t == thread {
                    1nat
                } else {
                    0nat
                }) by {
                lemma_count_push(old(self).resume_log@, thread, t);
            }
        }
        Ok(())
    }

    fn detach(&mut self, thread: i32) -> (r: Result<(), i32>) {
        let mut kept: Vec<i32> = Vec::new();
        let mut i: usize = 0;
        while i < self.traced.len()
            invariant
                i <= self.traced@.len(),
                *self == *old(self),
                !kept@.contains(thread),
                forall|u: i32|
                    u != thread ==> (kept@.contains(u) <==> old(self).traced@.take(
                        i as int,
                    ).contains(u)),
            decreases self.traced@.len() - i,
        {
            let x = self.traced[i];
            let ghost kept_before = kept@;
            if x != thread {
                kept.push(x);
            }
            proof {
                assert(old(self).traced@.take(i as int).push(old(self).traced@[i as int])
                    =~= old(self).traced@.take(i + 1));
                assert forall|u: i32|
                    u != thread implies (kept@.contains(u) <==> old(self).traced@.take(
                    i + 1,
                ).contains(u)) by {
                    lemma_contains_push(old(self).traced@.take(i as int), old(self).traced@[
                        i as int
                    ], u);
                    if x != thread {
                        lemma_contains_push(kept_before, x, u);
                    } else {
                        assert(kept@ == kept_before);
                    }
                }
                if x != thread {
                    lemma_contains_push(kept_before, x, thread);
                }
            }
            i = i + 1;
        }
        proof {
            assert(old(self).traced@.take(old(self).traced@.len() as int) =~= old(self).traced@);
        }
        self.traced = kept;
        self.detach_log.push(thread);
        proof {
            assert forall|t: i32| #![trigger self.detach_count(t)]
                self.detach_count(t) == old(self).detach_count(t) + (if t == thread {
                    1nat
                } else {
                    0nat
                }) by {
                lemma_count_push(old(self).detach_log@, thread, t);
            }
        }
        Ok(())
    }
}

} // verus!
