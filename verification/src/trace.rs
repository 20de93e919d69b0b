use vstd::prelude::*;

use crate::demangle::{demangle_name, demangled_of};
use crate::errors::TraceError;
use crate::symbols::{load_bias, normalize, resolve_spec, spec_load_bias, Arch, SymView, SymbolTable};
use crate::tracer::{attach, Tracer};
use crate::unwind::{capped, walk, FrameView, RawFrame, Unwinder, FRAME_LIMIT};

verus! {

/// A stack frame after symbolization: the raw instruction pointer and the
/// demangled display name, when one could be resolved.
#[derive(Debug)]
pub struct TraceElement {
    pub ip: u64,
    pub resolved_name: Option<String>,
}

/// The mathematical content of one symbolized frame.
pub struct ElementView {
    pub ip: u64,
    pub resolved_name: Option<Seq<char>>,
}

impl View for TraceElement {
    type V = ElementView;

    open spec fn view(&self) -> ElementView {
        ElementView {
            ip: self.ip,
            resolved_name: match self.resolved_name {
                Some(s) => Some(s@),
                None => None,
            },
        }
    }
}

/// The symbolization of one frame: prefer the raw procedure name the walker
/// reported; fall back to the symbol found for the normalized instruction
/// pointer; give nothing when neither resolves (an address below the load
/// bias cannot be normalized and resolves to nothing). The chosen name is
/// demangled.
pub open spec fn symbolized(frame: FrameView, table: Seq<SymView>, arch: Arch) -> ElementView {
    ElementView {
        ip: frame.ip,
        resolved_name: match frame.raw_name {
            Some(n) => Some(demangled_of(n)),
            None => {
                if frame.ip >= spec_load_bias(arch) {
                    match resolve_spec(table, (frame.ip - spec_load_bias(arch)) as u64) {
                        Some(n) => Some(demangled_of(n)),
                        None => None,
                    }
                } else {
                    None
                }
            },
        },
    }
}

/// The element sequence a vector of elements stands for.
pub open spec fn element_views(elements: Seq<TraceElement>) -> Seq<ElementView> {
    elements.map_values(|e: TraceElement| e@)
}

/// A whole chain symbolized frame by frame.
pub open spec fn symbolized_all(chain: Seq<FrameView>, table: Seq<SymView>, arch: Arch) -> Seq<
    ElementView,
> {
    chain.map_values(|f: FrameView| symbolized(f, table, arch))
}

/// Symbolizes one frame against the table and the architecture's load bias.
pub fn symbolize_frame(frame: &RawFrame, table: &SymbolTable, arch: Arch) -> (r: TraceElement)
    ensures
        r@ == symbolized(frame@, table@, arch),
{
    let resolved_name: Option<String> = match &frame.raw_name {
        Some(n) => Some(demangle_name(n.as_str())),
        None => {
            if frame.ip >= load_bias(arch) {
                match table.resolve(normalize(frame.ip, arch)) {
                    Some(n) => Some(demangle_name(n.as_str())),
                    None => None,
                }
            } else {
                None
            }
        },
    };
    TraceElement { ip: frame.ip, resolved_name }
}

/// One thread's symbolized stack, labelled with the thread's identifier.
#[derive(Debug)]
pub struct ThreadTrace {
    pub thread: i32,
    pub elements: Vec<TraceElement>,
}

/// Traces one thread: attach, walk, release, symbolize. The detach is issued
/// on every exit path after an acknowledged attach — exactly one per
/// successful or failed attach, including when the walk errors out — and the
/// per-thread unwind argument never outlives the walk.
pub fn trace_thread<T: Tracer, U: Unwinder>(
    tracer: &mut T,
    unwinder: &mut U,
    thread: i32,
    table: &SymbolTable,
    arch: Arch,
) -> (r: Result<Vec<TraceElement>, TraceError>)
    requires
        !old(tracer).tracing(thread),
        !old(unwinder).arg_live(),
    ensures
        !final(tracer).tracing(thread),
        !final(unwinder).arg_live(),
        crate::unwind::model_eq(*old(unwinder), *final(unwinder)),
        final(tracer).attach_count(thread) - old(tracer).attach_count(thread) <= 1,
        final(tracer).detach_count(thread) - old(tracer).detach_count(thread) == final(tracer).attach_count(thread) - old(tracer).attach_count(thread),
        r is Ok ==> final(tracer).attach_count(thread) == old(tracer).attach_count(thread) + 1,
        forall|t: i32|
            #![trigger final(tracer).tracing(t)]
            t != thread ==> final(tracer).tracing(t) == old(tracer).tracing(t),
        forall|t: i32|
            #![trigger final(tracer).attach_count(t)]
            t != thread ==> final(tracer).attach_count(t) == old(tracer).attach_count(t),
        forall|t: i32|
            #![trigger final(tracer).resume_count(t)]
            t != thread ==> final(tracer).resume_count(t) == old(tracer).resume_count(t),
        forall|t: i32|
            #![trigger final(tracer).detach_count(t)]
            t != thread ==> final(tracer).detach_count(t) == old(tracer).detach_count(t),
        final(tracer).resume_count(thread) - old(tracer).resume_count(thread) <= 1,
        r is Ok ==> r->Ok_0@.len() <= FRAME_LIMIT,
        old(unwinder).valid(thread) && old(unwinder).chain(thread).len() >= 1 && r is Ok
            ==> element_views(r->Ok_0@) == symbolized_all(
            capped(old(unwinder).chain(thread)),
            table@,
            arch,
        ),
{
    let attachment = match attach(tracer, thread) {
        Ok(a) => a,
        Err(e) => {
            return Err(e);
        },
    };
    let frames = match walk(unwinder, thread) {
        Ok(f) => f,
        Err(e) => {
            // the destructor path: release is best-effort, the walk error is
            // what the caller sees
            let _ = crate::tracer::detach(tracer, attachment);
            return Err(e);
        },
    };
    let _ = crate::tracer::detach(tracer, attachment);
    let mut elements: Vec<TraceElement> = Vec::new();
    let mut i: usize = 0;
    while i < frames.len()
        invariant
            i <= frames@.len(),
            elements@.len() == i,
            forall|k: int|
                0 <= k < i ==> (#[trigger] elements@[k])@ == symbolized(frames@[k]@, table@, arch),
        decreases frames@.len() - i,
    {
        let e = symbolize_frame(&frames[i], table, arch);
        elements.push(e);
        i = i + 1;
    }
    proof {
        if old(unwinder).valid(thread) && old(unwinder).chain(thread).len() >= 1 {
            assert(element_views(elements@) =~= symbolized_all(
                capped(old(unwinder).chain(thread)),
                table@,
                arch,
            ));
        }
    }
    Ok(elements)
}

/// Traces every enumerated thread in order, one at a time: the snapshot is
/// per thread, not instantaneous across threads. An error on any thread
/// aborts the whole run after that thread's releases; there is no
/// partial-success mode. Over the whole run, every acknowledged attach is
/// matched by exactly one issued detach.
pub fn trace_all<T: Tracer, U: Unwinder>(
    tracer: &mut T,
    unwinder: &mut U,
    threads: &Vec<i32>,
    table: &SymbolTable,
    arch: Arch,
) -> (r: Result<Vec<ThreadTrace>, TraceError>)
    requires
        forall|t: i32| #![trigger old(tracer).tracing(t)] !old(tracer).tracing(t),
        !old(unwinder).arg_live(),
    ensures
        !final(unwinder).arg_live(),
        crate::unwind::model_eq(*old(unwinder), *final(unwinder)),
        forall|t: i32| #![trigger final(tracer).tracing(t)] !final(tracer).tracing(t),
        forall|t: i32|
            #![trigger final(tracer).detach_count(t)]
            final(tracer).detach_count(t) - old(tracer).detach_count(t) == final(tracer).attach_count(t) - old(tracer).attach_count(t),
        r is Ok ==> r->Ok_0@.len() == threads@.len() && (forall|k: int|
            0 <= k < threads@.len() ==> (#[trigger] r->Ok_0@[k]).thread == threads@[k]
                && r->Ok_0@[k].elements@.len() <= FRAME_LIMIT && (old(unwinder).valid(threads@[k])
                && old(unwinder).chain(threads@[k]).len() >= 1 ==> element_views(
                r->Ok_0@[k].elements@,
            ) == symbolized_all(capped(old(unwinder).chain(threads@[k])), table@, arch))),
{
    let mut out: Vec<ThreadTrace> = Vec::new();
    let mut i: usize = 0;
    while i < threads.len()
        invariant
            i <= threads@.len(),
            out@.len() == i,
            !unwinder.arg_live(),
            crate::unwind::model_eq(*old(unwinder), *unwinder),
            forall|t: i32| #![trigger tracer.tracing(t)] !tracer.tracing(t),
            forall|t: i32|
                #![trigger tracer.detach_count(t)]
                tracer.detach_count(t) - old(tracer).detach_count(t) == tracer.attach_count(t)
                    - old(tracer).attach_count(t),
            forall|k: int|
                0 <= k < i ==> (#[trigger] out@[k]).thread == threads@[k]
                    && out@[k].elements@.len() <= FRAME_LIMIT && (old(unwinder).valid(threads@[k])
                    && old(unwinder).chain(threads@[k]).len() >= 1 ==> element_views(
                    out@[k].elements@,
                ) == symbolized_all(capped(old(unwinder).chain(threads@[k])), table@, arch)),
        decreases threads@.len() - i,
    {
        let thread = threads[i];
        let ghost prev_tracer = *tracer;
        let ghost prev_unwinder = *unwinder;
        match trace_thread(tracer, unwinder, thread, table, arch) {
            Ok(elements) => {
                out.push(ThreadTrace { thread, elements });
            },
            Err(e) => {
                proof {
                    assert forall|t: i32| #![trigger tracer.detach_count(t)] tracer.detach_count(t)
                        - old(tracer).detach_count(t) == tracer.attach_count(t) - old(tracer).attach_count(t) by {
                        if t != thread {
                            assert(tracer.detach_count(t) == prev_tracer.detach_count(t));
                            assert(tracer.attach_count(t) == prev_tracer.attach_count(t));
                        }
                    }
                }
                return Err(e);
            },
        }
        proof {
            assert forall|t: i32| #![trigger tracer.detach_count(t)] tracer.detach_count(t) - old(tracer).detach_count(t) == tracer.attach_count(t) - old(tracer).attach_count(t) by {
                if t != thread {
                    assert(tracer.detach_count(t) == prev_tracer.detach_count(t));
                    assert(tracer.attach_count(t) == prev_tracer.attach_count(t));
                }
            }
        }
        i = i + 1;
    }
    Ok(out)
}

} // verus!
