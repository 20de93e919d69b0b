use stacktrace::errors::TraceError;
use stacktrace::render::render_section;
use stacktrace::sim::{SyntheticTracer, SyntheticUnwinder};
use stacktrace::symbols::{Arch, Symbol, SymbolTable};
use stacktrace::trace::{trace_all, trace_thread};
use stacktrace::tracer::{attach, detach, finish_attach, Tracer};
use stacktrace::unwind::RawFrame;

/// The wait status word of a thread stopped by the suspend signal.
const STOPPED_BY_SIGSTOP: u32 = (19 << 8) | 0x7f;

/// Stopped, but by a different signal.
const STOPPED_BY_OTHER: u32 = (17 << 8) | 0x7f;

/// Not stopped at all.
const EXITED: u32 = 0;

fn frame(ip: u64, name: Option<&str>) -> RawFrame {
    RawFrame { ip, sp: 0, raw_name: name.map(str::to_string) }
}

fn empty_table() -> SymbolTable {
    SymbolTable::build(Vec::new())
}

#[test]
fn successful_trace_balances_attach_and_detach() {
    let mut tracer = SyntheticTracer::new(STOPPED_BY_SIGSTOP, false, 0, 0);
    let mut unwinder = SyntheticUnwinder::new(vec![7], vec![vec![frame(1, None)]]);
    let table = empty_table();
    let elements = trace_thread(&mut tracer, &mut unwinder, 7, &table, Arch::Arm).unwrap();
    assert_eq!(elements.len(), 1);
    assert_eq!(tracer.attach_calls(7), 1);
    assert_eq!(tracer.resume_calls(7), 0);
    assert_eq!(tracer.detach_calls(7), 1);
}

#[test]
fn denied_attach_issues_no_detach() {
    let mut tracer = SyntheticTracer::new(STOPPED_BY_SIGSTOP, true, 0, 0);
    let mut unwinder = SyntheticUnwinder::new(vec![7], vec![vec![frame(1, None)]]);
    let table = empty_table();
    let r = trace_thread(&mut tracer, &mut unwinder, 7, &table, Arch::Arm);
    assert!(matches!(r, Err(TraceError::AttachFailure(1))));
    assert_eq!(tracer.attach_calls(7), 0);
    assert_eq!(tracer.detach_calls(7), 0);
}

#[test]
fn error_mid_walk_still_detaches_exactly_once() {
    let mut tracer = SyntheticTracer::new(STOPPED_BY_SIGSTOP, false, 0, 0);
    // the unwinder knows nothing of thread 7: the walk fails after the attach
    let mut unwinder = SyntheticUnwinder::new(Vec::new(), Vec::new());
    let table = empty_table();
    let r = trace_thread(&mut tracer, &mut unwinder, 7, &table, Arch::Arm);
    assert!(matches!(r, Err(TraceError::UnwindSetupFailure)));
    assert_eq!(tracer.attach_calls(7), 1);
    assert_eq!(tracer.detach_calls(7), 1);
}

#[test]
fn unexpected_stop_is_resumed_once_and_fails_the_attach() {
    let mut tracer = SyntheticTracer::new(STOPPED_BY_OTHER, false, 0, 0);
    let r = attach(&mut tracer, 7);
    assert!(matches!(r, Err(TraceError::AttachFailure(0))));
    assert_eq!(tracer.attach_calls(7), 1);
    assert_eq!(tracer.resume_calls(7), 1);
    assert_eq!(tracer.detach_calls(7), 1);
}

#[test]
fn vanished_thread_fails_the_attach_without_a_resume() {
    let mut tracer = SyntheticTracer::new(EXITED, false, 0, 0);
    let r = attach(&mut tracer, 7);
    assert!(matches!(r, Err(TraceError::AttachFailure(0))));
    assert_eq!(tracer.attach_calls(7), 1);
    assert_eq!(tracer.resume_calls(7), 0);
    assert_eq!(tracer.detach_calls(7), 1);
}

#[test]
fn the_status_word_alone_decides_a_finished_attach() {
    // acknowledged attach, then each kind of observed status
    let mut tracer = SyntheticTracer::new(STOPPED_BY_SIGSTOP, false, 0, 0);
    tracer.request_attach(7).unwrap();
    let ok = finish_attach(&mut tracer, 7, STOPPED_BY_SIGSTOP).unwrap();
    assert_eq!(ok.thread(), 7);
    assert_eq!(tracer.resume_calls(7), 0);
    assert_eq!(tracer.detach_calls(7), 0);

    let mut tracer = SyntheticTracer::new(STOPPED_BY_SIGSTOP, false, 0, 0);
    tracer.request_attach(9).unwrap();
    let r = finish_attach(&mut tracer, 9, STOPPED_BY_OTHER);
    assert!(matches!(r, Err(TraceError::AttachFailure(0))));
    assert_eq!(tracer.resume_calls(9), 1);
    assert_eq!(tracer.detach_calls(9), 1);

    let mut tracer = SyntheticTracer::new(STOPPED_BY_SIGSTOP, false, 0, 0);
    tracer.request_attach(9).unwrap();
    let r = finish_attach(&mut tracer, 9, EXITED);
    assert!(matches!(r, Err(TraceError::AttachFailure(0))));
    assert_eq!(tracer.resume_calls(9), 0);
    assert_eq!(tracer.detach_calls(9), 1);
}

#[test]
fn no_child_race_is_retried_through_the_wildcard_wait() {
    // the direct wait reports no child; the wildcard wait then observes the
    // thread stopped by the suspend signal
    let mut tracer = SyntheticTracer::new(STOPPED_BY_SIGSTOP, false, 10, 7);
    let attachment = attach(&mut tracer, 7).unwrap();
    assert_eq!(attachment.thread(), 7);
    assert_eq!(tracer.attach_calls(7), 1);
    assert_eq!(tracer.detach_calls(7), 0);
    detach(&mut tracer, attachment).unwrap();
    assert_eq!(tracer.detach_calls(7), 1);
}

#[test]
fn a_full_trace_survives_the_no_child_race() {
    let mut tracer = SyntheticTracer::new(STOPPED_BY_SIGSTOP, false, 10, 7);
    let mut unwinder = SyntheticUnwinder::new(vec![7], vec![vec![frame(1, None), frame(2, None)]]);
    let table = empty_table();
    let elements = trace_thread(&mut tracer, &mut unwinder, 7, &table, Arch::Arm).unwrap();
    assert_eq!(elements.len(), 2);
    assert_eq!(tracer.attach_calls(7), 1);
    assert_eq!(tracer.detach_calls(7), 1);
}

#[test]
fn other_wait_failures_abort_with_the_errno() {
    let mut tracer = SyntheticTracer::new(STOPPED_BY_SIGSTOP, false, 5, 7);
    let r = attach(&mut tracer, 7);
    assert!(matches!(r, Err(TraceError::WaitFailure(5))));
    assert_eq!(tracer.attach_calls(7), 1);
    assert_eq!(tracer.detach_calls(7), 1);
}

#[test]
fn two_threads_are_traced_in_enumeration_order() {
    let mut tracer = SyntheticTracer::new(STOPPED_BY_SIGSTOP, false, 0, 0);
    let mut unwinder = SyntheticUnwinder::new(
        vec![11, 12],
        vec![
            vec![frame(0x10, Some("a")), frame(0x20, Some("b")), frame(0x30, Some("c"))],
            vec![frame(0x40, Some("d"))],
        ],
    );
    let table = empty_table();
    let threads = vec![11, 12];
    let traces = trace_all(&mut tracer, &mut unwinder, &threads, &table, Arch::Arm).unwrap();
    assert_eq!(traces.len(), 2);
    assert_eq!(traces[0].thread, 11);
    assert_eq!(traces[0].elements.len(), 3);
    assert_eq!(traces[1].thread, 12);
    assert_eq!(traces[1].elements.len(), 1);
    // two labelled sections, frame counts three and one, in order
    let first = render_section(&traces[0]);
    let second = render_section(&traces[1]);
    assert!(first.starts_with("trace for thread 11:\n"));
    assert_eq!(first.lines().count(), 4);
    assert!(second.starts_with("trace for thread 12:\n"));
    assert_eq!(second.lines().count(), 2);
    // every acknowledged attach was matched by exactly one detach
    for t in [11, 12] {
        assert_eq!(tracer.attach_calls(t), 1);
        assert_eq!(tracer.detach_calls(t), 1);
    }
}

#[test]
fn a_failing_thread_aborts_the_whole_run() {
    let mut tracer = SyntheticTracer::new(STOPPED_BY_SIGSTOP, false, 0, 0);
    // the second thread is unknown to the engine
    let mut unwinder = SyntheticUnwinder::new(vec![11], vec![vec![frame(0x10, None)]]);
    let table = empty_table();
    let threads = vec![11, 12, 13];
    let r = trace_all(&mut tracer, &mut unwinder, &threads, &table, Arch::Arm);
    assert!(matches!(r, Err(TraceError::UnwindSetupFailure)));
    // the failed thread was still released, the third never attached
    assert_eq!(tracer.attach_calls(11), 1);
    assert_eq!(tracer.detach_calls(11), 1);
    assert_eq!(tracer.attach_calls(12), 1);
    assert_eq!(tracer.detach_calls(12), 1);
    assert_eq!(tracer.attach_calls(13), 0);
    assert_eq!(tracer.detach_calls(13), 0);
}

#[test]
fn symbol_fallback_applies_during_a_trace() {
    let mut tracer = SyntheticTracer::new(STOPPED_BY_SIGSTOP, false, 0, 0);
    let mut unwinder = SyntheticUnwinder::new(
        vec![3],
        vec![vec![frame(0x1004, None), frame(0x9999, None)]],
    );
    let table = SymbolTable::build(vec![Symbol {
        value: 0x1000,
        size: 0x10,
        name: "lookup_me".to_string(),
    }]);
    let elements = trace_thread(&mut tracer, &mut unwinder, 3, &table, Arch::Arm).unwrap();
    assert_eq!(elements[0].resolved_name.as_deref(), Some("lookup_me"));
    assert_eq!(elements[1].resolved_name, None);
}
