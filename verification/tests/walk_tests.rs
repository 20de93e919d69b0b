use stacktrace::errors::TraceError;
use stacktrace::sim::SyntheticUnwinder;
use stacktrace::unwind::{walk, RawFrame, UnwRegnum, Unwinder, FRAME_LIMIT};

fn frame(ip: u64, sp: u64, name: Option<&str>) -> RawFrame {
    RawFrame { ip, sp, raw_name: name.map(str::to_string) }
}

#[test]
fn walk_returns_exactly_the_synthetic_depth() {
    for depth in [1usize, 2, 3, 17, 1023, 1024] {
        let stack: Vec<RawFrame> =
            (0..depth).map(|i| frame(0x1000 + i as u64, 0x8000 - i as u64, None)).collect();
        let mut unwinder = SyntheticUnwinder::new(vec![7], vec![stack]);
        let frames = walk(&mut unwinder, 7).unwrap();
        assert_eq!(frames.len(), depth);
    }
}

#[test]
fn walk_reports_registers_and_names_innermost_first() {
    let stack = vec![
        frame(0x10, 0x90, Some("inner")),
        frame(0x20, 0xa0, None),
        frame(0x30, 0xb0, Some("outer")),
    ];
    let mut unwinder = SyntheticUnwinder::new(vec![5], vec![stack]);
    let frames = walk(&mut unwinder, 5).unwrap();
    assert_eq!(frames.len(), 3);
    assert_eq!(frames[0].ip, 0x10);
    assert_eq!(frames[0].sp, 0x90);
    assert_eq!(frames[0].raw_name.as_deref(), Some("inner"));
    assert_eq!(frames[1].ip, 0x20);
    assert_eq!(frames[1].raw_name, None);
    assert_eq!(frames[2].ip, 0x30);
    assert_eq!(frames[2].raw_name.as_deref(), Some("outer"));
}

#[test]
fn walk_caps_an_overlong_chain_at_the_frame_limit() {
    let stack: Vec<RawFrame> = (0..1500u64).map(|i| frame(i, i, None)).collect();
    let mut unwinder = SyntheticUnwinder::new(vec![9], vec![stack]);
    let frames = walk(&mut unwinder, 9).unwrap();
    assert_eq!(frames.len(), FRAME_LIMIT);
    assert_eq!(frames[0].ip, 0);
    assert_eq!(frames[FRAME_LIMIT - 1].ip, (FRAME_LIMIT - 1) as u64);
}

#[test]
fn walk_fails_setup_for_an_unknown_thread() {
    let mut unwinder = SyntheticUnwinder::new(vec![7], vec![vec![frame(1, 2, None)]]);
    assert!(matches!(walk(&mut unwinder, 8), Err(TraceError::UnwindSetupFailure)));
}

#[test]
fn walk_reports_a_failed_register_read() {
    // a known thread with an empty chain: the first register read fails
    let mut unwinder = SyntheticUnwinder::new(vec![7], vec![Vec::new()]);
    assert!(matches!(walk(&mut unwinder, 7), Err(TraceError::RegisterReadFailure(-1))));
}

/// A scripted engine whose calls return fixed codes, standing in for
/// corrupted or failing unwind data.
struct ScriptedEngine {
    init_code: i32,
    read: Result<u64, i32>,
    step_code: i32,
}

impl Unwinder for ScriptedEngine {
    fn create_arg(&mut self, _thread: i32) -> bool {
        true
    }

    fn init_cursor(&mut self) -> i32 {
        self.init_code
    }

    fn read_register(&self, _reg: UnwRegnum) -> Result<u64, i32> {
        self.read
    }

    fn frame_name(&self) -> Option<String> {
        None
    }

    fn step(&mut self) -> i32 {
        self.step_code
    }

    fn destroy_arg(&mut self) {}
}

#[test]
fn walk_never_exceeds_the_limit_on_a_cyclic_chain() {
    // the step always claims more frames remain
    let mut engine = ScriptedEngine { init_code: 0, read: Ok(0x42), step_code: 1 };
    let frames = walk(&mut engine, 1).unwrap();
    assert_eq!(frames.len(), FRAME_LIMIT);
}

#[test]
fn walk_reports_init_and_step_failures_with_their_codes() {
    let mut engine = ScriptedEngine { init_code: -3, read: Ok(0), step_code: 0 };
    assert!(matches!(walk(&mut engine, 1), Err(TraceError::UnwindInitFailure(-3))));

    let mut engine = ScriptedEngine { init_code: 0, read: Ok(0), step_code: -5 };
    assert!(matches!(walk(&mut engine, 1), Err(TraceError::UnwindStepFailure(-5))));

    let mut engine = ScriptedEngine { init_code: 0, read: Err(-2), step_code: 0 };
    assert!(matches!(walk(&mut engine, 1), Err(TraceError::RegisterReadFailure(-2))));
}
