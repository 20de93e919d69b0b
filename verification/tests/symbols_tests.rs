use stacktrace::parse::parse_pid;
use stacktrace::symbols::{load_bias, normalize, Arch, Symbol, SymbolTable};

fn sym(value: u64, size: u64, name: &str) -> Symbol {
    Symbol { value, size, name: name.to_string() }
}

fn test_table() -> SymbolTable {
    SymbolTable::build(vec![
        sym(0x1000, 0x10, "alpha"),
        sym(0x1020, 0x8, "beta"),
        sym(0x1100, 0x40, "gamma"),
    ])
}

#[test]
fn resolve_on_empty_table_finds_nothing() {
    let table = SymbolTable::build(Vec::new());
    assert_eq!(table.resolve(0), None);
    assert_eq!(table.resolve(0x1000), None);
    assert_eq!(table.resolve(u64::MAX), None);
}

#[test]
fn resolve_inside_extents() {
    let table = test_table();
    assert_eq!(table.resolve(0x1000).as_deref(), Some("alpha"));
    assert_eq!(table.resolve(0x1005).as_deref(), Some("alpha"));
    assert_eq!(table.resolve(0x100f).as_deref(), Some("alpha"));
    assert_eq!(table.resolve(0x1020).as_deref(), Some("beta"));
    assert_eq!(table.resolve(0x1027).as_deref(), Some("beta"));
    assert_eq!(table.resolve(0x113f).as_deref(), Some("gamma"));
}

#[test]
fn resolve_below_first_symbol_finds_nothing() {
    let table = test_table();
    assert_eq!(table.resolve(0), None);
    assert_eq!(table.resolve(0xfff), None);
}

#[test]
fn resolve_in_gaps_finds_nothing() {
    let table = test_table();
    assert_eq!(table.resolve(0x1010), None);
    assert_eq!(table.resolve(0x101f), None);
    assert_eq!(table.resolve(0x1028), None);
    assert_eq!(table.resolve(0x10ff), None);
    assert_eq!(table.resolve(0x1140), None);
}

#[test]
fn later_record_at_same_address_wins() {
    let table = SymbolTable::build(vec![
        sym(0x2000, 0x10, "first"),
        sym(0x2000, 0x20, "second"),
    ]);
    assert_eq!(table.resolve(0x2000).as_deref(), Some("second"));
    assert_eq!(table.resolve(0x2015).as_deref(), Some("second"));
}

#[test]
fn records_sort_whatever_their_order() {
    let table = SymbolTable::build(vec![
        sym(0x3000, 0x4, "high"),
        sym(0x1000, 0x4, "low"),
        sym(0x2000, 0x4, "mid"),
    ]);
    assert_eq!(table.resolve(0x1001).as_deref(), Some("low"));
    assert_eq!(table.resolve(0x2002).as_deref(), Some("mid"));
    assert_eq!(table.resolve(0x3003).as_deref(), Some("high"));
}

#[test]
fn zero_sized_symbol_covers_nothing() {
    let table = SymbolTable::build(vec![sym(0x1000, 0, "empty")]);
    assert_eq!(table.resolve(0x1000), None);
}

#[test]
fn normalize_shifts_by_the_load_bias() {
    assert_eq!(load_bias(Arch::X86_64), 0x5555_5555_4000);
    assert_eq!(load_bias(Arch::Arm), 0);
    assert_eq!(normalize(0x5555_5555_5000, Arch::X86_64), 0x1000);
    assert_eq!(normalize(0x1234, Arch::Arm), 0x1234);
}

#[test]
fn normalize_then_resolve_recovers_names_and_rejects_gaps() {
    let table = test_table();
    let bias = load_bias(Arch::X86_64);
    // addresses sampled inside each declared extent
    for (raw, want) in [
        (bias + 0x1003, "alpha"),
        (bias + 0x1021, "beta"),
        (bias + 0x1133, "gamma"),
    ] {
        assert_eq!(table.resolve(normalize(raw, Arch::X86_64)).as_deref(), Some(want));
    }
    // addresses strictly between extents
    for raw in [bias + 0x1011, bias + 0x1030, bias + 0x10f0] {
        assert_eq!(table.resolve(normalize(raw, Arch::X86_64)), None);
    }
}

#[test]
fn parse_pid_accepts_plain_decimal() {
    assert_eq!(parse_pid("0"), Some(0));
    assert_eq!(parse_pid("1234"), Some(1234));
    assert_eq!(parse_pid("2147483647"), Some(2147483647));
}

#[test]
fn parse_pid_rejects_everything_else() {
    assert_eq!(parse_pid(""), None);
    assert_eq!(parse_pid("12a"), None);
    assert_eq!(parse_pid("a12"), None);
    assert_eq!(parse_pid("+12"), None);
    assert_eq!(parse_pid("-12"), None);
    assert_eq!(parse_pid(" 12"), None);
    assert_eq!(parse_pid("2147483648"), None);
    assert_eq!(parse_pid("999999999999999999999"), None);
}
