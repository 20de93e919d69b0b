use vstd::prelude::*;

use crate::trace::{ElementView, TraceElement, ThreadTrace};

verus! {

/// The character of one digit value, lowercase for the hexadecimal range.
pub open spec fn digit_char(d: nat) -> char {
    if d == 0 {
        '0'
    } else if d == 1 {
        '1'
    } else if d == 2 {
        '2'
    } else if d == 3 {
        '3'
    } else if d == 4 {
        '4'
    } else if d == 5 {
        '5'
    } else if d == 6 {
        '6'
    } else if d == 7 {
        '7'
    } else if d == 8 {
        '8'
    } else if d == 9 {
        '9'
    } else if d == 10 {
        'a'
    } else if d == 11 {
        'b'
    } else if d == 12 {
        'c'
    } else if d == 13 {
        'd'
    } else if d == 14 {
        'e'
    } else {
        'f'
    }
}

/// The hexadecimal digits of `n`, most significant first, no leading zeros.
pub open spec fn hex_digits(n: nat) -> Seq<char>
    decreases n,
{
    if n < 16 {
        seq![digit_char(n)]
    } else {
        hex_digits(n / 16).push(digit_char(n % 16))
    }
}

/// The decimal digits of `n`, most significant first, no leading zeros.
pub open spec fn dec_digits(n: nat) -> Seq<char>
    decreases n,
{
    if n < 10 {
        seq![digit_char(n)]
    } else {
        dec_digits(n / 10).push(digit_char(n % 10))
    }
}

/// Digits left-padded with zeros to width fourteen, so the whole rendered
/// address is sixteen characters wide including its `0x` prefix.
pub open spec fn zero_pad14(s: Seq<char>) -> Seq<char> {
    if s.len() >= 14 {
        s
    } else {
        Seq::new((14 - s.len()) as nat, |i: int| '0') + s
    }
}

/// An address as the trace prints it: `0x`, then the hexadecimal digits
/// zero-padded to a width of sixteen in all.
pub open spec fn hex_format(n: u64) -> Seq<char> {
    seq!['0', 'x'] + zero_pad14(hex_digits(n as nat))
}

/// One trace line: the address, then the resolved name after a space when
/// there is one.
pub open spec fn element_line(e: ElementView) -> Seq<char> {
    match e.resolved_name {
        Some(name) => hex_format(e.ip) + seq![' '] + name,
        None => hex_format(e.ip),
    }
}

/// The element lines joined with line breaks.
pub open spec fn joined_lines(elements: Seq<ElementView>) -> Seq<char>
    decreases elements.len(),
{
    if elements.len() == 0 {
        Seq::empty()
    } else if elements.len() == 1 {
        element_line(elements[0])
    } else {
        joined_lines(elements.drop_last()) + seq!['\n'] + element_line(elements.last())
    }
}

/// One thread's section: a header naming the thread, then its lines.
pub open spec fn section_text(thread: i32, elements: Seq<ElementView>) -> Seq<char> {
    "trace for thread "@ + dec_digits(thread as nat) + ":\n"@ + joined_lines(elements) + seq![
        '\n',
    ]
}

/// The text of one digit value.
fn digit_str(d: u64) -> (r: &'static str)
    requires
        d < 16,
    ensures
        r@ == seq![digit_char(d as nat)],
{
    if d == 0 {
        proof {
            reveal_strlit("0");
            assert("0"@ =~= seq![digit_char(0)]);
        }
        "0"
    } else if d == 1 {
        proof {
            reveal_strlit("1");
            assert("1"@ =~= seq![digit_char(1)]);
        }
        "1"
    } else if d == 2 {
        proof {
            reveal_strlit("2");
            assert("2"@ =~= seq![digit_char(2)]);
        }
        "2"
    } else if d == 3 {
        proof {
            reveal_strlit("3");
            assert("3"@ =~= seq![digit_char(3)]);
        }
        "3"
    } else if d == 4 {
        proof {
            reveal_strlit("4");
            assert("4"@ =~= seq![digit_char(4)]);
        }
        "4"
    } else if d == 5 {
        proof {
            reveal_strlit("5");
            assert("5"@ =~= seq![digit_char(5)]);
        }
        "5"
    } else if d == 6 {
        proof {
            reveal_strlit("6");
            assert("6"@ =~= seq![digit_char(6)]);
        }
        "6"
    } else if d == 7 {
        proof {
            reveal_strlit("7");
            assert("7"@ =~= seq![digit_char(7)]);
        }
        "7"
    } else if d == 8 {
        proof {
            reveal_strlit("8");
            assert("8"@ =~= seq![digit_char(8)]);
        }
        "8"
    } else if d == 9 {
        proof {
            reveal_strlit("9");
            assert("9"@ =~= seq![digit_char(9)]);
        }
        "9"
    } else if d == 10 {
        proof {
            reveal_strlit("a");
            assert("a"@ =~= seq![digit_char(10)]);
        }
        "a"
    } else if d == 11 {
        proof {
            reveal_strlit("b");
            assert("b"@ =~= seq![digit_char(11)]);
        }
        "b"
    } else if d == 12 {
        proof {
            reveal_strlit("c");
            assert("c"@ =~= seq![digit_char(12)]);
        }
        "c"
    } else if d == 13 {
        proof {
            reveal_strlit("d");
            assert("d"@ =~= seq![digit_char(13)]);
        }
        "d"
    } else if d == 14 {
        proof {
            reveal_strlit("e");
            assert("e"@ =~= seq![digit_char(14)]);
        }
        "e"
    } else {
        proof {
            reveal_strlit("f");
            assert("f"@ =~= seq![digit_char(15)]);
        }
        "f"
    }
}

/// Appends the hexadecimal digits of `n`, most significant first.
fn push_hex_digits(n: u64, out: &mut String)
    ensures
        final(out)@ == old(out)@ + hex_digits(n as nat),
    decreases n,
{
    if n < 16 {
        out.append(digit_str(n));
    } else {
        proof {
            assert(n / 16 < n) by (nonlinear_arith)
                requires
                    n >= 16,
            ;
        }
        push_hex_digits(n / 16, out);
        out.append(digit_str(n % 16));
        proof {
            assert(old(out)@ + hex_digits((n / 16) as nat) + seq![
                digit_char((n % 16) as nat),
            ] =~= old(out)@ + hex_digits(n as nat));
        }
    }
}

/// Appends the decimal digits of `n`, most significant first.
fn push_dec_digits(n: u64, out: &mut String)
    ensures
        final(out)@ == old(out)@ + dec_digits(n as nat),
    decreases n,
{
    if n < 10 {
        out.append(digit_str(n));
    } else {
        proof {
            assert(n / 10 < n) by (nonlinear_arith)
                requires
                    n >= 10,
            ;
        }
        push_dec_digits(n / 10, out);
        out.append(digit_str(n % 10));
        proof {
            assert(old(out)@ + dec_digits((n / 10) as nat) + seq![
                digit_char((n % 10) as nat),
            ] =~= old(out)@ + dec_digits(n as nat));
        }
    }
}

/// Renders `n` as the sixteen-character-wide hexadecimal address form.
pub fn format_hex(n: u64) -> (r: String)
    ensures
        r@ == hex_format(n),
{
    let mut digits = String::new();
    push_hex_digits(n, &mut digits);
    let mut r = String::new();
    proof {
        reveal_strlit("0x");
        assert(r@ + "0x"@ =~= seq!['0', 'x']);
    }
    r.append("0x");
    let len = digits.as_str().unicode_len();
    let mut k: usize = len;
    proof {
        assert(r@ =~= seq!['0', 'x'] + Seq::new(0, |i: int| '0'));
    }
    while k < 14
        invariant
            len == digits@.len(),
            digits@ == hex_digits(n as nat),
            k >= len,
            k <= 14 || k == len,
            r@ == seq!['0', 'x'] + Seq::new((k - len) as nat, |i: int| '0'),
        decreases 14 - k,
    {
        proof {
            reveal_strlit("0");
        }
        r.append("0");
        proof {
            assert((seq!['0', 'x'] + Seq::new((k - len) as nat, |i: int| '0')) + "0"@ =~= seq![
                '0',
                'x',
            ] + Seq::new((k + 1 - len) as nat, |i: int| '0'));
        }
        k = k + 1;
    }
    r.append(digits.as_str());
    proof {
        assert(r@ =~= hex_format(n));
    }
    r
}

/// Renders `n` in decimal.
pub fn format_dec(n: u64) -> (r: String)
    ensures
        r@ == dec_digits(n as nat),
{
    let mut r = String::new();
    push_dec_digits(n, &mut r);
    proof {
        assert(Seq::<char>::empty() + dec_digits(n as nat) =~= dec_digits(n as nat));
    }
    r
}

/// Renders one trace line.
pub fn render_element(e: &TraceElement) -> (r: String)
    ensures
        r@ == element_line(e@),
{
    let mut r = format_hex(e.ip);
    match &e.resolved_name {
        Some(name) => {
            proof {
                reveal_strlit(" ");
            }
            r.append(" ");
            r.append(name.as_str());
            proof {
                assert(hex_format(e.ip) + " "@ + name@ =~= element_line(e@));
            }
        },
        None => {},
    }
    r
}

/// Renders one thread's whole section: header and lines.
pub fn render_section(tt: &ThreadTrace) -> (r: String)
    requires
        tt.thread >= 0,
    ensures
        r@ == section_text(tt.thread, crate::trace::element_views(tt.elements@)),
{
    let ghost views = crate::trace::element_views(tt.elements@);
    let mut r = String::new();
    proof {
        reveal_strlit("trace for thread ");
        assert(r@ + "trace for thread "@ =~= "trace for thread "@);
    }
    r.append("trace for thread ");
    let dec = format_dec(tt.thread as u64);
    r.append(dec.as_str());
    proof {
        reveal_strlit(":\n");
    }
    r.append(":\n");
    let ghost prefix = "trace for thread "@ + dec_digits(tt.thread as nat) + ":\n"@;
    proof {
        assert(tt.thread as u64 as nat == tt.thread as nat);
        assert(r@ =~= prefix);
    }
    let mut i: usize = 0;
    while i < tt.elements.len()
        invariant
            i <= tt.elements@.len(),
            views == crate::trace::element_views(tt.elements@),
            prefix == "trace for thread "@ + dec_digits(tt.thread as nat) + ":\n"@,
            r@ == prefix + joined_lines(views.take(i as int)),
        decreases tt.elements@.len() - i,
    {
        if i > 0 {
            proof {
                reveal_strlit("\n");
            }
            r.append("\n");
        }
        let line = render_element(&tt.elements[i]);
        r.append(line.as_str());
        proof {
            assert(views.take(i + 1).drop_last() =~= views.take(i as int));
            assert(views.take(i + 1).last() == views[i as int]);
            assert(views[i as int] == tt.elements@[i as int]@);
            if i > 0 {
                assert(r@ =~= prefix + joined_lines(views.take(i + 1)));
            } else {
                assert(joined_lines(views.take(0)) =~= Seq::<char>::empty());
                assert(r@ =~= prefix + joined_lines(views.take(1)));
            }
        }
        i = i + 1;
    }
    proof {
        reveal_strlit("\n");
        assert(views.take(views.len() as int) =~= views);
    }
    r.append("\n");
    proof {
        assert(r@ =~= section_text(tt.thread, views));
    }
    r
}

} // verus!
