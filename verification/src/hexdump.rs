//! The text of a hex dump: sixteen bytes a line, each line led by its
//! address and closed by the bytes shown as printable ASCII.
use vstd::prelude::*;

use crate::utils::{ceil_div, div_round_up, lemma_ceil_div_bounds};

verus! {

/// Bytes shown on one line.
pub const DUMP_WIDTH: usize = 16;

/// The ASCII character of hex digit `d`, in lower case.
pub open spec fn hex_digit(d: nat) -> u8 {
    if d < 10 {
        (48 + d) as u8
    } else {
        (87 + d) as u8
    }
}

/// `v` in lower-case hex, padded with zeros to at least `w` digits.
pub open spec fn hex_text(v: nat, w: nat) -> Seq<u8>
    decreases v, w,
{
    if v == 0 && w == 0 {
        seq![]
    } else {
        hex_text(v / 16, if w > 0 {
            (w - 1) as nat
        } else {
            0
        }) + seq![hex_digit(v % 16)]
    }
}

/// How byte `b` appears in the text column: itself when printable ASCII, else `.`.
pub open spec fn shown_char(b: u8) -> u8 {
    if b < 32 || b > 126 {
        46
    } else {
        b
    }
}

/// Column `i` of the hex part of the line starting at `n`: two digits and a
/// space, or three spaces past the end; one more space after the eighth column.
pub open spec fn hex_column(buf: Seq<u8>, n: nat, i: nat) -> Seq<u8> {
    (if n + i < buf.len() {
        hex_text(buf[(n + i) as int] as nat, 2) + seq![32u8]
    } else {
        seq![32u8, 32u8, 32u8]
    }) + (if i == 7 {
        seq![32u8]
    } else {
        seq![]
    })
}

/// Column `i` of the text part of the line starting at `n`.
pub open spec fn text_column(buf: Seq<u8>, n: nat, i: nat) -> u8 {
    if n + i < buf.len() {
        shown_char(buf[(n + i) as int])
    } else {
        32
    }
}

/// The first `count` hex columns of the line starting at `n`.
pub open spec fn hex_columns(buf: Seq<u8>, n: nat, count: nat) -> Seq<u8>
    decreases count,
{
    if count == 0 {
        seq![]
    } else {
        hex_columns(buf, n, (count - 1) as nat) + hex_column(buf, n, (count - 1) as nat)
    }
}

/// The first `count` text columns of the line starting at `n`.
pub open spec fn text_columns(buf: Seq<u8>, n: nat, count: nat) -> Seq<u8>
    decreases count,
{
    if count == 0 {
        seq![]
    } else {
        text_columns(buf, n, (count - 1) as nat).push(text_column(buf, n, (count - 1) as nat))
    }
}

/// The line that shows `buf[n..n + 16]`, labelled with address `addr + n`.
pub open spec fn dump_line(buf: Seq<u8>, addr: nat, n: nat) -> Seq<u8> {
    hex_text(addr + n, 6) + seq![32u8, 32u8] + hex_columns(buf, n, 16) + seq![32u8, 124u8]
        + text_columns(buf, n, 16) + seq![124u8, 10u8]
}

/// The first `lines` lines of the dump of `buf` labelled from `addr`.
pub open spec fn dump_lines(buf: Seq<u8>, addr: nat, lines: nat) -> Seq<u8>
    decreases lines,
{
    if lines == 0 {
        seq![]
    } else {
        dump_lines(buf, addr, (lines - 1) as nat) + dump_line(
            buf,
            addr,
            ((lines - 1) * 16) as nat,
        )
    }
}

/// The whole dump of `buf`: as many lines as it takes to show every byte.
pub open spec fn hex_dump_spec(buf: Seq<u8>, addr: nat) -> Seq<u8> {
    dump_lines(buf, addr, ceil_div(buf.len() as int, 16) as nat)
}

fn push_hex(out: &mut Vec<u8>, v: usize, w: usize)
    ensures
        final(out)@ == old(out)@ + hex_text(v as nat, w as nat),
    decreases v, w,
{
    if v == 0 && w == 0 {
        assert(old(out)@ + hex_text(0, 0) =~= old(out)@);
        return ;
    }
    let w2 = if w > 0 {
        w - 1
    } else {
        0
    };
    push_hex(out, v / 16, w2);
    let d = v % 16;
    let c: u8 = if d < 10 {
        48 + d as u8
    } else {
        87 + d as u8
    };
    out.push(c);
    assert(out@ =~= old(out)@ + hex_text(v as nat, w as nat));
}

fn push_line(out: &mut Vec<u8>, buf: &[u8], addr: usize, n: usize)
    requires
        addr + n <= usize::MAX,
    ensures
        final(out)@ == old(out)@ + dump_line(buf@, addr as nat, n as nat),
{
    let ghost start = old(out)@;
    push_hex(out, addr + n, 6);
    out.push(32);
    out.push(32);
    let ghost head = hex_text((addr + n) as nat, 6) + seq![32u8, 32u8];
    assert(out@ =~= start + head);
    let mut i: usize = 0;
    while i < DUMP_WIDTH
        invariant
            i <= DUMP_WIDTH,
            out@ == start + head + hex_columns(buf@, n as nat, i as nat),
        decreases DUMP_WIDTH - i,
    {
        let ghost before = out@;
        if n < buf.len() && i < buf.len() - n {
            push_hex(out, buf[n + i] as usize, 2);
            out.push(32);
        } else {
            out.push(32);
            out.push(32);
            out.push(32);
        }
        if i == 7 {
            out.push(32);
        }
        assert(out@ =~= before + hex_column(buf@, n as nat, i as nat));
        i = i + 1;
        assert(out@ =~= start + head + hex_columns(buf@, n as nat, i as nat));
    }
    out.push(32);
    out.push(124);
    let ghost mid = head + hex_columns(buf@, n as nat, 16) + seq![32u8, 124u8];
    assert(out@ =~= start + mid);
    let mut i: usize = 0;
    while i < DUMP_WIDTH
        invariant
            i <= DUMP_WIDTH,
            out@ == start + mid + text_columns(buf@, n as nat, i as nat),
        decreases DUMP_WIDTH - i,
    {
        let c: u8 = if n < buf.len() && i < buf.len() - n {
            let b = buf[n + i];
            if b < 32 || b > 126 {
                46
            } else {
                b
            }
        } else {
            32
        };
        out.push(c);
        i = i + 1;
        assert(out@ =~= start + mid + text_columns(buf@, n as nat, i as nat));
    }
    out.push(124);
    out.push(10);
    assert(out@ =~= start + dump_line(buf@, addr as nat, n as nat));
}

/// The text of the hex dump of `buf`, each line labelled with the address of
/// its first byte counted from `addr_start`.
pub fn hex_dump(buf: &[u8], addr_start: usize) -> (r: Vec<u8>)
    requires
        addr_start + buf@.len() + DUMP_WIDTH <= usize::MAX,
    ensures
        r@ == hex_dump_spec(buf@, addr_start as nat),
{
    let lines = div_round_up(buf.len(), DUMP_WIDTH);
    proof {
        lemma_ceil_div_bounds(buf@.len() as int, 16);
    }
    let mut out: Vec<u8> = Vec::new();
    let mut k: usize = 0;
    while k < lines
        invariant
            k <= lines,
            lines == ceil_div(buf@.len() as int, 16),
            lines * 16 < buf@.len() + 16,
            addr_start + buf@.len() + DUMP_WIDTH <= usize::MAX,
            out@ == dump_lines(buf@, addr_start as nat, k as nat),
        decreases lines - k,
    {
        assert(k * 16 < buf@.len() + 16) by (nonlinear_arith)
            requires
                k < lines,
                lines * 16 < buf@.len() + 16,
        ;
        push_line(&mut out, buf, addr_start, k * DUMP_WIDTH);
        k = k + 1;
    }
    out
}

/// A line holds 77 bytes whenever its address fits in six hex digits: six
/// for the address, two spaces, sixteen columns of three and one more space,
/// ` |`, sixteen characters, `|` and the line break.
pub proof fn lemma_dump_line_len(buf: Seq<u8>, addr: nat, n: nat)
    requires
        addr + n < 0x100_0000,
    ensures
        dump_line(buf, addr, n).len() == 77,
{
    assert(pow16(6) == 0x100_0000) by {
        reveal_with_fuel(pow16, 7);
    }
    lemma_hex_text_len(addr + n, 6);
    lemma_hex_columns_len(buf, n, 16);
    lemma_text_columns_len(buf, n, 16);
}

/// A number below `16^w` takes exactly `w` digits.
pub proof fn lemma_hex_text_len(v: nat, w: nat)
    requires
        v < pow16(w),
    ensures
        hex_text(v, w).len() == w,
    decreases v, w,
{
    if v == 0 && w == 0 {
    } else {
        assert(w > 0) by {
            if w == 0 {
                assert(pow16(0) == 1);
            }
        }
        assert(v / 16 < pow16((w - 1) as nat)) by {
            assert(pow16(w) == 16 * pow16((w - 1) as nat));
        }
        lemma_hex_text_len(v / 16, (w - 1) as nat);
    }
}

/// `16` to the power `w`.
pub open spec fn pow16(w: nat) -> nat
    decreases w,
{
    if w == 0 {
        1
    } else {
        16 * pow16((w - 1) as nat)
    }
}

proof fn lemma_hex_columns_len(buf: Seq<u8>, n: nat, count: nat)
    requires
        count <= 16,
    ensures
        hex_columns(buf, n, count).len() == 3 * count + (if count > 7 {
            1int
        } else {
            0
        }),
    decreases count,
{
    if count > 0 {
        lemma_hex_columns_len(buf, n, (count - 1) as nat);
        let i = (count - 1) as nat;
        if n + i < buf.len() {
            assert(pow16(2) == 256) by {
                reveal_with_fuel(pow16, 3);
            }
            lemma_hex_text_len(buf[(n + i) as int] as nat, 2);
        }
    }
}

proof fn lemma_text_columns_len(buf: Seq<u8>, n: nat, count: nat)
    ensures
        text_columns(buf, n, count).len() == count,
    decreases count,
{
    if count > 0 {
        lemma_text_columns_len(buf, n, (count - 1) as nat);
    }
}

/// The hex digits read back as the number: parsing the digits of `hex_text(v, w)`
/// gives `v`.
pub proof fn lemma_hex_text_value(v: nat, w: nat)
    ensures
        hex_value(hex_text(v, w)) == v,
    decreases v, w,
{
    if v == 0 && w == 0 {
    } else {
        let w2 = if w > 0 {
            (w - 1) as nat
        } else {
            0
        };
        lemma_hex_text_value(v / 16, w2);
        let s = hex_text(v / 16, w2) + seq![hex_digit(v % 16)];
        assert(s.drop_last() =~= hex_text(v / 16, w2));
        assert(digit_value(hex_digit(v % 16)) == v % 16);
    }
}

/// The value of a lower-case hex digit character.
pub open spec fn digit_value(c: u8) -> nat {
    if 48 <= c <= 57 {
        (c - 48) as nat
    } else if 97 <= c <= 102 {
        (c - 87) as nat
    } else {
        0
    }
}

/// The number that a string of hex digits spells.
pub open spec fn hex_value(s: Seq<u8>) -> nat
    decreases s.len(),
{
    if s.len() == 0 {
        0
    } else {
        hex_value(s.drop_last()) * 16 + digit_value(s.last())
    }
}

} // verus!
