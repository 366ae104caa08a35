use vstd::prelude::*;

verus! {

/// One pixel update to emit: the cell's position within its chunk, the
/// grid coordinate the cursor had reached, and the stripped 24-bit
/// color.
#[derive(Clone, Copy, Debug, PartialEq, Eq, Structural)]
pub struct DrawCommand {
    pub index: usize,
    pub x: u16,
    pub y: u16,
    pub color: u32,
}

impl DrawCommand {
    /// The color is a 24-bit value: the low alpha byte is gone.
    pub open spec fn wf(self) -> bool {
        self.color < 0x1000000
    }
}

/// ASCII byte for one hex digit, lowercase.
pub open spec fn spec_hex_digit(d: int) -> u8 {
    if d < 10 {
        (48 + d) as u8
    } else {
        (87 + d) as u8
    }
}

/// Six lowercase hex digits of a 24-bit color, most significant first.
pub open spec fn spec_hex6(c: u32) -> Seq<u8> {
    seq![
        spec_hex_digit(c as int / 0x100000 % 16),
        spec_hex_digit(c as int / 0x10000 % 16),
        spec_hex_digit(c as int / 0x1000 % 16),
        spec_hex_digit(c as int / 0x100 % 16),
        spec_hex_digit(c as int / 0x10 % 16),
        spec_hex_digit(c as int % 16),
    ]
}

/// Decimal digits of a non-negative number, most significant first.
pub open spec fn spec_dec(n: int) -> Seq<u8>
    recommends
        n >= 0,
    decreases n,
{
    if n < 10 {
        seq![(48 + n) as u8]
    } else {
        spec_dec(n / 10).push((48 + n % 10) as u8)
    }
}

/// The full textual line for one draw command:
/// `PX <x> <y> <rrggbb>\n` as bytes.
pub open spec fn spec_px_line(x: int, y: int, c: u32) -> Seq<u8> {
    seq![80u8, 88u8, 32u8] + spec_dec(x) + seq![32u8] + spec_dec(y) + seq![32u8] + spec_hex6(c)
        + seq![10u8]
}

/// Appends the decimal digits of `n`.
fn push_dec(out: &mut Vec<u8>, n: u16)
    ensures
        final(out)@ == old(out)@ + spec_dec(n as int),
    decreases n,
{
    if n < 10 {
        out.push(48 + n as u8);
        assert(out@ =~= old(out)@ + spec_dec(n as int));
    } else {
        proof {
            assert(n / 10 < n) by (nonlinear_arith)
                requires
                    n >= 10,
            ;
        }
        push_dec(out, n / 10);
        out.push(48 + (n % 10) as u8);
        assert(out@ =~= old(out)@ + spec_dec(n as int));
    }
}

/// Appends the ASCII byte of one hex digit.
fn push_hex_digit(out: &mut Vec<u8>, d: u32)
    requires
        d < 16,
    ensures
        final(out)@ == old(out)@ + seq![spec_hex_digit(d as int)],
{
    if d < 10 {
        out.push(48 + d as u8);
    } else {
        out.push(87 + d as u8);
    }
    assert(out@ =~= old(out)@ + seq![spec_hex_digit(d as int)]);
}

/// Appends the six hex digits of a 24-bit color.
fn push_hex6(out: &mut Vec<u8>, c: u32)
    requires
        c < 0x1000000,
    ensures
        final(out)@ == old(out)@ + spec_hex6(c),
{
    push_hex_digit(out, c / 0x100000 % 16);
    push_hex_digit(out, c / 0x10000 % 16);
    push_hex_digit(out, c / 0x1000 % 16);
    push_hex_digit(out, c / 0x100 % 16);
    push_hex_digit(out, c / 0x10 % 16);
    push_hex_digit(out, c % 16);
    assert(out@ =~= old(out)@ + spec_hex6(c));
}

/// Formats one draw command as the line the sink expects:
/// `PX <x> <y> <rrggbb>\n`, coordinates in decimal and the color as
/// exactly six lowercase hex digits.
pub fn format_px(cmd: &DrawCommand) -> (line: Vec<u8>)
    requires
        cmd.wf(),
    ensures
        line@ == spec_px_line(cmd.x as int, cmd.y as int, cmd.color),
{
    let mut line: Vec<u8> = Vec::new();
    line.push(80);
    line.push(88);
    line.push(32);
    push_dec(&mut line, cmd.x);
    line.push(32);
    push_dec(&mut line, cmd.y);
    line.push(32);
    push_hex6(&mut line, cmd.color);
    line.push(10);
    assert(line@ =~= spec_px_line(cmd.x as int, cmd.y as int, cmd.color));
    line
}

} // verus!
