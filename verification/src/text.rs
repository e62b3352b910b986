//! Decimal text without formatting machinery: unsigned integers, the fixed
//! six-place fractions of the Settings number display, and the render-time
//! readout.
use vstd::prelude::*;

verus! {

/// ASCII decimal digits of `n`, most significant first, without leading zeros.
pub open spec fn decimal(n: nat) -> Seq<u8>
    decreases n,
{
    if n < 10 {
        seq![(48 + n) as u8]
    } else {
        decimal(n / 10).push((48 + n % 10) as u8)
    }
}

/// Ten to the power `k`.
pub open spec fn pow10(k: nat) -> nat
    decreases k,
{
    if k == 0 {
        1
    } else {
        10 * pow10((k - 1) as nat)
    }
}

proof fn decimal_length_bound(n: nat, k: nat)
    requires
        1 <= k,
        n < pow10(k),
    ensures
        1 <= decimal(n).len() <= k,
    decreases n,
{
    if n >= 10 {
        if k == 1 {
            assert(pow10(1) == 10) by {
                reveal_with_fuel(pow10, 2);
            }
        } else {
            let p = pow10((k - 1) as nat);
            assert(n / 10 < p) by (nonlinear_arith)
                requires
                    n < 10 * p,
            ;
            decimal_length_bound(n / 10, (k - 1) as nat);
        }
    }
}

/// Digit counts: at least one digit, at most ten below ten billion.
pub proof fn decimal_length(n: nat)
    ensures
        1 <= decimal(n).len(),
        n < 10000000000 ==> decimal(n).len() <= 10,
{
    assert(pow10(10) == 10000000000) by {
        reveal_with_fuel(pow10, 11);
    }
    if n < 10000000000 {
        decimal_length_bound(n, 10);
    }
}

/// Appends the decimal digits of `n`.
pub fn push_decimal(out: &mut Vec<u8>, n: u32)
    ensures
        final(out)@ == old(out)@ + decimal(n as nat),
    decreases n,
{
    if n >= 10 {
        push_decimal(out, n / 10);
    }
    out.push(48 + (n % 10) as u8);
    proof {
        assert(final(out)@ =~= old(out)@ + decimal(n as nat)) by {
            reveal_with_fuel(decimal, 2);
        }
    }
}

/// Six fractional digits of `millionths`, zero padded on the left.
pub open spec fn six_places(millionths: nat) -> Seq<u8> {
    seq![
        (48 + millionths / 100000 % 10) as u8,
        (48 + millionths / 10000 % 10) as u8,
        (48 + millionths / 1000 % 10) as u8,
        (48 + millionths / 100 % 10) as u8,
        (48 + millionths / 10 % 10) as u8,
        (48 + millionths % 10) as u8,
    ]
}

/// `s` without its trailing `0` characters.
pub open spec fn trim_trailing_zeros(s: Seq<u8>) -> Seq<u8>
    decreases s.len(),
{
    if s.len() > 0 && s.last() == 48u8 {
        trim_trailing_zeros(s.drop_last())
    } else {
        s
    }
}

/// Readout of the latest graph render: `Last:<ms>ms <fps>FPS` and a NUL,
/// where the frame rate is `1000 / ms` rounded down (zero for zero).
pub open spec fn render_performance_text(milliseconds: u32) -> Seq<u8> {
    let fps: nat = if milliseconds == 0 {
        0
    } else {
        1000nat / (milliseconds as nat)
    };
    seq![76u8, 97, 115, 116, 58] + decimal(milliseconds as nat) + seq![109u8, 115, 32] + decimal(
        fps,
    ) + seq![70u8, 80, 83, 0]
}

/// Formats the latest complete render duration and its derived frame rate.
pub fn format_render_performance(milliseconds: u32) -> (text: Vec<u8>)
    ensures
        text@ == render_performance_text(milliseconds),
        text@.len() <= 24,
        text@.last() == 0u8,
{
    let mut text: Vec<u8> = vec![76, 97, 115, 116, 58];
    push_decimal(&mut text, milliseconds);
    text.push(109);
    text.push(115);
    text.push(32);
    let fps: u32 = if milliseconds == 0 {
        0
    } else {
        1000 / milliseconds
    };
    push_decimal(&mut text, fps);
    text.push(70);
    text.push(80);
    text.push(83);
    text.push(0);
    proof {
        decimal_length(milliseconds as nat);
        decimal_length(fps as nat);
        assert(pow10(4) == 10000 && pow10(3) == 1000 && pow10(1) == 10) by {
            reveal_with_fuel(pow10, 5);
        }
        if milliseconds < 1000 {
            decimal_length_bound(milliseconds as nat, 3);
            decimal_length_bound(fps as nat, 4);
        } else {
            assert(fps <= 1) by (nonlinear_arith)
                requires
                    fps == 1000int / (milliseconds as int),
                    milliseconds >= 1000,
            ;
            decimal_length_bound(fps as nat, 1);
        }
        assert(text@ =~= render_performance_text(milliseconds));
        assert(text@.len() == 5 + decimal(milliseconds as nat).len() + 3 + decimal(fps as nat).len() + 4);
    }
    text
}

/// Appends the six zero-padded fractional digits of `millionths`.
pub fn push_six_places(out: &mut Vec<u8>, millionths: u32)
    requires
        millionths < 1000000,
    ensures
        final(out)@ == old(out)@ + six_places(millionths as nat),
{
    out.push(48 + (millionths / 100000 % 10) as u8);
    out.push(48 + (millionths / 10000 % 10) as u8);
    out.push(48 + (millionths / 1000 % 10) as u8);
    out.push(48 + (millionths / 100 % 10) as u8);
    out.push(48 + (millionths / 10 % 10) as u8);
    out.push(48 + (millionths % 10) as u8);
    proof {
        assert(final(out)@ =~= old(out)@ + six_places(millionths as nat));
    }
}

/// Removes trailing `0` bytes, but never any of the first `keep` bytes.
pub fn trim_zeros_after(out: &mut Vec<u8>, keep: usize)
    requires
        keep <= old(out)@.len(),
    ensures
        final(out)@ == old(out)@.take(keep as int) + trim_trailing_zeros(
            old(out)@.skip(keep as int),
        ),
{
    let ghost original = out@;
    proof {
        assert(original =~= original.take(keep as int) + original.skip(keep as int));
    }
    while out.len() > keep && out[out.len() - 1] == 48
        invariant
            keep <= out@.len() <= original.len(),
            out@.take(keep as int) == original.take(keep as int),
            trim_trailing_zeros(out@.skip(keep as int)) == trim_trailing_zeros(
                original.skip(keep as int),
            ),
            out@ =~= out@.take(keep as int) + out@.skip(keep as int),
        decreases out@.len(),
    {
        let ghost before = out@;
        out.pop();
        proof {
            assert(before.skip(keep as int).drop_last() =~= out@.skip(keep as int));
            assert(out@.take(keep as int) =~= before.take(keep as int));
            assert(out@ =~= out@.take(keep as int) + out@.skip(keep as int));
        }
    }
    proof {
        assert(trim_trailing_zeros(out@.skip(keep as int)) == out@.skip(keep as int));
    }
}

/// Text of a tick label in a 12-byte buffer: an optional `-`, the integer
/// digits, then, when the rounded hundredths are not zero and room is left,
/// a `.` with the tens digit of the hundredths and, when not zero and room
/// is left, their units digit; then a NUL.
pub open spec fn tick_text(negative: bool, integer: u32, hundredths: u32) -> Seq<u8> {
    let head = (if negative {
        seq![45u8]
    } else {
        Seq::empty()
    }) + decimal(integer as nat);
    let fraction = if hundredths > 0 && head.len() + 2 < 12 {
        let tens = seq![46u8, (48 + hundredths / 10 % 10) as u8];
        if hundredths % 10 != 0 && head.len() + 3 < 12 {
            tens.push((48 + hundredths % 10) as u8)
        } else {
            tens
        }
    } else {
        Seq::empty()
    };
    head + fraction + seq![0u8]
}

/// Spells a tick label from its sign, integer part, and hundredths.
pub fn format_tick(negative: bool, integer: u32, hundredths: u32) -> (text: Vec<u8>)
    ensures
        text@ == tick_text(negative, integer, hundredths),
        text@.len() <= 12,
        text@.last() == 0u8,
{
    let mut text: Vec<u8> = Vec::new();
    if negative {
        text.push(45);
    }
    let ghost sign = text@;
    push_decimal(&mut text, integer);
    proof {
        decimal_length(integer as nat);
        assert(text@ =~= (if negative {
            seq![45u8]
        } else {
            Seq::empty()
        }) + decimal(integer as nat));
    }
    let ghost head = text@;
    if hundredths > 0 && text.len() + 2 < 12 {
        text.push(46);
        text.push(48 + (hundredths / 10 % 10) as u8);
        if hundredths % 10 != 0 && text.len() + 1 < 12 {
            text.push(48 + (hundredths % 10) as u8);
        }
    }
    let ghost shown = text@;
    text.push(0);
    proof {
        assert(shown =~= head + (if hundredths > 0 && head.len() + 2 < 12 {
            let tens = seq![46u8, (48 + hundredths / 10 % 10) as u8];
            if hundredths % 10 != 0 && head.len() + 3 < 12 {
                tens.push((48 + hundredths % 10) as u8)
            } else {
                tens
            }
        } else {
            Seq::empty()
        }));
        assert(text@ =~= tick_text(negative, integer, hundredths));
    }
    text
}

} // verus!
