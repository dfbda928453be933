use vstd::prelude::*;

use crate::error::Error;

verus! {

/// The unsigned value of the four little-endian bytes at position `i`.
pub open spec fn le32_at(buf: Seq<u8>, i: int) -> u32 {
    (buf[i] + buf[i + 1] * 0x100 + buf[i + 2] * 0x1_0000 + buf[i + 3] * 0x100_0000) as u32
}

/// The signed value a 32-bit displacement field encodes (two's complement).
pub open spec fn disp_value(d: u32) -> int {
    if d >= 0x8000_0000 {
        d - 0x1_0000_0000
    } else {
        d as int
    }
}

/// The absolute address a relative displacement targets: the base plus the
/// match offset plus the instruction length plus the displacement, wrapped
/// to the 64-bit address space.
pub open spec fn resolved_target(base: u64, match_off: int, ilen: int, disp: int) -> int {
    (base + match_off + ilen + disp) % 0x1_0000_0000_0000_0000
}

/// A 64-bit value congruent to `x` modulo 2^64 equals `x % 2^64`.
proof fn lemma_wrap64(t: u64, x: int, k: int)
    requires
        t == x + k * 0x1_0000_0000_0000_0000,
    ensures
        t == x % 0x1_0000_0000_0000_0000,
{
    vstd::arithmetic::div_mod::lemma_mod_multiples_vanish(k, x, 0x1_0000_0000_0000_0000);
    vstd::arithmetic::div_mod::lemma_small_mod(t as nat, 0x1_0000_0000_0000_0000);
}

/// Interprets the bytes at the matched offset as an instruction with a
/// 4-byte little-endian signed displacement starting `disp_off` bytes into
/// the match, and computes the absolute address it targets. The displacement
/// is read from the local snapshot. Fails with `TruncatedMatch` exactly when
/// the match sits too close to the end of the buffer to hold the field.
pub fn resolve_target(buf: &Vec<u8>, match_off: usize, disp_off: usize, ilen: usize, base: u64) -> (r:
    Result<u64, Error>)
    ensures
        match r {
            Ok(t) => match_off + disp_off + 4 <= buf@.len() && t == resolved_target(
                base,
                match_off as int,
                ilen as int,
                disp_value(le32_at(buf@, match_off + disp_off)),
            ),
            Err(e) => e == Error::TruncatedMatch && match_off + disp_off + 4 > buf@.len(),
        },
{
    let len = buf.len();
    if len < 4 || match_off > len - 4 || disp_off > len - 4 - match_off {
        return Err(Error::TruncatedMatch);
    }
    let p = match_off + disp_off;
    let d: u32 = (buf[p] as u32) + (buf[p + 1] as u32) * 0x100 + (buf[p + 2] as u32) * 0x1_0000 + (
    buf[p + 3] as u32) * 0x100_0000;
    let s1: u64 = base.wrapping_add(match_off as u64).wrapping_add(ilen as u64);
    let t: u64 = if d >= 0x8000_0000 {
        s1.wrapping_sub(0x1_0000_0000u64 - (d as u64))
    } else {
        s1.wrapping_add(d as u64)
    };
    proof {
        assert(d == le32_at(buf@, p as int));
        let x = base + match_off + ilen + disp_value(d);
        let m = 0x1_0000_0000_0000_0000int;
        if t == x {
            lemma_wrap64(t, x, 0);
        } else if t == x - m {
            lemma_wrap64(t, x, -1);
        } else if t == x - 2 * m {
            lemma_wrap64(t, x, -2);
        } else if t == x - 3 * m {
            lemma_wrap64(t, x, -3);
        } else {
            assert(t == x + m);
            lemma_wrap64(t, x, 1);
        }
    }
    Ok(t)
}

} // verus!
