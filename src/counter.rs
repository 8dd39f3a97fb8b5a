use vstd::prelude::*;

verus! {

/// The upper 32 bits of a counter value.
pub open spec fn high_half(v: u64) -> u32 {
    (v / 0x1_0000_0000) as u32
}

/// The lower 32 bits of a counter value.
pub open spec fn low_half(v: u64) -> u32 {
    (v % 0x1_0000_0000) as u32
}

/// The counter value made of two halves.
pub open spec fn joined(hi: u32, lo: u32) -> u64 {
    (hi * 0x1_0000_0000 + lo) as u64
}

/// One attempt at reading the split counter: the upper half, then the lower
/// half, then the upper half again. When both upper reads agree the attempt
/// gives the counter value; otherwise the lower half rolled over in between and
/// the attempt must be repeated.
pub fn combine_read(hi: u32, lo: u32, hi2: u32) -> (r: Option<u64>)
    ensures
        r == (if hi == hi2 { Some(joined(hi, lo)) } else { None::<u64> }),
{
    if hi == hi2 {
        let v: u64 = (hi as u64) << 32u64 | (lo as u64);
        assert(v == (hi as u64) * 0x1_0000_0000 + (lo as u64)) by (bit_vector)
            requires v == (hi as u64) << 32u64 | (lo as u64), hi <= u32::MAX, lo <= u32::MAX;
        Some(v)
    } else {
        None
    }
}

/// Splits a seed time into the upper and lower halves to load into the
/// counter; `None` for a negative time, which the counter cannot hold.
pub fn split_time(cur_time: i64) -> (r: Option<(u32, u32)>)
    ensures
        r is Some <==> cur_time >= 0,
        r matches Some((hi, lo)) ==> hi == high_half(cur_time as u64) && lo == low_half(cur_time as u64)
            && joined(hi, lo) == cur_time,
{
    if cur_time < 0 {
        return None;
    }
    let unsigned: u64 = cur_time as u64;
    let hi = (unsigned >> 32u64) as u32;
    let lo = unsigned as u32;
    assert(hi == unsigned / 0x1_0000_0000) by (bit_vector)
        requires hi == (unsigned >> 32u64) as u32;
    assert(lo == unsigned % 0x1_0000_0000) by (bit_vector)
        requires lo == unsigned as u32;
    Some((hi, lo))
}

/// Counter ticks per microsecond for a reference clock of `ref_freq` Hz.
pub fn ticks_per_microsecond(ref_freq: u32) -> (r: u32)
    ensures
        r == ref_freq / 1_000_000,
{
    ref_freq / 1_000_000
}

/// A read whose two upper halves agree gives exactly the value the counter
/// held when its lower half was read, provided the counter did not go
/// backwards between the three register reads (`c0`, `c1`, `c2`).
pub proof fn lemma_consistent_read(c0: u64, c1: u64, c2: u64)
    requires
        c0 <= c1 <= c2,
        high_half(c0) == high_half(c2),
    ensures
        combine_read_value(c0, c1, c2) == Some(c1),
{
    assert(high_half(c0) <= high_half(c1) <= high_half(c2)) by (nonlinear_arith)
        requires c0 <= c1 <= c2;
}

/// What one read attempt gives when the upper half is read while the counter
/// holds `c0`, the lower half at `c1` and the upper half again at `c2`.
pub open spec fn combine_read_value(c0: u64, c1: u64, c2: u64) -> Option<u64> {
    if high_half(c0) == high_half(c2) { Some(joined(high_half(c0), low_half(c1))) } else { None }
}

/// Two successful reads in a row, on a counter that never goes backwards and
/// with no write between them, never give a decreasing value.
pub proof fn lemma_reads_never_decrease(a0: u64, a1: u64, a2: u64, b0: u64, b1: u64, b2: u64)
    requires
        a0 <= a1 <= a2 <= b0 <= b1 <= b2,
        combine_read_value(a0, a1, a2) is Some,
        combine_read_value(b0, b1, b2) is Some,
    ensures
        combine_read_value(a0, a1, a2)->0 <= combine_read_value(b0, b1, b2)->0,
{
    lemma_consistent_read(a0, a1, a2);
    lemma_consistent_read(b0, b1, b2);
}

/// After the counter is loaded with the halves of `t` it counts up from `t`,
/// so a successful read that follows gives at least `t`.
pub proof fn lemma_read_after_write(t: i64, c0: u64, c1: u64, c2: u64)
    requires
        t >= 0,
        joined(high_half(t as u64), low_half(t as u64)) <= c0 <= c1 <= c2,
        combine_read_value(c0, c1, c2) is Some,
    ensures
        joined(high_half(t as u64), low_half(t as u64)) == t,
        combine_read_value(c0, c1, c2)->0 >= t,
{
    lemma_consistent_read(c0, c1, c2);
}

} // verus!
