use vstd::prelude::*;

verus! {

/// The additive constant of the generator's state update.
pub const WY_ADD: u64 = 0xa0761d6478bd642f;

/// The xor constant of the generator's output mix.
pub const WY_XOR: u64 = 0xe7037ed1a0b428db;

/// Two to the 64th power: the size of the generator's state space.
pub const TWO_64: u128 = 0x1_0000_0000_0000_0000;

/// Two to the 32nd power: the size of the output space a draw is cut to.
pub const TWO_32: u64 = 0x1_0000_0000;

/// The generator's next state: the previous state plus `WY_ADD`, modulo 2^64.
pub open spec fn wyrand_state_next(s: u64) -> u64 {
    ((s + WY_ADD) % (TWO_64 as int)) as u64
}

/// The product the output mix folds: the state times the state xor `WY_XOR`.
pub open spec fn wyrand_prod(s: u64) -> u128 {
    ((s as u128) * ((s ^ WY_XOR) as u128)) as u128
}

/// The output for a given state: the high and low halves of the wide product
/// folded together with xor.
pub open spec fn wyrand_mix(s: u64) -> u64 {
    let t = wyrand_prod(s);
    ((((t >> 64) ^ t) as int) % (TWO_64 as int)) as u64
}

/// Advances the generator state by one step and returns the value drawn from
/// the new state. Deterministic in the state alone: the caller owns seeding.
pub fn next_u64(state: &mut u64) -> (r: u64)
    ensures
        *final(state) == wyrand_state_next(*old(state)),
        r == wyrand_mix(*final(state)),
{
    let wide: u128 = (*state as u128) + (WY_ADD as u128);
    let s1: u64 = (wide % TWO_64) as u64;
    *state = s1;
    let a: u128 = s1 as u128;
    let b: u128 = (s1 ^ WY_XOR) as u128;
    proof {
        assert(a * b <= 0xffffffffffffffffu128 * 0xffffffffffffffffu128) by (nonlinear_arith)
            requires
                a <= 0xffffffffffffffffu128,
                b <= 0xffffffffffffffffu128,
        ;
    }
    let t: u128 = a * b;
    let folded: u128 = (t >> 64u128) ^ t;
    (folded % TWO_64) as u64
}

/// One end of a requested range, as the original interface resolves it.
#[derive(Clone, Copy, Debug, PartialEq, Eq, Structural)]
pub enum RandBound {
    /// The named value itself is the tightest allowed.
    Included(i32),
    /// The value next to the named one is the tightest allowed.
    Excluded(i32),
    /// No constraint from this end.
    Unbounded,
}

/// Whether `b` resolves to a lower end at all; an exclusive lower bound of
/// `i32::MAX` asks for a number larger than every `i32`.
pub open spec fn has_min(b: RandBound) -> bool {
    match b {
        RandBound::Excluded(n) => n < i32::MAX,
        _ => true,
    }
}

/// Whether `b` resolves to an upper end at all; an exclusive upper bound of
/// `i32::MIN` asks for a number smaller than every `i32`.
pub open spec fn has_max(b: RandBound) -> bool {
    match b {
        RandBound::Excluded(n) => n > i32::MIN,
        _ => true,
    }
}

/// The smallest value the lower end admits.
pub open spec fn min_of(b: RandBound) -> i32
    recommends
        has_min(b),
{
    match b {
        RandBound::Included(n) => n,
        RandBound::Excluded(n) => (n + 1) as i32,
        RandBound::Unbounded => i32::MIN,
    }
}

/// The largest value the upper end admits.
pub open spec fn max_of(b: RandBound) -> i32
    recommends
        has_max(b),
{
    match b {
        RandBound::Included(n) => n,
        RandBound::Excluded(n) => (n - 1) as i32,
        RandBound::Unbounded => i32::MAX,
    }
}

/// Where a raw draw lands within `min ..= max`: the full `i32` domain
/// reinterprets the draw's low 32 bits as a signed number; a narrower range
/// reduces them modulo the range size and offsets the result by `min`.
pub open spec fn rand_in_range(raw: u64, min: i32, max: i32) -> i32
    recommends
        min <= max,
{
    let low = (raw as int) % (TWO_32 as int);
    if min == i32::MIN && max == i32::MAX {
        if low < 0x8000_0000 {
            low as i32
        } else {
            (low - (TWO_32 as int)) as i32
        }
    } else {
        (min + (low % (max - min + 1))) as i32
    }
}

/// Draws one number from the range the two bounds describe, advancing the
/// generator state exactly one step. The range must be satisfiable and
/// non-empty; on an empty range the original interface ends the process
/// instead.
pub fn random_number(state: &mut u64, start: RandBound, end: RandBound) -> (r: i32)
    requires
        has_min(start),
        has_max(end),
        min_of(start) <= max_of(end),
    ensures
        *final(state) == wyrand_state_next(*old(state)),
        r == rand_in_range(wyrand_mix(*final(state)), min_of(start), max_of(end)),
        min_of(start) <= r <= max_of(end),
{
    let min: i32 = match start {
        RandBound::Included(n) => n,
        RandBound::Excluded(n) => n + 1,
        RandBound::Unbounded => i32::MIN,
    };
    let max: i32 = match end {
        RandBound::Included(n) => n,
        RandBound::Excluded(n) => n - 1,
        RandBound::Unbounded => i32::MAX,
    };
    let raw = next_u64(state);
    let low: u64 = raw % TWO_32;
    if min == i32::MIN && max == i32::MAX {
        if low < 0x8000_0000 {
            low as i32
        } else {
            let shifted: i64 = (low as i64) - (TWO_32 as i64);
            shifted as i32
        }
    } else {
        let size: u64 = ((max as i64) - (min as i64) + 1) as u64;
        let off: u64 = low % size;
        let wide: i64 = (min as i64) + (off as i64);
        wide as i32
    }
}

} // verus!
