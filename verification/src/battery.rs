//! Turning ADC readings into millivolts, and the running value that the battery
//! task records.
use vstd::prelude::*;
use crate::storage::{StorageHandler, StoreView, datapoint_step};

verus! {

/// Splits a 16-bit value into its bytes, the high byte first.
pub fn u16_to_u8_array(value: u16) -> (bytes: [u8; 2])
    ensures
        bytes[0] as int * 256 + bytes[1] as int == value as int,
{
    let high_byte = (value >> 8) as u8;
    let low_byte = (value & 0xFF) as u8;
    assert(high_byte as int * 256 + low_byte as int == value as int) by (bit_vector)
        requires
            high_byte == (value >> 8) as u8,
            low_byte == (value & 0xFF) as u8,
    ;
    [high_byte, low_byte]
}

/// Scales a voltage to the ADC range: `v * 1100 / 4096`, then `* 10 / 110`, each
/// division rounding down.
pub fn volt_to_adc(v: u16) -> (out: u16)
    requires
        v * 1100 <= u16::MAX,
    ensures
        out == v * 1100 / 4096 * 10 / 110,
{
    let mut out = v * 1100 / 4096;
    out = out * 10 / 110;
    return out;
}

/// Millivolts at the battery for a raw ADC reading: the reading times 17.
pub fn adc_to_volt(adc: u16) -> (out: u16)
    requires
        adc * 17 <= u16::MAX,
    ensures
        out == adc * 17,
{
    let out: u16 = adc * 17;
    return out;
}

/// Division of integers as Rust performs it: the quotient rounded toward zero.
pub open spec fn div_toward_zero(a: int, b: int) -> int
    recommends
        b > 0,
{
    if a >= 0 {
        a / b
    } else {
        -((-a) / b)
    }
}

/// The charge level the battery task computes from millivolts:
/// `(millivolts - 3000) / 9`, rounded toward zero.
pub fn battery_percentage(millivolts: u16) -> (p: i32)
    ensures
        p == div_toward_zero(millivolts - 3000, 42 - 33),
{
    let battery_percentage: i32 = millivolts as i32 - 3000;
    battery_percentage / (42 - 33)
}

/// The running value after one reading of `millivolts`: where the charge level is
/// positive, the mean (rounded down) of the reading and the running value;
/// otherwise the running value unchanged.
pub open spec fn next_lowest(lowest: int, millivolts: int) -> int {
    if div_toward_zero(millivolts - 3000, 9) > 0 {
        (millivolts + lowest) / 2
    } else {
        lowest
    }
}

/// The running value of the battery task, which is what it records at each data
/// point. It always fits in a `u16`.
pub struct BatteryTracker {
    lowest: u32,
}

impl BatteryTracker {
    #[verifier::type_invariant]
    spec fn fits(self) -> bool {
        self.lowest <= u16::MAX
    }

    /// The running value, in millivolts.
    pub closed spec fn lowest(self) -> int {
        self.lowest as int
    }

    /// Starts from the first reading.
    pub fn new(first_raw: u16) -> (t: Self)
        requires
            first_raw * 17 <= u16::MAX,
        ensures
            t.lowest() == first_raw * 17,
    {
        let lowest: u32 = adc_to_volt(first_raw) as u32;
        BatteryTracker { lowest }
    }

    /// The running value, in millivolts.
    pub fn current(&self) -> (v: u16)
        ensures
            v == self.lowest(),
    {
        proof {
            use_type_invariant(self);
        }
        self.lowest as u16
    }

    /// Takes one raw reading into the running value and returns it in millivolts.
    pub fn observe(&mut self, raw: u16) -> (millivolts: u16)
        requires
            raw * 17 <= u16::MAX,
        ensures
            millivolts == raw * 17,
            final(self).lowest() == next_lowest(old(self).lowest(), millivolts as int),
    {
        proof {
            use_type_invariant(&*self);
        }
        let adc = adc_to_volt(raw);
        let level = battery_percentage(adc);
        if level > 0 {
            self.lowest = (adc as u32 + self.lowest) / 2;
        }
        adc
    }

    /// One round of the battery task: takes the reading, then, where the store says
    /// a data point is due at `now_secs`, stores the running value. Returns whether
    /// a value was stored (the store then has to be persisted).
    pub fn sample(&mut self, raw: u16, store: &mut StorageHandler, now_secs: u64) -> (stored: bool)
        requires
            raw * 17 <= u16::MAX,
            old(store)@.time > 0,
        ensures
            final(self).lowest() == next_lowest(old(self).lowest(), raw * 17),
            stored == datapoint_step(old(store)@, now_secs).1,
            final(store)@ == (if stored {
                StoreView {
                    time: old(store)@.time,
                    values: old(store)@.values.push(final(self).lowest() as u16),
                    was_set: true,
                }
            } else {
                datapoint_step(old(store)@, now_secs).0
            }),
    {
        self.observe(raw);
        let due = store.has_datapoint(now_secs);
        if due {
            let value = self.current();
            store.add_value(value);
        }
        due
    }
}

/// The running value never leaves the range of the readings that made it: it
/// lies between the smaller and the larger of the previous value and the reading.
pub proof fn law_lowest_between(lowest: int, millivolts: int)
    ensures
        next_lowest(lowest, millivolts) >= (if lowest < millivolts { lowest } else { millivolts }),
        next_lowest(lowest, millivolts) <= (if lowest < millivolts { millivolts } else { lowest }),
{
}

/// Readings below 3009 millivolts leave the running value alone.
pub proof fn law_low_readings_ignored(lowest: int, millivolts: int)
    requires
        0 <= millivolts < 3009,
    ensures
        next_lowest(lowest, millivolts) == lowest,
{
}

/// Readings of 3009 millivolts and more move the running value to the mean,
/// rounded down, of the reading and the previous value.
pub proof fn law_charged_readings_averaged(lowest: int, millivolts: int)
    requires
        millivolts >= 3009,
    ensures
        2 * next_lowest(lowest, millivolts) <= millivolts + lowest,
        millivolts + lowest < 2 * next_lowest(lowest, millivolts) + 2,
{
}

/// The charge level is `(millivolts - 3000) / 9` rounded toward zero: nine times it
/// lies within 9 of `millivolts - 3000`, on the side of zero.
pub proof fn law_percentage_rounds_toward_zero(millivolts: u16)
    ensures
        millivolts >= 3000 ==> 9 * div_toward_zero(millivolts - 3000, 9) <= millivolts - 3000 < 9
            * div_toward_zero(millivolts - 3000, 9) + 9,
        millivolts < 3000 ==> 9 * div_toward_zero(millivolts - 3000, 9) - 9 < millivolts - 3000 <= 9
            * div_toward_zero(millivolts - 3000, 9),
{
}

} // verus!
