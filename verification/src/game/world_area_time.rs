//! The clock of the game world.

use vstd::prelude::*;

use crate::util::singleton::DLRFLocatable;

verus! {

/// The singleton that keeps the time of the game world.
pub struct WorldAreaTime {
    pub unk0: u64,
    pub clock: WorldAreaTimeClock,
}

impl DLRFLocatable for WorldAreaTime {
    const DLRF_NAME: &'static str = "WorldAreaTime";
}

/// A date and a time of day, packed into one word. From the least
/// significant bit up: 12 bits of year, 10 of milliseconds, 4 of month, 3 of
/// day of the week, 5 of day, 5 of hours, 6 of minutes and 6 of seconds.
pub struct WorldAreaTimeClock(pub u64);

impl WorldAreaTimeClock {
    /// The year: the 12 bits from bit 0.
    pub fn year(&self) -> (year: u64)
        ensures
            year == self.0 % 0x1000,
    {
        let word = self.0;
        assert((word >> 0) & 0b111111111111 == word % 0x1000) by (bit_vector);
        (self.0 >> 00) & 0b111111111111
    }

    /// The milliseconds: the 10 bits from bit 12.
    pub fn milliseconds(&self) -> (milliseconds: u64)
        ensures
            milliseconds == (self.0 / 0x1000) % 0x400,
    {
        let word = self.0;
        assert((word >> 12) & 0b1111111111 == (word / 0x1000) % 0x400) by (bit_vector);
        (self.0 >> 12) & 0b1111111111
    }

    /// The month: the 4 bits from bit 22.
    pub fn month(&self) -> (month: u64)
        ensures
            month == (self.0 / 0x40_0000) % 0x10,
    {
        let word = self.0;
        assert((word >> 22) & 0b1111 == (word / 0x40_0000) % 0x10) by (bit_vector);
        (self.0 >> 22) & 0b1111
    }

    /// The day of the week: the 3 bits from bit 26.
    pub fn day_of_week(&self) -> (day_of_week: u64)
        ensures
            day_of_week == (self.0 / 0x400_0000) % 0x8,
    {
        let word = self.0;
        assert((word >> 26) & 0b111 == (word / 0x400_0000) % 0x8) by (bit_vector);
        (self.0 >> 26) & 0b111
    }

    /// The day of the month: the 5 bits from bit 29.
    pub fn day(&self) -> (day: u64)
        ensures
            day == (self.0 / 0x2000_0000) % 0x20,
    {
        let word = self.0;
        assert((word >> 29) & 0b11111 == (word / 0x2000_0000) % 0x20) by (bit_vector);
        (self.0 >> 29) & 0b11111
    }

    /// The hours: the 5 bits from bit 34.
    pub fn hours(&self) -> (hours: u64)
        ensures
            hours == (self.0 / 0x4_0000_0000) % 0x20,
    {
        let word = self.0;
        assert((word >> 34) & 0b11111 == (word / 0x4_0000_0000) % 0x20) by (bit_vector);
        (self.0 >> 34) & 0b11111
    }

    /// The minutes: the 6 bits from bit 39.
    pub fn minutes(&self) -> (minutes: u64)
        ensures
            minutes == (self.0 / 0x80_0000_0000) % 0x40,
    {
        let word = self.0;
        assert((word >> 39) & 0b111111 == (word / 0x80_0000_0000) % 0x40) by (bit_vector);
        (self.0 >> 39) & 0b111111
    }

    /// The seconds: the 6 bits from bit 45.
    pub fn seconds(&self) -> (seconds: u64)
        ensures
            seconds == (self.0 / 0x2000_0000_0000) % 0x40,
    {
        let word = self.0;
        assert((word >> 45) & 0b111111 == (word / 0x2000_0000_0000) % 0x40) by (bit_vector);
        (self.0 >> 45) & 0b111111
    }
}

} // verus!
