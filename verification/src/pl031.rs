//! Emulated PL031 real-time clock. Time comes from the architectural
//! counter: the caller passes its current value (CNTVCT_EL0) and frequency
//! (CNTFRQ_EL0) with each access.

use vstd::prelude::*;

verus! {

/// Guest-physical base of the RTC.
pub const PL031_BASE: u64 = 0x0901_0000;
/// Size of the RTC window.
pub const PL031_SIZE: u64 = 0x1000;

pub const RTCDR: u64 = 0x000;
pub const RTCMR: u64 = 0x004;
pub const RTCLR: u64 = 0x008;
pub const RTCCR: u64 = 0x00C;
pub const RTCIMSC: u64 = 0x010;
pub const RTCRIS: u64 = 0x014;
pub const RTCMIS: u64 = 0x018;
pub const RTCICR: u64 = 0x01C;
pub const RTC_PERIPHID0: u64 = 0xFE0;
pub const RTC_PERIPHID1: u64 = 0xFE4;
pub const RTC_PERIPHID2: u64 = 0xFE8;
pub const RTC_PERIPHID3: u64 = 0xFEC;
pub const RTC_PCELLID0: u64 = 0xFF0;
pub const RTC_PCELLID1: u64 = 0xFF4;
pub const RTC_PCELLID2: u64 = 0xFF8;
pub const RTC_PCELLID3: u64 = 0xFFC;

/// Emulated RTC: time is the loaded epoch plus the seconds counted since.
#[derive(Clone, Copy, Debug)]
pub struct VirtualPl031 {
    /// Seconds loaded through RTCLR.
    pub load_value: u64,
    /// Counter value when it was loaded.
    pub load_counter: u64,
    pub match_value: u32,
    /// Bit 0: running.
    pub control: u32,
    pub imsc: u32,
    pub ris: u32,
}

/// Seconds elapsed from counter value `from` to `now` at `freq` ticks per
/// second (the counter may have wrapped).
pub open spec fn elapsed_seconds(from: u64, now: u64, freq: u64) -> u64 {
    (now.wrapping_sub(from) / freq) as u64
}

/// RTC time: frozen at the loaded value while stopped or without a counter
/// frequency.
pub open spec fn rtc_time(r: VirtualPl031, now: u64, freq: u64) -> int {
    if r.control & 1 == 0 || freq == 0 {
        r.load_value as int
    } else {
        r.load_value + elapsed_seconds(r.load_counter, now, freq)
    }
}

/// What a read of a register other than RTCDR returns.
pub open spec fn rtc_reg(r: VirtualPl031, offset: u64) -> u64 {
    if offset == RTCMR {
        r.match_value as u64
    } else if offset == RTCCR {
        r.control as u64
    } else if offset == RTCIMSC {
        r.imsc as u64
    } else if offset == RTCRIS {
        r.ris as u64
    } else if offset == RTCMIS {
        (r.ris & r.imsc) as u64
    } else if offset == RTC_PERIPHID0 {
        0x31
    } else if offset == RTC_PERIPHID1 {
        0x10
    } else if offset == RTC_PERIPHID2 {
        0x04
    } else if offset == RTC_PCELLID0 {
        0x0D
    } else if offset == RTC_PCELLID1 {
        0xF0
    } else if offset == RTC_PCELLID2 {
        0x05
    } else if offset == RTC_PCELLID3 {
        0xB1
    } else {
        0
    }
}

impl VirtualPl031 {
    /// A running RTC at time 0, counting from counter value `now`.
    pub fn new(now: u64) -> (r: Self)
        ensures
            r == (VirtualPl031 { load_value: 0, load_counter: now, match_value: 0, control: 1, imsc: 0, ris: 0 }),
    {
        VirtualPl031 { load_value: 0, load_counter: now, match_value: 0, control: 1, imsc: 0, ris: 0 }
    }

    /// Current time in seconds.
    pub fn current_time(&self, now: u64, freq: u64) -> (r: u64)
        requires
            rtc_time(*self, now, freq) <= u64::MAX,
        ensures
            r == rtc_time(*self, now, freq),
    {
        if self.control & 1 == 0 {
            return self.load_value;
        }
        if freq == 0 {
            return self.load_value;
        }
        let elapsed_ticks = now.wrapping_sub(self.load_counter);
        let elapsed_seconds = elapsed_ticks / freq;
        self.load_value + elapsed_seconds
    }

    /// A guest read; only 32-bit accesses read registers.
    pub fn read(&self, offset: u64, size: u8, now: u64, freq: u64) -> (r: Option<u64>)
        requires
            rtc_time(*self, now, freq) <= u64::MAX,
        ensures
            size != 4 ==> r == Some(0u64),
            size == 4 && offset == RTCDR ==> r == Some(rtc_time(*self, now, freq) as u64),
            size == 4 && offset != RTCDR ==> r == Some(rtc_reg(*self, offset)),
    {
        if size != 4 {
            return Some(0);
        }
        let value: u64 = if offset == RTCDR {
            self.current_time(now, freq)
        } else if offset == RTCMR {
            self.match_value as u64
        } else if offset == RTCCR {
            self.control as u64
        } else if offset == RTCIMSC {
            self.imsc as u64
        } else if offset == RTCRIS {
            self.ris as u64
        } else if offset == RTCMIS {
            (self.ris & self.imsc) as u64
        } else if offset == RTC_PERIPHID0 {
            0x31
        } else if offset == RTC_PERIPHID1 {
            0x10
        } else if offset == RTC_PERIPHID2 {
            0x04
        } else if offset == RTC_PCELLID0 {
            0x0D
        } else if offset == RTC_PCELLID1 {
            0xF0
        } else if offset == RTC_PCELLID2 {
            0x05
        } else if offset == RTC_PCELLID3 {
            0xB1
        } else {
            0
        };
        Some(value)
    }

    /// A guest write; only 32-bit accesses are accepted. Loading RTCLR sets
    /// the time (low 32 bits) counting from counter value `now`.
    pub fn write(&mut self, offset: u64, value: u64, size: u8, now: u64) -> (r: bool)
        ensures
            r == (size == 4),
            size != 4 ==> *final(self) == *old(self),
            size == 4 ==> *final(self) == (if offset == RTCMR {
                VirtualPl031 { match_value: value as u32, ..*old(self) }
            } else if offset == RTCLR {
                VirtualPl031 { load_value: value & 0xFFFF_FFFF, load_counter: now, ..*old(self) }
            } else if offset == RTCCR {
                VirtualPl031 { control: (value & 1) as u32, ..*old(self) }
            } else if offset == RTCIMSC {
                VirtualPl031 { imsc: (value & 1) as u32, ..*old(self) }
            } else if offset == RTCICR {
                VirtualPl031 { ris: old(self).ris & !(value as u32), ..*old(self) }
            } else {
                *old(self)
            }),
    {
        if size != 4 {
            return false;
        }
        if offset == RTCMR {
            self.match_value = value as u32;
        } else if offset == RTCLR {
            self.load_value = value & 0xFFFF_FFFF;
            self.load_counter = now;
        } else if offset == RTCCR {
            self.control = (value & 1) as u32;
        } else if offset == RTCIMSC {
            self.imsc = (value & 1) as u32;
        } else if offset == RTCICR {
            self.ris = self.ris & !(value as u32);
        }
        true
    }

    /// Base address of the RTC window.
    pub fn base_address(&self) -> (r: u64)
        ensures
            r == PL031_BASE,
    {
        PL031_BASE
    }

    /// Size of the RTC window.
    pub fn size(&self) -> (r: u64)
        ensures
            r == PL031_SIZE,
    {
        PL031_SIZE
    }
}

/// Right after the time is loaded, the RTC reads back the loaded value.
pub proof fn law_rtc_load_then_read(r: VirtualPl031, value: u64, now: u64, freq: u64)
    ensures
        rtc_time(VirtualPl031 { load_value: value & 0xFFFF_FFFF, load_counter: now, ..r }, now, freq)
            == value & 0xFFFF_FFFF,
{
    if !(r.control & 1 == 0 || freq == 0) {
        assert(now.wrapping_sub(now) == 0);
        assert(0u64 / freq == 0) by (nonlinear_arith) requires freq != 0;
    }
}

} // verus!
