//! The EL1 virtual timer: control values and a readable summary.

use vstd::prelude::*;
use crate::console::{dec_digits, hex16, push_all, uart_put_hex, uart_put_u64};

verus! {

pub const TIMER_ENABLE: u64 = 1;
pub const TIMER_IMASK: u64 = 2;
pub const TIMER_ISTATUS: u64 = 4;

/// A virtual timer register write.
#[derive(Clone, Copy, Debug, PartialEq, Eq, Structural)]
pub enum TimerWrite {
    /// CNTV_CTL_EL0.
    Ctl(u64),
    /// CNTV_TVAL_EL0.
    Tval(u32),
}

/// Start the timer `ticks` from now: stop it, load the count, enable it.
pub fn enable_timer(ticks: u32) -> (r: Vec<TimerWrite>)
    ensures
        r@ == seq![TimerWrite::Ctl(0), TimerWrite::Tval(ticks), TimerWrite::Ctl(TIMER_ENABLE)],
{
    let mut w: Vec<TimerWrite> = Vec::new();
    w.push(TimerWrite::Ctl(0));
    w.push(TimerWrite::Tval(ticks));
    w.push(TimerWrite::Ctl(TIMER_ENABLE));
    assert(w@ =~= seq![TimerWrite::Ctl(0), TimerWrite::Tval(ticks), TimerWrite::Ctl(TIMER_ENABLE)]);
    w
}

/// Stop the timer.
pub fn disable_timer() -> (r: Vec<TimerWrite>)
    ensures
        r@ == seq![TimerWrite::Ctl(0)],
{
    let mut w: Vec<TimerWrite> = Vec::new();
    w.push(TimerWrite::Ctl(0));
    assert(w@ =~= seq![TimerWrite::Ctl(0)]);
    w
}

/// The timer condition is met (ISTATUS) in control value `ctl`.
pub fn is_pending(ctl: u64) -> (r: bool)
    ensures
        r == (ctl & TIMER_ISTATUS != 0),
{
    ctl & TIMER_ISTATUS != 0
}

/// The timer is enabled, its condition met, and it is not masked.
pub fn is_guest_vtimer_pending(ctl: u64) -> (r: bool)
    ensures
        r == (ctl & TIMER_ENABLE != 0 && ctl & TIMER_ISTATUS != 0 && ctl & TIMER_IMASK == 0),
{
    ctl & TIMER_ENABLE != 0 && ctl & TIMER_ISTATUS != 0 && ctl & TIMER_IMASK == 0
}

/// The control value with the interrupt masked.
pub fn mask_guest_vtimer(ctl: u64) -> (r: u64)
    ensures
        r == ctl | TIMER_IMASK,
{
    ctl | TIMER_IMASK
}

/// The summary printed for the timer: frequency and counter in decimal,
/// control in hex.
pub open spec fn timer_info_text(freq: u64, count: u64, ctl: u64) -> Seq<u8> {
    seq![0x5Bu8, 0x54u8, 0x49u8, 0x4Du8, 0x45u8, 0x52u8, 0x5Du8, 0x20u8, 0x46u8, 0x72u8, 0x65u8, 0x71u8, 0x75u8, 0x65u8, 0x6Eu8, 0x63u8, 0x79u8, 0x3Au8, 0x20u8] + dec_digits(freq) + seq![0x20u8, 0x48u8, 0x7Au8, 0x0Au8] + seq![0x5Bu8, 0x54u8, 0x49u8, 0x4Du8, 0x45u8, 0x52u8, 0x5Du8, 0x20u8, 0x43u8, 0x6Fu8, 0x75u8, 0x6Eu8, 0x74u8, 0x65u8, 0x72u8, 0x3Au8, 0x20u8] + dec_digits(count) + seq![0x0Au8] + seq![0x5Bu8, 0x54u8, 0x49u8, 0x4Du8, 0x45u8, 0x52u8, 0x5Du8, 0x20u8, 0x43u8, 0x6Fu8, 0x6Eu8, 0x74u8, 0x72u8, 0x6Fu8, 0x6Cu8, 0x3Au8, 0x20u8, 0x30u8, 0x78u8] + hex16(ctl) + seq![0x0Au8]
}

/// The text that prints the timer's frequency, counter and control.
pub fn print_timer_info(freq: u64, count: u64, ctl: u64) -> (r: Vec<u8>)
    ensures
        r@ == timer_info_text(freq, count, ctl),
{
    let mut v: Vec<u8> = Vec::new();
    push_all(&mut v, &[0x5Bu8, 0x54u8, 0x49u8, 0x4Du8, 0x45u8, 0x52u8, 0x5Du8, 0x20u8, 0x46u8, 0x72u8, 0x65u8, 0x71u8, 0x75u8, 0x65u8, 0x6Eu8, 0x63u8, 0x79u8, 0x3Au8, 0x20u8]);
    let d = uart_put_u64(freq);
    push_all(&mut v, d.as_slice());
    push_all(&mut v, &[0x20u8, 0x48u8, 0x7Au8, 0x0Au8]);
    push_all(&mut v, &[0x5Bu8, 0x54u8, 0x49u8, 0x4Du8, 0x45u8, 0x52u8, 0x5Du8, 0x20u8, 0x43u8, 0x6Fu8, 0x75u8, 0x6Eu8, 0x74u8, 0x65u8, 0x72u8, 0x3Au8, 0x20u8]);
    let d = uart_put_u64(count);
    push_all(&mut v, d.as_slice());
    push_all(&mut v, &[0x0Au8]);
    push_all(&mut v, &[0x5Bu8, 0x54u8, 0x49u8, 0x4Du8, 0x45u8, 0x52u8, 0x5Du8, 0x20u8, 0x43u8, 0x6Fu8, 0x6Eu8, 0x74u8, 0x72u8, 0x6Fu8, 0x6Cu8, 0x3Au8, 0x20u8, 0x30u8, 0x78u8]);
    let h = uart_put_hex(ctl);
    push_all(&mut v, &h);
    push_all(&mut v, &[0x0Au8]);
    assert(v@ =~= timer_info_text(freq, count, ctl));
    v
}

} // verus!
