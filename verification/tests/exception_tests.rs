use hypervisor::exception::{
    emulate_mrs, handle_hypercall_with_imm, handle_jailhouse_debug_console, handle_psci, note_exception,
    reset_exception_counters, ExceptionCounters, HvcEffect, JAILHOUSE_HC_DEBUG_CONSOLE_GETC,
    JAILHOUSE_HC_DEBUG_CONSOLE_PUTC, JAILHOUSE_HVC_IMMEDIATE, MAX_CONSECUTIVE_EXCEPTIONS, PSCI_AFFINITY_INFO_64,
    PSCI_CPU_OFF, PSCI_CPU_ON_64, PSCI_CPU_SUSPEND_32, PSCI_FEATURES, PSCI_MIGRATE_INFO_TYPE, PSCI_NOT_SUPPORTED,
    PSCI_SUCCESS, PSCI_SYSTEM_OFF, PSCI_VERSION, PSCI_VERSION_0_2,
};
use hypervisor::devices::{Device, MmioEffect};
use hypervisor::exception::{handle_exception, TrapEffect, TrapInfo};
use hypervisor::global::{GlobalDeviceManager, VmGlobalState};
use hypervisor::pl011::{VirtualUart, UART_BASE};
use hypervisor::regs::{GeneralPurposeRegs, VcpuContext};

fn regs(x: &[u64]) -> GeneralPurposeRegs {
    let mut r = GeneralPurposeRegs::zeroed();
    for (i, v) in x.iter().enumerate() {
        r.x[i] = *v;
    }
    r
}

#[test]
fn psci_version_features_and_migrate() {
    let mut vm = VmGlobalState::new();
    let mut r = regs(&[PSCI_VERSION]);
    assert!(handle_psci(&mut r, PSCI_VERSION, &mut vm));
    assert_eq!(r.x[0], PSCI_VERSION_0_2);
    let mut r = regs(&[PSCI_FEATURES, PSCI_CPU_ON_64]);
    assert!(handle_psci(&mut r, PSCI_FEATURES, &mut vm));
    assert_eq!(r.x[0], PSCI_SUCCESS);
    let mut r = regs(&[PSCI_FEATURES, PSCI_MIGRATE_INFO_TYPE]);
    assert!(handle_psci(&mut r, PSCI_FEATURES, &mut vm));
    assert_eq!(r.x[0], PSCI_NOT_SUPPORTED);
    let mut r = regs(&[PSCI_MIGRATE_INFO_TYPE]);
    assert!(handle_psci(&mut r, PSCI_MIGRATE_INFO_TYPE, &mut vm));
    assert_eq!(r.x[0], 2);
    let mut r = regs(&[PSCI_CPU_SUSPEND_32]);
    assert!(handle_psci(&mut r, PSCI_CPU_SUSPEND_32, &mut vm));
    assert_eq!(r.x[0], PSCI_SUCCESS);
    let mut r = regs(&[0x8400_00AA]);
    assert!(handle_psci(&mut r, 0x8400_00AA, &mut vm));
    assert_eq!(r.x[0], PSCI_NOT_SUPPORTED);
}

#[test]
fn psci_cpu_on_posts_request_once() {
    let mut vm = VmGlobalState::new();
    let mut r = regs(&[PSCI_CPU_ON_64, 1, 0x4008_0000, 0x77]);
    assert!(!handle_psci(&mut r, PSCI_CPU_ON_64, &mut vm));
    assert_eq!(r.x[0], PSCI_SUCCESS);
    assert_eq!(vm.pending_cpu_on.take(), Some((1, 0x4008_0000, 0x77)));
    assert_eq!(vm.pending_cpu_on.take(), None);
}

#[test]
fn psci_affinity_and_off() {
    let mut vm = VmGlobalState::new();
    vm.vcpu_online_mask = 0b101;
    let mut r = regs(&[PSCI_AFFINITY_INFO_64, 2]);
    assert!(handle_psci(&mut r, PSCI_AFFINITY_INFO_64, &mut vm));
    assert_eq!(r.x[0], 0);
    let mut r = regs(&[PSCI_AFFINITY_INFO_64, 1]);
    assert!(handle_psci(&mut r, PSCI_AFFINITY_INFO_64, &mut vm));
    assert_eq!(r.x[0], 1);
    let mut r = regs(&[PSCI_CPU_OFF]);
    assert!(!handle_psci(&mut r, PSCI_CPU_OFF, &mut vm));
    assert_eq!(r.x[0], PSCI_SUCCESS);
    let mut r = regs(&[PSCI_SYSTEM_OFF]);
    assert!(!handle_psci(&mut r, PSCI_SYSTEM_OFF, &mut vm));
}

#[test]
fn jailhouse_console() {
    let mut r = regs(&[JAILHOUSE_HC_DEBUG_CONSOLE_PUTC, 0x141]);
    let (cont, e) = handle_jailhouse_debug_console(&mut r, None);
    assert!(cont);
    assert!(e == HvcEffect::PutChar(0x41));
    assert_eq!(r.x[0], 0);
    let mut r = regs(&[JAILHOUSE_HC_DEBUG_CONSOLE_GETC]);
    let (_, e) = handle_jailhouse_debug_console(&mut r, Some(b'z'));
    assert!(e == HvcEffect::Nothing);
    assert_eq!(r.x[0], b'z' as u64);
    let mut r = regs(&[JAILHOUSE_HC_DEBUG_CONSOLE_GETC]);
    handle_jailhouse_debug_console(&mut r, None);
    assert_eq!(r.x[0], u64::MAX);
}

#[test]
fn hypercall_numbers() {
    let mut vm = VmGlobalState::new();
    let mut r = regs(&[0, b'!' as u64]);
    let (cont, e) = handle_hypercall_with_imm(&mut r, 0, None, &mut vm);
    assert!(cont && e == HvcEffect::PutChar(b'!'));
    let mut r = regs(&[1]);
    let (cont, _) = handle_hypercall_with_imm(&mut r, 0, None, &mut vm);
    assert!(!cont);
    assert_eq!(r.x[0], 0);
    let mut r = regs(&[7]);
    let (cont, _) = handle_hypercall_with_imm(&mut r, 0, None, &mut vm);
    assert!(!cont);
    assert_eq!(r.x[0], u64::MAX);
    let mut r = regs(&[PSCI_VERSION]);
    let (cont, _) = handle_hypercall_with_imm(&mut r, 0, None, &mut vm);
    assert!(cont);
    assert_eq!(r.x[0], PSCI_VERSION_0_2);
    let mut r = regs(&[JAILHOUSE_HC_DEBUG_CONSOLE_PUTC, b'a' as u64]);
    let (_, e) = handle_hypercall_with_imm(&mut r, JAILHOUSE_HVC_IMMEDIATE, None, &mut vm);
    assert!(e == HvcEffect::PutChar(b'a'));
}

#[test]
fn mrs_emulation() {
    assert_eq!(emulate_mrs(2, 0, 0, 2, 2, 0x1234), 0x1234);
    assert_eq!(emulate_mrs(2, 0, 1, 1, 4, 0x1234), 8);
    assert_eq!(emulate_mrs(3, 0, 1, 0, 0, 0x1234), 0);
}

#[test]
fn exception_storm_detection() {
    let mut c = ExceptionCounters::new();
    for _ in 0..MAX_CONSECUTIVE_EXCEPTIONS {
        assert!(!note_exception(&mut c));
    }
    assert!(note_exception(&mut c));
    reset_exception_counters(&mut c);
    assert_eq!(c.exception_count, 0);
    assert!(!note_exception(&mut c));
}

fn trap(esr: u64, ipa: u64) -> TrapInfo {
    TrapInfo { esr, far: ipa & 0xFFF, hpfar: ipa >> 8, insn: 0, vtimer_pending: false, uart_rx: None, mdscr: 0 }
}

fn vm_with_uart() -> GlobalDeviceManager {
    let mut g = GlobalDeviceManager::new();
    g.register_device(Device::Uart(VirtualUart::new()));
    g
}

#[test]
fn exception_hvc_prints() {
    let mut c = ExceptionCounters::new();
    let mut ctx = VcpuContext::new(0x4000_0000, 0x4800_0000);
    ctx.gp_regs.x[0] = 0;
    ctx.gp_regs.x[1] = b'Z' as u64;
    let mut vm = VmGlobalState::new();
    let mut dev = vm_with_uart();
    let mut lrs = vec![0u64; 4];
    let out = handle_exception(&mut c, &mut ctx, &trap(0x16 << 26, 0), &mut vm, &mut dev, &mut lrs);
    assert!(out.resume && !out.halt);
    assert!(out.effect == TrapEffect::Hvc(HvcEffect::PutChar(b'Z')));
    assert_eq!(ctx.pc, 0x4000_0000);
    assert_eq!(ctx.sys_regs.esr_el2, 0x16 << 26);
}

#[test]
fn exception_data_abort_from_guest_reaches_uart() {
    let mut c = ExceptionCounters::new();
    let mut ctx = VcpuContext::new(0x4000_0000, 0x4800_0000);
    ctx.gp_regs.x[5] = b'Q' as u64;
    let mut vm = VmGlobalState::new();
    let mut dev = vm_with_uart();
    let mut lrs = vec![0u64; 4];
    let esr = (0x24 << 26) | (1 << 24) | (2 << 22) | (5 << 16) | (1 << 6);
    let out = handle_exception(&mut c, &mut ctx, &trap(esr, UART_BASE), &mut vm, &mut dev, &mut lrs);
    assert!(out.resume);
    assert!(out.effect == TrapEffect::Mmio(MmioEffect::UartTx(b'Q')));
    assert_eq!(ctx.pc, 0x4000_0004);
}

#[test]
fn exception_instruction_abort_stops_guest() {
    let mut c = ExceptionCounters::new();
    let mut ctx = VcpuContext::new(0x4000_0000, 0x4800_0000);
    let mut vm = VmGlobalState::new();
    let mut dev = vm_with_uart();
    let mut lrs = vec![0u64; 4];
    let out = handle_exception(&mut c, &mut ctx, &trap(0x20 << 26, 0), &mut vm, &mut dev, &mut lrs);
    assert!(!out.resume && !out.halt);
    assert!(out.effect == TrapEffect::Nothing);
    assert_eq!(ctx.pc, 0x4000_0000);
}

#[test]
fn exception_fp_trap_is_skipped_and_storm_halts() {
    let mut c = ExceptionCounters::new();
    let mut ctx = VcpuContext::new(0x4000_0000, 0x4800_0000);
    let mut vm = VmGlobalState::new();
    let mut dev = vm_with_uart();
    let mut lrs = vec![0u64; 4];
    let out = handle_exception(&mut c, &mut ctx, &trap(0x07 << 26, 0), &mut vm, &mut dev, &mut lrs);
    assert!(out.resume);
    assert_eq!(ctx.pc, 0x4000_0004);
    c.exception_count = MAX_CONSECUTIVE_EXCEPTIONS;
    let out = handle_exception(&mut c, &mut ctx, &trap(0x07 << 26, 0), &mut vm, &mut dev, &mut lrs);
    assert!(out.halt && !out.resume);
}
