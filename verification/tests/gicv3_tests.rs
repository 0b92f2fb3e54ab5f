use hypervisor::defs::{
    IRQ_DEFAULT_PRIORITY, LR_GROUP1_BIT, LR_PRIORITY_SHIFT, LR_STATE_MASK, LR_STATE_SHIFT, LR_VINTID_MASK,
};
use hypervisor::gicv3::{GicV3VirtualInterface, LR_STATE_ACTIVE, LR_STATE_PENDING};

#[test]
fn test_lr_format() {
    let intid = 27u32;
    let priority = IRQ_DEFAULT_PRIORITY;

    let lr_value = (LR_STATE_PENDING << LR_STATE_SHIFT)
        | LR_GROUP1_BIT
        | ((priority as u64) << LR_PRIORITY_SHIFT)
        | (intid as u64);

    let state = (lr_value >> LR_STATE_SHIFT) & LR_STATE_MASK;
    let group = (lr_value >> 60) & 0x1;
    let prio = ((lr_value >> LR_PRIORITY_SHIFT) & 0xFF) as u8;
    let intid_out = (lr_value & LR_VINTID_MASK) as u32;

    assert_eq!(state, 1);
    assert_eq!(group, 1);
    assert_eq!(prio, priority);
    assert_eq!(intid_out, intid);
}

#[test]
fn build_lr_round_trips_fields() {
    let lr = GicV3VirtualInterface::build_lr(27, 0xA0);
    assert_eq!(lr, (1u64 << 62) | (1u64 << 60) | (0xA0u64 << 48) | 27);
    assert_eq!(GicV3VirtualInterface::get_lr_state(lr), LR_STATE_PENDING);
    assert_eq!(GicV3VirtualInterface::get_lr_intid(lr), 27);
    assert_eq!(GicV3VirtualInterface::get_lr_priority(lr), 0xA0);
}

#[test]
fn num_list_registers_from_vtr() {
    assert_eq!(GicV3VirtualInterface::num_list_registers(3), 4);
    assert_eq!(GicV3VirtualInterface::num_list_registers(0xFFFF_FFE0), 1);
}

#[test]
fn inject_fills_first_free_register_then_fails() {
    let mut lrs = vec![0u64; 2];
    assert!(GicV3VirtualInterface::inject_interrupt(&mut lrs, 27, 0xA0).is_ok());
    assert!(GicV3VirtualInterface::inject_interrupt(&mut lrs, 33, 0x80).is_ok());
    assert_eq!(GicV3VirtualInterface::get_lr_intid(lrs[0]), 27);
    assert_eq!(GicV3VirtualInterface::get_lr_intid(lrs[1]), 33);
    assert_eq!(GicV3VirtualInterface::pending_count(&lrs), 2);
    let before = lrs.clone();
    assert!(GicV3VirtualInterface::inject_interrupt(&mut lrs, 40, 0xA0).is_err());
    assert_eq!(lrs, before);
    assert_eq!(GicV3VirtualInterface::find_free_lr(&lrs), None);
}

#[test]
fn clear_interrupt_frees_its_register() {
    let mut lrs = vec![0u64; 4];
    GicV3VirtualInterface::inject_interrupt(&mut lrs, 27, 0xA0).unwrap();
    GicV3VirtualInterface::inject_interrupt(&mut lrs, 30, 0xA0).unwrap();
    GicV3VirtualInterface::clear_interrupt(&mut lrs, 27);
    assert_eq!(lrs[0], 0);
    assert_eq!(GicV3VirtualInterface::find_free_lr(&lrs), Some(0));
    assert_eq!(GicV3VirtualInterface::pending_count(&lrs), 1);
}

#[test]
fn hw_injection_drops_stale_active_entry() {
    let stale = (LR_STATE_ACTIVE << 62) | 27;
    let mut lrs = vec![stale, 0];
    GicV3VirtualInterface::inject_hw_interrupt(&mut lrs, 27, 27, 0xA0).unwrap();
    assert_eq!(GicV3VirtualInterface::get_lr_intid(lrs[0]), 27);
    assert_eq!(GicV3VirtualInterface::get_lr_state(lrs[0]), LR_STATE_PENDING);
    assert_ne!(lrs[0] & (1u64 << 61), 0);
    assert_eq!(lrs[1], 0);
}

#[test]
fn gicv3_availability_from_pfr0() {
    assert!(GicV3VirtualInterface::is_available(1 << 24));
    assert!(!GicV3VirtualInterface::is_available(0));
}
