use hypervisor::ffa::stage2_walker::Stage2Walker;
use hypervisor::mmu::{DynamicIdentityMapper, MemoryAttribute};
use hypervisor::secure_stage2::{build_sp_stage2, SP_UART_BASE};
use hypervisor::table_store::{TableStore, TlbOp};

fn setup() -> (TableStore, DynamicIdentityMapper, Stage2Walker) {
    let mut store = TableStore::new(0x4000_0000, 16);
    let mapper = DynamicIdentityMapper::new(&mut store);
    let walker = Stage2Walker::from_vttbr(mapper.vttbr());
    (store, mapper, walker)
}

#[test]
fn walker_map_read_and_unmap_page() {
    let (mut store, _m, w) = setup();
    assert!(w.has_stage2());
    let ipa = 0x4010_3000;
    assert_eq!(w.read_sw_bits(&store, ipa), None);
    assert_eq!(w.map_page(&mut store, ipa, 3, 2), Ok(()));
    assert_eq!(w.read_sw_bits(&store, ipa), Some(2));
    assert_eq!(w.read_s2ap(&store, ipa), Some(3));
    assert_eq!(w.read_sw_bits(&store, ipa + 0x1000), None);
    assert_eq!(w.map_page(&mut store, ipa, 1, 1), Err("L3 entry already mapped"));
    assert_eq!(w.set_s2ap(&mut store, ipa, 1), Ok(()));
    assert_eq!(w.read_s2ap(&store, ipa), Some(1));
    assert_eq!(w.read_sw_bits(&store, ipa), Some(2));
    assert_eq!(w.write_sw_bits(&mut store, ipa, 1), Ok(()));
    assert_eq!(w.read_sw_bits(&store, ipa), Some(1));
    assert_eq!(w.read_s2ap(&store, ipa), Some(1));
    assert_eq!(w.unmap_page(&mut store, ipa), Ok(()));
    assert_eq!(w.read_sw_bits(&store, ipa), None);
    assert_eq!(w.unmap_page(&mut store, ipa), Err("IPA not mapped as 4KB page"));
    assert_eq!(w.write_sw_bits(&mut store, ipa, 1), Err("IPA not mapped"));
}

#[test]
fn walker_map_page_invalidates_the_ipa() {
    let (mut store, _m, w) = setup();
    let _ = store.take_tlb_ops();
    assert_eq!(w.map_page(&mut store, 0x4020_0000, 3, 0), Ok(()));
    let ops = store.take_tlb_ops();
    assert_eq!(ops.last(), Some(&TlbOp::Ipa(0x4020_0000 >> 12)));
}

#[test]
fn walker_refuses_pages_inside_blocks_and_splits() {
    let (mut store, mut m, w) = setup();
    assert_eq!(m.map_region(&mut store, 0x4000_0000, 0x20_0000, MemoryAttribute::Normal), Ok(()));
    assert_eq!(w.map_page(&mut store, 0x4000_1000, 3, 0), Err("L2 entry is a 2MB block"));
    assert_eq!(w.read_sw_bits(&store, 0x4000_1000), Some(0));
    assert_eq!(w.write_sw_bits(&mut store, 0x4000_1000, 2), Ok(()));
    assert_eq!(w.read_sw_bits(&store, 0x4000_1000), Some(2));
    assert_eq!(w.read_sw_bits(&store, 0x4000_2000), Some(0));
    assert_eq!(w.read_s2ap(&store, 0x4000_2000), w.read_s2ap(&store, 0x4000_1000));
}

#[test]
fn mapper_4kb_page_and_sw_bits() {
    let (mut store, mut m, _w) = setup();
    assert_eq!(m.map_4kb_page(&mut store, 0x4030_5000, MemoryAttribute::Device), Ok(()));
    assert_eq!(m.read_sw_bits(&store, 0x4030_5000), Some(0));
    assert_eq!(m.write_sw_bits(&mut store, 0x4030_5000, 3), Ok(()));
    assert_eq!(m.read_sw_bits(&store, 0x4030_5000), Some(3));
    assert_eq!(m.unmap_4kb_page(&mut store, 0x4030_5000), Ok(()));
    assert_eq!(m.read_sw_bits(&store, 0x4030_5000), None);
}

#[test]
fn walker_without_stage2() {
    let w = Stage2Walker::from_vttbr(0);
    assert!(!w.has_stage2());
}

#[test]
fn secure_partition_tables() {
    let mut store = TableStore::new(0x4000_0000, 16);
    let m = build_sp_stage2(&mut store, 0x6000_0000, 0x40_0000).unwrap();
    let w = Stage2Walker::from_vttbr(m.vttbr());
    assert_eq!(w.read_s2ap(&store, 0x6000_0000), Some(3));
    assert_eq!(w.read_s2ap(&store, 0x6030_0000), Some(3));
    assert_eq!(w.read_s2ap(&store, SP_UART_BASE), Some(3));
    assert_eq!(w.read_s2ap(&store, 0x6040_0000), None);
}
