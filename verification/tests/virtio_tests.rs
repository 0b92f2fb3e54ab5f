use hypervisor::virtio::{
    DescChain, UsedWrite, VirtioBlk, VirtioNet, Virtqueue, VirtqDesc, VIRTIO_BLK_T_GET_ID, VIRTIO_BLK_T_IN,
    VIRTIO_BLK_T_OUT,
};
use hypervisor::virtio_data::{BlkReqHeader, MemOp, VIRTIO_BLK_S_IOERR, VIRTIO_BLK_S_OK, VIRTIO_BLK_S_UNSUPP};

fn d(addr: u64, len: u32) -> VirtqDesc {
    VirtqDesc { addr, len, flags: 0, next: 0 }
}

fn chain(descs: &[VirtqDesc]) -> DescChain {
    let mut all = [d(0, 0); 4];
    for (i, x) in descs.iter().enumerate() {
        all[i] = *x;
    }
    DescChain { head: 5, descs: all, count: descs.len() }
}

fn queue() -> Virtqueue {
    Virtqueue { desc_addr: 0x1000, avail_addr: 0x2000, used_addr: 0x3000, num: 8, last_avail_idx: 0, ready: true }
}

#[test]
fn blk_read_copies_disk_bytes() {
    let blk = VirtioBlk::new(0x5000_0000, 0x10_0000);
    let c = chain(&[d(0x100, 16), d(0x8000, 512), d(0x9000, 512), d(0x200, 1)]);
    let p = blk.process_request(&c, BlkReqHeader { req_type: VIRTIO_BLK_T_IN, sector: 2 }, &queue(), 9).unwrap();
    assert_eq!(p.status, VIRTIO_BLK_S_OK);
    assert_eq!(p.status_addr, 0x200);
    assert_eq!(p.used_len, 1025);
    assert_eq!(p.used, Some(UsedWrite { slot: 1, id: 5, len: 1025, new_idx: 10 }));
    assert_eq!(p.ops.len(), 2);
    assert!(matches!(p.ops[0], MemOp::Copy { src: 0x5000_0400, dst: 0x8000, len: 512 }));
    assert!(matches!(p.ops[1], MemOp::Copy { src: 0x5000_0600, dst: 0x9000, len: 512 }));
}

#[test]
fn blk_write_copies_into_disk() {
    let blk = VirtioBlk::new(0x5000_0000, 0x10_0000);
    let c = chain(&[d(0x100, 16), d(0x8000, 512), d(0x200, 1)]);
    let p = blk.process_request(&c, BlkReqHeader { req_type: VIRTIO_BLK_T_OUT, sector: 0 }, &queue(), 0).unwrap();
    assert_eq!(p.status, VIRTIO_BLK_S_OK);
    assert_eq!(p.used_len, 1);
    assert!(matches!(p.ops[0], MemOp::Copy { src: 0x8000, dst: 0x5000_0000, len: 512 }));
}

#[test]
fn blk_past_the_end_is_ioerr() {
    let blk = VirtioBlk::new(0x5000_0000, 1024);
    let c = chain(&[d(0x100, 16), d(0x8000, 512), d(0x9000, 512), d(0x200, 1)]);
    let p = blk.process_request(&c, BlkReqHeader { req_type: VIRTIO_BLK_T_IN, sector: 1 }, &queue(), 0).unwrap();
    assert_eq!(p.status, VIRTIO_BLK_S_IOERR);
    assert_eq!(p.ops.len(), 1);
    assert_eq!(p.used_len, 513);
}

#[test]
fn blk_get_id_and_unsupported() {
    let blk = VirtioBlk::new(0x5000_0000, 1024);
    let c = chain(&[d(0x100, 16), d(0x8000, 64), d(0x200, 1)]);
    let p = blk.process_request(&c, BlkReqHeader { req_type: VIRTIO_BLK_T_GET_ID, sector: 0 }, &queue(), 0).unwrap();
    assert_eq!(p.status, VIRTIO_BLK_S_OK);
    assert_eq!(p.used_len, 21);
    match &p.ops[0] {
        MemOp::Store { addr, bytes } => {
            assert_eq!(*addr, 0x8000);
            assert_eq!(bytes.as_slice(), b"hypervisor-vda\0\0\0\0\0\0");
        },
        _ => panic!("expected a store"),
    }
    let p = blk.process_request(&c, BlkReqHeader { req_type: 77, sector: 0 }, &queue(), 0).unwrap();
    assert_eq!(p.status, VIRTIO_BLK_S_UNSUPP);
    assert_eq!(p.used_len, 1);
    assert!(p.ops.is_empty());
    let short = chain(&[d(0x100, 16)]);
    assert!(blk.process_request(&short, BlkReqHeader { req_type: VIRTIO_BLK_T_IN, sector: 0 }, &queue(), 0).is_none());
}

#[test]
fn net_tx_skips_header() {
    let net = VirtioNet::new(0);
    let c = chain(&[d(0x1000, 12), d(0x2000, 60)]);
    let p = net.process_tx(&c, &queue(), 3);
    assert_eq!(p.segments, vec![(0x2000, 60)]);
    assert_eq!(p.frame_len, 60);
    assert!(p.forward);
    assert_eq!(p.used, Some(UsedWrite { slot: 3, id: 5, len: 0, new_idx: 4 }));
    let c = chain(&[d(0x1000, 20)]);
    let p = net.process_tx(&c, &queue(), 3);
    assert_eq!(p.segments, vec![(0x100C, 8)]);
    assert!(!p.forward);
}
