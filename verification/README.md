# hypervisor

A small AArch64 hypervisor and secure partition manager core, written as a
Verus-verified library. The hardware-facing parts (exception vectors,
system-register access, SMCs, boot) are thin; the decisions behind them live
in the library with contracts:

- `exception`, `gicv3`, `vgic`, `timer`: the trap handlers (WFI, HVC/PSCI,
  MSR/MRS, data aborts on emulated devices, IRQs) and list-register
  management, as functions from trap information and state to the new state
  and the hardware work to do.
- `devices`, `pl011`, `pl031`, `virtio`, `virtio_data`, `decode`: device
  emulation and MMIO access decoding.
- `mmu`, `table_store`, `secure_stage2`, `ffa::stage2_walker`: Stage-2 page
  tables over an explicit table store, with walks, block splitting and
  software bits.
- `ffa`: FF-A constants, descriptors, the Normal World proxy, the stub SPMC,
  notifications, and page ownership in the VMs' Stage-2 tables
  (`ffa::page_ranges`: a page is shared or lent only while its owner holds
  it exclusively; sharing, retrieving, relinquishing and reclaiming move
  the pages' software bits and access rights); `spmc_handler`: the SPMC's answers to
  FF-A requests; `sp_context`, `call_stack`: secure partitions and their
  nesting.
- `dtb`, `manifest`, `fdt_layout`: platform and SPMC manifest facts read
  from device tree blobs through the `fdt` crate, once the blob's structure
  block was checked to have the shape the crate walks without panicking.

`app/main.rs` is a host front end: it reads a device tree blob from a file,
then answers FF-A requests read from standard input as the SPMC would.
