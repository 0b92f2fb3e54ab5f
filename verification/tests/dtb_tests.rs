use hypervisor::dtb::{
    gicr_rd_base, gicr_sgi_base, init, is_device_tree, is_initialized, parse_host_dtb, platform_info,
    validate_dtb_address, PlatformInfo, PlatformState,
};
use hypervisor::manifest::{init as manifest_init, manifest_info, ManifestState, SpMcManifest};

const MAGIC: [u8; 4] = [0xD0, 0x0D, 0xFE, 0xED];

/// Builds a flattened device tree blob.
struct Builder {
    structs: Vec<u8>,
    strings: Vec<u8>,
}

impl Builder {
    fn new() -> Self {
        Builder { structs: Vec::new(), strings: Vec::new() }
    }
    fn u32(&mut self, v: u32) {
        self.structs.extend_from_slice(&v.to_be_bytes());
    }
    fn pad(&mut self) {
        while self.structs.len() % 4 != 0 {
            self.structs.push(0);
        }
    }
    fn begin(&mut self, name: &str) {
        self.u32(1);
        self.structs.extend_from_slice(name.as_bytes());
        self.structs.push(0);
        self.pad();
    }
    fn end(&mut self) {
        self.u32(2);
    }
    fn nop(&mut self) {
        self.u32(4);
    }
    fn prop(&mut self, name: &str, val: &[u8]) {
        let off = self.strings.len() as u32;
        self.strings.extend_from_slice(name.as_bytes());
        self.strings.push(0);
        self.u32(3);
        self.u32(val.len() as u32);
        self.u32(off);
        self.structs.extend_from_slice(val);
        self.pad();
    }
    fn cells(&mut self, name: &str, v: &[u32]) {
        let bytes: Vec<u8> = v.iter().flat_map(|c| c.to_be_bytes()).collect();
        self.prop(name, &bytes);
    }
    fn finish(mut self) -> Vec<u8> {
        self.u32(9);
        let off_struct = 40 + 16;
        let off_strings = off_struct + self.structs.len();
        let total = off_strings + self.strings.len();
        let mut out = Vec::new();
        for v in [
            0xD00D_FEEDu32,
            total as u32,
            off_struct as u32,
            off_strings as u32,
            40,
            17,
            16,
            0,
            self.strings.len() as u32,
            self.structs.len() as u32,
        ] {
            out.extend_from_slice(&v.to_be_bytes());
        }
        out.extend_from_slice(&[0u8; 16]);
        out.extend_from_slice(&self.structs);
        out.extend_from_slice(&self.strings);
        out
    }
}

fn platform_blob(with_attribute: bool) -> Vec<u8> {
    let mut b = Builder::new();
    b.begin("");
    b.cells("#address-cells", &[2]);
    b.cells("#size-cells", &[2]);
    b.begin("memory");
    b.prop("device_type", b"memory\0");
    b.cells("reg", &[0, 0x4000_0000, 0, 0x1000_0000]);
    b.end();
    b.begin("cpus");
    b.cells("#address-cells", &[1]);
    b.cells("#size-cells", &[0]);
    for (i, name) in ["cpu@0", "cpu@1"].iter().enumerate() {
        b.begin(name);
        b.prop("device_type", b"cpu\0");
        b.cells("reg", &[i as u32]);
        b.end();
    }
    b.end();
    b.begin("pl011@a000000");
    b.prop("compatible", b"arm,pl011\0arm,primecell\0");
    b.cells("reg", &[0, 0x0A00_0000, 0, 0x1000]);
    b.end();
    b.begin("intc@8100000");
    b.prop("compatible", b"arm,gic-v3\0");
    b.cells("reg", &[0, 0x0810_0000, 0, 0x1_0000, 0, 0x0820_0000, 0, 0x20_0000]);
    b.end();
    if with_attribute {
        b.begin("attribute");
        b.cells("spmc_id", &[0x8001]);
        b.cells("maj_ver", &[1]);
        b.cells("min_ver", &[2]);
        b.end();
    }
    b.end();
    b.finish()
}

fn expected() -> PlatformInfo {
    PlatformInfo {
        uart_base: 0x0A00_0000,
        gicd_base: 0x0810_0000,
        gicr_base: 0x0820_0000,
        gicr_size: 0x20_0000,
        num_cpus: 2,
        ram_base: 0x4000_0000,
        ram_size: 0x1000_0000,
    }
}

#[test]
fn dtb_address_checks() {
    assert!(validate_dtb_address(0x4800_0000, MAGIC));
    assert!(!validate_dtb_address(0, MAGIC));
    assert!(!validate_dtb_address(0x3FFF_F000, MAGIC));
    assert!(!validate_dtb_address(0x8000_0000, MAGIC));
    assert!(!validate_dtb_address(0x4800_0000, [0xED, 0xFE, 0x0D, 0xD0]));
}

#[test]
fn dtb_blob_is_recognised() {
    let blob = platform_blob(false);
    assert!(is_device_tree(&blob));
    assert!(!is_device_tree(&[0u8; 64]));
    let mut short = blob.clone();
    short.truncate(blob.len() - 1);
    assert!(!is_device_tree(&short));
    assert!(!is_device_tree(&blob[..39]));
}

#[test]
fn dtb_parse_reads_platform() {
    let blob = platform_blob(false);
    assert_eq!(parse_host_dtb(0x4800_0000, MAGIC, &blob), Some(expected()));
    assert_eq!(parse_host_dtb(0x1000, MAGIC, &blob), None);
    assert_eq!(parse_host_dtb(0x4800_0000, [0, 0, 0, 0], &blob), None);
    assert_eq!(parse_host_dtb(0x4800_0000, MAGIC, &[0u8; 64]), None);
}

#[test]
fn dtb_init_keeps_defaults_without_blob() {
    let mut st = PlatformState::new();
    let before = *platform_info(&st);
    init(&mut st, 0x4800_0000, MAGIC, &[0u8; 64]);
    assert!(!is_initialized(&st));
    assert_eq!(*platform_info(&st), before);
    let blob = platform_blob(false);
    init(&mut st, 0x4800_0000, MAGIC, &blob);
    assert!(is_initialized(&st));
    assert_eq!(*platform_info(&st), expected());
}

#[test]
fn dtb_redistributor_frames() {
    let info = expected();
    assert_eq!(gicr_rd_base(&info, 0), 0x0820_0000);
    assert_eq!(gicr_rd_base(&info, 3), 0x0820_0000 + 3 * 0x2_0000);
    assert_eq!(gicr_sgi_base(&info, 1), 0x0820_0000 + 0x2_0000 + 0x1_0000);
}

#[test]
fn manifest_reads_attributes() {
    let blob = platform_blob(true);
    let mut st = ManifestState::new();
    assert_eq!(manifest_info(&st), SpMcManifest { spmc_id: 0x8000, maj_ver: 1, min_ver: 1 });
    manifest_init(&mut st, Some(&blob));
    assert_eq!(manifest_info(&st), SpMcManifest { spmc_id: 0x8001, maj_ver: 1, min_ver: 2 });
}

#[test]
fn manifest_defaults() {
    let mut st = ManifestState::new();
    manifest_init(&mut st, None);
    assert_eq!(manifest_info(&st), SpMcManifest { spmc_id: 0x8000, maj_ver: 1, min_ver: 1 });
    let blob = platform_blob(false);
    manifest_init(&mut st, Some(&blob));
    assert_eq!(manifest_info(&st), SpMcManifest { spmc_id: 0x8000, maj_ver: 1, min_ver: 1 });
    manifest_init(&mut st, Some(&[0u8; 64]));
    assert_eq!(manifest_info(&st), SpMcManifest { spmc_id: 0x8000, maj_ver: 1, min_ver: 1 });
}

#[test]
fn dtb_malformed_structure_is_refused() {
    // A root node that is never closed.
    let mut b = Builder::new();
    b.begin("");
    b.cells("#address-cells", &[2]);
    let open_root = b.finish();
    assert!(is_device_tree(&open_root));
    assert_eq!(parse_host_dtb(0x4800_0000, MAGIC, &open_root), None);
    let mut st = PlatformState::new();
    let before = *platform_info(&st);
    init(&mut st, 0x4800_0000, MAGIC, &open_root);
    assert!(!is_initialized(&st));
    assert_eq!(*platform_info(&st), before);
    let mut m = ManifestState::new();
    manifest_init(&mut m, Some(&open_root));
    assert_eq!(manifest_info(&m), SpMcManifest { spmc_id: 0x8000, maj_ver: 1, min_ver: 1 });

    // A cell count shorter than a word.
    let mut b = Builder::new();
    b.begin("");
    b.prop("#size-cells", &[0, 1]);
    b.end();
    let short_cells = b.finish();
    assert_eq!(parse_host_dtb(0x4800_0000, MAGIC, &short_cells), None);

    // Nodes nested 64 deep.
    let mut b = Builder::new();
    for _ in 0..64 {
        b.begin("n");
    }
    for _ in 0..64 {
        b.end();
    }
    let deep = b.finish();
    assert_eq!(parse_host_dtb(0x4800_0000, MAGIC, &deep), None);
}

#[test]
fn dtb_nops_and_utf8_names_are_read() {
    let mut b = Builder::new();
    b.nop();
    b.begin("");
    b.cells("#address-cells", &[2]);
    b.cells("#size-cells", &[2]);
    b.begin("na\u{ef}ve");
    b.end();
    b.begin("memory");
    b.cells("reg", &[0, 0x4000_0000, 0, 0x1000_0000]);
    b.end();
    b.begin("cpus");
    b.cells("#address-cells", &[1]);
    b.cells("#size-cells", &[0]);
    for (i, name) in ["cpu@0", "cpu@1"].iter().enumerate() {
        b.begin(name);
        b.cells("reg", &[i as u32]);
        b.end();
    }
    b.end();
    b.begin("pl011@a000000");
    b.prop("compatible", b"arm,pl011\0");
    b.cells("reg", &[0, 0x0A00_0000, 0, 0x1000]);
    b.end();
    b.begin("intc@8100000");
    b.prop("compatible", b"arm,gic-v3\0");
    b.prop("#interrupt-cells", &[0, 3]);
    b.cells("reg", &[0, 0x0810_0000, 0, 0x1_0000, 0, 0x0820_0000, 0, 0x20_0000]);
    b.nop();
    b.end();
    b.nop();
    b.end();
    b.nop();
    let blob = b.finish();
    assert_eq!(parse_host_dtb(0x4800_0000, MAGIC, &blob), Some(expected()));
    let mut st = PlatformState::new();
    init(&mut st, 0x4800_0000, MAGIC, &blob);
    assert!(is_initialized(&st));
    assert_eq!(*platform_info(&st), expected());
}

#[test]
fn manifest_reads_attributes_beside_deep_nesting() {
    let mut b = Builder::new();
    b.begin("");
    for _ in 0..70 {
        b.begin("n");
    }
    for _ in 0..70 {
        b.end();
    }
    b.begin("attribute");
    b.cells("spmc_id", &[0x8002]);
    b.end();
    b.end();
    let blob = b.finish();
    let mut st = ManifestState::new();
    manifest_init(&mut st, Some(&blob));
    assert_eq!(manifest_info(&st), SpMcManifest { spmc_id: 0x8002, maj_ver: 1, min_ver: 1 });
    // The platform lookups walk every node, which the crate cannot do this deep.
    assert_eq!(parse_host_dtb(0x4800_0000, MAGIC, &blob), None);
}
