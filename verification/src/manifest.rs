//! The SPMC manifest (TOS_FW_CONFIG device tree): SPMC ID and FF-A
//! version from the /attribute node, per the FF-A core manifest binding.

use vstd::prelude::*;
use crate::fdt_layout::{check_tree, fdt_tree_ok};

verus! {

/// SPMC properties from the manifest.
#[derive(Clone, Copy, Debug, PartialEq, Eq, Structural)]
pub struct SpMcManifest {
    pub spmc_id: u16,
    pub maj_ver: u16,
    pub min_ver: u16,
}

/// The properties assumed without a readable manifest.
pub open spec fn spec_default_manifest() -> SpMcManifest {
    SpMcManifest { spmc_id: 0x8000, maj_ver: 1, min_ver: 1 }
}

/// Integer value (4 or 8 bytes) of property `prop` of the node at `path`.
pub uninterp spec fn fdt_property_usize(data: Seq<u8>, path: Seq<char>, prop: Seq<char>) -> Option<usize>;

/// `fdt::Fdt::find_node(path)`, then `property(prop)`, then `as_usize()`.
/// The crate's path lookup walks the structure block without panicking on
/// a blob of the shape `fdt_tree_ok` describes (at any nesting depth), and
/// an absolute path is never taken for an alias there.
#[verifier::external_body]
fn fdt_prop_usize(data: &[u8], path: &str, prop: &str) -> (r: Option<usize>)
    requires
        fdt_tree_ok(data@),
        path@.len() > 0,
        path@[0] == '/',
    ensures
        r == fdt_property_usize(data@, path@, prop@),
{
    match fdt::Fdt::new(data) {
        Ok(f) => f.find_node(path).and_then(|n| n.property(prop)).and_then(|p| p.as_usize()),
        Err(_) => None,
    }
}

/// The property of /attribute as 16 bits, or `default` when absent.
pub open spec fn attribute_u16(data: Seq<u8>, prop: Seq<char>, default: u16) -> u16 {
    match fdt_property_usize(data, "/attribute"@, prop) {
        Some(v) => v as u16,
        None => default,
    }
}

/// The manifest a blob holds.
pub open spec fn spec_manifest(data: Seq<u8>) -> SpMcManifest {
    SpMcManifest {
        spmc_id: attribute_u16(data, "spmc_id"@, 0x8000),
        maj_ver: attribute_u16(data, "maj_ver"@, 1),
        min_ver: attribute_u16(data, "min_ver"@, 1),
    }
}

/// The manifest record: `None` until `init` ran.
pub struct ManifestState {
    pub manifest: Option<SpMcManifest>,
}

impl ManifestState {
    pub fn new() -> (r: Self)
        ensures
            r.manifest.is_none(),
    {
        ManifestState { manifest: None }
    }
}

/// Read the manifest `data` the SPMD passed (`None` when its address was
/// 0). Properties missing from /attribute take the defaults; so does
/// everything when there is no blob or it does not have the shape
/// `fdt_tree_ok` describes.
pub fn init(state: &mut ManifestState, data: Option<&[u8]>)
    ensures
        final(state).manifest == Some(match data {
            Some(d) => if fdt_tree_ok(d@) { spec_manifest(d@) } else { spec_default_manifest() },
            None => spec_default_manifest(),
        }),
{
    let m = match data {
        Some(d) => {
            if crate::dtb::is_device_tree(d) && check_tree(d) {
                proof { reveal_strlit("/attribute"); }
                let spmc_id = match fdt_prop_usize(d, "/attribute", "spmc_id") {
                    Some(v) => v as u16,
                    None => 0x8000,
                };
                let maj = match fdt_prop_usize(d, "/attribute", "maj_ver") {
                    Some(v) => v as u16,
                    None => 1,
                };
                let min = match fdt_prop_usize(d, "/attribute", "min_ver") {
                    Some(v) => v as u16,
                    None => 1,
                };
                SpMcManifest { spmc_id, maj_ver: maj, min_ver: min }
            } else {
                SpMcManifest { spmc_id: 0x8000, maj_ver: 1, min_ver: 1 }
            }
        },
        None => SpMcManifest { spmc_id: 0x8000, maj_ver: 1, min_ver: 1 },
    };
    state.manifest = Some(m);
}

/// The manifest in force (the defaults before `init`).
pub fn manifest_info(state: &ManifestState) -> (r: SpMcManifest)
    ensures
        r == match state.manifest {
            Some(m) => m,
            None => spec_default_manifest(),
        },
{
    match state.manifest {
        Some(m) => m,
        None => SpMcManifest { spmc_id: 0x8000, maj_ver: 1, min_ver: 1 },
    }
}

} // verus!
