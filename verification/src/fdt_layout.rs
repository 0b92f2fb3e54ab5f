//! The shape of a flattened device tree's structure block, checked before
//! the blob is handed to the `fdt` crate for node and property lookups.
//!
//! A blob has a usable shape when its structure and strings blocks lie
//! inside it and the structure block is one root node followed by the END
//! token. A node is BEGIN_NODE, a UTF-8 name ended by NUL and padded to
//! four bytes, its properties (PROP, length, name offset, value padded to
//! four bytes), its child nodes, then END_NODE. Property names are UTF-8
//! strings of the strings block without '/', and `#address-cells` and
//! `#size-cells` hold at least a word. NOP tokens may stand before the
//! root, after it, and before any END_NODE: the places where each of the
//! crate's walks (`find_node`, the walk that skips a node, the walk over
//! all nodes, children and properties) passes over them. Nodes nest at most
//! as deep as the caller asks: the crate's walk over all nodes keeps the
//! open nodes in 64 slots, so lookups that use it need 63 levels or fewer.

use vstd::prelude::*;
use crate::dtb::{be32, fdt_accepts};

verus! {

/// Token that opens a node.
pub const FDT_BEGIN_NODE: u32 = 1;
/// Token that closes a node.
pub const FDT_END_NODE: u32 = 2;
/// Token that opens a property.
pub const FDT_PROP: u32 = 3;
/// Token the crate skips.
pub const FDT_NOP: u32 = 4;
/// Token that ends the structure block.
pub const FDT_END: u32 = 9;
/// Deepest nesting the crate's walk over all nodes handles (the root is at
/// depth 1).
pub const FDT_ALL_NODES_DEPTH: u32 = 63;
/// No nesting limit.
pub const FDT_ANY_DEPTH: u32 = 0xFFFF_FFFF;

/// `n` rounded up to a multiple of four.
pub open spec fn align4(n: int) -> int {
    (n + 3) - (n + 3) % 4
}

/// Start of the structure block.
pub open spec fn struct_start(d: Seq<u8>) -> int {
    be32(d, 8)
}

/// End (exclusive) of the structure block.
pub open spec fn struct_end(d: Seq<u8>) -> int {
    be32(d, 8) + be32(d, 36)
}

/// Start of the strings block.
pub open spec fn strings_start(d: Seq<u8>) -> int {
    be32(d, 12)
}

/// End (exclusive) of the strings block.
pub open spec fn strings_end(d: Seq<u8>) -> int {
    be32(d, 12) + be32(d, 32)
}

/// Position after the NOP tokens that start at `p`.
pub open spec fn skip_nops(d: Seq<u8>, p: int) -> int
    decreases struct_end(d) - p,
{
    if 0 <= p && p + 4 <= struct_end(d) && struct_end(d) <= d.len() && be32(d, p) == FDT_NOP {
        skip_nops(d, p + 4)
    } else {
        p
    }
}

/// A UTF-8 continuation byte.
pub open spec fn is_cont(b: u8) -> bool {
    0x80 <= b && b <= 0xBF
}

/// Length of the UTF-8 encoding of one character at `p` that ends before
/// `lim`, or 0 when the bytes there are not one (as `str::from_utf8`
/// judges: no overlong forms, no surrogates, nothing above U+10FFFF).
pub open spec fn utf8_len(d: Seq<u8>, p: int, lim: int) -> int {
    let b = d[p];
    if b < 0x80 {
        1
    } else if 0xC2 <= b && b <= 0xDF {
        if p + 1 < lim && is_cont(d[p + 1]) { 2 } else { 0 }
    } else if 0xE0 <= b && b <= 0xEF {
        let second_ok = if b == 0xE0 {
            0xA0 <= d[p + 1] && d[p + 1] <= 0xBF
        } else if b == 0xED {
            0x80 <= d[p + 1] && d[p + 1] <= 0x9F
        } else {
            is_cont(d[p + 1])
        };
        if p + 2 < lim && second_ok && is_cont(d[p + 2]) { 3 } else { 0 }
    } else if 0xF0 <= b && b <= 0xF4 {
        let second_ok = if b == 0xF0 {
            0x90 <= d[p + 1] && d[p + 1] <= 0xBF
        } else if b == 0xF4 {
            0x80 <= d[p + 1] && d[p + 1] <= 0x8F
        } else {
            is_cont(d[p + 1])
        };
        if p + 3 < lim && second_ok && is_cont(d[p + 2]) && is_cont(d[p + 3]) { 4 } else { 0 }
    } else {
        0
    }
}

/// Position of the NUL that ends the node name starting at `p`, when the
/// bytes before it are UTF-8 and the NUL lies before `lim`.
pub open spec fn name_nul(d: Seq<u8>, p: int, lim: int) -> Option<int>
    decreases lim - p,
{
    if p < 0 || p >= lim || lim > d.len() {
        None
    } else if d[p] == 0 {
        Some(p)
    } else if utf8_len(d, p, lim) == 0 {
        None
    } else {
        name_nul(d, p + utf8_len(d, p, lim), lim)
    }
}

/// The property name starting at `p` is UTF-8 without '/' and ends by NUL
/// before `lim`.
pub open spec fn prop_name_ok(d: Seq<u8>, p: int, lim: int) -> bool
    decreases lim - p,
{
    if p < 0 || p >= lim || lim > d.len() {
        false
    } else if d[p] == 0 {
        true
    } else if d[p] == 0x2F || utf8_len(d, p, lim) == 0 {
        false
    } else {
        prop_name_ok(d, p + utf8_len(d, p, lim), lim)
    }
}

/// The NUL-terminated string at `a` is `s`.
pub open spec fn names_bytes(d: Seq<u8>, a: int, s: Seq<u8>) -> bool {
    &&& 0 <= a
    &&& a + s.len() < d.len()
    &&& forall|i: int| 0 <= i < s.len() ==> #[trigger] d[a + i] == s[i]
    &&& d[a + s.len()] == 0
}

/// The bytes of `#address-cells`.
pub open spec fn address_cells_bytes() -> Seq<u8> {
    seq![0x23u8, 0x61, 0x64, 0x64, 0x72, 0x65, 0x73, 0x73, 0x2D, 0x63, 0x65, 0x6C, 0x6C, 0x73]
}

/// The bytes of `#size-cells`.
pub open spec fn size_cells_bytes() -> Seq<u8> {
    seq![0x23u8, 0x73, 0x69, 0x7A, 0x65, 0x2D, 0x63, 0x65, 0x6C, 0x6C, 0x73]
}

/// The property name at `a` is one the crate reads as a cell count.
pub open spec fn cell_count_name(d: Seq<u8>, a: int) -> bool {
    names_bytes(d, a, address_cells_bytes()) || names_bytes(d, a, size_cells_bytes())
}

/// Position of the first token after the properties that start at `p`.
pub open spec fn props_end(d: Seq<u8>, p: int) -> Option<int>
    decreases struct_end(d) - p,
{
    let se = struct_end(d);
    if p < 0 || p + 4 > se || se > d.len() {
        None
    } else if be32(d, p) != FDT_PROP {
        Some(p)
    } else if p + 12 > se {
        None
    } else {
        let len = be32(d, p + 4);
        let name = strings_start(d) + be32(d, p + 8);
        let next = p + 12 + align4(len);
        if p + 12 + len > se || !prop_name_ok(d, name, strings_end(d)) || (cell_count_name(d, name) && len < 4)
            || next > se {
            None
        } else {
            props_end(d, next)
        }
    }
}

/// Position just after the node that starts at `p`, at nesting `depth` of
/// at most `limit`.
pub open spec fn node_end(d: Seq<u8>, p: int, depth: int, limit: int) -> Option<int>
    decreases struct_end(d) - p, 0int,
{
    let se = struct_end(d);
    if depth < 1 || depth > limit || p < 0 || p + 4 > se || se > d.len() || be32(d, p) != FDT_BEGIN_NODE {
        None
    } else {
        match name_nul(d, p + 4, se) {
            None => None,
            Some(k) => match props_end(d, p + 4 + align4(k - p - 3)) {
                None => None,
                Some(c) => if c <= p || c > se { None } else { children_end(d, c, depth, limit) },
            },
        }
    }
}

/// Position just after the END_NODE that closes the children starting at
/// `c` of a node at nesting `depth`; NOP tokens may stand just before that
/// END_NODE.
pub open spec fn children_end(d: Seq<u8>, c: int, depth: int, limit: int) -> Option<int>
    decreases struct_end(d) - c, 1int,
{
    let se = struct_end(d);
    if c < 0 || c + 4 > se || se > d.len() {
        None
    } else if be32(d, c) == FDT_END_NODE {
        Some(c + 4)
    } else if be32(d, c) == FDT_NOP {
        let q = skip_nops(d, c);
        if q + 4 <= se && be32(d, q) == FDT_END_NODE { Some(q + 4) } else { None }
    } else if be32(d, c) == FDT_BEGIN_NODE {
        match node_end(d, c, depth + 1, limit) {
            None => None,
            Some(e) => if e <= c || e > se { None } else { children_end(d, e, depth, limit) },
        }
    } else {
        None
    }
}

/// The blob is one the `fdt` crate accepts, its blocks lie inside it, and
/// its structure block has the shape described above with nodes nested at
/// most `limit` deep.
pub open spec fn fdt_shape_ok(d: Seq<u8>, limit: int) -> bool {
    &&& fdt_accepts(d)
    &&& struct_end(d) <= d.len()
    &&& strings_end(d) <= d.len()
    &&& match node_end(d, skip_nops(d, struct_start(d)), 1, limit) {
        Some(e) => {
            let q = skip_nops(d, e);
            q + 4 <= struct_end(d) && be32(d, q) == FDT_END
        },
        None => false,
    }
}

/// The shape, with nodes at most 63 deep: what lookups through the crate's
/// walk over all nodes need.
pub open spec fn fdt_structure_ok(d: Seq<u8>) -> bool {
    fdt_shape_ok(d, FDT_ALL_NODES_DEPTH as int)
}

/// The shape, at any depth: what path lookups need.
pub open spec fn fdt_tree_ok(d: Seq<u8>) -> bool {
    fdt_shape_ok(d, FDT_ANY_DEPTH as int)
}

proof fn lemma_skip_nops_bound(d: Seq<u8>, p: int)
    ensures
        p <= skip_nops(d, p),
        0 <= p <= struct_end(d) ==> skip_nops(d, p) <= struct_end(d),
    decreases struct_end(d) - p,
{
    if 0 <= p && p + 4 <= struct_end(d) && struct_end(d) <= d.len() && be32(d, p) == FDT_NOP {
        lemma_skip_nops_bound(d, p + 4);
    }
}

proof fn lemma_name_nul_bound(d: Seq<u8>, p: int, lim: int)
    ensures
        name_nul(d, p, lim) matches Some(k) ==> p <= k < lim,
    decreases lim - p,
{
    if 0 <= p < lim && lim <= d.len() && d[p] != 0 && utf8_len(d, p, lim) != 0 {
        lemma_name_nul_bound(d, p + utf8_len(d, p, lim), lim);
    }
}

proof fn lemma_props_end_bound(d: Seq<u8>, p: int)
    ensures
        props_end(d, p) matches Some(c) ==> p <= c && c + 4 <= struct_end(d),
    decreases struct_end(d) - p,
{
    let se = struct_end(d);
    if 0 <= p && p + 4 <= se && se <= d.len() && be32(d, p) == FDT_PROP && p + 12 <= se {
        let len = be32(d, p + 4);
        if p + 12 + align4(len) <= se {
            lemma_props_end_bound(d, p + 12 + align4(len));
        }
    }
}

proof fn lemma_node_end_bound(d: Seq<u8>, p: int, depth: int, limit: int)
    ensures
        node_end(d, p, depth, limit) matches Some(e) ==> p < e <= struct_end(d),
    decreases struct_end(d) - p, 0int,
{
    let se = struct_end(d);
    if 1 <= depth <= limit && 0 <= p && p + 4 <= se && se <= d.len() && be32(d, p) == FDT_BEGIN_NODE {
        if let Some(k) = name_nul(d, p + 4, se) {
            if let Some(c) = props_end(d, p + 4 + align4(k - p - 3)) {
                if c > p && c <= se {
                    lemma_children_end_bound(d, c, depth, limit);
                }
            }
        }
    }
}

proof fn lemma_children_end_bound(d: Seq<u8>, c: int, depth: int, limit: int)
    ensures
        children_end(d, c, depth, limit) matches Some(e) ==> c < e <= struct_end(d),
    decreases struct_end(d) - c, 1int,
{
    let se = struct_end(d);
    if 0 <= c && c + 4 <= se && se <= d.len() && be32(d, c) != FDT_END_NODE {
        if be32(d, c) == FDT_NOP {
            lemma_skip_nops_bound(d, c);
        } else if be32(d, c) == FDT_BEGIN_NODE {
            lemma_node_end_bound(d, c, depth + 1, limit);
            if let Some(e) = node_end(d, c, depth + 1, limit) {
                if e > c && e <= se {
                    lemma_children_end_bound(d, e, depth, limit);
                }
            }
        }
    }
}

/// Big-endian word at `p`.
fn read_be32(d: &[u8], p: u64) -> (r: u32)
    requires
        p + 4 <= d@.len(),
    ensures
        r == be32(d@, p as int),
{
    let i: usize = p as usize;
    let v: u32 = (d[i] as u32) * 0x100_0000 + (d[i + 1] as u32) * 0x1_0000 + (d[i + 2] as u32) * 0x100 + (d[i + 3] as u32);
    v
}

/// The blob's header field at `off` (the four bytes lie in the header).
fn header_word(d: &[u8], off: u64) -> (r: u64)
    requires
        off + 4 <= 40,
        d@.len() >= 40,
    ensures
        r == be32(d@, off as int),
        r <= 0xFFFF_FFFF,
{
    read_be32(d, off) as u64
}

/// Exec form of `skip_nops`.
fn scan_nops(d: &[u8], p: u64, se: u64) -> (r: u64)
    requires
        se == struct_end(d@),
        se <= d@.len(),
        p <= se,
    ensures
        r == skip_nops(d@, p as int),
        p <= r <= se,
{
    proof { lemma_skip_nops_bound(d@, p as int); }
    let mut q = p;
    while q + 4 <= se && read_be32(d, q) == FDT_NOP
        invariant
            se == struct_end(d@),
            se <= d@.len(),
            p <= q <= se,
            skip_nops(d@, p as int) == skip_nops(d@, q as int),
        decreases se - q,
    {
        q = q + 4;
    }
    q
}

/// Exec form of `utf8_len`.
fn utf8_step(d: &[u8], p: u64, lim: u64) -> (r: u64)
    requires
        p < lim,
        lim <= d@.len(),
    ensures
        r == utf8_len(d@, p as int, lim as int),
{
    let i: usize = p as usize;
    let b: u8 = d[i];
    if b < 0x80 {
        1
    } else if 0xC2 <= b && b <= 0xDF {
        if lim - p > 1 && 0x80 <= d[i + 1] && d[i + 1] <= 0xBF { 2 } else { 0 }
    } else if 0xE0 <= b && b <= 0xEF {
        if lim - p <= 2 {
            return 0;
        }
        let s: u8 = d[i + 1];
        let second_ok: bool = if b == 0xE0 {
            0xA0 <= s && s <= 0xBF
        } else if b == 0xED {
            0x80 <= s && s <= 0x9F
        } else {
            0x80 <= s && s <= 0xBF
        };
        if second_ok && 0x80 <= d[i + 2] && d[i + 2] <= 0xBF { 3 } else { 0 }
    } else if 0xF0 <= b && b <= 0xF4 {
        if lim - p <= 3 {
            return 0;
        }
        let s: u8 = d[i + 1];
        let second_ok: bool = if b == 0xF0 {
            0x90 <= s && s <= 0xBF
        } else if b == 0xF4 {
            0x80 <= s && s <= 0x8F
        } else {
            0x80 <= s && s <= 0xBF
        };
        if second_ok && 0x80 <= d[i + 2] && d[i + 2] <= 0xBF && 0x80 <= d[i + 3] && d[i + 3] <= 0xBF { 4 } else { 0 }
    } else {
        0
    }
}

/// Exec form of `name_nul`.
fn scan_name(d: &[u8], p: u64, lim: u64) -> (r: Option<u64>)
    requires
        lim <= d@.len(),
    ensures
        match name_nul(d@, p as int, lim as int) {
            Some(k) => r == Some(k as u64),
            None => r.is_none(),
        },
{
    proof { lemma_name_nul_bound(d@, p as int, lim as int); }
    let mut i = p;
    while i < lim
        invariant
            p <= i,
            lim <= d@.len(),
            name_nul(d@, p as int, lim as int) == name_nul(d@, i as int, lim as int),
        decreases lim - i,
    {
        if d[i as usize] == 0 {
            return Some(i);
        }
        let n: u64 = utf8_step(d, i, lim);
        if n == 0 {
            return None;
        }
        i = i + n;
    }
    None
}

/// Exec form of `prop_name_ok`.
fn check_prop_name(d: &[u8], p: u64, lim: u64) -> (r: bool)
    requires
        lim <= d@.len(),
    ensures
        r == prop_name_ok(d@, p as int, lim as int),
{
    let mut i = p;
    while i < lim
        invariant
            p <= i,
            lim <= d@.len(),
            prop_name_ok(d@, p as int, lim as int) == prop_name_ok(d@, i as int, lim as int),
        decreases lim - i,
    {
        let b: u8 = d[i as usize];
        if b == 0 {
            return true;
        }
        if b == 0x2F {
            return false;
        }
        let n: u64 = utf8_step(d, i, lim);
        if n == 0 {
            return false;
        }
        i = i + n;
    }
    false
}

/// Exec form of `names_bytes`.
fn names_at(d: &[u8], a: u64, lit: &Vec<u8>) -> (r: bool)
    ensures
        r == names_bytes(d@, a as int, lit@),
{
    if lit.len() >= d.len() || a >= (d.len() - lit.len()) as u64 {
        return false;
    }
    let start: usize = a as usize;
    let dl: usize = d.len();
    let mut i: usize = 0;
    while i < lit.len()
        invariant
            dl == d@.len(),
            start == a,
            start + lit@.len() < d@.len(),
            i <= lit@.len(),
            forall|j: int| 0 <= j < i ==> #[trigger] d@[a + j] == lit@[j],
        decreases lit.len() - i,
    {
        if d[start + i] != lit[i] {
            assert(d@[a + i] != lit@[i as int]);
            return false;
        }
        i = i + 1;
    }
    d[start + lit.len()] == 0
}

/// The bytes of `#address-cells`.
fn address_cells_name() -> (r: Vec<u8>)
    ensures
        r@ == address_cells_bytes(),
{
    let r: Vec<u8> = vec![0x23, 0x61, 0x64, 0x64, 0x72, 0x65, 0x73, 0x73, 0x2D, 0x63, 0x65, 0x6C, 0x6C, 0x73];
    assert(r@ =~= address_cells_bytes());
    r
}

/// The bytes of `#size-cells`.
fn size_cells_name() -> (r: Vec<u8>)
    ensures
        r@ == size_cells_bytes(),
{
    let r: Vec<u8> = vec![0x23, 0x73, 0x69, 0x7A, 0x65, 0x2D, 0x63, 0x65, 0x6C, 0x6C, 0x73];
    assert(r@ =~= size_cells_bytes());
    r
}

/// Exec form of `props_end`; `se`, `strb`, `stre` are the block bounds.
fn scan_props(d: &[u8], p0: u64, se: u64, strb: u64, stre: u64) -> (r: Option<u64>)
    requires
        se == struct_end(d@),
        se <= d@.len(),
        strb == strings_start(d@),
        stre == strings_end(d@),
        stre <= d@.len(),
        se <= 0x2_0000_0000,
    ensures
        match props_end(d@, p0 as int) {
            Some(c) => r == Some(c as u64),
            None => r.is_none(),
        },
{
    proof { lemma_props_end_bound(d@, p0 as int); }
    let mut p = p0;
    while p <= se
        invariant
            se == struct_end(d@),
            se <= d@.len(),
            strb == strings_start(d@),
            stre == strings_end(d@),
            stre <= d@.len(),
            se <= 0x2_0000_0000,
            props_end(d@, p0 as int) == props_end(d@, p as int),
        decreases se + 1 - p,
    {
        if p + 4 > se {
            return None;
        }
        let tok: u32 = read_be32(d, p);
        if tok != FDT_PROP {
            return Some(p);
        }
        if p + 12 > se {
            return None;
        }
        let len: u64 = read_be32(d, p + 4) as u64;
        let name: u64 = strb + read_be32(d, p + 8) as u64;
        if len > se - (p + 12) {
            return None;
        }
        if !check_prop_name(d, name, stre) {
            return None;
        }
        if len < 4 && (names_at(d, name, &address_cells_name()) || names_at(d, name, &size_cells_name())) {
            return None;
        }
        let next: u64 = p + 12 + ((len + 3) - (len + 3) % 4);
        if next > se {
            return None;
        }
        p = next;
    }
    None
}

/// Exec form of `node_end`.
fn scan_node(d: &[u8], p: u64, depth: u64, limit: u32, se: u64, strb: u64, stre: u64) -> (r: Option<u64>)
    requires
        se == struct_end(d@),
        se <= d@.len(),
        strb == strings_start(d@),
        stre == strings_end(d@),
        stre <= d@.len(),
        se <= 0x2_0000_0000,
        1 <= depth <= limit + 1,
        p <= se,
    ensures
        match node_end(d@, p as int, depth as int, limit as int) {
            Some(e) => r == Some(e as u64),
            None => r.is_none(),
        },
    decreases limit + 1 - depth,
{
    proof { lemma_node_end_bound(d@, p as int, depth as int, limit as int); }
    if depth > limit as u64 || p + 4 > se || read_be32(d, p) != FDT_BEGIN_NODE {
        return None;
    }
    let k = match scan_name(d, p + 4, se) {
        Some(k) => k,
        None => { return None; },
    };
    proof { lemma_name_nul_bound(d@, p + 4, se as int); }
    let n: u64 = k - p - 3;
    let c0 = match scan_props(d, p + 4 + ((n + 3) - (n + 3) % 4), se, strb, stre) {
        Some(c) => c,
        None => { return None; },
    };
    if c0 <= p || c0 > se {
        return None;
    }
    proof { lemma_props_end_bound(d@, p + 4 + align4(k - p - 3)); }
    let mut c = c0;
    while c <= se
        invariant
            se == struct_end(d@),
            se <= d@.len(),
            strb == strings_start(d@),
            stre == strings_end(d@),
            stre <= d@.len(),
            se <= 0x2_0000_0000,
            1 <= depth <= limit,
            node_end(d@, p as int, depth as int, limit as int) == children_end(d@, c as int, depth as int, limit as int),
        decreases se + 1 - c,
    {
        if c + 4 > se {
            return None;
        }
        let tok: u32 = read_be32(d, c);
        if tok == FDT_END_NODE {
            return Some(c + 4);
        }
        if tok == FDT_NOP {
            let q: u64 = scan_nops(d, c, se);
            if q + 4 <= se && read_be32(d, q) == FDT_END_NODE {
                return Some(q + 4);
            }
            return None;
        }
        if tok != FDT_BEGIN_NODE {
            return None;
        }
        proof {
            lemma_children_end_bound(d@, c as int, depth as int, limit as int);
            lemma_node_end_bound(d@, c as int, depth + 1, limit as int);
        }
        let e = match scan_node(d, c, depth + 1, limit, se, strb, stre) {
            Some(e) => e,
            None => { return None; },
        };
        if e <= c || e > se {
            return None;
        }
        c = e;
    }
    None
}

/// Whether the blob has the shape described in this module, with nodes
/// nested at most `limit` deep.
pub fn check_shape(d: &[u8], limit: u32) -> (r: bool)
    ensures
        r == fdt_shape_ok(d@, limit as int),
{
    if d.len() < 40 {
        return false;
    }
    if header_word(d, 0) != 0xD00D_FEED || header_word(d, 4) > d.len() as u64 {
        return false;
    }
    let sb: u64 = header_word(d, 8);
    let se: u64 = sb + header_word(d, 36);
    let strb: u64 = header_word(d, 12);
    let stre: u64 = strb + header_word(d, 32);
    if se > d.len() as u64 || stre > d.len() as u64 {
        return false;
    }
    let r0: u64 = scan_nops(d, sb, se);
    match scan_node(d, r0, 1, limit, se, strb, stre) {
        Some(e) => {
            proof { lemma_node_end_bound(d@, r0 as int, 1, limit as int); }
            let q: u64 = scan_nops(d, e, se);
            q + 4 <= se && read_be32(d, q) == FDT_END
        },
        None => false,
    }
}

/// Whether the blob has the shape lookups through the crate's walk over
/// all nodes need (nodes at most 63 deep).
pub fn check_structure(d: &[u8]) -> (r: bool)
    ensures
        r == fdt_structure_ok(d@),
{
    check_shape(d, FDT_ALL_NODES_DEPTH)
}

/// Whether the blob has the shape path lookups need (any depth).
pub fn check_tree(d: &[u8]) -> (r: bool)
    ensures
        r == fdt_tree_ok(d@),
{
    check_shape(d, FDT_ANY_DEPTH)
}

} // verus!
