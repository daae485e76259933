use vstd::prelude::*;

verus! {

/// The little-endian bytes of a `u32`, least significant first.
pub open spec fn le_bytes(v: u32) -> Seq<u8> {
    seq![
        (v % 0x100) as u8,
        ((v / 0x100) % 0x100) as u8,
        ((v / 0x1_0000) % 0x100) as u8,
        (v / 0x100_0000) as u8,
    ]
}

/// The big-endian bytes of a `u32`, most significant first.
pub open spec fn be_bytes(v: u32) -> Seq<u8> {
    le_bytes(v).reverse()
}

/// `bytes` holds the values one after another, four bytes each, every value
/// in the byte order that `encode` gives.
pub open spec fn encodes_with(
    values: Seq<u32>,
    bytes: Seq<u8>,
    encode: spec_fn(u32) -> Seq<u8>,
) -> bool {
    &&& bytes.len() == 4 * values.len()
    &&& forall|i: int| 0 <= i < values.len() ==> #[trigger] bytes.subrange(4 * i, 4 * i + 4) == encode(values[i])
}

/// `bytes` is the memory image of `values` on a machine of either byte
/// order: all little-endian or all big-endian.
pub open spec fn is_memory_image(values: Seq<u32>, bytes: Seq<u8>) -> bool {
    encodes_with(values, bytes, |v: u32| le_bytes(v))
        || encodes_with(values, bytes, |v: u32| be_bytes(v))
}

/// Reinterprets the values as their bytes in memory, with
/// `bytemuck::cast_slice::<u32, u8>`, and copies them out.
/// Believed of it: the copy holds four bytes per value, in order, each value
/// in the machine's byte order, which is either little- or big-endian.
/// Which of the two it is depends on the machine and is left open.
#[verifier::external_body]
fn u32s_as_bytes(values: &[u32]) -> (bytes: Vec<u8>)
    ensures
        is_memory_image(values@, bytes@),
{
    bytemuck::cast_slice::<u32, u8>(values).to_vec()
}

/// The corners of the unit quad that the vertex buffer holds, as
/// `(x, y)` pairs in this order: (1, 1), (1, 0), (0, 0), (0, 1).
pub open spec fn spec_quad_corners() -> Seq<(int, int)> {
    seq![(1int, 1int), (1int, 0int), (0int, 0int), (0int, 1int)]
}

/// The element indices that draw the unit quad as two triangles,
/// (0, 1, 3) and (1, 2, 3), sharing the diagonal from corner 1 to corner 3.
pub fn indices() -> (idx: [u32; 6])
    ensures
        idx@ == seq![0u32, 1, 3, 1, 2, 3],
        forall|i: int| 0 <= i < 6 ==> #[trigger] idx@[i] < spec_quad_corners().len(),
{
    let idx: [u32; 6] = [0, 1, 3, 1, 2, 3];
    assert(idx@ =~= seq![0u32, 1, 3, 1, 2, 3]);
    idx
}

/// The element buffer as it is uploaded: the bytes of `indices()` in memory.
pub fn index_bytes() -> (bytes: Vec<u8>)
    ensures
        bytes.len() == 24,
        is_memory_image(seq![0u32, 1, 3, 1, 2, 3], bytes@),
{
    let idx = indices();
    let bytes = u32s_as_bytes(idx.as_slice());
    bytes
}

} // verus!
