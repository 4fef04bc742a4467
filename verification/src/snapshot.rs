use vstd::prelude::*;
use crate::native_graph_sys91::{Bitmap, BitmapModel};

verus! {

/// The FNV-1a offset basis.
pub const FNV_OFFSET: u64 = 0xcbf2_9ce4_8422_2325;

/// The FNV-1a prime.
pub const FNV_PRIME: u64 = 0x0000_0100_0000_01b3;

/// One FNV-1a step: mix in a byte, then multiply by the prime (wrapping).
pub open spec fn fnv_step(h: u64, b: u8) -> u64 {
    (h ^ (b as u64)).wrapping_mul(FNV_PRIME)
}

/// FNV-1a over `bytes`, starting from `h`.
pub open spec fn fnv1a(h: u64, bytes: Seq<u8>) -> u64
    decreases bytes.len(),
{
    if bytes.len() == 0 {
        h
    } else {
        fnv_step(fnv1a(h, bytes.drop_last()), bytes.last())
    }
}

/// The four little-endian bytes of `v`.
pub open spec fn le_bytes(v: u32) -> Seq<u8> {
    seq![(v & 0xff) as u8, ((v >> 8) & 0xff) as u8, ((v >> 16) & 0xff) as u8, ((v >> 24) & 0xff) as u8]
}

/// The digest of a frame: FNV-1a over its width and height (little endian)
/// and then its pixel bytes.
pub open spec fn framebuffer_hash_spec(b: BitmapModel) -> u64 {
    fnv1a(FNV_OFFSET, le_bytes(b.width) + le_bytes(b.height) + b.rgba)
}

fn hash_bytes(h: u64, bytes: &[u8]) -> (out: u64)
    ensures
        out == fnv1a(h, bytes@),
{
    let mut acc = h;
    let mut i: usize = 0;
    while i < bytes.len()
        invariant
            i <= bytes@.len(),
            acc == fnv1a(h, bytes@.take(i as int)),
        decreases bytes@.len() - i,
    {
        assert(bytes@.take(i as int + 1).drop_last() =~= bytes@.take(i as int));
        acc = (acc ^ (bytes[i] as u64)).wrapping_mul(FNV_PRIME);
        i += 1;
    }
    assert(bytes@.take(bytes@.len() as int) =~= bytes@);
    acc
}

proof fn lemma_fnv1a_append(h: u64, a: Seq<u8>, b: Seq<u8>)
    ensures
        fnv1a(h, a + b) == fnv1a(fnv1a(h, a), b),
    decreases b.len(),
{
    if b.len() == 0 {
        assert(a + b =~= a);
    } else {
        lemma_fnv1a_append(h, a, b.drop_last());
        assert((a + b).drop_last() =~= a + b.drop_last());
    }
}

fn le_bytes_of(v: u32) -> (out: [u8; 4])
    ensures
        out@ == le_bytes(v),
{
    let out = [(v & 0xff) as u8, ((v >> 8) & 0xff) as u8, ((v >> 16) & 0xff) as u8, ((v >> 24) & 0xff) as u8];
    assert(out@ =~= le_bytes(v));
    out
}

/// A digest of a frame that is the same on every platform and in every
/// process: FNV-1a over the width, the height and the pixels (see
/// [`framebuffer_hash_spec`]).
pub fn stable_framebuffer_hash(framebuffer: &Bitmap) -> (out: u64)
    ensures
        out == framebuffer_hash_spec(framebuffer@),
{
    let w = le_bytes_of(framebuffer.width);
    let h = le_bytes_of(framebuffer.height);
    let after_width = hash_bytes(FNV_OFFSET, &w);
    let after_height = hash_bytes(after_width, &h);
    let out = hash_bytes(after_height, framebuffer.rgba.as_slice());
    proof {
        lemma_fnv1a_append(FNV_OFFSET, le_bytes(framebuffer.width), le_bytes(framebuffer.height));
        lemma_fnv1a_append(
            FNV_OFFSET,
            le_bytes(framebuffer.width) + le_bytes(framebuffer.height),
            framebuffer@.rgba,
        );
    }
    out
}

} // verus!
