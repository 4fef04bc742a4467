use vstd::prelude::*;
use crate::native_graph_sys91::{bitmap_wf, graph91_wf, Bitmap, BitmapModel, Graph91Model};
use crate::runtime::RuntimeTraceApi;

verus! {

broadcast use vstd::std_specs::hash::group_hash_axioms;

/// Channel `c` of a packed colour: red, green and blue from bits 16, 8 and
/// 0, alpha from the top byte.
pub open spec fn packed_channel(packed: u32, c: int) -> u8 {
    (if c == 0 {
        (packed / 0x1_0000) % 0x100
    } else if c == 1 {
        (packed / 0x100) % 0x100
    } else if c == 2 {
        packed % 0x100
    } else {
        packed / 0x100_0000
    }) as u8
}

/// The bytes after replacing a colour: in format 1 a pixel whose colour
/// matches takes the replacement colour, opaque; otherwise, with a
/// transparent needle the colour alone is matched and replaced, else the
/// whole pixel is matched and replaced.
pub open spec fn color_replaced(rgba: Seq<u8>, format: i32, needle: u32, replacement: u32) -> Seq<u8> {
    Seq::new(
        rgba.len(),
        |i: int|
            {
                let b = i - i % 4;
                let c = i % 4;
                let rgb_eq = rgba[b] == packed_channel(needle, 0) && rgba[b + 1] == packed_channel(needle, 1)
                    && rgba[b + 2] == packed_channel(needle, 2);
                if format == 1 {
                    if rgb_eq {
                        if c < 3 { packed_channel(replacement, c) } else { 255u8 }
                    } else {
                        rgba[i]
                    }
                } else if packed_channel(needle, 3) == 0 {
                    if rgb_eq && c < 3 { packed_channel(replacement, c) } else { rgba[i] }
                } else if rgb_eq && rgba[b + 3] == packed_channel(needle, 3) {
                    packed_channel(replacement, c)
                } else {
                    rgba[i]
                }
            },
    )
}

fn channel_of(packed: u32, c: usize) -> (v: u8)
    requires
        c < 4,
    ensures
        v == packed_channel(packed, c as int),
{
    if c == 0 {
        ((packed / 0x1_0000) % 0x100) as u8
    } else if c == 1 {
        ((packed / 0x100) % 0x100) as u8
    } else if c == 2 {
        (packed % 0x100) as u8
    } else {
        (packed / 0x100_0000) as u8
    }
}

fn replace_color_bytes(rgba: &Vec<u8>, format: i32, needle: u32, replacement: u32) -> (out: Vec<u8>)
    requires
        rgba@.len() % 4 == 0,
    ensures
        out@ == color_replaced(rgba@, format, needle, replacement),
{
    let mut out: Vec<u8> = Vec::new();
    let mut i: usize = 0;
    while i < rgba.len()
        invariant
            rgba@.len() % 4 == 0,
            i <= rgba@.len(),
            out@ == color_replaced(rgba@, format, needle, replacement).take(i as int),
        decreases rgba.len() - i,
    {
        let b = i - i % 4;
        let c = i % 4;
        let rgb_eq = rgba[b] == channel_of(needle, 0) && rgba[b + 1] == channel_of(needle, 1) && rgba[b + 2]
            == channel_of(needle, 2);
        let v = if format == 1 {
            if rgb_eq {
                if c < 3 { channel_of(replacement, c) } else { 255u8 }
            } else {
                rgba[i]
            }
        } else if channel_of(needle, 3) == 0 {
            if rgb_eq && c < 3 { channel_of(replacement, c) } else { rgba[i] }
        } else if rgb_eq && rgba[b + 3] == channel_of(needle, 3) {
            channel_of(replacement, c)
        } else {
            rgba[i]
        };
        out.push(v);
        assert(out@ =~= color_replaced(rgba@, format, needle, replacement).take(i as int + 1));
        i += 1;
    }
    assert(out@ =~= color_replaced(rgba@, format, needle, replacement));
    out
}

impl RuntimeTraceApi {
    /// Replaces a packed colour in a bitmap. `bytes_per_pixel` is the pixel
    /// size of the bitmap's recorded format (`None` for an unknown format).
    /// 1 when no format is recorded or the image is missing; 2 unless the
    /// pixel size is 4; 0 otherwise, the image changing only in formats 1
    /// and 2 (see [`color_replaced`]).
    pub fn replace_native_bitmap_color(
        &mut self,
        bitmap: i32,
        needle: u32,
        replacement: u32,
        bytes_per_pixel: Option<u32>,
    ) -> (status: i32)
        requires
            graph91_wf(old(self).graph91@),
        ensures
            final(self).same_outside_graph91(*old(self)),
            graph91_wf(final(self).graph91@),
            ({
                let m = old(self).graph91@;
                if !m.formats.contains_key(bitmap) {
                    status == 1 && final(self).graph91@ == m
                } else if bytes_per_pixel != Some(4u32) {
                    status == 2 && final(self).graph91@ == m
                } else if m.formats[bitmap] != 1 && m.formats[bitmap] != 2 {
                    status == 0 && final(self).graph91@ == m
                } else if !m.bitmaps.contains_key(bitmap) {
                    status == 1 && final(self).graph91@ == m
                } else {
                    let b = m.bitmaps[bitmap];
                    status == 0 && final(self).graph91@ == (Graph91Model {
                        bitmaps: m.bitmaps.insert(
                            bitmap,
                            BitmapModel {
                                width: b.width,
                                height: b.height,
                                rgba: color_replaced(b.rgba, m.formats[bitmap], needle, replacement),
                            },
                        ),
                        ..m
                    })
                }
            }),
    {
        let format = match self.graph91.bitmap_formats.get(&bitmap) {
            Some(f) => *f,
            None => {
                return 1;
            },
        };
        match bytes_per_pixel {
            Some(n) => {
                if n != 4 {
                    return 2;
                }
            },
            None => {
                return 2;
            },
        }
        if format != 1 && format != 2 {
            return 0;
        }
        let image = match self.graph91.bitmaps.get(&bitmap) {
            Some(b) => b,
            None => {
                return 1;
            },
        };
        proof {
            assert(old(self).graph91@.bitmaps.contains_key(bitmap));
            assert(bitmap_wf(image@));
            assert(image@.rgba.len() % 4 == 0) by (nonlinear_arith)
                requires
                    image@.rgba.len() == image@.width * image@.height * 4,
            ;
        }
        let rgba = replace_color_bytes(&image.rgba, format, needle, replacement);
        let out = Bitmap { width: image.width, height: image.height, rgba };
        let ghost ov = out@;
        self.graph91.bitmaps.insert(bitmap, out);
        assert(self.graph91@ =~= Graph91Model {
            bitmaps: old(self).graph91@.bitmaps.insert(bitmap, ov),
            ..old(self).graph91@
        });
        0
    }
}

} // verus!
