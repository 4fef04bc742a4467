use vstd::prelude::*;
use crate::native_graph_sys91::{bitmap_wf, graph91_wf, Bitmap, BitmapModel, Graph91Model};
use crate::runtime::RuntimeTraceApi;
use crate::native_call::{pop0, pop_any_spec, pop_int_value, pop_str_spec, pop_string_value, pop_values, popped_values_spec, source_ints_spec, NativeValue};

verus! {

broadcast use vstd::std_specs::hash::group_hash_axioms;

/// Each pixel becomes grey at the inverse of its alpha, alpha included.
pub open spec fn inverted_alpha(rgba: Seq<u8>) -> Seq<u8> {
    Seq::new(rgba.len(), |i: int| (255 - rgba[i - i % 4 + 3]) as u8)
}

fn invert_alpha_bytes(rgba: &Vec<u8>) -> (out: Vec<u8>)
    requires
        rgba@.len() % 4 == 0,
    ensures
        out@ == inverted_alpha(rgba@),
{
    let mut out: Vec<u8> = Vec::new();
    let mut i: usize = 0;
    while i < rgba.len()
        invariant
            rgba@.len() % 4 == 0,
            i <= rgba@.len(),
            out@ == inverted_alpha(rgba@).take(i as int),
        decreases rgba.len() - i,
    {
        let a = rgba[i - i % 4 + 3];
        out.push(255 - a);
        assert(out@ =~= inverted_alpha(rgba@).take(i as int + 1));
        i += 1;
    }
    assert(out@ =~= inverted_alpha(rgba@));
    out
}

impl RuntimeTraceApi {
    /// Turns an alpha-format (3) bitmap into its inverted alpha, as grey:
    /// every byte of a pixel becomes `255 - alpha`. False (and no change)
    /// unless the bitmap exists with recorded format 3.
    pub fn invert_system92_alpha_bitmap(&mut self, bitmap: i32) -> (ok: bool)
        requires
            graph91_wf(old(self).graph91@),
        ensures
            final(self).same_outside_graph91(*old(self)),
            graph91_wf(final(self).graph91@),
            ({
                let m = old(self).graph91@;
                ok == (m.formats.contains_key(bitmap) && m.formats[bitmap] == 3 && m.bitmaps.contains_key(bitmap))
            }),
            !ok ==> final(self).graph91@ == old(self).graph91@,
            ok ==> ({
                let m = old(self).graph91@;
                let b = m.bitmaps[bitmap];
                final(self).graph91@ == (Graph91Model {
                    bitmaps: m.bitmaps.insert(
                        bitmap,
                        BitmapModel { width: b.width, height: b.height, rgba: inverted_alpha(b.rgba) },
                    ),
                    ..m
                })
            }),
    {
        match self.graph91.bitmap_formats.get(&bitmap) {
            Some(f) => {
                if *f != 3 {
                    return false;
                }
            },
            None => {
                return false;
            },
        }
        let image = match self.graph91.bitmaps.get(&bitmap) {
            Some(b) => b,
            None => {
                return false;
            },
        };
        proof {
            assert(old(self).graph91@.bitmaps.contains_key(bitmap));
            assert(bitmap_wf(image@));
            assert(image@.rgba.len() % 4 == 0) by (nonlinear_arith)
                requires
                    image@.rgba.len() == image@.width * image@.height * 4,
            ;
        }
        let rgba = invert_alpha_bytes(&image.rgba);
        let out = Bitmap { width: image.width, height: image.height, rgba };
        let ghost ov = out@;
        self.graph91.bitmaps.insert(bitmap, out);
        assert(self.graph91@ =~= Graph91Model {
            bitmaps: old(self).graph91@.bitmaps.insert(bitmap, ov),
            ..old(self).graph91@
        });
        true
    }
}

/// Why a bitmap-effect call of group `0x92` is refused.
#[derive(Debug, Clone, Copy, PartialEq, Eq, Structural)]
pub enum System92Error {
    /// The bitmap is not known.
    InvalidBitmap { call: u8, bitmap: i32 },
    /// The bitmap is not a non-empty format-6 vector map.
    NotVectorMap { call: u8, bitmap: i32 },
    /// The vector map mode is out of range.
    InvalidMode { call: u8, mode: i32 },
}

/// Bitmap work of group `0x92` left to the host: the effects engine (wave
/// tables, vector maps), colour replacement in the host's pixel layout,
/// preloading and loading files, alpha-mask conversion, compositing and
/// text runs. Where the host fails it, the call fails.
#[derive(Debug)]
pub enum System92Request {
    WaveTable { compact: bool, arguments: Vec<NativeValue> },
    RippleMap { bitmap: i32, mode: i32, center_x: i32, center_y: i32, period: i32 },
    AxisMap { bitmap: i32, mode: i32 },
    ReplaceColor { bitmap: i32, needle: u32, replacement: u32 },
    Preload { resource: String, context: String },
    AlphaMask { source: i32, destination: i32 },
    Composite { arguments: Vec<NativeValue> },
    TextRun { call: u8, arguments: Vec<NativeValue> },
    LoadBitmap { bitmap: i32, file: String },
}

/// A bitmap-effect request as a model.
pub enum System92RequestModel {
    WaveTable { compact: bool, arguments: Seq<NativeValue> },
    RippleMap { bitmap: i32, mode: i32, center_x: i32, center_y: i32, period: i32 },
    AxisMap { bitmap: i32, mode: i32 },
    ReplaceColor { bitmap: i32, needle: u32, replacement: u32 },
    Preload { resource: Seq<char>, context: Seq<char> },
    AlphaMask { source: i32, destination: i32 },
    Composite { arguments: Seq<NativeValue> },
    TextRun { call: u8, arguments: Seq<NativeValue> },
    LoadBitmap { bitmap: i32, file: Seq<char> },
}

impl View for System92Request {
    type V = System92RequestModel;

    open spec fn view(&self) -> System92RequestModel {
        match self {
            System92Request::WaveTable { compact, arguments } => System92RequestModel::WaveTable {
                compact: *compact,
                arguments: arguments@,
            },
            System92Request::RippleMap { bitmap, mode, center_x, center_y, period } => System92RequestModel::RippleMap {
                bitmap: *bitmap,
                mode: *mode,
                center_x: *center_x,
                center_y: *center_y,
                period: *period,
            },
            System92Request::AxisMap { bitmap, mode } => System92RequestModel::AxisMap { bitmap: *bitmap, mode: *mode },
            System92Request::ReplaceColor { bitmap, needle, replacement } => System92RequestModel::ReplaceColor {
                bitmap: *bitmap,
                needle: *needle,
                replacement: *replacement,
            },
            System92Request::Preload { resource, context } => System92RequestModel::Preload {
                resource: resource@,
                context: context@,
            },
            System92Request::AlphaMask { source, destination } => System92RequestModel::AlphaMask {
                source: *source,
                destination: *destination,
            },
            System92Request::Composite { arguments } => System92RequestModel::Composite { arguments: arguments@ },
            System92Request::TextRun { call, arguments } => System92RequestModel::TextRun {
                call: *call,
                arguments: arguments@,
            },
            System92Request::LoadBitmap { bitmap, file } => System92RequestModel::LoadBitmap {
                bitmap: *bitmap,
                file: file@,
            },
        }
    }
}

/// The calls of group `0x92` in `0x00`..`0x1F` answered here.
pub open spec fn system92_call(id: u8) -> bool {
    id == 0x00 || id == 0x01 || id == 0x10 || id == 0x11 || (0x13 <= id <= 0x15) || (0x18 <= id <= 0x1A) || (
    0x1C <= id <= 0x1F)
}

/// The calls the script machine answers itself (pointer bridges).
pub open spec fn machine_owned_system92_call(id: u8) -> bool {
    id == 0x12 || id == 0x16 || id == 0x17
}

/// A bitmap's format, 2 when none is recorded.
pub open spec fn format_or_two(m: Graph91Model, bitmap: i32) -> i32 {
    if m.formats.contains_key(bitmap) {
        m.formats[bitmap]
    } else {
        2
    }
}

/// Whether a bitmap is a known, non-empty format-6 vector map; the error
/// otherwise.
pub open spec fn vector_map_check(m: Graph91Model, call: u8, bitmap: i32) -> Option<System92Error> {
    if !m.dimensions.contains_key(bitmap) {
        Some(System92Error::InvalidBitmap { call, bitmap })
    } else if format_or_two(m, bitmap) != 6 || m.dimensions[bitmap].0 == 0 || m.dimensions[bitmap].1 == 0 {
        Some(System92Error::NotVectorMap { call, bitmap })
    } else {
        None
    }
}

/// A call's outcome: the arguments left, and its result and host work, or
/// its error.
pub type System92Outcome = (Seq<NativeValue>, Result<(NativeValue, Option<System92RequestModel>), System92Error>);

/// A bitmap-effect call of group `0x92` other than the alpha inversion
/// (`0x19`), on the graphics state (which it leaves unchanged).
pub open spec fn system92_call_spec(m: Graph91Model, id: u8, args: Seq<NativeValue>) -> System92Outcome {
    if id == 0x00 || id == 0x01 || id == 0x1A || id == 0x1C || id == 0x1D || id == 0x1E {
        let n: nat = if id == 0x00 {
            5
        } else if id == 0x01 {
            7
        } else if id == 0x1A {
            6
        } else if id == 0x1C {
            10
        } else if id == 0x1D {
            11
        } else {
            9
        };
        let values = popped_values_spec(args, n);
        let req = if id == 0x00 || id == 0x01 {
            System92RequestModel::WaveTable { compact: id == 0x00, arguments: values }
        } else if id == 0x1A {
            System92RequestModel::Composite { arguments: values }
        } else {
            System92RequestModel::TextRun { call: id, arguments: values }
        };
        (source_ints_spec(args, n).0, Ok((NativeValue::Void, Some(req))))
    } else if id == 0x10 {
        let (a1, period) = pop0(args);
        let (a2, center_y) = pop0(a1);
        let (a3, center_x) = pop0(a2);
        let (a4, mode) = pop0(a3);
        let (a5, bitmap) = pop0(a4);
        match vector_map_check(m, 0x10, bitmap) {
            Some(e) => (a5, Err(e)),
            None => if 0 <= mode <= 1 {
                (
                    a5,
                    Ok(
                        (
                            NativeValue::Void,
                            Some(System92RequestModel::RippleMap { bitmap, mode, center_x, center_y, period }),
                        ),
                    ),
                )
            } else {
                (a5, Err(System92Error::InvalidMode { call: 0x10, mode }))
            },
        }
    } else if id == 0x11 {
        let (a1, mode) = pop0(args);
        let (a2, bitmap) = pop0(a1);
        match vector_map_check(m, 0x11, bitmap) {
            Some(e) => (a2, Err(e)),
            None => if 0 <= mode <= 3 {
                (a2, Ok((NativeValue::Void, Some(System92RequestModel::AxisMap { bitmap, mode }))))
            } else {
                (a2, Err(System92Error::InvalidMode { call: 0x11, mode }))
            },
        }
    } else if id == 0x13 {
        let (a1, replacement) = pop0(args);
        let (a2, needle) = pop0(a1);
        let (a3, bitmap) = pop0(a2);
        (
            a3,
            Ok(
                (
                    NativeValue::Void,
                    Some(
                        System92RequestModel::ReplaceColor {
                            bitmap,
                            needle: needle as u32,
                            replacement: replacement as u32,
                        },
                    ),
                ),
            ),
        )
    } else if id == 0x14 {
        let (a1, context) = pop_str_spec(args);
        let (a2, resource) = pop_str_spec(a1);
        (a2, Ok((NativeValue::Void, Some(System92RequestModel::Preload { resource, context }))))
    } else if id == 0x15 {
        (args, Ok((NativeValue::Void, None)))
    } else if id == 0x18 {
        let (a1, source) = pop0(args);
        let (a2, destination) = pop0(a1);
        (a2, Ok((NativeValue::Void, Some(System92RequestModel::AlphaMask { source, destination }))))
    } else {
        let (a1, file) = pop_str_spec(args);
        let (a2, bitmap) = pop0(a1);
        (a2, Ok((NativeValue::Void, Some(System92RequestModel::LoadBitmap { bitmap, file }))))
    }
}

impl RuntimeTraceApi {
    /// Runs a bitmap-effect call of group `0x92` (`0x00`..`0x1F`): pops its
    /// arguments, checks the vector-map bitmaps and modes, inverts alpha
    /// bitmaps, and hands the effects engine, files, compositing and text
    /// runs to the host (see [`system92_call_spec`]); `None` for another
    /// group or call.
    #[verifier::rlimit(60)]
    pub fn dispatch_system92_00_1f(&mut self, group: u8, id: u8, args: &mut Vec<NativeValue>) -> (out: Option<
        Result<(NativeValue, Option<System92Request>), System92Error>,
    >)
        requires
            graph91_wf(old(self).graph91@),
            group == 0x92 ==> !machine_owned_system92_call(id),
        ensures
            graph91_wf(final(self).graph91@),
            final(self).same_outside_graph91(*old(self)),
            match out {
                None => !(group == 0x92 && system92_call(id)) && final(self).graph91@ == old(self).graph91@
                    && final(args)@ == old(args)@,
                Some(o) => group == 0x92 && system92_call(id) && if id == 0x19 {
                    let (a1, bitmap) = pop0(old(args)@);
                    let m = old(self).graph91@;
                    let ok = m.formats.contains_key(bitmap) && m.formats[bitmap] == 3 && m.bitmaps.contains_key(
                        bitmap,
                    );
                    &&& final(args)@ == a1
                    &&& o == Ok::<(NativeValue, Option<System92Request>), System92Error>(
                        (NativeValue::Int(if ok { 1 } else { 0 }), None),
                    )
                    &&& !ok ==> final(self).graph91@ == m
                    &&& ok ==> final(self).graph91@ == (Graph91Model {
                        bitmaps: m.bitmaps.insert(
                            bitmap,
                            BitmapModel {
                                width: m.bitmaps[bitmap].width,
                                height: m.bitmaps[bitmap].height,
                                rgba: inverted_alpha(m.bitmaps[bitmap].rgba),
                            },
                        ),
                        ..m
                    })
                } else {
                    &&& final(self).graph91@ == old(self).graph91@
                    &&& (final(args)@, match o {
                        Ok((v, r)) => Ok((v, match r {
                            Some(q) => Some(q@),
                            None => None::<System92RequestModel>,
                        })),
                        Err(e) => Err(e),
                    }) == system92_call_spec(old(self).graph91@, id, old(args)@)
                },
            },
    {
        if group != 0x92 {
            return None;
        }
        if id == 0x19 {
            let bitmap = pop_int_value(args, 0);
            let ok = self.invert_system92_alpha_bitmap(bitmap);
            return Some(Ok((NativeValue::Int(if ok { 1 } else { 0 }), None)));
        }
        if id == 0x00 || id == 0x01 || id == 0x1A || id == 0x1C || id == 0x1D || id == 0x1E {
            let n: usize = if id == 0x00 {
                5
            } else if id == 0x01 {
                7
            } else if id == 0x1A {
                6
            } else if id == 0x1C {
                10
            } else if id == 0x1D {
                11
            } else {
                9
            };
            let arguments = pop_values(args, n);
            let req = if id == 0x00 || id == 0x01 {
                System92Request::WaveTable { compact: id == 0x00, arguments }
            } else if id == 0x1A {
                System92Request::Composite { arguments }
            } else {
                System92Request::TextRun { call: id, arguments }
            };
            return Some(Ok((NativeValue::Void, Some(req))));
        }
        if id == 0x10 || id == 0x11 {
            let (period, center_y, center_x) = if id == 0x10 {
                let p = pop_int_value(args, 0);
                let cy = pop_int_value(args, 0);
                let cx = pop_int_value(args, 0);
                (p, cy, cx)
            } else {
                (0, 0, 0)
            };
            let mode = pop_int_value(args, 0);
            let bitmap = pop_int_value(args, 0);
            let dims = match self.graph91.bitmap_dimensions.get(&bitmap) {
                Some(d) => *d,
                None => {
                    return Some(Err(System92Error::InvalidBitmap { call: id, bitmap }));
                },
            };
            let format = match self.graph91.bitmap_formats.get(&bitmap) {
                Some(f) => *f,
                None => 2,
            };
            if format != 6 || dims.0 == 0 || dims.1 == 0 {
                return Some(Err(System92Error::NotVectorMap { call: id, bitmap }));
            }
            let limit = if id == 0x10 {
                1
            } else {
                3
            };
            if !(0 <= mode && mode <= limit) {
                return Some(Err(System92Error::InvalidMode { call: id, mode }));
            }
            let req = if id == 0x10 {
                System92Request::RippleMap { bitmap, mode, center_x, center_y, period }
            } else {
                System92Request::AxisMap { bitmap, mode }
            };
            return Some(Ok((NativeValue::Void, Some(req))));
        }
        if id == 0x13 {
            let replacement = pop_int_value(args, 0);
            let needle = pop_int_value(args, 0);
            let bitmap = pop_int_value(args, 0);
            return Some(
                Ok(
                    (
                        NativeValue::Void,
                        Some(
                            System92Request::ReplaceColor {
                                bitmap,
                                needle: needle as u32,
                                replacement: replacement as u32,
                            },
                        ),
                    ),
                ),
            );
        }
        if id == 0x14 {
            let context = pop_string_value(args);
            let resource = pop_string_value(args);
            return Some(Ok((NativeValue::Void, Some(System92Request::Preload { resource, context }))));
        }
        if id == 0x15 {
            return Some(Ok((NativeValue::Void, None)));
        }
        if id == 0x18 {
            let source = pop_int_value(args, 0);
            let destination = pop_int_value(args, 0);
            return Some(Ok((NativeValue::Void, Some(System92Request::AlphaMask { source, destination }))));
        }
        if id == 0x1F {
            let file = pop_string_value(args);
            let bitmap = pop_int_value(args, 0);
            return Some(Ok((NativeValue::Void, Some(System92Request::LoadBitmap { bitmap, file }))));
        }
        None
    }
}

} // verus!
