use vstd::prelude::*;
use std::collections::HashMap;
use crate::native_user::tdiv;
use crate::runtime::RuntimeTraceApi;

verus! {

broadcast use vstd::std_specs::hash::group_hash_axioms;

pub const GRAPH91_EFFECTOR_TAG: u32 = 0x9100_0000;
pub const GRAPH91_EFFECTOR_SLOTS: u32 = 8;
pub const GRAPH91_LANDSCAPE_TAG: u32 = 0xA100_0000;
pub const GRAPH91_LANDSCAPE_SLOTS: u32 = 4;

/// An effector: its mode, the two vector-map bitmaps (-1 for none), nine
/// mode parameters and its drawing priority.
#[derive(Debug, Clone, Copy)]
pub struct Graph91EffectorState {
    pub enabled: bool,
    pub mode: i32,
    pub vector_maps: [i32; 2],
    pub parameters: [i32; 9],
    pub priority: i32,
}

impl Graph91EffectorState {
    /// A new effector: enabled, no mode, no maps, zero parameters.
    pub open spec fn is_initial(self) -> bool {
        &&& self.enabled
        &&& self.mode == -1
        &&& self.vector_maps@ == seq![-1i32, -1i32]
        &&& self.parameters@ == Seq::new(9, |i: int| 0i32)
        &&& self.priority == 0
    }

    /// A new effector (see [`Graph91EffectorState::is_initial`]).
    pub fn new() -> (s: Self)
        ensures
            s.is_initial(),
    {
        let s = Graph91EffectorState {
            enabled: true,
            mode: -1,
            vector_maps: [-1, -1],
            parameters: [0; 9],
            priority: 0,
        };
        assert(s.vector_maps@ =~= seq![-1i32, -1i32]);
        assert(s.parameters@ =~= Seq::new(9, |i: int| 0i32));
        s
    }
}

/// One landscape cell: the column record drawn there (-1 for none), its
/// silhouette, four guide layers and the derived depth value.
#[derive(Debug, Clone, Copy)]
pub struct Graph91LandscapeCell {
    pub column_index: i32,
    pub silhouette_type: i32,
    pub silhouette_level: i32,
    pub silhouette_value: i32,
    pub guides: [Option<(i32, i32)>; 4],
    pub derived_value: u16,
}

/// A staggered isometric landscape: cell geometry and priority factors,
/// drawing state, the part rectangles and 34-word column records cut from a
/// source bitmap, the cell map (row-major, `map_width` per line) and the
/// guide rectangles.
#[derive(Debug, Clone)]
pub struct Graph91LandscapeState {
    pub cell_width: i32,
    pub row_step: i32,
    pub column_step: i32,
    pub baseline: i32,
    pub priority_row_factor: i32,
    pub priority_frame_factor: i32,
    pub enabled: bool,
    pub x: i32,
    pub y: i32,
    pub blend_mode: i32,
    pub alpha: i32,
    pub priority: i32,
    pub source_bitmap: i32,
    pub part_spacing: i32,
    pub parts: Vec<[i32; 5]>,
    pub columns: Vec<Vec<i32>>,
    pub map_width: i32,
    pub map_height: i32,
    pub cells: Vec<Graph91LandscapeCell>,
    pub guide_bitmap: i32,
    pub guides: Vec<[i32; 5]>,
}

/// The abstract landscape.
#[verifier::ext_equal]
pub struct LandscapeModel {
    pub cell_width: i32,
    pub row_step: i32,
    pub column_step: i32,
    pub baseline: i32,
    pub priority_row_factor: i32,
    pub priority_frame_factor: i32,
    pub enabled: bool,
    pub x: i32,
    pub y: i32,
    pub blend_mode: i32,
    pub alpha: i32,
    pub priority: i32,
    pub source_bitmap: i32,
    pub part_spacing: i32,
    pub parts: Seq<[i32; 5]>,
    pub columns: Seq<Seq<i32>>,
    pub map_width: i32,
    pub map_height: i32,
    pub cells: Seq<Graph91LandscapeCell>,
    pub guide_bitmap: i32,
    pub guides: Seq<[i32; 5]>,
}

impl View for Graph91LandscapeState {
    type V = LandscapeModel;

    open spec fn view(&self) -> LandscapeModel {
        LandscapeModel {
            cell_width: self.cell_width,
            row_step: self.row_step,
            column_step: self.column_step,
            baseline: self.baseline,
            priority_row_factor: self.priority_row_factor,
            priority_frame_factor: self.priority_frame_factor,
            enabled: self.enabled,
            x: self.x,
            y: self.y,
            blend_mode: self.blend_mode,
            alpha: self.alpha,
            priority: self.priority,
            source_bitmap: self.source_bitmap,
            part_spacing: self.part_spacing,
            parts: self.parts@,
            columns: self.columns@.map_values(|c: Vec<i32>| c@),
            map_width: self.map_width,
            map_height: self.map_height,
            cells: self.cells@,
            guide_bitmap: self.guide_bitmap,
            guides: self.guides@,
        }
    }
}

/// `x` saturated to the `i32` range.
pub open spec fn sat32(x: int) -> int {
    if x < i32::MIN {
        i32::MIN as int
    } else if x > i32::MAX {
        i32::MAX as int
    } else {
        x
    }
}

fn sat32_exec(x: i64) -> (out: i32)
    ensures
        out == sat32(x as int),
{
    if x < i32::MIN as i64 {
        i32::MIN
    } else if x > i32::MAX as i64 {
        i32::MAX
    } else {
        x as i32
    }
}

/// The landscape a create call sets up: an odd or zero cell width becomes
/// 64, zero steps become 16, a zero baseline becomes 35 row steps
/// (saturating); it starts enabled, opaque (alpha 256), with nothing loaded.
pub open spec fn new_landscape(
    cell_width: i32,
    row_step: i32,
    column_step: i32,
    baseline: i32,
    priority_row_factor: i32,
    priority_frame_factor: i32,
) -> LandscapeModel {
    let row = if row_step == 0 { 16i32 } else { row_step };
    LandscapeModel {
        cell_width: if cell_width == 0 || cell_width % 2 != 0 { 64i32 } else { cell_width },
        row_step: row,
        column_step: if column_step == 0 { 16i32 } else { column_step },
        baseline: if baseline == 0 { sat32(35 * row) as i32 } else { baseline },
        priority_row_factor,
        priority_frame_factor,
        enabled: true,
        x: 0,
        y: 0,
        blend_mode: 0,
        alpha: 256,
        priority: 0,
        source_bitmap: -1i32,
        part_spacing: 0,
        parts: Seq::empty(),
        columns: Seq::empty(),
        map_width: 0,
        map_height: 0,
        cells: Seq::empty(),
        guide_bitmap: -1i32,
        guides: Seq::empty(),
    }
}

/// The derived depth value of a cell: the baseline plus the line and column
/// priority terms, each step saturating in `i32`, clamped to `0..=65535`.
pub open spec fn derived_value(l: LandscapeModel, line: i32, column: i32) -> u16 {
    let v = sat32(
        sat32(l.baseline + sat32(line * l.priority_row_factor)) + sat32(column * l.priority_frame_factor),
    );
    if v < 0 {
        0
    } else if v > 0xFFFF {
        0xFFFF
    } else {
        v as u16
    }
}

/// The row-major index of a cell inside the map, if it is inside.
pub open spec fn cell_index_spec(l: LandscapeModel, line: i32, column: i32) -> Option<int> {
    if line < 0 || column < 0 || line >= l.map_height || column >= l.map_width {
        None
    } else {
        Some(line * l.map_width + column)
    }
}

/// Map dimensions within `0..=256` and one cell per map position.
pub open spec fn landscape_wf(l: LandscapeModel) -> bool {
    &&& 0 <= l.map_width <= 256
    &&& 0 <= l.map_height <= 256
    &&& l.cells.len() == l.map_width * l.map_height
}

proof fn lemma_i32_product_fits(a: i32, b: i32)
    ensures
        i64::MIN <= a as int * b as int <= i64::MAX,
{
    assert(-0x8000_0000 * 0x8000_0000 <= a as int * b as int <= 0x8000_0000 * 0x8000_0000) by (nonlinear_arith)
        requires
            -0x8000_0000 <= a <= 0x7fff_ffff,
            -0x8000_0000 <= b <= 0x7fff_ffff,
    ;
}

impl Graph91LandscapeState {
    /// A landscape as a create call sets it up (see [`new_landscape`]).
    pub fn new(
        cell_width: i32,
        row_step: i32,
        column_step: i32,
        baseline: i32,
        priority_row_factor: i32,
        priority_frame_factor: i32,
    ) -> (s: Self)
        ensures
            s@ == new_landscape(
                cell_width,
                row_step,
                column_step,
                baseline,
                priority_row_factor,
                priority_frame_factor,
            ),
            landscape_wf(s@),
    {
        let cell_width = if cell_width == 0 || cell_width % 2 != 0 { 64 } else { cell_width };
        let row_step = if row_step == 0 { 16 } else { row_step };
        let column_step = if column_step == 0 { 16 } else { column_step };
        let baseline = if baseline == 0 { sat32_exec(35 * row_step as i64) } else { baseline };
        let s = Graph91LandscapeState {
            cell_width,
            row_step,
            column_step,
            baseline,
            priority_row_factor,
            priority_frame_factor,
            enabled: true,
            x: 0,
            y: 0,
            blend_mode: 0,
            alpha: 256,
            priority: 0,
            source_bitmap: -1,
            part_spacing: 0,
            parts: Vec::new(),
            columns: Vec::new(),
            map_width: 0,
            map_height: 0,
            cells: Vec::new(),
            guide_bitmap: -1,
            guides: Vec::new(),
        };
        assert(s@.columns =~= Seq::<Seq<i32>>::empty());
        s
    }

    /// The row-major index of a cell inside the map.
    pub fn cell_index(&self, line: i32, column: i32) -> (out: Option<usize>)
        requires
            landscape_wf(self@),
        ensures
            out matches Some(i) ==> cell_index_spec(self@, line, column) == Some(i as int),
            out is None ==> cell_index_spec(self@, line, column) is None,
            out matches Some(i) ==> i < self@.cells.len(),
    {
        if line < 0 || column < 0 || line >= self.map_height || column >= self.map_width {
            return None;
        }
        assert(line * self.map_width + column < self.map_width * self.map_height) by (nonlinear_arith)
            requires
                0 <= line < self.map_height,
                0 <= column < self.map_width,
        ;
        assert(line * self.map_width + column <= 256 * 256) by (nonlinear_arith)
            requires
                0 <= line < self.map_height <= 256,
                0 <= column < self.map_width <= 256,
        ;
        Some(line as usize * self.map_width as usize + column as usize)
    }

    /// The derived depth value of a cell (see [`derived_value`]).
    pub fn rebuild_derived_value(&self, line: i32, column: i32) -> (v: u16)
        ensures
            v == derived_value(self@, line, column),
    {
        proof {
            lemma_i32_product_fits(line, self.priority_row_factor);
            lemma_i32_product_fits(column, self.priority_frame_factor);
        }
        let a = sat32_exec(line as i64 * self.priority_row_factor as i64);
        let b = sat32_exec(self.baseline as i64 + a as i64);
        let c = sat32_exec(column as i64 * self.priority_frame_factor as i64);
        let v = sat32_exec(b as i64 + c as i64);
        if v < 0 {
            0
        } else if v > 0xFFFF {
            0xFFFF
        } else {
            v as u16
        }
    }
}


/// A decoded RGBA bitmap, rows top to bottom, four bytes per pixel.
#[derive(Debug, Clone)]
pub struct Bitmap {
    pub width: u32,
    pub height: u32,
    pub rgba: Vec<u8>,
}

/// The abstract bitmap.
pub struct BitmapModel {
    pub width: u32,
    pub height: u32,
    pub rgba: Seq<u8>,
}

impl View for Bitmap {
    type V = BitmapModel;

    open spec fn view(&self) -> BitmapModel {
        BitmapModel { width: self.width, height: self.height, rgba: self.rgba@ }
    }
}

/// Four bytes per pixel, and a size that indexes in `usize`.
pub open spec fn bitmap_wf(b: BitmapModel) -> bool {
    &&& b.rgba.len() == b.width * b.height * 4
    &&& b.width * b.height * 4 <= usize::MAX
    &&& dims_ok(b.width, b.height)
}

/// `n`, or 1 when it is 0.
pub open spec fn at_least_one_u32(n: u32) -> int {
    if n == 0 {
        1
    } else {
        n as int
    }
}

/// A blank image of these dimensions (each at least 1) fits in memory.
pub open spec fn dims_ok(w: u32, h: u32) -> bool {
    at_least_one_u32(w) * at_least_one_u32(h) * 4 <= usize::MAX
}

/// Effectors, landscapes and the bitmaps (with their formats) they read.
pub struct Graph91State {
    pub effectors: HashMap<i32, Graph91EffectorState>,
    pub landscapes: HashMap<i32, Graph91LandscapeState>,
    pub bitmaps: HashMap<i32, Bitmap>,
    pub bitmap_formats: HashMap<i32, i32>,
    pub bitmap_dimensions: HashMap<i32, (u32, u32)>,
}

/// The abstract graphics state.
#[verifier::ext_equal]
pub struct Graph91Model {
    pub effectors: Map<i32, Graph91EffectorState>,
    pub landscapes: Map<i32, LandscapeModel>,
    pub bitmaps: Map<i32, BitmapModel>,
    pub formats: Map<i32, i32>,
    pub dimensions: Map<i32, (u32, u32)>,
}

impl View for Graph91State {
    type V = Graph91Model;

    open spec fn view(&self) -> Graph91Model {
        Graph91Model {
            effectors: self.effectors@,
            landscapes: self.landscapes@.map_values(|l: Graph91LandscapeState| l@),
            bitmaps: self.bitmaps@.map_values(|b: Bitmap| b@),
            formats: self.bitmap_formats@,
            dimensions: self.bitmap_dimensions@,
        }
    }
}

/// Every landscape and bitmap is well formed.
pub open spec fn graph91_wf(m: Graph91Model) -> bool {
    &&& forall|h: i32| #[trigger] m.landscapes.contains_key(h) ==> landscape_wf(m.landscapes[h])
    &&& forall|b: i32| #[trigger] m.bitmaps.contains_key(b) ==> bitmap_wf(m.bitmaps[b])
    &&& forall|b: i32| #[trigger] m.dimensions.contains_key(b) ==> dims_ok(m.dimensions[b].0, m.dimensions[b].1)
}

impl Graph91State {
    /// Nothing created, no bitmaps.
    pub fn new() -> (s: Self)
        ensures
            s@.effectors == Map::<i32, Graph91EffectorState>::empty(),
            s@.landscapes == Map::<i32, LandscapeModel>::empty(),
            s@.bitmaps == Map::<i32, BitmapModel>::empty(),
            s@.formats == Map::<i32, i32>::empty(),
            s@.dimensions == Map::<i32, (u32, u32)>::empty(),
            graph91_wf(s@),
    {
        let s = Graph91State {
            effectors: HashMap::new(),
            landscapes: HashMap::new(),
            bitmaps: HashMap::new(),
            bitmap_formats: HashMap::new(),
            bitmap_dimensions: HashMap::new(),
        };
        assert(s@.landscapes =~= Map::<i32, LandscapeModel>::empty());
        assert(s@.bitmaps =~= Map::<i32, BitmapModel>::empty());
        s
    }
}

/// The handle of slot `slot` under `tag`.
pub open spec fn tagged_handle(tag: u32, slot: u32) -> i32 {
    (tag | slot) as i32
}

/// The first handle from slot `slot` on (below `slots`) that `used` does not
/// hold, or 0 when every one is taken.
pub open spec fn first_free_tagged(used: Set<i32>, tag: u32, slot: u32, slots: u32) -> i32
    decreases slots - slot,
{
    if slot >= slots {
        0
    } else if !used.contains(tagged_handle(tag, slot)) {
        tagged_handle(tag, slot)
    } else {
        first_free_tagged(used, tag, (slot + 1) as u32, slots)
    }
}

/// Whether `handle` lies in the `slots` handles under `tag` (the offset is
/// taken modulo 2^32).
pub open spec fn in_tag_range(handle: i32, tag: u32, slots: u32) -> bool {
    (((handle as u32) as int - tag as int) % 0x1_0000_0000) < slots
}

/// A landscape cell pointed at another column record with its depth recomputed; no change (and failure) for an unknown landscape, a missing column record or a cell outside the map.
pub open spec fn set_cell_column_post(m0: Graph91Model, m2: Graph91Model, ok: bool, handle: i32, line: i32, column: i32, column_index: i32) -> bool {
    let m = m0;
    if m.landscapes.contains_key(handle) && -1 <= column_index < m.landscapes[handle].columns.len()
        && cell_index_spec(m.landscapes[handle], line, column) is Some {
        let l = m.landscapes[handle];
        let i = cell_index_spec(l, line, column)->0;
        &&& ok
        &&& m2 == (Graph91Model {
            landscapes: m.landscapes.insert(
                handle,
                LandscapeModel {
                    cells: l.cells.update(
                        i,
                        Graph91LandscapeCell {
                            column_index,
                            derived_value: derived_value(l, line, column),
                            ..l.cells[i]
                        },
                    ),
                    ..l
                },
            ),
            ..m
        })
    } else {
        !ok && m2 == m
    }
}

/// A landscape part's pixels copied over another part of the same size in the source bitmap; no change (and failure) when the parts or the bitmap do not allow it.
pub open spec fn copy_part_post(m0: Graph91Model, m2: Graph91Model, ok: bool, handle: i32, destination: i32, source: i32) -> bool {
    let m = m0;
    let l = m.landscapes[handle];
    let sp = l.parts[source as int];
    let dp = l.parts[destination as int];
    let bitmap = l.source_bitmap;
    let img = m.bitmaps[bitmap];
    let (sx, sy, dx, dy) = (non_negative(sp[0]), non_negative(sp[1]), non_negative(dp[0]), non_negative(dp[1]));
    let (w, h) = (non_negative(sp[2]), non_negative(sp[3]));
    let valid = m.landscapes.contains_key(handle) && 0 <= source < l.parts.len() && 0 <= destination
        < l.parts.len() && sp[2] == dp[2] && sp[3] == dp[3] && sp[4] == dp[4] && m.bitmaps.contains_key(bitmap)
        && sx + w <= img.width && sy + h <= img.height && dx + w <= img.width && dy + h <= img.height;
    &&& ok == valid
    &&& !ok ==> m2 == m
    &&& ok ==> m2 == (Graph91Model {
        bitmaps: m.bitmaps.insert(
            bitmap,
            BitmapModel {
                width: img.width,
                height: img.height,
                rgba: copied_rect(img.rgba, img.width as int, img.rgba, img.width as int, sx, sy, dx, dy, w, h),
            },
        ),
        formats: m.formats.insert(bitmap, format_of(m, bitmap)),
        dimensions: m.dimensions.insert(bitmap, (img.width, img.height)),
        ..m
    })
}

/// A landscape cell's part image copied to the top left of a destination bitmap; no change (and failure) when the cell, its column record, its part or the bitmaps do not allow it.
pub open spec fn copy_cell_image_post(m0: Graph91Model, m2: Graph91Model, ok: bool, destination: i32, handle: i32, line: i32, column: i32) -> bool {
    let m = m0;
    let l = m.landscapes[handle];
    let ci = cell_index_spec(l, line, column);
    let cell = l.cells[ci->0];
    let record = l.columns[cell.column_index as int];
    let part = l.parts[record[0] as int];
    let src = m.bitmaps[l.source_bitmap];
    let out0 = m.bitmaps[destination];
    let (sx, sy, w, h) = (non_negative(part[0]), non_negative(part[1]), non_negative(part[2]), non_negative(part[3]));
    let valid = m.landscapes.contains_key(handle) && ci is Some && cell.column_index >= 0
        && cell.column_index < l.columns.len() && record.len() > 0 && record[0] >= 0 && record[0]
        < l.parts.len() && m.bitmaps.contains_key(l.source_bitmap) && m.bitmaps.contains_key(destination)
        && sx + w <= src.width && sy + h <= src.height && w <= out0.width && h <= out0.height;
    &&& ok == valid
    &&& !ok ==> m2 == m
    &&& ok ==> m2 == (Graph91Model {
        bitmaps: m.bitmaps.insert(
            destination,
            BitmapModel {
                width: out0.width,
                height: out0.height,
                rgba: copied_rect(out0.rgba, out0.width as int, src.rgba, src.width as int, sx, sy, 0, 0, w, h),
            },
        ),
        formats: m.formats.insert(destination, format_of(m, destination)),
        dimensions: m.dimensions.insert(destination, (out0.width, out0.height)),
        ..m
    })
}

impl RuntimeTraceApi {
    /// The first free handle of a tagged registry (slot order), or 0 when
    /// all `slots` are taken.
    pub fn graph91_allocate_tagged_handle<T>(registry: &HashMap<i32, T>, tag: u32, slots: u32) -> (h: i32)
        ensures
            h == first_free_tagged(registry@.dom(), tag, 0, slots),
    {
        let mut slot: u32 = 0;
        while slot < slots
            invariant
                slot <= slots,
                first_free_tagged(registry@.dom(), tag, 0, slots) == first_free_tagged(
                    registry@.dom(),
                    tag,
                    slot,
                    slots,
                ),
            decreases slots - slot,
        {
            let handle = (tag | slot) as i32;
            if !registry.contains_key(&handle) {
                return handle;
            }
            slot += 1;
        }
        0
    }

    /// Whether `handle` is one of the `slots` handles under `tag`.
    pub fn graph90_tag_matches(handle: i32, tag: u32, slots: u32) -> (out: bool)
        ensures
            out == in_tag_range(handle, tag, slots),
    {
        let offset = (handle as u32).wrapping_sub(tag);
        proof {
            assert(offset == (((handle as u32) as int - tag as int) % 0x1_0000_0000));
        }
        offset < slots
    }
}


/// A bitmap's format, 2 when none was recorded.
pub open spec fn format_of(m: Graph91Model, bitmap: i32) -> i32 {
    if m.formats.contains_key(bitmap) {
        m.formats[bitmap]
    } else {
        2
    }
}

/// Whether a bitmap argument is acceptable where `required_format` is
/// needed: -1 (none), or an existing bitmap of that format.
pub open spec fn bitmap_matches(m: Graph91Model, bitmap: i32, required_format: i32) -> bool {
    bitmap == -1 || (m.bitmaps.contains_key(bitmap) && format_of(m, bitmap) == required_format)
}

impl RuntimeTraceApi {
    /// Creates an effector in the first free of the eight effector handles;
    /// 0 when all are taken.
    pub fn graph91_create_effector(&mut self) -> (h: i32)
        ensures
            final(self).same_outside_graph91(*old(self)),
            h == first_free_tagged(old(self).graph91@.effectors.dom(), GRAPH91_EFFECTOR_TAG, 0, GRAPH91_EFFECTOR_SLOTS),
            h == 0 ==> final(self).graph91@ == old(self).graph91@,
            h != 0 ==> final(self).graph91@ == (Graph91Model {
                effectors: old(self).graph91@.effectors.insert(h, final(self).graph91@.effectors[h]),
                ..old(self).graph91@
            }) && final(self).graph91@.effectors[h].is_initial(),
    {
        let h = Self::graph91_allocate_tagged_handle(
            &self.graph91.effectors,
            GRAPH91_EFFECTOR_TAG,
            GRAPH91_EFFECTOR_SLOTS,
        );
        if h != 0 {
            let e = Graph91EffectorState::new();
            self.graph91.effectors.insert(h, e);
            assert(self.graph91@ =~= Graph91Model {
                effectors: old(self).graph91@.effectors.insert(h, e),
                ..old(self).graph91@
            });
        }
        h
    }

    /// Releases an effector; false (and no change) for a handle outside the
    /// effector range or not in use.
    pub fn graph91_release_effector(&mut self, handle: i32) -> (removed: bool)
        ensures
            final(self).same_outside_graph91(*old(self)),
            removed == (in_tag_range(handle, GRAPH91_EFFECTOR_TAG, GRAPH91_EFFECTOR_SLOTS)
                && old(self).graph91@.effectors.contains_key(handle)),
            removed ==> final(self).graph91@ == (Graph91Model {
                effectors: old(self).graph91@.effectors.remove(handle),
                ..old(self).graph91@
            }),
            !removed ==> final(self).graph91@ == old(self).graph91@,
    {
        if !Self::graph90_tag_matches(handle, GRAPH91_EFFECTOR_TAG, GRAPH91_EFFECTOR_SLOTS) {
            return false;
        }
        let removed = self.graph91.effectors.remove(&handle).is_some();
        assert(self.graph91@ =~= Graph91Model {
            effectors: old(self).graph91@.effectors.remove(handle),
            ..old(self).graph91@
        });
        removed
    }

    /// Whether a bitmap argument is acceptable where `required_format` is
    /// needed (see [`bitmap_matches`]).
    pub fn graph91_bitmap_matches(&self, bitmap: i32, required_format: i32) -> (out: bool)
        ensures
            out == bitmap_matches(self.graph91@, bitmap, required_format),
    {
        if bitmap == -1 {
            return true;
        }
        if !self.graph91.bitmaps.contains_key(&bitmap) {
            return false;
        }
        let format = match self.graph91.bitmap_formats.get(&bitmap) {
            Some(f) => *f,
            None => 2,
        };
        format == required_format
    }

    /// Configures an effector: mode 2 needs a format-6 first map, other
    /// modes a format-4 one; the second map must be format 4 (-1 is always
    /// accepted). A valid priority (`0..0x10000`) replaces the old one.
    /// Unknown effectors and mismatched maps change nothing.
    pub fn graph91_configure_effector(
        &mut self,
        handle: i32,
        mode: i32,
        maps: [i32; 2],
        parameters: [i32; 9],
        priority: i32,
    )
        ensures
            final(self).same_outside_graph91(*old(self)),
            ({
                let m = old(self).graph91@;
                let required = if mode == 2 { 6i32 } else { 4i32 };
                if m.effectors.contains_key(handle) && bitmap_matches(m, maps[0], required) && bitmap_matches(
                    m,
                    maps[1],
                    4,
                ) {
                    let e = m.effectors[handle];
                    final(self).graph91@ == (Graph91Model {
                        effectors: m.effectors.insert(
                            handle,
                            Graph91EffectorState {
                                mode,
                                vector_maps: maps,
                                parameters,
                                priority: if 0 <= priority < 0x1_0000 { priority } else { e.priority },
                                ..e
                            },
                        ),
                        ..m
                    })
                } else {
                    final(self).graph91@ == m
                }
            }),
    {
        let e = match self.graph91.effectors.get(&handle) {
            Some(e) => *e,
            None => {
                return;
            },
        };
        let required = if mode == 2 { 6 } else { 4 };
        if maps[0] != -1 && !self.graph91_bitmap_matches(maps[0], required) {
            return;
        }
        if maps[1] != -1 && !self.graph91_bitmap_matches(maps[1], 4) {
            return;
        }
        let updated = Graph91EffectorState {
            mode,
            vector_maps: maps,
            parameters,
            priority: if 0 <= priority && priority < 0x1_0000 { priority } else { e.priority },
            ..e
        };
        self.graph91.effectors.insert(handle, updated);
        assert(self.graph91@ =~= Graph91Model {
            effectors: old(self).graph91@.effectors.insert(handle, updated),
            ..old(self).graph91@
        });
    }

    /// Creates a landscape in the first free of the four landscape handles
    /// (see [`new_landscape`]); 0 when all are taken.
    pub fn graph91_create_landscape(
        &mut self,
        cell_width: i32,
        row_step: i32,
        column_step: i32,
        baseline: i32,
        row_factor: i32,
        frame_factor: i32,
    ) -> (h: i32)
        requires
            graph91_wf(old(self).graph91@),
        ensures
            final(self).same_outside_graph91(*old(self)),
            graph91_wf(final(self).graph91@),
            h == first_free_tagged(old(self).graph91@.landscapes.dom(), GRAPH91_LANDSCAPE_TAG, 0, GRAPH91_LANDSCAPE_SLOTS),
            h == 0 ==> final(self).graph91@ == old(self).graph91@,
            h != 0 ==> final(self).graph91@ == (Graph91Model {
                landscapes: old(self).graph91@.landscapes.insert(
                    h,
                    new_landscape(cell_width, row_step, column_step, baseline, row_factor, frame_factor),
                ),
                ..old(self).graph91@
            }),
    {
        let h = Self::graph91_allocate_tagged_handle(
            &self.graph91.landscapes,
            GRAPH91_LANDSCAPE_TAG,
            GRAPH91_LANDSCAPE_SLOTS,
        );
        proof {
            assert(self.graph91.landscapes@.dom() == self.graph91@.landscapes.dom());
        }
        if h != 0 {
            let l = Graph91LandscapeState::new(cell_width, row_step, column_step, baseline, row_factor, frame_factor);
            self.graph91.landscapes.insert(h, l);
            assert(self.graph91@ =~= Graph91Model {
                landscapes: old(self).graph91@.landscapes.insert(
                    h,
                    new_landscape(cell_width, row_step, column_step, baseline, row_factor, frame_factor),
                ),
                ..old(self).graph91@
            });
        }
        h
    }

    /// Releases a landscape; false (and no change) for a handle outside the
    /// landscape range or not in use.
    pub fn graph91_release_landscape(&mut self, handle: i32) -> (removed: bool)
        requires
            graph91_wf(old(self).graph91@),
        ensures
            final(self).same_outside_graph91(*old(self)),
            graph91_wf(final(self).graph91@),
            removed == (in_tag_range(handle, GRAPH91_LANDSCAPE_TAG, GRAPH91_LANDSCAPE_SLOTS)
                && old(self).graph91@.landscapes.contains_key(handle)),
            removed ==> final(self).graph91@ == (Graph91Model {
                landscapes: old(self).graph91@.landscapes.remove(handle),
                ..old(self).graph91@
            }),
            !removed ==> final(self).graph91@ == old(self).graph91@,
    {
        if !Self::graph90_tag_matches(handle, GRAPH91_LANDSCAPE_TAG, GRAPH91_LANDSCAPE_SLOTS) {
            return false;
        }
        let removed = self.graph91.landscapes.remove(&handle).is_some();
        assert(self.graph91@ =~= Graph91Model {
            landscapes: old(self).graph91@.landscapes.remove(handle),
            ..old(self).graph91@
        });
        removed
    }

    /// The derived depth value of a landscape cell, when the landscape
    /// exists and the cell is inside its map.
    pub fn graph91_landscape_cell_value(&self, handle: i32, line: i32, column: i32) -> (out: Option<i32>)
        requires
            graph91_wf(self.graph91@),
        ensures
            ({
                let m = self.graph91@;
                if m.landscapes.contains_key(handle) {
                    let l = m.landscapes[handle];
                    match cell_index_spec(l, line, column) {
                        Some(i) => out == Some(l.cells[i].derived_value as i32),
                        None => out is None,
                    }
                } else {
                    out is None
                }
            }),
    {
        let l = match self.graph91.landscapes.get(&handle) {
            Some(l) => l,
            None => {
                return None;
            },
        };
        proof {
            assert(self.graph91@.landscapes.contains_key(handle));
        }
        match l.cell_index(line, column) {
            Some(i) => Some(l.cells[i].derived_value as i32),
            None => None,
        }
    }

    /// Points a landscape cell at another column record (-1 for none) and
    /// recomputes its depth value. False (and no change) for an unknown
    /// landscape, a column record that does not exist, or a cell outside
    /// the map.
    pub fn graph91_set_landscape_cell_column(&mut self, handle: i32, line: i32, column: i32, column_index: i32) -> (ok: bool)
        requires
            graph91_wf(old(self).graph91@),
        ensures
            final(self).same_outside_graph91(*old(self)),
            graph91_wf(final(self).graph91@),
            set_cell_column_post(old(self).graph91@, final(self).graph91@, ok, handle, line, column, column_index),
    {
        let mut l = match self.graph91.landscapes.remove(&handle) {
            Some(l) => l,
            None => {
                assert(self.graph91@ =~= old(self).graph91@);
                return false;
            },
        };
        let ghost lm = l@;
        assert(old(self).graph91@.landscapes.contains_key(handle));
        assert(lm == old(self).graph91@.landscapes[handle]);
        assert(landscape_wf(lm));
        if column_index < -1 || (column_index >= 0 && column_index as usize >= l.columns.len()) {
            self.graph91.landscapes.insert(handle, l);
            assert(self.graph91@ =~= old(self).graph91@);
            return false;
        }
        let i = match l.cell_index(line, column) {
            Some(i) => i,
            None => {
                self.graph91.landscapes.insert(handle, l);
                assert(self.graph91@ =~= old(self).graph91@);
                return false;
            },
        };
        let derived = l.rebuild_derived_value(line, column);
        let mut cell = l.cells[i];
        cell.column_index = column_index;
        cell.derived_value = derived;
        l.cells.set(i, cell);
        assert(l@ =~= LandscapeModel {
            cells: lm.cells.update(
                i as int,
                Graph91LandscapeCell { column_index, derived_value: derived_value(lm, line, column), ..lm.cells[i as int] },
            ),
            ..lm
        });
        self.graph91.landscapes.insert(handle, l);
        assert(self.graph91@ =~= Graph91Model {
            landscapes: old(self).graph91@.landscapes.insert(handle, l@),
            ..old(self).graph91@
        });
        true
    }
}


/// `w / 2`, rounding toward zero.
pub open spec fn half_toward_zero(w: i32) -> int {
    if w >= 0 {
        w / 2
    } else {
        -((-w) / 2)
    }
}

/// The positive step of a grid: `v`, or 1 when `v` is not positive.
pub open spec fn positive_step(v: i32) -> int {
    if v < 1 {
        1
    } else {
        v as int
    }
}

/// The cell under a pointer position `(px, py)`: the line is the floor of
/// the offset from the landscape's top over the row step, odd lines are
/// shifted right by half a cell, and the column is the floor of the offset
/// from the left over the cell width. It counts only inside the map and on a
/// cell that draws a column record, and only for an enabled landscape with a
/// map.
pub open spec fn hit_cell(l: LandscapeModel, px: i32, py: i32) -> Option<(int, int)> {
    let line = (py - l.y) / positive_step(l.row_step);
    let stagger = if line % 2 != 0 { half_toward_zero(l.cell_width) } else { 0 };
    let column = (px - l.x - stagger) / positive_step(l.cell_width);
    if !l.enabled || l.map_width <= 0 || l.map_height <= 0 {
        None
    } else if !(0 <= line < l.map_height) {
        None
    } else if !(0 <= column < l.map_width) {
        None
    } else if l.cells[line * l.map_width + column].column_index < 0 {
        None
    } else {
        Some((line, column))
    }
}

/// The offsets a hit test computes fit in `i32`.
pub open spec fn hit_offsets_fit(l: LandscapeModel, px: i32, py: i32) -> bool {
    &&& i32::MIN <= py - l.y <= i32::MAX
    &&& i32::MIN <= px - l.x <= i32::MAX
    &&& i32::MIN <= px - l.x - half_toward_zero(l.cell_width) <= i32::MAX
}

fn floor_div(a: i32, b: i32) -> (q: i32)
    requires
        b >= 1,
    ensures
        q == a / b,
{
    match a.checked_div_euclid(b) {
        Some(q) => q,
        None => {
            assert(a / b >= i32::MIN && a / b <= i32::MAX) by (nonlinear_arith)
                requires
                    b >= 1,
                    i32::MIN <= a <= i32::MAX,
            ;
            0
        },
    }
}

/// Whether `words` holds `count` five-word part records.
pub open spec fn parts_of(words: Seq<i32>, parts: Seq<[i32; 5]>) -> bool {
    &&& parts.len() * 5 == words.len()
    &&& forall|i: int, j: int| 0 <= i < parts.len() && 0 <= j < 5 ==> #[trigger] parts[i]@[j] == words[5 * i + j]
}

/// Whether `columns` are the 34-word column records of `words`.
pub open spec fn columns_of(words: Seq<i32>, columns: Seq<Seq<i32>>) -> bool {
    &&& columns.len() * 34 == words.len()
    &&& forall|i: int| 0 <= i < columns.len() ==> #[trigger] columns[i] == words.subrange(34 * i, 34 * i + 34)
}

fn chunks_of_five(words: &[i32]) -> (out: Vec<[i32; 5]>)
    requires
        words@.len() % 5 == 0,
    ensures
        parts_of(words@, out@),
{
    let mut out: Vec<[i32; 5]> = Vec::new();
    let mut i: usize = 0;
    while i < words.len()
        invariant
            words@.len() % 5 == 0,
            i == out@.len() * 5,
            i <= words@.len(),
            forall|a: int, b: int| 0 <= a < out@.len() && 0 <= b < 5 ==> #[trigger] out@[a]@[b] == words@[5 * a + b],
        decreases words.len() - i,
    {
        assert(i + 5 <= words@.len()) by (nonlinear_arith)
            requires
                words@.len() % 5 == 0,
                i == out@.len() * 5,
                i < words@.len(),
        ;
        let chunk = [words[i], words[i + 1], words[i + 2], words[i + 3], words[i + 4]];
        out.push(chunk);
        i += 5;
    }
    out
}

fn chunks_of_columns(words: &[i32]) -> (out: Vec<Vec<i32>>)
    requires
        words@.len() % 34 == 0,
    ensures
        columns_of(words@, out@.map_values(|c: Vec<i32>| c@)),
{
    let mut out: Vec<Vec<i32>> = Vec::new();
    let mut i: usize = 0;
    while i < words.len()
        invariant
            words@.len() % 34 == 0,
            i == out@.len() * 34,
            i <= words@.len(),
            forall|a: int| 0 <= a < out@.len() ==> #[trigger] out@[a]@ == words@.subrange(34 * a, 34 * a + 34),
        decreases words.len() - i,
    {
        assert(i + 34 <= words@.len()) by (nonlinear_arith)
            requires
                words@.len() % 34 == 0,
                i == out@.len() * 34,
                i < words@.len(),
        ;
        let mut chunk: Vec<i32> = Vec::new();
        let mut k: usize = 0;
        while k < 34
            invariant
                i + 34 <= words.len(),
                k <= 34,
                chunk@ == words@.subrange(i as int, i + k),
            decreases 34 - k,
        {
            chunk.push(words[i + k]);
            k += 1;
        }
        out.push(chunk);
        i += 34;
    }
    let ghost v = out@.map_values(|c: Vec<i32>| c@);
    assert forall|a: int| 0 <= a < v.len() implies #[trigger] v[a] == words@.subrange(34 * a, 34 * a + 34) by {
        assert(v[a] == out@[a]@);
    }
    out
}

impl RuntimeTraceApi {
    /// The map cell under the floored pointer position, as `[line, column]`
    /// (see [`hit_cell`]); `None` without a pointer or an enabled landscape.
    pub fn graph91_landscape_hit_test(&self, handle: i32, mouse: Option<(i32, i32)>) -> (out: Option<[i32; 2]>)
        requires
            graph91_wf(self.graph91@),
            self.graph91@.landscapes.contains_key(handle) ==> (mouse matches Some(p) ==> hit_offsets_fit(
                self.graph91@.landscapes[handle],
                p.0,
                p.1,
            )),
        ensures
            ({
                let m = self.graph91@;
                if !m.landscapes.contains_key(handle) || mouse is None {
                    out is None
                } else {
                    let p = mouse->0;
                    match hit_cell(m.landscapes[handle], p.0, p.1) {
                        Some(c) => out matches Some(r) && r[0] == c.0 && r[1] == c.1,
                        None => out is None,
                    }
                }
            }),
    {
        let l = match self.graph91.landscapes.get(&handle) {
            Some(l) => l,
            None => {
                return None;
            },
        };
        proof {
            assert(self.graph91@.landscapes.contains_key(handle));
            assert(landscape_wf(l@));
        }
        if !l.enabled || l.map_width <= 0 || l.map_height <= 0 {
            return None;
        }
        let (px, py) = match mouse {
            Some(p) => p,
            None => {
                return None;
            },
        };
        let row = if l.row_step < 1 { 1 } else { l.row_step };
        let line = floor_div(py - l.y, row);
        if line < 0 || line >= l.map_height {
            return None;
        }
        let stagger = if line % 2 != 0 {
            if l.cell_width >= 0 { l.cell_width / 2 } else { -((-(l.cell_width as i64)) / 2) as i32 }
        } else {
            0
        };
        let width = if l.cell_width < 1 { 1 } else { l.cell_width };
        let column = floor_div(px - l.x - stagger, width);
        let index = match l.cell_index(line, column) {
            Some(i) => i,
            None => {
                return None;
            },
        };
        if l.cells[index].column_index < 0 {
            return None;
        }
        Some([line, column])
    }

    /// Loads a landscape's parts: `part_count` five-word part rectangles and
    /// `column_count` 34-word column records cut from `bitmap`, with the
    /// spacing between parts. False (and no change) for negative counts,
    /// word lists of the wrong length, a missing bitmap or an unknown
    /// landscape.
    pub fn graph91_configure_landscape_parts(
        &mut self,
        handle: i32,
        bitmap: i32,
        part_count: i32,
        part_words: &[i32],
        part_spacing: i32,
        column_count: i32,
        column_words: &[i32],
    ) -> (ok: bool)
        requires
            graph91_wf(old(self).graph91@),
        ensures
            final(self).same_outside_graph91(*old(self)),
            graph91_wf(final(self).graph91@),
            ({
                let m = old(self).graph91@;
                ok == (part_count >= 0 && column_count >= 0 && part_words@.len() == part_count * 5
                    && column_words@.len() == column_count * 34 && m.bitmaps.contains_key(bitmap)
                    && m.landscapes.contains_key(handle))
            }),
            !ok ==> final(self).graph91@ == old(self).graph91@,
            ok ==> ({
                let m = old(self).graph91@;
                let l = final(self).graph91@.landscapes[handle];
                &&& final(self).graph91@ == (Graph91Model { landscapes: m.landscapes.insert(handle, l), ..m })
                &&& l == (LandscapeModel {
                    source_bitmap: bitmap,
                    part_spacing,
                    parts: l.parts,
                    columns: l.columns,
                    ..m.landscapes[handle]
                })
                &&& parts_of(part_words@, l.parts)
                &&& columns_of(column_words@, l.columns)
            }),
    {
        if part_count < 0 || column_count < 0 || part_words.len() as u64 != part_count as u64 * 5
            || column_words.len() as u64 != column_count as u64 * 34 || !self.graph91.bitmaps.contains_key(&bitmap) {
            return false;
        }
        let mut l = match self.graph91.landscapes.remove(&handle) {
            Some(l) => l,
            None => {
                assert(self.graph91@ =~= old(self).graph91@);
                return false;
            },
        };
        let ghost lm = l@;
        assert(old(self).graph91@.landscapes.contains_key(handle));
        assert(lm == old(self).graph91@.landscapes[handle]);
        l.source_bitmap = bitmap;
        l.part_spacing = part_spacing;
        l.parts = chunks_of_five(part_words);
        l.columns = chunks_of_columns(column_words);
        self.graph91.landscapes.insert(handle, l);
        assert(self.graph91@ =~= Graph91Model {
            landscapes: old(self).graph91@.landscapes.insert(handle, l@),
            ..old(self).graph91@
        });
        assert(self.graph91@.landscapes[handle] == l@);
        true
    }

    /// Loads a landscape's guide rectangles: `guide_count` five-word records
    /// cut from `bitmap`. False (and no change) for a negative count, a word
    /// list of the wrong length, a missing bitmap or an unknown landscape.
    pub fn graph91_configure_landscape_guides(&mut self, handle: i32, bitmap: i32, guide_count: i32, words: &[i32]) -> (ok: bool)
        requires
            graph91_wf(old(self).graph91@),
        ensures
            final(self).same_outside_graph91(*old(self)),
            graph91_wf(final(self).graph91@),
            ({
                let m = old(self).graph91@;
                ok == (guide_count >= 0 && words@.len() == guide_count * 5 && m.bitmaps.contains_key(bitmap)
                    && m.landscapes.contains_key(handle))
            }),
            !ok ==> final(self).graph91@ == old(self).graph91@,
            ok ==> ({
                let m = old(self).graph91@;
                let l = final(self).graph91@.landscapes[handle];
                &&& final(self).graph91@ == (Graph91Model { landscapes: m.landscapes.insert(handle, l), ..m })
                &&& l == (LandscapeModel { guide_bitmap: bitmap, guides: l.guides, ..m.landscapes[handle] })
                &&& parts_of(words@, l.guides)
            }),
    {
        if guide_count < 0 || words.len() as u64 != guide_count as u64 * 5 || !self.graph91.bitmaps.contains_key(&bitmap) {
            return false;
        }
        let mut l = match self.graph91.landscapes.remove(&handle) {
            Some(l) => l,
            None => {
                assert(self.graph91@ =~= old(self).graph91@);
                return false;
            },
        };
        let ghost lm = l@;
        assert(old(self).graph91@.landscapes.contains_key(handle));
        assert(lm == old(self).graph91@.landscapes[handle]);
        l.guide_bitmap = bitmap;
        l.guides = chunks_of_five(words);
        self.graph91.landscapes.insert(handle, l);
        assert(self.graph91@ =~= Graph91Model {
            landscapes: old(self).graph91@.landscapes.insert(handle, l@),
            ..old(self).graph91@
        });
        assert(self.graph91@.landscapes[handle] == l@);
        true
    }
}


/// A cell as a map load creates it: the given column record and depth
/// value, no silhouette, no guides.
pub open spec fn is_fresh_cell(c: Graph91LandscapeCell, column_index: i32, derived: u16) -> bool {
    &&& c.column_index == column_index
    &&& c.silhouette_type == 0
    &&& c.silhouette_level == 0
    &&& c.silhouette_value == 0
    &&& c.guides@ == seq![None::<(i32, i32)>, None, None, None]
    &&& c.derived_value == derived
}

/// The cell pair `j` (column, line) names, if inside the map.
pub open spec fn pair_cell(l: LandscapeModel, pairs: Seq<i32>, j: int) -> Option<int> {
    cell_index_spec(l, pairs[2 * j + 1], pairs[2 * j])
}

/// The first pair at or after `j` (pairs of column, line) whose cell lies
/// outside the map, or the number of pairs when there is none.
pub open spec fn first_outside_pair(l: LandscapeModel, pairs: Seq<i32>, j: int) -> int
    decreases pairs.len() / 2 - j,
{
    if j >= pairs.len() / 2 || j < 0 {
        (pairs.len() / 2) as int
    } else if pair_cell(l, pairs, j) is None {
        j
    } else {
        first_outside_pair(l, pairs, j + 1)
    }
}

proof fn lemma_first_outside_pair(l: LandscapeModel, pairs: Seq<i32>, j: int)
    requires
        0 <= j <= pairs.len() / 2,
    ensures
        j <= first_outside_pair(l, pairs, j) <= pairs.len() / 2,
        forall|k: int| j <= k < first_outside_pair(l, pairs, j) ==> #[trigger] pair_cell(l, pairs, k) is Some,
        first_outside_pair(l, pairs, j) < pairs.len() / 2 ==> pair_cell(l, pairs, first_outside_pair(l, pairs, j)) is None,
    decreases pairs.len() / 2 - j,
{
    if j < pairs.len() / 2 && pair_cell(l, pairs, j) is Some {
        lemma_first_outside_pair(l, pairs, j + 1);
    }
}

/// Whether one of the first `k` pairs names cell `c`.
pub open spec fn pair_names_cell(l: LandscapeModel, pairs: Seq<i32>, k: int, c: int) -> bool {
    exists|j: int| 0 <= j < k && #[trigger] pair_cell(l, pairs, j) == Some(c)
}

/// `c` is `old` with guide layer `layer` set to `entry`.
pub open spec fn guide_set(c: Graph91LandscapeCell, old: Graph91LandscapeCell, layer: int, entry: Option<(i32, i32)>) -> bool {
    &&& c.column_index == old.column_index
    &&& c.silhouette_type == old.silhouette_type
    &&& c.silhouette_level == old.silhouette_level
    &&& c.silhouette_value == old.silhouette_value
    &&& c.derived_value == old.derived_value
    &&& c.guides@ == old.guides@.update(layer, entry)
}

/// The guide value a guide call writes: none for guide -1.
pub open spec fn guide_entry(guide: i32, value: i32) -> Option<(i32, i32)> {
    if guide == -1 {
        None
    } else {
        Some((guide, value))
    }
}

fn map_entries_valid(map: &[i32], ncols: usize) -> (ok: bool)
    ensures
        ok == forall|i: int| 0 <= i < map@.len() ==> -1 <= #[trigger] map@[i] < ncols,
{
    let mut i: usize = 0;
    while i < map.len()
        invariant
            i <= map@.len(),
            forall|k: int| 0 <= k < i ==> -1 <= #[trigger] map@[k] < ncols,
        decreases map.len() - i,
    {
        let c = map[i];
        if c < -1 || (c >= 0 && c as usize >= ncols) {
            return false;
        }
        i += 1;
    }
    true
}

fn build_map_cells(l: &Graph91LandscapeState, width: i32, height: i32, map: &[i32]) -> (cells: Vec<Graph91LandscapeCell>)
    requires
        1 <= width <= 256,
        1 <= height <= 256,
        map@.len() == width * height,
    ensures
        cells@.len() == map@.len(),
        forall|k: int|
            0 <= k < map@.len() ==> is_fresh_cell(
                #[trigger] cells@[k],
                map@[k],
                derived_value(l@, (k / width as int) as i32, (k % width as int) as i32),
            ),
{
    let mut cells: Vec<Graph91LandscapeCell> = Vec::new();
    let mut i: usize = 0;
    while i < map.len()
        invariant
            i <= map@.len(),
            map@.len() == width * height,
            1 <= width <= 256,
            1 <= height <= 256,
            cells@.len() == i,
            forall|k: int|
                0 <= k < i ==> is_fresh_cell(
                    #[trigger] cells@[k],
                    map@[k],
                    derived_value(l@, (k / width as int) as i32, (k % width as int) as i32),
                ),
        decreases map.len() - i,
    {
        assert(width * height <= 65536) by (nonlinear_arith)
            requires
                1 <= width <= 256,
                1 <= height <= 256,
        ;
        let line = i as i32 / width;
        let column = i as i32 % width;
        let cell = Graph91LandscapeCell {
            column_index: map[i],
            silhouette_type: 0,
            silhouette_level: 0,
            silhouette_value: 0,
            guides: [None, None, None, None],
            derived_value: l.rebuild_derived_value(line, column),
        };
        assert(cell.guides@ =~= seq![None::<(i32, i32)>, None, None, None]);
        cells.push(cell);
        i += 1;
    }
    cells
}

impl RuntimeTraceApi {
    /// Loads a landscape's cell map: `width` x `height` (each `1..=256`)
    /// column-record indices, row-major, each -1 or an existing record.
    /// Every cell is rebuilt with its depth value. False (and no change) for
    /// bad dimensions, a map of the wrong length, a bad index or an unknown
    /// landscape.
    pub fn graph91_configure_landscape_map(&mut self, handle: i32, width: i32, height: i32, map: &[i32]) -> (ok: bool)
        requires
            graph91_wf(old(self).graph91@),
        ensures
            final(self).same_outside_graph91(*old(self)),
            graph91_wf(final(self).graph91@),
            ({
                let m = old(self).graph91@;
                ok == (1 <= width <= 256 && 1 <= height <= 256 && map@.len() == width * height
                    && m.landscapes.contains_key(handle) && forall|i: int|
                    0 <= i < map@.len() ==> -1 <= #[trigger] map@[i] < m.landscapes[handle].columns.len())
            }),
            !ok ==> final(self).graph91@ == old(self).graph91@,
            ok ==> ({
                let m = old(self).graph91@;
                let old_l = m.landscapes[handle];
                let l = final(self).graph91@.landscapes[handle];
                &&& final(self).graph91@ == (Graph91Model { landscapes: m.landscapes.insert(handle, l), ..m })
                &&& l == (LandscapeModel { map_width: width, map_height: height, cells: l.cells, ..old_l })
                &&& l.cells.len() == map@.len()
                &&& forall|i: int|
                    0 <= i < map@.len() ==> is_fresh_cell(
                        #[trigger] l.cells[i],
                        map@[i],
                        derived_value(old_l, (i / width as int) as i32, (i % width as int) as i32),
                    )
            }),
    {
        if width < 1 || width > 256 || height < 1 || height > 256 {
            return false;
        }
        assert(width * height <= 65536) by (nonlinear_arith)
            requires
                1 <= width <= 256,
                1 <= height <= 256,
        ;
        if map.len() != (width * height) as usize {
            return false;
        }
        let ncols = match self.graph91.landscapes.get(&handle) {
            Some(l) => l.columns.len(),
            None => {
                return false;
            },
        };
        assert(old(self).graph91@.landscapes.contains_key(handle));
        if !map_entries_valid(map, ncols) {
            return false;
        }
        let mut l = match self.graph91.landscapes.remove(&handle) {
            Some(l) => l,
            None => {
                return false;
            },
        };
        let ghost lm = l@;
        assert(lm == old(self).graph91@.landscapes[handle]);
        let cells = build_map_cells(&l, width, height, map);
        l.map_width = width;
        l.map_height = height;
        l.cells = cells;
        self.graph91.landscapes.insert(handle, l);
        assert(self.graph91@ =~= Graph91Model {
            landscapes: old(self).graph91@.landscapes.insert(handle, l@),
            ..old(self).graph91@
        });
        assert(self.graph91@.landscapes[handle] == l@);
        true
    }

    /// Sets guide layer `layer` (`0..4`) of the cells named by `pairs`
    /// (column, line) to `guide` with `value` (-1 clears). Pairs are taken
    /// in order; a pair outside the map stops the call with false, keeping
    /// the cells already set. False (and no change) for an odd pair list, a
    /// bad layer, an unknown landscape or a guide that does not exist.
    pub fn graph91_set_landscape_cell_guides(
        &mut self,
        handle: i32,
        pairs: &[i32],
        layer: i32,
        guide: i32,
        value: i32,
    ) -> (ok: bool)
        requires
            graph91_wf(old(self).graph91@),
        ensures
            final(self).same_outside_graph91(*old(self)),
            graph91_wf(final(self).graph91@),
            ({
                let m = old(self).graph91@;
                let valid = pairs@.len() % 2 == 0 && 0 <= layer < 4 && m.landscapes.contains_key(handle) && -1
                    <= guide < m.landscapes[handle].guides.len();
                if !valid {
                    !ok && final(self).graph91@ == m
                } else {
                    let old_l = m.landscapes[handle];
                    let k = first_outside_pair(old_l, pairs@, 0);
                    let l = final(self).graph91@.landscapes[handle];
                    &&& ok == (k == pairs@.len() / 2)
                    &&& final(self).graph91@ == (Graph91Model { landscapes: m.landscapes.insert(handle, l), ..m })
                    &&& l == (LandscapeModel { cells: l.cells, ..old_l })
                    &&& l.cells.len() == old_l.cells.len()
                    &&& forall|c: int|
                        0 <= c < l.cells.len() ==> if pair_names_cell(old_l, pairs@, k, c) {
                            guide_set(#[trigger] l.cells[c], old_l.cells[c], layer as int, guide_entry(guide, value))
                        } else {
                            l.cells[c] == old_l.cells[c]
                        }
                }
            }),
    {
        if pairs.len() % 2 != 0 || layer < 0 || layer >= 4 {
            return false;
        }
        let mut l = match self.graph91.landscapes.remove(&handle) {
            Some(l) => l,
            None => {
                assert(self.graph91@ =~= old(self).graph91@);
                return false;
            },
        };
        let ghost lm = l@;
        assert(old(self).graph91@.landscapes.contains_key(handle));
        assert(lm == old(self).graph91@.landscapes[handle]);
        assert(landscape_wf(lm));
        if guide < -1 || (guide >= 0 && guide as usize >= l.guides.len()) {
            self.graph91.landscapes.insert(handle, l);
            assert(self.graph91@ =~= old(self).graph91@);
            return false;
        }
        let entry = if guide == -1 { None } else { Some((guide, value)) };
        proof {
            lemma_first_outside_pair(lm, pairs@, 0);
        }
        let ghost k = first_outside_pair(lm, pairs@, 0);
        let n = pairs.len() / 2;
        let mut j: usize = 0;
        let mut ok = true;
        while j < n
            invariant_except_break
                ok,
            invariant
                n == pairs@.len() / 2,
                j <= n,
                j <= k,
                k == first_outside_pair(lm, pairs@, 0),
                k <= n,
                forall|q: int| 0 <= q < k ==> #[trigger] pair_cell(lm, pairs@, q) is Some,
                k < n ==> pair_cell(lm, pairs@, k) is None,
                0 <= layer < 4,
                landscape_wf(lm),
                n * 2 <= pairs.len(),
                entry == guide_entry(guide, value),
                l@ == (LandscapeModel { cells: l@.cells, ..lm }),
                l@.cells.len() == lm.cells.len(),
                forall|c: int|
                    0 <= c < lm.cells.len() ==> if pair_names_cell(lm, pairs@, j as int, c) {
                        guide_set(#[trigger] l@.cells[c], lm.cells[c], layer as int, entry)
                    } else {
                        l@.cells[c] == lm.cells[c]
                    },
            ensures
                ok == (k == n),
                l@ == (LandscapeModel { cells: l@.cells, ..lm }),
                l@.cells.len() == lm.cells.len(),
                forall|c: int|
                    0 <= c < lm.cells.len() ==> if pair_names_cell(lm, pairs@, k, c) {
                        guide_set(#[trigger] l@.cells[c], lm.cells[c], layer as int, entry)
                    } else {
                        l@.cells[c] == lm.cells[c]
                    },
            decreases n - j,
        {
            assert(2 * j + 1 < pairs.len());
            let column = pairs[2 * j];
            let line = pairs[2 * j + 1];
            let index = match l.cell_index(line, column) {
                Some(i) => i,
                None => {
                    ok = false;
                    assert(j == k);
                    break;
                },
            };
            let mut cell = l.cells[index];
            let ghost before = l@.cells;
            cell.guides[layer as usize] = entry;
            l.cells.set(index, cell);
            proof {
                assert forall|c: int| 0 <= c < lm.cells.len() implies if pair_names_cell(lm, pairs@, j + 1, c) {
                    guide_set(#[trigger] l@.cells[c], lm.cells[c], layer as int, entry)
                } else {
                    l@.cells[c] == lm.cells[c]
                } by {
                    if c == index {
                        assert(pair_cell(lm, pairs@, j as int) == Some(c));
                        assert(pair_names_cell(lm, pairs@, j + 1, c));
                        if pair_names_cell(lm, pairs@, j as int, c) {
                            assert(before[c].guides@ == lm.cells[c].guides@.update(layer as int, entry));
                        }
                        assert(cell.guides@ =~= lm.cells[c].guides@.update(layer as int, entry));
                    } else {
                        if pair_names_cell(lm, pairs@, j + 1, c) {
                            let w = choose|w: int| 0 <= w < j + 1 && #[trigger] pair_cell(lm, pairs@, w) == Some(c);
                            assert(w != j);
                            assert(pair_names_cell(lm, pairs@, j as int, c));
                        } else {
                            assert(!pair_names_cell(lm, pairs@, j as int, c));
                        }
                    }
                }
            }
            j += 1;
        }
        self.graph91.landscapes.insert(handle, l);
        assert(self.graph91@ =~= Graph91Model {
            landscapes: old(self).graph91@.landscapes.insert(handle, l@),
            ..old(self).graph91@
        });
        assert(self.graph91@.landscapes[handle] == l@);
        ok
    }
}


/// A copy of a byte vector.
pub fn copy_bytes(v: &Vec<u8>) -> (r: Vec<u8>)
    ensures
        r@ == v@,
{
    let mut r: Vec<u8> = Vec::new();
    let mut i: usize = 0;
    while i < v.len()
        invariant
            i <= v@.len(),
            r@ == v@.take(i as int),
        decreases v.len() - i,
    {
        r.push(v[i]);
        i += 1;
    }
    assert(v@.take(v@.len() as int) =~= v@);
    r
}

impl Bitmap {
    /// A copy of the bitmap.
    pub fn duplicate(&self) -> (r: Self)
        ensures
            r@ == self@,
    {
        Bitmap { width: self.width, height: self.height, rgba: copy_bytes(&self.rgba) }
    }
}

/// Byte `c` of pixel `(x, y)` in a `w`-wide bitmap.
pub open spec fn byte_at(w: int, x: int, y: int, c: int) -> int {
    (y * w + x) * 4 + c
}

/// Pixel offsets stay inside a well-formed bitmap, and every byte index
/// splits back into its pixel and channel.
pub proof fn lemma_pixel_index(w: int, h: int, x: int, y: int, c: int)
    requires
        0 <= x < w,
        0 <= y < h,
        0 <= c < 4,
    ensures
        0 <= byte_at(w, x, y, c) < w * h * 4,
        byte_at(w, x, y, c) / 4 == y * w + x,
        byte_at(w, x, y, c) % 4 == c,
        (y * w + x) % w == x,
        (y * w + x) / w == y,
{
    assert(0 <= y * w + x < w * h) by (nonlinear_arith)
        requires
            0 <= x < w,
            0 <= y < h,
    ;
    assert((y * w + x) % w == x && (y * w + x) / w == y) by (nonlinear_arith)
        requires
            0 <= x < w,
            0 <= y,
    ;
}

/// Every byte index of a `w`-wide bitmap names a pixel inside it.
pub proof fn lemma_byte_split(w: int, h: int, i: int)
    requires
        0 < w,
        0 <= h,
        0 <= i < w * h * 4,
    ensures
        0 <= (i / 4) % w < w,
        0 <= (i / 4) / w < h,
        byte_at(w, (i / 4) % w, (i / 4) / w, i % 4) == i,
{
    let p = i / 4;
    assert(0 <= p < w * h) by (nonlinear_arith)
        requires
            0 <= i < w * h * 4,
            p == i / 4,
    ;
    assert(0 <= p / w < h && p == (p / w) * w + p % w) by (nonlinear_arith)
        requires
            0 < w,
            0 <= p < w * h,
    ;
}

impl RuntimeTraceApi {
    /// Stores a bitmap's new image, its dimensions and its format.
    pub fn graph91_store_bitmap(&mut self, bitmap: i32, image: Bitmap, format: i32)
        requires
            graph91_wf(old(self).graph91@),
            bitmap_wf(image@),
        ensures
            final(self).same_outside_graph91(*old(self)),
            graph91_wf(final(self).graph91@),
            final(self).graph91@ == (Graph91Model {
                bitmaps: old(self).graph91@.bitmaps.insert(bitmap, image@),
                formats: old(self).graph91@.formats.insert(bitmap, format),
                dimensions: old(self).graph91@.dimensions.insert(bitmap, (image@.width, image@.height)),
                ..old(self).graph91@
            }),
    {
        let ghost v = image@;
        let dims = (image.width, image.height);
        self.graph91.bitmaps.insert(bitmap, image);
        self.graph91.bitmap_formats.insert(bitmap, format);
        self.graph91.bitmap_dimensions.insert(bitmap, dims);
        assert(self.graph91@ =~= Graph91Model {
            bitmaps: old(self).graph91@.bitmaps.insert(bitmap, v),
            formats: old(self).graph91@.formats.insert(bitmap, format),
            dimensions: old(self).graph91@.dimensions.insert(bitmap, (v.width, v.height)),
            ..old(self).graph91@
        });
    }

    fn graph91_bitmap_image(&self, bitmap: i32) -> (out: Option<Bitmap>)
        requires
            graph91_wf(self.graph91@),
        ensures
            out is None <==> !self.graph91@.bitmaps.contains_key(bitmap),
            out matches Some(b) ==> b@ == self.graph91@.bitmaps[bitmap] && bitmap_wf(b@),
    {
        match self.graph91.bitmaps.get(&bitmap) {
            Some(b) => {
                assert(self.graph91@.bitmaps.contains_key(bitmap));
                Some(b.duplicate())
            },
            None => None,
        }
    }

    fn graph91_format_of(&self, bitmap: i32) -> (f: i32)
        ensures
            f == format_of(self.graph91@, bitmap),
    {
        match self.graph91.bitmap_formats.get(&bitmap) {
            Some(f) => *f,
            None => 2,
        }
    }
}


/// The grey level of source pixel `(x, y)`: the mean of its colour bytes.
pub open spec fn gray_of(src: BitmapModel, x: int, y: int) -> u8 {
    let w = src.width as int;
    ((src.rgba[byte_at(w, x, y, 0)] + src.rgba[byte_at(w, x, y, 1)] + src.rgba[byte_at(w, x, y, 2)]) / 3) as u8
}

/// The target's bytes after a grey mask at offset `(ox, oy)`: the alpha of
/// each target pixel that the shifted source covers becomes the grey level
/// of the source pixel under it; everything else stays.
pub open spec fn grayscale_masked(target: BitmapModel, src: BitmapModel, ox: i32, oy: i32) -> Seq<u8> {
    let tw = target.width as int;
    Seq::new(
        target.rgba.len(),
        |i: int|
            {
                let x = (i / 4) % tw;
                let y = (i / 4) / tw;
                let sx = x - ox;
                let sy = y - oy;
                if i % 4 == 3 && 0 <= sx < src.width && 0 <= sy < src.height {
                    gray_of(src, sx, sy)
                } else {
                    target.rgba[i]
                }
            },
    )
}

fn grayscale_mask_bytes(target: &Bitmap, src: &Bitmap, ox: i32, oy: i32) -> (out: Vec<u8>)
    requires
        bitmap_wf(target@),
        bitmap_wf(src@),
    ensures
        out@ == grayscale_masked(target@, src@, ox, oy),
{
    let tw = target.width as usize;
    let len = target.rgba.len();
    let mut out: Vec<u8> = Vec::new();
    let mut i: usize = 0;
    while i < len
        invariant
            bitmap_wf(target@),
            bitmap_wf(src@),
            tw == target.width,
            len == target@.rgba.len(),
            i <= len,
            out@ == grayscale_masked(target@, src@, ox, oy).take(i as int),
        decreases len - i,
    {
        proof {
            assert(tw > 0) by (nonlinear_arith)
                requires
                    i < len,
                    len == target@.width * target@.height * 4,
                    tw == target@.width,
            ;
            lemma_byte_split(tw as int, target@.height as int, i as int);
        }
        let p = i / 4;
        let x = p % tw;
        let y = p / tw;
        let sx = x as i64 - ox as i64;
        let sy = y as i64 - oy as i64;
        let v = if i % 4 == 3 && 0 <= sx && sx < src.width as i64 && 0 <= sy && sy < src.height as i64 {
            proof {
                lemma_pixel_index(src@.width as int, src@.height as int, sx as int, sy as int, 0);
                lemma_pixel_index(src@.width as int, src@.height as int, sx as int, sy as int, 2);
            }
            let base = (sy as usize * src.width as usize + sx as usize) * 4;
            ((src.rgba[base] as u32 + src.rgba[base + 1] as u32 + src.rgba[base + 2] as u32) / 3) as u8
        } else {
            target.rgba[i]
        };
        out.push(v);
        assert(out@ =~= grayscale_masked(target@, src@, ox, oy).take(i as int + 1));
        i += 1;
    }
    assert(out@ =~= grayscale_masked(target@, src@, ox, oy));
    out
}

impl RuntimeTraceApi {
    /// Writes a grey mask into a bitmap's alpha: each target pixel covered
    /// by the source shifted by `(offset_x, offset_y)` takes the grey level
    /// of the source pixel under it as its alpha. The format is kept (2 when
    /// none was recorded). Nothing happens when either bitmap is missing.
    pub fn graph91_apply_grayscale_mask(&mut self, target: i32, grayscale_source: i32, offset_x: i32, offset_y: i32)
        requires
            graph91_wf(old(self).graph91@),
        ensures
            final(self).same_outside_graph91(*old(self)),
            graph91_wf(final(self).graph91@),
            ({
                let m = old(self).graph91@;
                if m.bitmaps.contains_key(target) && m.bitmaps.contains_key(grayscale_source) {
                    let t = m.bitmaps[target];
                    final(self).graph91@ == (Graph91Model {
                        bitmaps: m.bitmaps.insert(
                            target,
                            BitmapModel {
                                width: t.width,
                                height: t.height,
                                rgba: grayscale_masked(t, m.bitmaps[grayscale_source], offset_x, offset_y),
                            },
                        ),
                        formats: m.formats.insert(target, format_of(m, target)),
                        dimensions: m.dimensions.insert(target, (t.width, t.height)),
                        ..m
                    })
                } else {
                    final(self).graph91@ == m
                }
            }),
    {
        let target_image = match self.graph91_bitmap_image(target) {
            Some(b) => b,
            None => {
                return;
            },
        };
        let source_image = match self.graph91_bitmap_image(grayscale_source) {
            Some(b) => b,
            None => {
                return;
            },
        };
        let rgba = grayscale_mask_bytes(&target_image, &source_image, offset_x, offset_y);
        let format = self.graph91_format_of(target);
        let out = Bitmap { width: target_image.width, height: target_image.height, rgba };
        self.graph91_store_bitmap(target, out, format);
    }
}


/// `v` clamped to a byte.
pub open spec fn clamp_byte(v: int) -> int {
    if v < 0 {
        0
    } else if v > 255 {
        255
    } else {
        v
    }
}

/// A colour byte after process `t` with `parameter`: copy, add or subtract
/// the scaled source (saturating), multiply, screen, or add with bias -128;
/// clamped to a byte.
pub open spec fn processed_value(t: i32, parameter: i32, src: u8, dst: u8) -> int {
    let s = src as int;
    let d = dst as int;
    let scaled = tdiv(sat32(s * parameter), 256);
    clamp_byte(
        if t == 0 {
            s
        } else if t == 1 {
            sat32(d + scaled)
        } else if t == 2 {
            sat32(d - scaled)
        } else if t == 3 {
            d * s / 255
        } else if t == 4 {
            255 - (255 - d) * (255 - s) / 255
        } else {
            sat32(d + s + parameter - 128)
        },
    )
}

/// A processed colour byte blended over the old one with weight
/// `alpha / 256`.
pub open spec fn process_byte(t: i32, parameter: i32, alpha: i32, src: u8, dst: u8) -> u8 {
    clamp_byte((processed_value(t, parameter, src, dst) * alpha + dst * (256 - alpha)) / 256) as u8
}

/// The output bytes of a process call over the overlap of the output and
/// the source: colour bytes processed and blended, alpha the larger of the
/// two; bytes outside the overlap stay.
pub open spec fn processed_bytes(out0: BitmapModel, src: BitmapModel, t: i32, parameter: i32, alpha: i32) -> Seq<u8> {
    let ow = out0.width as int;
    let sw = src.width as int;
    let w = if out0.width < src.width { out0.width as int } else { sw };
    let h = if out0.height < src.height { out0.height as int } else { src.height as int };
    Seq::new(
        out0.rgba.len(),
        |i: int|
            {
                let x = (i / 4) % ow;
                let y = (i / 4) / ow;
                let c = i % 4;
                if x < w && y < h {
                    if c < 3 {
                        process_byte(t, parameter, alpha, src.rgba[byte_at(sw, x, y, c)], out0.rgba[i])
                    } else if out0.rgba[i] >= src.rgba[byte_at(sw, x, y, 3)] {
                        out0.rgba[i]
                    } else {
                        src.rgba[byte_at(sw, x, y, 3)]
                    }
                } else {
                    out0.rgba[i]
                }
            },
    )
}

fn process_channel(t: i32, parameter: i32, alpha: i32, src: u8, dst: u8) -> (v: u8)
    requires
        0 <= t <= 5,
        0 <= alpha <= 256,
        t == 5 ==> parameter <= i32::MAX - 510,
    ensures
        v == process_byte(t, parameter, alpha, src, dst),
{
    let s = src as i32;
    let d = dst as i32;
    proof {
        lemma_i32_product_fits(s, parameter);
    }
    let prod = sat32_exec(s as i64 * parameter as i64);
    let scaled = prod / 256;
    let raw: i32 = if t == 0 {
        s
    } else if t == 1 {
        sat32_exec(d as i64 + scaled as i64)
    } else if t == 2 {
        sat32_exec(d as i64 - scaled as i64)
    } else if t == 3 {
        assert(0 <= d * s <= 255 * 255) by (nonlinear_arith)
            requires
                0 <= d <= 255,
                0 <= s <= 255,
        ;
        d * s / 255
    } else if t == 4 {
        assert(0 <= (255 - d) * (255 - s) <= 255 * 255) by (nonlinear_arith)
            requires
                0 <= d <= 255,
                0 <= s <= 255,
        ;
        255 - (255 - d) * (255 - s) / 255
    } else {
        sat32_exec((d + s + parameter) as i64 - 128)
    };
    let p = if raw < 0 { 0 } else if raw > 255 { 255 } else { raw };
    assert(p == processed_value(t, parameter, src, dst));
    assert(0 <= p * alpha + d * (256 - alpha) <= 255 * 256 + 255 * 256) by (nonlinear_arith)
        requires
            0 <= p <= 255,
            0 <= d <= 255,
            0 <= alpha <= 256,
    ;
    let blended = (p * alpha + d * (256 - alpha)) / 256;
    let out = if blended < 0 { 0 } else if blended > 255 { 255 } else { blended };
    out as u8
}

fn process_bytes(out0: &Bitmap, src: &Bitmap, t: i32, parameter: i32, alpha: i32) -> (out: Vec<u8>)
    requires
        bitmap_wf(out0@),
        bitmap_wf(src@),
        0 <= t <= 5,
        0 <= alpha <= 256,
        t == 5 ==> parameter <= i32::MAX - 510,
    ensures
        out@ == processed_bytes(out0@, src@, t, parameter, alpha),
{
    let ow = out0.width as usize;
    let sw = src.width as usize;
    let w = if out0.width < src.width { out0.width as usize } else { sw };
    let h = if out0.height < src.height { out0.height as usize } else { src.height as usize };
    let len = out0.rgba.len();
    let mut out: Vec<u8> = Vec::new();
    let mut i: usize = 0;
    while i < len
        invariant
            bitmap_wf(out0@),
            bitmap_wf(src@),
            0 <= t <= 5,
            0 <= alpha <= 256,
            t == 5 ==> parameter <= i32::MAX - 510,
            ow == out0.width,
            sw == src.width,
            w == (if out0.width < src.width { out0.width as int } else { sw as int }),
            h == (if out0.height < src.height { out0.height as int } else { src.height as int }),
            len == out0@.rgba.len(),
            i <= len,
            out@ == processed_bytes(out0@, src@, t, parameter, alpha).take(i as int),
        decreases len - i,
    {
        proof {
            assert(ow > 0) by (nonlinear_arith)
                requires
                    i < len,
                    len == out0@.width * out0@.height * 4,
                    ow == out0@.width,
            ;
            lemma_byte_split(ow as int, out0@.height as int, i as int);
        }
        let p = i / 4;
        let x = p % ow;
        let y = p / ow;
        let c = i % 4;
        let v = if x < w && y < h {
            proof {
                lemma_pixel_index(sw as int, src@.height as int, x as int, y as int, c as int);
                lemma_pixel_index(sw as int, src@.height as int, x as int, y as int, 3);
            }
            let base = (y * sw + x) * 4;
            if c < 3 {
                process_channel(t, parameter, alpha, src.rgba[base + c], out0.rgba[i])
            } else if out0.rgba[i] >= src.rgba[base + 3] {
                out0.rgba[i]
            } else {
                src.rgba[base + 3]
            }
        } else {
            out0.rgba[i]
        };
        out.push(v);
        assert(out@ =~= processed_bytes(out0@, src@, t, parameter, alpha).take(i as int + 1));
        i += 1;
    }
    assert(out@ =~= processed_bytes(out0@, src@, t, parameter, alpha));
    out
}

impl RuntimeTraceApi {
    /// Processes `source` into `destination` (a copy of the source when the
    /// destination does not exist) over their overlap (see
    /// [`processed_bytes`]); stored with the destination's format. Nothing
    /// happens for a process type outside `0..=5`, an alpha outside
    /// `0..=256` or a missing source.
    pub fn graph91_process_bitmap(
        &mut self,
        destination: i32,
        source: i32,
        process_type: i32,
        parameter: i32,
        alpha: i32,
    )
        requires
            graph91_wf(old(self).graph91@),
            process_type == 5 ==> parameter <= i32::MAX - 510,
        ensures
            final(self).same_outside_graph91(*old(self)),
            graph91_wf(final(self).graph91@),
            ({
                let m = old(self).graph91@;
                if 0 <= process_type <= 5 && 0 <= alpha <= 256 && m.bitmaps.contains_key(source) {
                    let src = m.bitmaps[source];
                    let out0 = if m.bitmaps.contains_key(destination) { m.bitmaps[destination] } else { src };
                    final(self).graph91@ == (Graph91Model {
                        bitmaps: m.bitmaps.insert(
                            destination,
                            BitmapModel {
                                width: out0.width,
                                height: out0.height,
                                rgba: processed_bytes(out0, src, process_type, parameter, alpha),
                            },
                        ),
                        formats: m.formats.insert(destination, format_of(m, destination)),
                        dimensions: m.dimensions.insert(destination, (out0.width, out0.height)),
                        ..m
                    })
                } else {
                    final(self).graph91@ == m
                }
            }),
    {
        if process_type < 0 || process_type > 5 || alpha < 0 || alpha > 256 {
            return;
        }
        let source_image = match self.graph91_bitmap_image(source) {
            Some(b) => b,
            None => {
                return;
            },
        };
        let output = match self.graph91_bitmap_image(destination) {
            Some(b) => b,
            None => source_image.duplicate(),
        };
        let rgba = process_bytes(&output, &source_image, process_type, parameter, alpha);
        let format = self.graph91_format_of(destination);
        let out = Bitmap { width: output.width, height: output.height, rgba };
        self.graph91_store_bitmap(destination, out, format);
    }
}


/// The source coordinate a concentration factor (16.16) maps `x` to, kept
/// inside a source of size `n`.
pub open spec fn concentrated_coord(x: int, factor: i32, n: u32) -> int {
    let v = x * factor / 0x1_0000;
    if v > n - 1 {
        n - 1
    } else {
        v
    }
}

/// The destination bytes after a concentration: over the overlap, each
/// byte gains the attenuated byte of the source pixel its scaled position
/// maps to, capped at 255; other bytes stay.
pub open spec fn concentrated_bytes(dst: BitmapModel, src: BitmapModel, cx: i32, cy: i32, attenuation: i32) -> Seq<u8> {
    let dw = dst.width as int;
    let sw = src.width as int;
    let w = if dst.width < src.width { dst.width as int } else { sw };
    let h = if dst.height < src.height { dst.height as int } else { src.height as int };
    Seq::new(
        dst.rgba.len(),
        |i: int|
            {
                let x = (i / 4) % dw;
                let y = (i / 4) / dw;
                if x < w && y < h {
                    let sx = concentrated_coord(x, cx, src.width);
                    let sy = concentrated_coord(y, cy, src.height);
                    let v = dst.rgba[i] + src.rgba[byte_at(sw, sx, sy, i % 4)] * (256 - attenuation) / 256;
                    (if v > 255 { 255 } else { v }) as u8
                } else {
                    dst.rgba[i]
                }
            },
    )
}

fn concentrate_bytes(dst: &Bitmap, src: &Bitmap, cx: i32, cy: i32, attenuation: i32) -> (out: Vec<u8>)
    requires
        bitmap_wf(dst@),
        bitmap_wf(src@),
        0 <= cx <= 0x1_0000,
        0 <= cy <= 0x1_0000,
        0 <= attenuation <= 256,
    ensures
        out@ == concentrated_bytes(dst@, src@, cx, cy, attenuation),
{
    let dw = dst.width as usize;
    let sw = src.width as usize;
    let w = if dst.width < src.width { dst.width as usize } else { sw };
    let h = if dst.height < src.height { dst.height as usize } else { src.height as usize };
    let len = dst.rgba.len();
    let mut out: Vec<u8> = Vec::new();
    let mut i: usize = 0;
    while i < len
        invariant
            bitmap_wf(dst@),
            bitmap_wf(src@),
            0 <= cx <= 0x1_0000,
            0 <= cy <= 0x1_0000,
            0 <= attenuation <= 256,
            dw == dst.width,
            sw == src.width,
            w == (if dst.width < src.width { dst.width as int } else { sw as int }),
            h == (if dst.height < src.height { dst.height as int } else { src.height as int }),
            len == dst@.rgba.len(),
            i <= len,
            out@ == concentrated_bytes(dst@, src@, cx, cy, attenuation).take(i as int),
        decreases len - i,
    {
        proof {
            assert(dw > 0) by (nonlinear_arith)
                requires
                    i < len,
                    len == dst@.width * dst@.height * 4,
                    dw == dst@.width,
            ;
            lemma_byte_split(dw as int, dst@.height as int, i as int);
        }
        let p = i / 4;
        let x = p % dw;
        let y = p / dw;
        let c = i % 4;
        let v = if x < w && y < h {
            assert(x as int * cx <= 0xFFFF_FFFF * 0x1_0000 && y as int * cy <= 0xFFFF_FFFF * 0x1_0000) by (nonlinear_arith)
                requires
                    x < w <= 0xFFFF_FFFF,
                    y < h <= 0xFFFF_FFFF,
                    0 <= cx <= 0x1_0000,
                    0 <= cy <= 0x1_0000,
            ;
            let ax = (x as u64 * cx as u64) / 0x1_0000;
            let ay = (y as u64 * cy as u64) / 0x1_0000;
            let sx = if ax > (src.width - 1) as u64 { (src.width - 1) as usize } else { ax as usize };
            let sy = if ay > (src.height - 1) as u64 { (src.height - 1) as usize } else { ay as usize };
            assert(sx == concentrated_coord(x as int, cx, src.width));
            assert(sy == concentrated_coord(y as int, cy, src.height));
            proof {
                lemma_pixel_index(sw as int, src@.height as int, sx as int, sy as int, c as int);
            }
            let sb = src.rgba[(sy * sw + sx) * 4 + c] as u32;
            assert(sb * (256 - attenuation) <= 255 * 256) by (nonlinear_arith)
                requires
                    sb <= 255,
                    0 <= attenuation <= 256,
            ;
            let total = dst.rgba[i] as u32 + sb * (256 - attenuation) as u32 / 256;
            if total > 255 {
                255
            } else {
                total as u8
            }
        } else {
            dst.rgba[i]
        };
        out.push(v);
        assert(out@ =~= concentrated_bytes(dst@, src@, cx, cy, attenuation).take(i as int + 1));
        i += 1;
    }
    assert(out@ =~= concentrated_bytes(dst@, src@, cx, cy, attenuation));
    out
}

impl RuntimeTraceApi {
    /// Concentrates `source` into `destination` (see
    /// [`concentrated_bytes`]); stored with the destination's format.
    /// Nothing happens for a factor outside `0..=0x10000`, an attenuation
    /// outside `0..=256` or a missing bitmap.
    pub fn graph91_concentrate_bitmap(
        &mut self,
        destination: i32,
        source: i32,
        concentration_x: i32,
        concentration_y: i32,
        attenuation: i32,
    )
        requires
            graph91_wf(old(self).graph91@),
        ensures
            final(self).same_outside_graph91(*old(self)),
            graph91_wf(final(self).graph91@),
            ({
                let m = old(self).graph91@;
                if 0 <= concentration_x <= 0x1_0000 && 0 <= concentration_y <= 0x1_0000 && 0 <= attenuation <= 256
                    && m.bitmaps.contains_key(source) && m.bitmaps.contains_key(destination) {
                    let d = m.bitmaps[destination];
                    final(self).graph91@ == (Graph91Model {
                        bitmaps: m.bitmaps.insert(
                            destination,
                            BitmapModel {
                                width: d.width,
                                height: d.height,
                                rgba: concentrated_bytes(
                                    d,
                                    m.bitmaps[source],
                                    concentration_x,
                                    concentration_y,
                                    attenuation,
                                ),
                            },
                        ),
                        formats: m.formats.insert(destination, format_of(m, destination)),
                        dimensions: m.dimensions.insert(destination, (d.width, d.height)),
                        ..m
                    })
                } else {
                    final(self).graph91@ == m
                }
            }),
    {
        if concentration_x < 0 || concentration_x > 0x1_0000 || concentration_y < 0 || concentration_y > 0x1_0000
            || attenuation < 0 || attenuation > 256 {
            return;
        }
        let source_image = match self.graph91_bitmap_image(source) {
            Some(b) => b,
            None => {
                return;
            },
        };
        let destination_image = match self.graph91_bitmap_image(destination) {
            Some(b) => b,
            None => {
                return;
            },
        };
        let rgba = concentrate_bytes(&destination_image, &source_image, concentration_x, concentration_y, attenuation);
        let format = self.graph91_format_of(destination);
        let out = Bitmap { width: destination_image.width, height: destination_image.height, rgba };
        self.graph91_store_bitmap(destination, out, format);
    }
}


/// The arguments of a rectangle composite, in call order: destination and
/// its x, y; source and its x, y; mode; width, height; alpha (`0..=256`)
/// and the source-alpha gate.
pub struct CompositeArgs {
    pub destination: i32,
    pub destination_x: i32,
    pub destination_y: i32,
    pub source: i32,
    pub source_x: i32,
    pub source_y: i32,
    pub width: i32,
    pub height: i32,
    pub alpha: i32,
    pub source_alpha_gate: i32,
}

/// The arguments read from an eleven-word argument list.
pub open spec fn composite_args(a: Seq<i32>) -> CompositeArgs {
    CompositeArgs {
        destination: a[0],
        destination_x: a[1],
        destination_y: a[2],
        source: a[3],
        source_x: a[4],
        source_y: a[5],
        width: a[7],
        height: a[8],
        alpha: a[9],
        source_alpha_gate: a[10],
    }
}

/// The blend weight of a source pixel: `alpha` times the pixel's own alpha,
/// or times 255 when source alpha is ignored, divided by 256.
pub open spec fn composite_mix(k: CompositeArgs, src: BitmapModel, sx: int, sy: int) -> int {
    let sa = if k.source_alpha_gate != 0 { src.rgba[byte_at(src.width as int, sx, sy, 3)] as int } else { 255 };
    k.alpha * sa / 256
}

/// The destination bytes after compositing the source rectangle: each
/// destination pixel inside the rectangle whose source pixel exists is
/// blended (colour by the mix weight over 255, or copied in the conversion
/// variant at full alpha; alpha copied in the conversion variant, else the
/// larger of the old alpha and the weight); everything else stays.
pub open spec fn composited_bytes(out0: BitmapModel, src: BitmapModel, k: CompositeArgs, conversion: bool) -> Seq<u8> {
    let dw = out0.width as int;
    let sw = src.width as int;
    Seq::new(
        out0.rgba.len(),
        |i: int|
            {
                let x = (i / 4) % dw;
                let y = (i / 4) / dw;
                let c = i % 4;
                let col = x - k.destination_x;
                let row = y - k.destination_y;
                let sx = k.source_x + col;
                let sy = k.source_y + row;
                if 0 <= col < k.width && 0 <= row < k.height && 0 <= sx < src.width && 0 <= sy < src.height {
                    let mix = composite_mix(k, src, sx, sy);
                    let s = src.rgba[byte_at(sw, sx, sy, c)] as int;
                    if c < 3 {
                        if conversion && k.alpha >= 256 {
                            s as u8
                        } else {
                            ((s * mix + out0.rgba[i] * (255 - (if mix < 255 { mix } else { 255 }))) / 255) as u8
                        }
                    } else if conversion {
                        s as u8
                    } else if out0.rgba[i] >= mix {
                        out0.rgba[i]
                    } else {
                        mix as u8
                    }
                } else {
                    out0.rgba[i]
                }
            },
    )
}

/// A blank (all-zero) bitmap of the given size, each side at least 1.
pub open spec fn blank_bitmap(w: u32, h: u32) -> BitmapModel {
    BitmapModel {
        width: at_least_one_u32(w) as u32,
        height: at_least_one_u32(h) as u32,
        rgba: Seq::new((at_least_one_u32(w) * at_least_one_u32(h) * 4) as nat, |i: int| 0u8),
    }
}

fn blank_image(w: u32, h: u32) -> (b: Bitmap)
    requires
        dims_ok(w, h),
    ensures
        b@ == blank_bitmap(w, h),
        bitmap_wf(b@),
{
    let w1 = if w == 0 { 1 } else { w };
    let h1 = if h == 0 { 1 } else { h };
    let n = w1 as usize * h1 as usize * 4;
    let mut rgba: Vec<u8> = Vec::new();
    let mut i: usize = 0;
    while i < n
        invariant
            i <= n,
            rgba@ == Seq::new(i as nat, |j: int| 0u8),
        decreases n - i,
    {
        rgba.push(0);
        i += 1;
        assert(rgba@ =~= Seq::new(i as nat, |j: int| 0u8));
    }
    let b = Bitmap { width: w1, height: h1, rgba };
    assert(b@.rgba =~= blank_bitmap(w, h).rgba);
    b
}

fn composite_bytes(out0: &Bitmap, src: &Bitmap, k: &CompositeArgs, conversion: bool) -> (out: Vec<u8>)
    requires
        bitmap_wf(out0@),
        bitmap_wf(src@),
        0 <= k.alpha <= 256,
    ensures
        out@ == composited_bytes(out0@, src@, *k, conversion),
{
    let dw = out0.width as usize;
    let sw = src.width as usize;
    let len = out0.rgba.len();
    let mut out: Vec<u8> = Vec::new();
    let mut i: usize = 0;
    while i < len
        invariant
            bitmap_wf(out0@),
            bitmap_wf(src@),
            0 <= k.alpha <= 256,
            dw == out0.width,
            sw == src.width,
            len == out0@.rgba.len(),
            i <= len,
            out@ == composited_bytes(out0@, src@, *k, conversion).take(i as int),
        decreases len - i,
    {
        proof {
            assert(dw > 0) by (nonlinear_arith)
                requires
                    i < len,
                    len == out0@.width * out0@.height * 4,
                    dw == out0@.width,
            ;
            lemma_byte_split(dw as int, out0@.height as int, i as int);
        }
        let p = i / 4;
        let x = p % dw;
        let y = p / dw;
        let c = i % 4;
        let col = x as i64 - k.destination_x as i64;
        let row = y as i64 - k.destination_y as i64;
        let sx = k.source_x as i64 + col;
        let sy = k.source_y as i64 + row;
        let d = out0.rgba[i];
        let v = if 0 <= col && col < k.width as i64 && 0 <= row && row < k.height as i64 && 0 <= sx && sx
            < src.width as i64 && 0 <= sy && sy < src.height as i64 {
            proof {
                lemma_pixel_index(sw as int, src@.height as int, sx as int, sy as int, c as int);
                lemma_pixel_index(sw as int, src@.height as int, sx as int, sy as int, 3);
            }
            let base = (sy as usize * sw + sx as usize) * 4;
            let sa: u32 = if k.source_alpha_gate != 0 { src.rgba[base + 3] as u32 } else { 255 };
            assert(k.alpha * sa <= 256 * 255) by (nonlinear_arith)
                requires
                    0 <= k.alpha <= 256,
                    sa <= 255,
            ;
            let mix = k.alpha as u32 * sa / 256;
            assert(mix <= 255);
            let s = src.rgba[base + c] as u32;
            if c < 3 {
                if conversion && k.alpha >= 256 {
                    s as u8
                } else {
                    assert(s * mix + d * (255 - mix) <= 255 * 255) by (nonlinear_arith)
                        requires
                            s <= 255,
                            d <= 255,
                            mix <= 255,
                    ;
                    ((s * mix + d as u32 * (255 - mix)) / 255) as u8
                }
            } else if conversion {
                s as u8
            } else if d as u32 >= mix {
                d
            } else {
                mix as u8
            }
        } else {
            d
        };
        out.push(v);
        assert(out@ =~= composited_bytes(out0@, src@, *k, conversion).take(i as int + 1));
        i += 1;
    }
    assert(out@ =~= composited_bytes(out0@, src@, *k, conversion));
    out
}

impl RuntimeTraceApi {
    /// Composites a source rectangle onto a destination bitmap (see
    /// [`composited_bytes`]); a missing destination starts blank, sized by
    /// its recorded dimensions or else the source's. Stored with the
    /// destination's format. Nothing happens unless there are eleven
    /// arguments, a positive size, an alpha in `0..=256` and an existing
    /// source.
    pub fn graph91_composite_rect(&mut self, args: &[i32], conversion_variant: bool)
        requires
            graph91_wf(old(self).graph91@),
        ensures
            final(self).same_outside_graph91(*old(self)),
            graph91_wf(final(self).graph91@),
            ({
                let m = old(self).graph91@;
                let k = composite_args(args@);
                if args@.len() == 11 && k.width > 0 && k.height > 0 && 0 <= k.alpha <= 256 && m.bitmaps.contains_key(
                    k.source,
                ) {
                    let src = m.bitmaps[k.source];
                    let out0 = if m.bitmaps.contains_key(k.destination) {
                        m.bitmaps[k.destination]
                    } else if m.dimensions.contains_key(k.destination) {
                        blank_bitmap(m.dimensions[k.destination].0, m.dimensions[k.destination].1)
                    } else {
                        blank_bitmap(src.width, src.height)
                    };
                    final(self).graph91@ == (Graph91Model {
                        bitmaps: m.bitmaps.insert(
                            k.destination,
                            BitmapModel {
                                width: out0.width,
                                height: out0.height,
                                rgba: composited_bytes(out0, src, k, conversion_variant),
                            },
                        ),
                        formats: m.formats.insert(k.destination, format_of(m, k.destination)),
                        dimensions: m.dimensions.insert(k.destination, (out0.width, out0.height)),
                        ..m
                    })
                } else {
                    final(self).graph91@ == m
                }
            }),
    {
        if args.len() != 11 {
            return;
        }
        let k = CompositeArgs {
            destination: args[0],
            destination_x: args[1],
            destination_y: args[2],
            source: args[3],
            source_x: args[4],
            source_y: args[5],
            width: args[7],
            height: args[8],
            alpha: args[9],
            source_alpha_gate: args[10],
        };
        if k.width <= 0 || k.height <= 0 || k.alpha < 0 || k.alpha > 256 {
            return;
        }
        let source_image = match self.graph91_bitmap_image(k.source) {
            Some(b) => b,
            None => {
                return;
            },
        };
        let output = match self.graph91_bitmap_image(k.destination) {
            Some(b) => b,
            None => {
                match self.graph91.bitmap_dimensions.get(&k.destination) {
                    Some(d) => {
                        assert(old(self).graph91@.dimensions.contains_key(k.destination));
                        blank_image(d.0, d.1)
                    },
                    None => blank_image(source_image.width, source_image.height),
                }
            },
        };
        let rgba = composite_bytes(&output, &source_image, &k, conversion_variant);
        let format = self.graph91_format_of(k.destination);
        let out = Bitmap { width: output.width, height: output.height, rgba };
        self.graph91_store_bitmap(k.destination, out, format);
    }
}


/// `v` when non-negative, else 0.
pub open spec fn non_negative(v: i32) -> int {
    if v < 0 {
        0
    } else {
        v as int
    }
}

/// The bytes of a `iw`-wide image after copying the `w` x `h` rectangle at
/// `(sx, sy)` of `src` to `(dx, dy)`; everything else as in `dst`.
pub open spec fn copied_rect(dst: Seq<u8>, iw: int, src: Seq<u8>, sw: int, sx: int, sy: int, dx: int, dy: int, w: int, h: int) -> Seq<u8> {
    Seq::new(
        dst.len(),
        |i: int|
            {
                let x = (i / 4) % iw;
                let y = (i / 4) / iw;
                if dx <= x < dx + w && dy <= y < dy + h {
                    src[byte_at(sw, sx + x - dx, sy + y - dy, i % 4)]
                } else {
                    dst[i]
                }
            },
    )
}

fn copy_rect_bytes(
    dst: &Bitmap,
    src: &Bitmap,
    sx: u32,
    sy: u32,
    dx: u32,
    dy: u32,
    w: u32,
    h: u32,
) -> (out: Vec<u8>)
    requires
        bitmap_wf(dst@),
        bitmap_wf(src@),
        sx + w <= src.width,
        sy + h <= src.height,
        dx + w <= dst.width,
        dy + h <= dst.height,
    ensures
        out@ == copied_rect(
            dst@.rgba,
            dst.width as int,
            src@.rgba,
            src.width as int,
            sx as int,
            sy as int,
            dx as int,
            dy as int,
            w as int,
            h as int,
        ),
{
    let iw = dst.width as usize;
    let sw = src.width as usize;
    let len = dst.rgba.len();
    let ghost target = copied_rect(
        dst@.rgba,
        dst.width as int,
        src@.rgba,
        src.width as int,
        sx as int,
        sy as int,
        dx as int,
        dy as int,
        w as int,
        h as int,
    );
    let mut out: Vec<u8> = Vec::new();
    let mut i: usize = 0;
    while i < len
        invariant
            bitmap_wf(dst@),
            bitmap_wf(src@),
            sx + w <= src.width,
            sy + h <= src.height,
            dx + w <= dst.width,
            dy + h <= dst.height,
            iw == dst.width,
            sw == src.width,
            len == dst@.rgba.len(),
            target == copied_rect(
                dst@.rgba,
                dst.width as int,
                src@.rgba,
                src.width as int,
                sx as int,
                sy as int,
                dx as int,
                dy as int,
                w as int,
                h as int,
            ),
            i <= len,
            out@ == target.take(i as int),
        decreases len - i,
    {
        proof {
            assert(iw > 0) by (nonlinear_arith)
                requires
                    i < len,
                    len == dst@.width * dst@.height * 4,
                    iw == dst@.width,
            ;
            lemma_byte_split(iw as int, dst@.height as int, i as int);
        }
        let p = i / 4;
        let x = p % iw;
        let y = p / iw;
        let c = i % 4;
        let v = if dx as usize <= x && x < dx as usize + w as usize && dy as usize <= y && y < dy as usize
            + h as usize {
            assert(src.width as int <= usize::MAX && src.height as int <= usize::MAX) by (nonlinear_arith)
                requires
                    src@.width * src@.height * 4 <= usize::MAX,
                    src@.height >= 1,
                    src@.width >= 1,
            ;
            let px = sx as usize + (x - dx as usize);
            let py = sy as usize + (y - dy as usize);
            proof {
                lemma_pixel_index(sw as int, src@.height as int, px as int, py as int, c as int);
            }
            src.rgba[(py * sw + px) * 4 + c]
        } else {
            dst.rgba[i]
        };
        out.push(v);
        assert(out@ =~= target.take(i as int + 1));
        i += 1;
    }
    assert(out@ =~= target);
    out
}

impl RuntimeTraceApi {
    /// Copies landscape part `source` over part `destination` inside the
    /// landscape's source bitmap (both rectangles read before writing).
    /// False (and no change) for an unknown landscape or part, parts whose
    /// size or kind differ, a missing bitmap, or a rectangle outside it.
    pub fn graph91_copy_landscape_part(&mut self, handle: i32, destination: i32, source: i32) -> (ok: bool)
        requires
            graph91_wf(old(self).graph91@),
        ensures
            final(self).same_outside_graph91(*old(self)),
            graph91_wf(final(self).graph91@),
            copy_part_post(old(self).graph91@, final(self).graph91@, ok, handle, destination, source),
    {
        let (bitmap, dp, sp) = match self.graph91.landscapes.get(&handle) {
            Some(l) => {
                if source < 0 || destination < 0 || source as usize >= l.parts.len() || destination as usize
                    >= l.parts.len() {
                    return false;
                }
                (l.source_bitmap, l.parts[destination as usize], l.parts[source as usize])
            },
            None => {
                return false;
            },
        };
        assert(old(self).graph91@.landscapes.contains_key(handle));
        if sp[2] != dp[2] || sp[3] != dp[3] || sp[4] != dp[4] {
            return false;
        }
        let image = match self.graph91_bitmap_image(bitmap) {
            Some(b) => b,
            None => {
                return false;
            },
        };
        let sx = if sp[0] < 0 { 0u32 } else { sp[0] as u32 };
        let sy = if sp[1] < 0 { 0u32 } else { sp[1] as u32 };
        let dx = if dp[0] < 0 { 0u32 } else { dp[0] as u32 };
        let dy = if dp[1] < 0 { 0u32 } else { dp[1] as u32 };
        let w = if sp[2] < 0 { 0u32 } else { sp[2] as u32 };
        let h = if sp[3] < 0 { 0u32 } else { sp[3] as u32 };
        if sx as u64 + w as u64 > image.width as u64 || sy as u64 + h as u64 > image.height as u64 || dx as u64
            + w as u64 > image.width as u64 || dy as u64 + h as u64 > image.height as u64 {
            return false;
        }
        let rgba = copy_rect_bytes(&image, &image, sx, sy, dx, dy, w, h);
        let format = self.graph91_format_of(bitmap);
        let out = Bitmap { width: image.width, height: image.height, rgba };
        self.graph91_store_bitmap(bitmap, out, format);
        true
    }

    /// Copies the image of a landscape cell (the first part of its column
    /// record) from the landscape's source bitmap to the top-left corner of
    /// `destination`. False (and no change) when the landscape, cell, column
    /// record, part or either bitmap is missing, or the part does not fit.
    pub fn graph91_copy_landscape_cell_image(&mut self, destination: i32, handle: i32, line: i32, column: i32) -> (ok: bool)
        requires
            graph91_wf(old(self).graph91@),
        ensures
            final(self).same_outside_graph91(*old(self)),
            graph91_wf(final(self).graph91@),
            copy_cell_image_post(old(self).graph91@, final(self).graph91@, ok, destination, handle, line, column),
    {
        let (source_bitmap, part) = match self.graph91.landscapes.get(&handle) {
            Some(l) => {
                proof {
                    assert(old(self).graph91@.landscapes.contains_key(handle));
                    assert(landscape_wf(l@));
                }
                let index = match l.cell_index(line, column) {
                    Some(i) => i,
                    None => {
                        return false;
                    },
                };
                let ci = l.cells[index].column_index;
                if ci < 0 || ci as usize >= l.columns.len() {
                    return false;
                }
                let record = &l.columns[ci as usize];
                assert(record@ == l@.columns[ci as int]);
                if record.len() == 0 {
                    return false;
                }
                let pi = record[0];
                if pi < 0 || pi as usize >= l.parts.len() {
                    return false;
                }
                (l.source_bitmap, l.parts[pi as usize])
            },
            None => {
                return false;
            },
        };
        let source = match self.graph91_bitmap_image(source_bitmap) {
            Some(b) => b,
            None => {
                return false;
            },
        };
        let output = match self.graph91_bitmap_image(destination) {
            Some(b) => b,
            None => {
                return false;
            },
        };
        let sx = if part[0] < 0 { 0u32 } else { part[0] as u32 };
        let sy = if part[1] < 0 { 0u32 } else { part[1] as u32 };
        let w = if part[2] < 0 { 0u32 } else { part[2] as u32 };
        let h = if part[3] < 0 { 0u32 } else { part[3] as u32 };
        if sx as u64 + w as u64 > source.width as u64 || sy as u64 + h as u64 > source.height as u64 || w > output.width
            || h > output.height {
            return false;
        }
        let rgba = copy_rect_bytes(&output, &source, sx, sy, 0, 0, w, h);
        let format = self.graph91_format_of(destination);
        let out = Bitmap { width: output.width, height: output.height, rgba };
        self.graph91_store_bitmap(destination, out, format);
        true
    }
}


impl RuntimeTraceApi {
    /// The render-layer id of multi-layer background layer `layer`.
    pub fn graph91_multilayer_render_id(layer: usize) -> (id: i32)
        requires
            layer <= 0x7fff_ffff,
        ensures
            id == -0x2100_0000 + layer,
    {
        -0x2100_0000i32 + layer as i32
    }
}


proof fn lemma_first_free_tagged(used: Set<i32>, tag: u32, slot: u32, slots: u32)
    ensures
        first_free_tagged(used, tag, slot, slots) != 0 ==> !used.contains(first_free_tagged(used, tag, slot, slots))
            && exists|s: u32| slot <= s < slots && first_free_tagged(used, tag, slot, slots) == #[trigger] tagged_handle(tag, s),
        (forall|s: u32| slot <= s < slots ==> used.contains(#[trigger] tagged_handle(tag, s)) && tagged_handle(tag, s)
            != 0) ==> first_free_tagged(used, tag, slot, slots) == 0,
    decreases slots - slot,
{
    if slot < slots && used.contains(tagged_handle(tag, slot)) {
        lemma_first_free_tagged(used, tag, (slot + 1) as u32, slots);
        if first_free_tagged(used, tag, slot, slots) != 0 {
            let s = choose|s: u32| (slot + 1) as u32 <= s < slots && first_free_tagged(used, tag, (slot + 1) as u32, slots)
                == #[trigger] tagged_handle(tag, s);
            assert(slot <= s < slots);
        }
    }
}

/// A landscape handle that creation hands out lies in the landscape range
/// and was free, so releasing it right away succeeds and restores the
/// registry; creation hands out 0 only when all four handles are taken.
pub proof fn law_landscape_create_release_roundtrip(used: Map<i32, LandscapeModel>, l: LandscapeModel)
    ensures
        ({
            let h = first_free_tagged(used.dom(), GRAPH91_LANDSCAPE_TAG, 0, GRAPH91_LANDSCAPE_SLOTS);
            &&& h != 0 ==> in_tag_range(h, GRAPH91_LANDSCAPE_TAG, GRAPH91_LANDSCAPE_SLOTS)
                && !used.contains_key(h) && used.insert(h, l).remove(h) == used
            &&& (forall|s: u32| s < GRAPH91_LANDSCAPE_SLOTS ==> used.contains_key(
                #[trigger] tagged_handle(GRAPH91_LANDSCAPE_TAG, s),
            )) ==> h == 0
        }),
{
    let h = first_free_tagged(used.dom(), GRAPH91_LANDSCAPE_TAG, 0, GRAPH91_LANDSCAPE_SLOTS);
    lemma_first_free_tagged(used.dom(), GRAPH91_LANDSCAPE_TAG, 0, GRAPH91_LANDSCAPE_SLOTS);
    assert forall|s: u32| s < 4 implies ((0xA100_0000u32 | s) as i32) as u32 == 0xA100_0000u32 + s && (
    0xA100_0000u32 | s) as i32 != 0 by {
        assert(s < 4 ==> ((0xA100_0000u32 | s) as i32) as u32 == 0xA100_0000u32 + s && (0xA100_0000u32 | s) as i32
            != 0) by (bit_vector);
    }
    if h != 0 {
        let s = choose|s: u32| 0 <= s < GRAPH91_LANDSCAPE_SLOTS && h == #[trigger] tagged_handle(GRAPH91_LANDSCAPE_TAG, s);
        assert((h as u32) as int == 0xA100_0000 + s);
        assert(used.insert(h, l).remove(h) =~= used);
    }
}

/// The same for effector handles (eight of them).
pub proof fn law_effector_create_release_roundtrip(used: Map<i32, Graph91EffectorState>, e: Graph91EffectorState)
    ensures
        ({
            let h = first_free_tagged(used.dom(), GRAPH91_EFFECTOR_TAG, 0, GRAPH91_EFFECTOR_SLOTS);
            &&& h != 0 ==> in_tag_range(h, GRAPH91_EFFECTOR_TAG, GRAPH91_EFFECTOR_SLOTS)
                && !used.contains_key(h) && used.insert(h, e).remove(h) == used
            &&& (forall|s: u32| s < GRAPH91_EFFECTOR_SLOTS ==> used.contains_key(
                #[trigger] tagged_handle(GRAPH91_EFFECTOR_TAG, s),
            )) ==> h == 0
        }),
{
    let h = first_free_tagged(used.dom(), GRAPH91_EFFECTOR_TAG, 0, GRAPH91_EFFECTOR_SLOTS);
    lemma_first_free_tagged(used.dom(), GRAPH91_EFFECTOR_TAG, 0, GRAPH91_EFFECTOR_SLOTS);
    assert forall|s: u32| s < 8 implies ((0x9100_0000u32 | s) as i32) as u32 == 0x9100_0000u32 + s && (
    0x9100_0000u32 | s) as i32 != 0 by {
        assert(s < 8 ==> ((0x9100_0000u32 | s) as i32) as u32 == 0x9100_0000u32 + s && (0x9100_0000u32 | s) as i32
            != 0) by (bit_vector);
    }
    if h != 0 {
        let s = choose|s: u32| 0 <= s < GRAPH91_EFFECTOR_SLOTS && h == #[trigger] tagged_handle(GRAPH91_EFFECTOR_TAG, s);
        assert((h as u32) as int == 0x9100_0000 + s);
        assert(used.insert(h, e).remove(h) =~= used);
    }
}

/// After a map load, every cell inside the map draws the column record the
/// map gives for it and holds the derived depth value of its line and
/// column, which is what a cell query then reports.
pub proof fn law_map_load_sets_depth_values(
    old_l: LandscapeModel,
    l: LandscapeModel,
    width: i32,
    height: i32,
    map: Seq<i32>,
    line: i32,
    column: i32,
)
    requires
        1 <= width <= 256,
        1 <= height <= 256,
        map.len() == width * height,
        l == (LandscapeModel { map_width: width, map_height: height, cells: l.cells, ..old_l }),
        l.cells.len() == map.len(),
        forall|i: int|
            0 <= i < map.len() ==> is_fresh_cell(
                #[trigger] l.cells[i],
                map[i],
                derived_value(old_l, (i / width as int) as i32, (i % width as int) as i32),
            ),
        0 <= line < height,
        0 <= column < width,
    ensures
        cell_index_spec(l, line, column) matches Some(i) && l.cells[i].column_index == map[i]
            && l.cells[i].derived_value == derived_value(l, line, column),
{
    let i = line * width + column;
    lemma_pixel_index(width as int, height as int, column as int, line as int, 0);
    assert(i / width as int == line && i % width as int == column);
    assert(is_fresh_cell(l.cells[i], map[i], derived_value(old_l, (i / width as int) as i32, (i % width as int) as i32)));
}

} // verus!
