use vstd::prelude::*;
use std::collections::HashMap;
use crate::native_call::{
    lemma_pop_pushed_int, pop0, pop_int_value, pop_source_ints, pop_values, popped_values_spec, source_ints_spec, value_int,
    NativeValue,
};

verus! {

broadcast use vstd::std_specs::hash::group_hash_axioms;

/// The first handle of the sprite objects (`0x8000_0000` as a signed word);
/// there are 512 of them.
pub const SPRITE_BASE: i32 = -2147483648i32;

/// The first handle of the filter objects (`0x9000_0000`); there are 8.
pub const FILTER_BASE: i32 = -1879048192i32;

/// The first handle of the map objects (`0xA000_0000`); there are 8.
pub const MAP_BASE: i32 = -1610612736i32;

/// A display object of group `0x90`: its class (1 sprite, 2 filter, 3 map,
/// none for objects the engine made otherwise), whether it is enabled and
/// drawn, its mode, priority, mask alpha, fixed parameter (16.16) and alpha
/// multiplier, its blend mode, a sprite's auxiliary bitmap, the object it
/// is a member of, its position, its bitmap resource, a filter's reserved
/// word, parameter and mask parameter, and a map's grid (columns, rows,
/// cell width and height), source (width, height, address), view (source
/// x and y, cell offset x and y, wrap) and replacement tile.
#[derive(Debug, Clone, Copy)]
pub struct Graph90Object {
    pub class: Option<i32>,
    pub enabled: bool,
    pub draw_enabled: bool,
    pub mode: i32,
    pub priority: u32,
    pub mask_alpha: i32,
    pub fixed_parameter: i32,
    pub alpha_multiplier: i32,
    pub blend_mode: i32,
    pub aux_bitmap: Option<i32>,
    pub owner: Option<i32>,
    pub position: (i32, i32),
    pub resource: Option<i32>,
    pub filter_parameters: (i32, i32, i32),
    pub map_grid: (i32, i32, i32, i32),
    pub map_source: (i32, i32, i32),
    pub map_view: (i32, i32, i32, i32, i32),
    pub map_replace_tile: i32,
}

impl Graph90Object {
    /// A fresh object: enabled, drawn as given, mode 0, no class, full alpha
    /// multiplier (256), everything else zero.
    pub open spec fn fresh(draw_enabled: bool) -> Self {
        Graph90Object {
            class: None,
            enabled: true,
            draw_enabled,
            mode: 0,
            priority: 0,
            mask_alpha: 0,
            fixed_parameter: 0,
            alpha_multiplier: 256,
            blend_mode: 0,
            aux_bitmap: None,
            owner: None,
            position: (0, 0),
            resource: None,
            filter_parameters: (0, 0, 0),
            map_grid: (0, 0, 0, 0),
            map_source: (0, 0, 0),
            map_view: (0, 0, 0, 0, 0),
            map_replace_tile: 0,
        }
    }

    /// A fresh object (see [`Graph90Object::fresh`]).
    pub fn new(draw_enabled: bool) -> (r: Self)
        ensures
            r == Self::fresh(draw_enabled),
    {
        Graph90Object {
            class: None,
            enabled: true,
            draw_enabled,
            mode: 0,
            priority: 0,
            mask_alpha: 0,
            fixed_parameter: 0,
            alpha_multiplier: 256,
            blend_mode: 0,
            aux_bitmap: None,
            owner: None,
            position: (0, 0),
            resource: None,
            filter_parameters: (0, 0, 0),
            map_grid: (0, 0, 0, 0),
            map_source: (0, 0, 0),
            map_view: (0, 0, 0, 0, 0),
            map_replace_tile: 0,
        }
    }
}

/// The group `0x90` graphics state: the display objects (with the handle
/// list that names each once), the current object, the object-update
/// redraw flags, the primary bitmap, the unblend colour, the renderer
/// options and pending redraw request, the message input filter, the known
/// bitmap widths and the full-width glyph strip (bitmap, glyph count, cell
/// width), and the item-selection settings (highlight styles, input mask,
/// navigation parameters) and interactive poll gate.
pub struct Graph90State {
    pub objects: HashMap<i32, Graph90Object>,
    pub handles: Vec<i32>,
    pub current_object: i32,
    pub redraw_enabled: bool,
    pub redraw_full: bool,
    pub primary_bitmap: Option<i32>,
    pub unblend_color: i32,
    pub renderer_options: (i32, i32),
    pub redraw_requested: Option<bool>,
    pub message_input_filter: bool,
    pub bitmap_widths: HashMap<i32, u32>,
    pub glyph_strip: (Option<i32>, i32, i32),
    pub highlight_styles: (i32, i32),
    pub item_input_mask: i32,
    pub item_navigation: (i32, i32, i32, i32),
    pub poll_gate: i32,
}

#[verifier::ext_equal]
pub struct Graph90Model {
    pub objects: Map<i32, Graph90Object>,
    pub current_object: i32,
    pub redraw_enabled: bool,
    pub redraw_full: bool,
    pub primary_bitmap: Option<i32>,
    pub unblend_color: i32,
    pub renderer_options: (i32, i32),
    pub redraw_requested: Option<bool>,
    pub message_input_filter: bool,
    pub bitmap_widths: Map<i32, u32>,
    pub glyph_strip: (Option<i32>, i32, i32),
    pub highlight_styles: (i32, i32),
    pub item_input_mask: i32,
    pub item_navigation: (i32, i32, i32, i32),
    pub poll_gate: i32,
}

impl View for Graph90State {
    type V = Graph90Model;

    open spec fn view(&self) -> Graph90Model {
        Graph90Model {
            objects: self.objects@,
            current_object: self.current_object,
            redraw_enabled: self.redraw_enabled,
            redraw_full: self.redraw_full,
            primary_bitmap: self.primary_bitmap,
            unblend_color: self.unblend_color,
            renderer_options: self.renderer_options,
            redraw_requested: self.redraw_requested,
            message_input_filter: self.message_input_filter,
            bitmap_widths: self.bitmap_widths@,
            glyph_strip: self.glyph_strip,
            highlight_styles: self.highlight_styles,
            item_input_mask: self.item_input_mask,
            item_navigation: self.item_navigation,
            poll_gate: self.poll_gate,
        }
    }
}

impl Graph90State {
    /// The handle list names each registered object once.
    pub open spec fn wf(&self) -> bool {
        &&& self.handles@.no_duplicates()
        &&& forall|h: i32| #[trigger] self.objects@.contains_key(h) <==> self.handles@.contains(h)
    }

    /// No objects, current object 0, redraw disabled, no bitmaps.
    pub fn new() -> (s: Self)
        ensures
            s.wf(),
            s@.objects == Map::<i32, Graph90Object>::empty(),
            s@.current_object == 0,
            s@.bitmap_widths == Map::<i32, u32>::empty(),
            s@.primary_bitmap is None,
            s@.redraw_requested is None,
            s@.glyph_strip == (None::<i32>, 0i32, 0i32),
    {
        let s = Graph90State {
            objects: HashMap::new(),
            handles: Vec::new(),
            current_object: 0,
            redraw_enabled: false,
            redraw_full: false,
            primary_bitmap: None,
            unblend_color: 0,
            renderer_options: (0, 0),
            redraw_requested: None,
            message_input_filter: false,
            bitmap_widths: HashMap::new(),
            glyph_strip: (None, 0, 0),
            highlight_styles: (0, 0),
            item_input_mask: 0,
            item_navigation: (0, 0, 0, 0),
            poll_gate: 0,
        };
        assert(s@.objects =~= Map::<i32, Graph90Object>::empty());
        assert(s@.bitmap_widths =~= Map::<i32, u32>::empty());
        s
    }

    /// Registers an object, or replaces one's state.
    pub fn put_object(&mut self, handle: i32, o: Graph90Object)
        requires
            old(self).wf(),
        ensures
            final(self).wf(),
            final(self)@ == (Graph90Model { objects: old(self)@.objects.insert(handle, o), ..old(self)@ }),
    {
        if !self.objects.contains_key(&handle) {
            self.handles.push(handle);
            assert(!old(self).handles@.contains(handle));
            assert forall|h: i32| #[trigger] self.handles@.contains(h) == (old(self).handles@.contains(h) || h == handle) by {
                if old(self).handles@.contains(h) {
                    let j = choose|j: int| 0 <= j < old(self).handles@.len() && old(self).handles@[j] == h;
                    assert(self.handles@[j] == h);
                }
                if h == handle {
                    assert(self.handles@[self.handles@.len() - 1] == h);
                }
            }
        }
        self.objects.insert(handle, o);
        assert(self@ =~= Graph90Model { objects: old(self)@.objects.insert(handle, o), ..old(self)@ });
    }

    /// Records a bitmap's width, which the full-width glyph strip reads.
    pub fn set_bitmap_width(&mut self, bitmap: i32, width: u32)
        ensures
            final(self)@ == (Graph90Model { bitmap_widths: old(self)@.bitmap_widths.insert(bitmap, width), ..old(self)@ }),
            final(self).handles@ == old(self).handles@,
    {
        self.bitmap_widths.insert(bitmap, width);
        assert(self@ =~= Graph90Model { bitmap_widths: old(self)@.bitmap_widths.insert(bitmap, width), ..old(self)@ });
    }

    /// Unregisters an object.
    fn remove_object(&mut self, handle: i32)
        requires
            old(self).wf(),
        ensures
            final(self).wf(),
            final(self)@ == (Graph90Model { objects: old(self)@.objects.remove(handle), ..old(self)@ }),
    {
        let n = self.handles.len();
        let mut i: usize = 0;
        while i < n && self.handles[i] != handle
            invariant
                i <= n,
                n == self.handles@.len(),
                self.handles@ == old(self).handles@,
                forall|j: int| 0 <= j < i ==> self.handles@[j] != handle,
            decreases n - i,
        {
            i += 1;
        }
        if i < n {
            let ghost hs = self.handles@;
            self.handles.remove(i);
            proof {
                assert(self.handles@ =~= hs.remove(i as int));
                assert forall|a: int, b: int| 0 <= a < b < self.handles@.len() implies self.handles@[a] != self.handles@[b] by {
                    let a0 = if a < i { a } else { a + 1 };
                    let b0 = if b < i { b } else { b + 1 };
                    assert(hs[a0] != hs[b0]);
                }
                assert forall|h: i32| #[trigger] self.handles@.contains(h) == (hs.contains(h) && h != handle) by {
                    if self.handles@.contains(h) {
                        let j = choose|j: int| 0 <= j < self.handles@.len() && self.handles@[j] == h;
                        let j0 = if j < i { j } else { j + 1 };
                        assert(hs[j0] == h);
                        assert(j0 != i);
                        assert(hs[i as int] == handle);
                    }
                    if hs.contains(h) && h != handle {
                        let j = choose|j: int| 0 <= j < hs.len() && hs[j] == h;
                        assert(j != i);
                        if j < i {
                            assert(self.handles@[j] == h);
                        } else {
                            assert(self.handles@[j - 1] == h);
                        }
                    }
                }
            }
        } else {
            assert(!self.handles@.contains(handle));
        }
        self.objects.remove(&handle);
        assert(self@ =~= Graph90Model { objects: old(self)@.objects.remove(handle), ..old(self)@ });
    }
}

/// Whether `o` is `root` or, following member links for at most `fuel`
/// steps through registered objects, a member of it.
pub open spec fn g90_member_of(m: Map<i32, Graph90Object>, o: i32, root: i32, fuel: nat) -> bool
    decreases fuel,
{
    o == root || (fuel > 0 && m.contains_key(o) && match m[o].owner {
        Some(p) => g90_member_of(m, p, root, (fuel - 1) as nat),
        None => false,
    })
}

/// `root` and all its members (member links followed at most as many steps
/// as there are objects) have `f` applied.
pub open spec fn g90_apply_to_members(
    m: Map<i32, Graph90Object>,
    root: i32,
    f: spec_fn(Graph90Object) -> Graph90Object,
) -> Map<i32, Graph90Object> {
    Map::new(
        |k: i32| m.contains_key(k),
        |k: i32| if g90_member_of(m, k, root, m.dom().len()) {
            f(m[k])
        } else {
            m[k]
        },
    )
}

/// The three settings that calls apply to an object and all its members.
#[derive(Debug, Clone, Copy, PartialEq, Eq, Structural)]
pub enum MemberSetting {
    MaskAlpha,
    FixedParameter,
    AlphaMultiplier,
}

/// An object with one member setting changed.
pub open spec fn with_setting(o: Graph90Object, s: MemberSetting, v: i32) -> Graph90Object {
    match s {
        MemberSetting::MaskAlpha => Graph90Object { mask_alpha: v, ..o },
        MemberSetting::FixedParameter => Graph90Object { fixed_parameter: v, ..o },
        MemberSetting::AlphaMultiplier => Graph90Object { alpha_multiplier: v, ..o },
    }
}

fn set_setting(o: Graph90Object, s: MemberSetting, v: i32) -> (r: Graph90Object)
    ensures
        r == with_setting(o, s, v),
{
    match s {
        MemberSetting::MaskAlpha => Graph90Object { mask_alpha: v, ..o },
        MemberSetting::FixedParameter => Graph90Object { fixed_parameter: v, ..o },
        MemberSetting::AlphaMultiplier => Graph90Object { alpha_multiplier: v, ..o },
    }
}

/// Whether two object tables agree on their objects and member links.
pub open spec fn g90_same_links(a: Map<i32, Graph90Object>, b: Map<i32, Graph90Object>) -> bool {
    a.dom() == b.dom() && forall|k: i32| #[trigger] a.contains_key(k) ==> a[k].owner == b[k].owner
}

proof fn lemma_g90_member_same_links(a: Map<i32, Graph90Object>, b: Map<i32, Graph90Object>, o: i32, root: i32, fuel: nat)
    requires
        g90_same_links(a, b),
    ensures
        g90_member_of(a, o, root, fuel) == g90_member_of(b, o, root, fuel),
    decreases fuel,
{
    if fuel > 0 && a.contains_key(o) {
        assert(b.contains_key(o));
        match a[o].owner {
            Some(p) => lemma_g90_member_same_links(a, b, p, root, (fuel - 1) as nat),
            None => {},
        }
    }
}

impl Graph90State {
    fn object_count(&self) -> (n: usize)
        requires
            self.wf(),
        ensures
            n as nat == self@.objects.dom().len(),
    {
        proof {
            self.handles@.unique_seq_to_set();
            assert(self.handles@.to_set() =~= self@.objects.dom());
        }
        self.handles.len()
    }

    fn is_member(&self, o: i32, root: i32, bound: usize) -> (out: bool)
        ensures
            out == g90_member_of(self@.objects, o, root, bound as nat),
    {
        let mut cur = o;
        let mut fuel = bound;
        loop
            invariant
                g90_member_of(self@.objects, o, root, bound as nat) == g90_member_of(self@.objects, cur, root, fuel as nat),
            decreases fuel,
        {
            if cur == root {
                return true;
            }
            if fuel == 0 {
                return false;
            }
            match self.objects.get(&cur) {
                Some(t) => match t.owner {
                    Some(p) => {
                        cur = p;
                        fuel -= 1;
                    },
                    None => {
                        return false;
                    },
                },
                None => {
                    return false;
                },
            }
        }
    }

    /// Sets a member setting on `root` and all its members.
    fn set_member_setting(&mut self, root: i32, setting: MemberSetting, value: i32)
        requires
            old(self).wf(),
        ensures
            final(self).wf(),
            final(self)@ == (Graph90Model {
                objects: g90_apply_to_members(old(self)@.objects, root, |o: Graph90Object| with_setting(o, setting, value)),
                ..old(self)@
            }),
    {
        let ghost m0 = self@.objects;
        let ghost g = |o: Graph90Object| with_setting(o, setting, value);
        let bound = self.object_count();
        let ghost target = g90_apply_to_members(m0, root, g);
        let mut i: usize = 0;
        while i < self.handles.len()
            invariant
                0 <= i <= self.handles@.len(),
                self.wf(),
                self.handles@ == old(self).handles@,
                bound as nat == m0.dom().len(),
                target == g90_apply_to_members(m0, root, g),
                forall|o: Graph90Object| #[trigger] g(o) == with_setting(o, setting, value),
                g90_same_links(self@.objects, m0),
                self@ == (Graph90Model { objects: self@.objects, ..old(self)@ }),
                forall|j: int| 0 <= j < i ==> #[trigger] self@.objects[self.handles@[j]] == target[self.handles@[j]],
                forall|k: i32|
                    #[trigger] m0.contains_key(k) && !self.handles@.take(i as int).contains(k) ==> self@.objects[k]
                        == m0[k],
            decreases self.handles@.len() - i,
        {
            let h = self.handles[i];
            proof {
                lemma_g90_member_same_links(self@.objects, m0, h, root, bound as nat);
                assert(self.handles@.contains(h));
                assert(!self.handles@.take(i as int).contains(h)) by {
                    if self.handles@.take(i as int).contains(h) {
                        let j = choose|j: int| 0 <= j < i && self.handles@.take(i as int)[j] == h;
                        assert(self.handles@[j] == self.handles@[i as int]);
                    }
                }
            }
            let ghost before = self@.objects;
            if self.is_member(h, root, bound) {
                let t = *self.objects.get(&h).unwrap();
                assert(t == m0[h]);
                self.objects.insert(h, set_setting(t, setting, value));
                assert(m0.contains_key(h));
                assert(target[h] == g(m0[h]));
            } else {
                assert(m0.contains_key(h));
                assert(target[h] == m0[h]);
            }
            proof {
                assert(self@.objects.dom() =~= m0.dom());
                assert(self.handles@[i as int] == h);
                assert forall|j: int| 0 <= j < i + 1 implies #[trigger] self@.objects[self.handles@[j]]
                    == target[self.handles@[j]] by {
                    if j < i {
                        assert(self.handles@[j] != h);
                        assert(self@.objects[self.handles@[j]] == before[self.handles@[j]]);
                    }
                }
                assert forall|k: i32| #[trigger] m0.contains_key(k) && !self.handles@.take(i + 1).contains(k) implies self@.objects[k]
                    == m0[k] by {
                    if k == h {
                        assert(self.handles@.take(i + 1)[i as int] == h);
                    } else {
                        assert(!self.handles@.take(i as int).contains(k)) by {
                            if self.handles@.take(i as int).contains(k) {
                                let j = choose|j: int| 0 <= j < i && self.handles@.take(i as int)[j] == k;
                                assert(self.handles@.take(i + 1)[j] == k);
                            }
                        }
                    }
                }
            }
            i += 1;
        }
        proof {
            assert forall|k: i32| #[trigger] self@.objects.contains_key(k) implies self@.objects[k] == target[k] by {
                assert(self.handles@.contains(k));
                let j = choose|j: int| 0 <= j < self.handles@.len() && self.handles@[j] == k;
            }
            assert(self@.objects =~= target);
            assert(self@ =~= Graph90Model { objects: target, ..old(self)@ });
        }
    }
}

/// How a bitmap operation combines its bitmaps.
#[derive(Debug, Clone, Copy, PartialEq, Eq, Structural)]
pub enum Graph90BitmapOperation {
    Composite,
    Copy,
    Scale,
}

/// Work the group `0x90` calls leave to the host's renderer and display
/// tree.
#[derive(Debug)]
pub enum Graph90Request {
    /// A bitmap operation on the integer arguments, top of the stack first.
    BitmapOperation { operation: Graph90BitmapOperation, args: Vec<i32> },
    /// Place a registered object, carrying its members along at their link
    /// offsets.
    SetPosition { object: i32, x: i32, y: i32 },
    /// Set a registered object's primary (or `secondary`) offset bank and
    /// its members'.
    SetOffset { object: i32, secondary: bool, x: i32, y: i32 },
    /// Re-sort an object whose priority changed and move its layers to it.
    Reorder { object: i32, priority: i32 },
    /// Set an object's alpha and its members', and re-sort it when
    /// `reorder` (its priority changed).
    CommonState { object: i32, alpha: i32, reorder: bool },
    /// Redraw an object and its members after a member setting changed.
    RefreshMembers { object: i32, setting: MemberSetting },
    /// Mirror a bitmap into another (`direction` picks the axis).
    FlipBitmap { destination: i32, source: i32, direction: i32 },
    /// Halve a bitmap into another.
    DownsampleBitmap { destination: i32, source: i32 },
    /// Scale a bitmap into another, keeping its aspect ratio.
    AspectFitBitmap { destination: i32, source: i32 },
}

/// [`Graph90Request`] with its arguments as a sequence.
pub enum Graph90RequestView {
    BitmapOperation { operation: Graph90BitmapOperation, args: Seq<i32> },
    SetPosition { object: i32, x: i32, y: i32 },
    SetOffset { object: i32, secondary: bool, x: i32, y: i32 },
    Reorder { object: i32, priority: i32 },
    CommonState { object: i32, alpha: i32, reorder: bool },
    RefreshMembers { object: i32, setting: MemberSetting },
    FlipBitmap { destination: i32, source: i32, direction: i32 },
    DownsampleBitmap { destination: i32, source: i32 },
    AspectFitBitmap { destination: i32, source: i32 },
}

impl View for Graph90Request {
    type V = Graph90RequestView;

    open spec fn view(&self) -> Graph90RequestView {
        match *self {
            Graph90Request::BitmapOperation { operation, args } => Graph90RequestView::BitmapOperation {
                operation,
                args: args@,
            },
            Graph90Request::SetPosition { object, x, y } => Graph90RequestView::SetPosition { object, x, y },
            Graph90Request::SetOffset { object, secondary, x, y } => Graph90RequestView::SetOffset {
                object,
                secondary,
                x,
                y,
            },
            Graph90Request::Reorder { object, priority } => Graph90RequestView::Reorder { object, priority },
            Graph90Request::CommonState { object, alpha, reorder } => Graph90RequestView::CommonState {
                object,
                alpha,
                reorder,
            },
            Graph90Request::RefreshMembers { object, setting } => Graph90RequestView::RefreshMembers {
                object,
                setting,
            },
            Graph90Request::FlipBitmap { destination, source, direction } => Graph90RequestView::FlipBitmap {
                destination,
                source,
                direction,
            },
            Graph90Request::DownsampleBitmap { destination, source } => Graph90RequestView::DownsampleBitmap {
                destination,
                source,
            },
            Graph90Request::AspectFitBitmap { destination, source } => Graph90RequestView::AspectFitBitmap {
                destination,
                source,
            },
        }
    }
}

/// Why a group `0x90` call was refused.
#[derive(Debug, Clone, Copy, PartialEq, Eq, Structural)]
pub enum Graph90Error {
    /// A mask alpha, fixed parameter or alpha multiplier outside `0..=256`.
    OutOfRange(i32),
    /// A priority outside `0..0x10000`.
    PriorityOutOfRange(i32),
    /// The object is not registered.
    NotRegistered(i32),
    /// Display objects do not support the extension call.
    Unsupported(i32),
}

/// What a handled call returns: its value and the host work, or why it was
/// refused.
pub type Graph90Outcome = Result<(NativeValue, Option<Graph90RequestView>), Graph90Error>;

/// A handled call's outcome as the specification states it.
pub open spec fn outcome_view(r: Result<(NativeValue, Option<Graph90Request>), Graph90Error>) -> Graph90Outcome {
    match r {
        Ok((v, Some(q))) => Ok((v, Some(q@))),
        Ok((v, None)) => Ok((v, None)),
        Err(e) => Err(e),
    }
}

/// A call that returns nothing, with its host work.
pub open spec fn void_with(req: Option<Graph90RequestView>) -> Graph90Outcome {
    Ok((NativeValue::Void, req))
}

/// The full-width glyph strip after registering `count` glyphs of bitmap
/// `bitmap`: cleared for no glyphs; for up to 255 glyphs of a bitmap whose
/// width they divide, that bitmap with cells of width / count; otherwise
/// unchanged.
pub open spec fn glyph_strip_after(m: Graph90Model, bitmap: i32, count: i32) -> (Option<i32>, i32, i32) {
    if count <= 0 {
        (None, 0, 0)
    } else if count <= 255 && m.bitmap_widths.contains_key(bitmap) && m.bitmap_widths[bitmap] % (count as u32) == 0 {
        (Some(bitmap), count, (m.bitmap_widths[bitmap] / (count as u32)) as i32)
    } else {
        m.glyph_strip
    }
}

/// The setting calls (`0x0A`, `0x0B`, `0x0F`, `0x92`, `0x9E`, `0xA4`..`0xA6`,
/// `0xAF`): the state after, the stack after and the outcome.
pub open spec fn settings_call_spec(m: Graph90Model, id: u8, a: Seq<NativeValue>) -> Option<
    (Graph90Model, Seq<NativeValue>, Graph90Outcome),
> {
    let (a1, v1) = pop0(a);
    let (a2, v2) = pop0(a1);
    let (a3, v3) = pop0(a2);
    let (a4, v4) = pop0(a3);
    if id == 0x0A {
        Some((Graph90Model { redraw_full: v1 != 0, redraw_enabled: v2 != 0, ..m }, a2, void_with(None)))
    } else if id == 0x0B {
        Some((Graph90Model { primary_bitmap: Some(v1), ..m }, a1, void_with(None)))
    } else if id == 0x0F {
        Some((Graph90Model { unblend_color: v1, ..m }, a1, void_with(None)))
    } else if id == 0x92 {
        Some((Graph90Model { message_input_filter: v1 != 0, ..m }, a1, void_with(None)))
    } else if id == 0x9E {
        Some((Graph90Model { glyph_strip: glyph_strip_after(m, v2, v1), ..m }, a2, void_with(None)))
    } else if id == 0xA4 {
        Some((Graph90Model { highlight_styles: (v2, v1), ..m }, a2, void_with(None)))
    } else if id == 0xA5 {
        Some((Graph90Model { item_input_mask: v1, ..m }, a1, void_with(None)))
    } else if id == 0xA6 {
        Some((Graph90Model { item_navigation: (v4, v3, v2, v1), ..m }, a4, void_with(None)))
    } else if id == 0xAF {
        Some((Graph90Model { poll_gate: v1, ..m }, a1, void_with(None)))
    } else {
        None
    }
}

/// The bitmap operations `0x1A`..`0x1D`: their operation and argument count.
pub open spec fn bitmap_operation(id: u8) -> Option<(Graph90BitmapOperation, nat)> {
    if id == 0x1A {
        Some((Graph90BitmapOperation::Composite, 6))
    } else if id == 0x1B || id == 0x1D {
        Some((Graph90BitmapOperation::Copy, 4))
    } else if id == 0x1C {
        Some((Graph90BitmapOperation::Scale, 10))
    } else {
        None
    }
}

/// The calls whose arguments the engine only consumes (item and icon
/// selection, grids, layouts, general transforms), with how many.
pub open spec fn consumed_count(id: u8) -> Option<nat> {
    if id == 0xA0 {
        Some(8)
    } else if id == 0xA2 || id == 0xA3 {
        Some(14)
    } else if id == 0xA1 {
        Some(6)
    } else if id == 0xA7 || id == 0xBD {
        Some(2)
    } else if id == 0xB0 || id == 0xB1 {
        Some(7)
    } else if id == 0xC8 {
        Some(18)
    } else {
        None
    }
}

/// The calls that leave the state alone: bitmap operations, consumed
/// arguments (`0xBD` answers 0), and the bitmap flip (`0xC2`), halving
/// (`0xC3`) and aspect fit (`0xCA`).
pub open spec fn consume_call_spec(m: Graph90Model, id: u8, a: Seq<NativeValue>) -> Option<
    (Graph90Model, Seq<NativeValue>, Graph90Outcome),
> {
    let (a1, v1) = pop0(a);
    let (a2, v2) = pop0(a1);
    let (a3, v3) = pop0(a2);
    match bitmap_operation(id) {
        Some((operation, n)) => Some((
            m,
            source_ints_spec(a, n).0,
            void_with(Some(Graph90RequestView::BitmapOperation {
                operation,
                args: popped_values_spec(a, n).map_values(|v: NativeValue| value_int(v)),
            })),
        )),
        None => match consumed_count(id) {
            Some(n) => Some((
                m,
                source_ints_spec(a, n).0,
                if id == 0xBD {
                    Ok((NativeValue::Int(0), None))
                } else {
                    void_with(None)
                },
            )),
            None => if id == 0xC2 {
                Some((m, a3, void_with(Some(Graph90RequestView::FlipBitmap { destination: v3, source: v2, direction: v1 }))))
            } else if id == 0xC3 {
                Some((m, a2, void_with(Some(Graph90RequestView::DownsampleBitmap { destination: v2, source: v1 }))))
            } else if id == 0xCA {
                Some((m, a2, void_with(Some(Graph90RequestView::AspectFitBitmap { destination: v2, source: v1 }))))
            } else {
                None
            },
        },
    }
}

/// The setting a member-setting call (`0x34`, `0x35`, `0x39`) changes.
pub open spec fn member_setting(id: u8) -> Option<MemberSetting> {
    if id == 0x34 {
        Some(MemberSetting::MaskAlpha)
    } else if id == 0x35 {
        Some(MemberSetting::FixedParameter)
    } else if id == 0x39 {
        Some(MemberSetting::AlphaMultiplier)
    } else {
        None
    }
}

/// The object calls `0x33`..`0x3F`. Placing (`0x33`) and offsetting
/// (`0x36`, `0x37`) a registered object is the host's; the member settings
/// check their value (`0..=256`) before the object and store it (the fixed
/// parameter as 16.16) on the object and all its members; the priority
/// (`0x3A`) must lie in `0..0x10000`; `0x3F` is always refused.
pub open spec fn object_call_spec(m: Graph90Model, id: u8, a: Seq<NativeValue>) -> Option<
    (Graph90Model, Seq<NativeValue>, Graph90Outcome),
> {
    let (a1, v1) = pop0(a);
    let (a2, v2) = pop0(a1);
    let (a3, v3) = pop0(a2);
    if id == 0x33 || id == 0x36 || id == 0x37 {
        Some((
            m,
            a3,
            if !m.objects.contains_key(v3) {
                Err(Graph90Error::NotRegistered(v3))
            } else if id == 0x33 {
                void_with(Some(Graph90RequestView::SetPosition { object: v3, x: v2, y: v1 }))
            } else {
                void_with(Some(Graph90RequestView::SetOffset { object: v3, secondary: id == 0x37, x: v2, y: v1 }))
            },
        ))
    } else if member_setting(id) is Some {
        let setting = member_setting(id).unwrap();
        if !(0 <= v1 <= 256) {
            Some((m, a2, Err(Graph90Error::OutOfRange(v1))))
        } else if !m.objects.contains_key(v2) {
            Some((m, a2, Err(Graph90Error::NotRegistered(v2))))
        } else {
            let value = if id == 0x35 { v1 * 0x1_0000 } else { v1 as int };
            Some((
                Graph90Model {
                    objects: g90_apply_to_members(m.objects, v2, |o: Graph90Object| with_setting(o, setting, value as i32)),
                    ..m
                },
                a2,
                void_with(Some(Graph90RequestView::RefreshMembers { object: v2, setting })),
            ))
        }
    } else if id == 0x3A {
        if !(0 <= v1 < 0x1_0000) {
            Some((m, a2, Err(Graph90Error::PriorityOutOfRange(v1))))
        } else if !m.objects.contains_key(v2) {
            Some((m, a2, Err(Graph90Error::NotRegistered(v2))))
        } else {
            Some((
                Graph90Model {
                    objects: m.objects.insert(v2, Graph90Object { priority: v1 as u32, ..m.objects[v2] }),
                    ..m
                },
                a2,
                void_with(Some(Graph90RequestView::Reorder { object: v2, priority: v1 })),
            ))
        }
    } else if id == 0x3F {
        Some((
            m,
            a1,
            Err(if m.objects.contains_key(v1) {
                Graph90Error::Unsupported(v1)
            } else {
                Graph90Error::NotRegistered(v1)
            }),
        ))
    } else {
        None
    }
}

/// Whether `h` is one of the `slots` handles from `base`, registered, and of
/// class `class` (or of none).
pub open spec fn class_match(m: Map<i32, Graph90Object>, h: i32, base: i32, slots: int, class: i32) -> bool {
    base <= h < base + slots && m.contains_key(h) && (m[h].class is None || m[h].class == Some(class))
}

/// `h` is the first of the `slots` handles from `base` that is free.
pub open spec fn first_free(m: Map<i32, Graph90Object>, base: i32, slots: int, h: i32) -> bool {
    base <= h < base + slots && !m.contains_key(h) && forall|t: i32| base <= t < h ==> m.contains_key(t)
}

/// The handle an allocation takes: the first free one, 0 when all are taken.
pub open spec fn allocated_handle(m: Map<i32, Graph90Object>, base: i32, slots: int) -> i32 {
    if exists|h: i32| #[trigger] first_free(m, base, slots, h) {
        choose|h: i32| #[trigger] first_free(m, base, slots, h)
    } else {
        0
    }
}

/// A newly allocated object of a class: enabled, not drawn, in its initial
/// mode, with its blend mode.
pub open spec fn allocated_object(class: i32, mode: i32, blend_mode: i32) -> Graph90Object {
    Graph90Object { class: Some(class), mode, blend_mode, ..Graph90Object::fresh(false) }
}

/// The object table after an allocation.
pub open spec fn after_allocation(m: Map<i32, Graph90Object>, base: i32, slots: int, o: Graph90Object) -> Map<i32, Graph90Object> {
    if exists|h: i32| #[trigger] first_free(m, base, slots, h) {
        m.insert(allocated_handle(m, base, slots), o)
    } else {
        m
    }
}

/// The handle range and class of the objects that the allocation (`0x50`,
/// `0x60`, `0x70`), release (`0x51`, `0x61`, `0x71`) and enable (`0x64`,
/// `0x74`) calls, and the sprite calls `0x53`..`0x55`, act on.
pub open spec fn object_class(id: u8) -> Option<(i32, int, i32)> {
    if id == 0x50 || id == 0x51 || id == 0x53 || id == 0x54 || id == 0x55 {
        Some((SPRITE_BASE, 512, 1))
    } else if id == 0x60 || id == 0x61 || id == 0x64 {
        Some((FILTER_BASE, 8, 2))
    } else if id == 0x70 || id == 0x71 || id == 0x74 {
        Some((MAP_BASE, 8, 3))
    } else {
        None
    }
}

/// The objects with the current object registered as the engine infers it
/// (enabled and drawn) if it was not.
pub open spec fn with_current(m: Graph90Model) -> Map<i32, Graph90Object> {
    if m.objects.contains_key(m.current_object) {
        m.objects
    } else {
        m.objects.insert(m.current_object, Graph90Object::fresh(true))
    }
}

/// The class calls: the current object's drawing and renderer options
/// (`0x4C`) and mode (`0x4D`); allocating, releasing and enabling sprites,
/// filters and maps; the sprite geometry reset (`0x53`), drawing (`0x54`)
/// and auxiliary bitmap (`0x55`, `-1` for none). A call on a handle of the
/// wrong class, or with too few arguments, changes nothing.
pub open spec fn class_call_spec(m: Graph90Model, id: u8, a: Seq<NativeValue>) -> Option<
    (Graph90Model, Seq<NativeValue>, Graph90Outcome),
> {
    let cur = m.current_object;
    let objs = with_current(m);
    if id == 0x4C {
        let (a1, vs) = source_ints_spec(a, 2);
        Some((
            match vs {
                Some(v) => Graph90Model {
                    objects: objs.insert(cur, Graph90Object { draw_enabled: v[0] != 0, ..objs[cur] }),
                    renderer_options: (v[0], v[1]),
                    redraw_requested: Some(true),
                    ..m
                },
                None => Graph90Model { objects: objs, ..m },
            },
            a1,
            void_with(None),
        ))
    } else if id == 0x4D {
        Some((Graph90Model { objects: objs, ..m }, a, Ok((NativeValue::Int(objs[cur].mode), None))))
    } else if object_class(id) is Some {
        let (base, slots, class) = object_class(id).unwrap();
        if id == 0x50 || id == 0x60 || id == 0x70 {
            let o = allocated_object(class, if id == 0x50 { 0 } else if id == 0x60 { 7 } else { 1 }, if id == 0x60 { 192 } else { 0 });
            Some((
                Graph90Model { objects: after_allocation(m.objects, base, slots, o), ..m },
                a,
                Ok((NativeValue::Int(allocated_handle(m.objects, base, slots)), None)),
            ))
        } else if id == 0x51 || id == 0x61 || id == 0x71 {
            let (a1, h) = pop0(a);
            Some((
                if class_match(m.objects, h, base, slots, class) {
                    Graph90Model { objects: m.objects.remove(h), ..m }
                } else {
                    m
                },
                a1,
                void_with(None),
            ))
        } else {
            let n: nat = if id == 0x53 { 5 } else { 2 };
            let (a1, vs) = source_ints_spec(a, n);
            Some((
                match vs {
                    Some(v) => if class_match(m.objects, v[0], base, slots, class) {
                        if id == 0x53 {
                            Graph90Model { redraw_requested: Some(false), ..m }
                        } else {
                            let o = m.objects[v[0]];
                            let o2 = if id == 0x54 {
                                Graph90Object { draw_enabled: v[1] != 0, ..o }
                            } else if id == 0x55 {
                                Graph90Object { aux_bitmap: if v[1] != -1 { Some(v[1]) } else { None }, ..o }
                            } else {
                                Graph90Object { enabled: v[1] != 0, ..o }
                            };
                            Graph90Model { objects: m.objects.insert(v[0], o2), ..m }
                        }
                    } else {
                        m
                    },
                    None => m,
                },
                a1,
                void_with(None),
            ))
        }
    } else {
        None
    }
}

/// An object after a common-state change: its position and blend mode when
/// given, and its priority when it lies in `0..0x10000`.
pub open spec fn with_common(o: Graph90Object, position: Option<(i32, i32)>, blend: Option<i32>, priority: i32) -> Graph90Object {
    let o1 = match position {
        Some(p) => Graph90Object { position: p, ..o },
        None => o,
    };
    let o2 = match blend {
        Some(b) => Graph90Object { blend_mode: b, ..o1 },
        None => o1,
    };
    if 0 <= priority < 0x1_0000 {
        Graph90Object { priority: priority as u32, ..o2 }
    } else {
        o2
    }
}

/// The filter and map state calls: a filter's parameter, alpha and priority
/// (`0x65`); a filter's reserved word, parameter, bitmap (`-1` for none),
/// mask parameter, alpha and priority (`0x66`); a map's position, bitmap,
/// blend mode, alpha and priority (`0x75`). The alpha, with the members',
/// and the re-sort are the host's. A handle of another class, or too few
/// arguments, changes nothing.
pub open spec fn common_state_call_spec(m: Graph90Model, id: u8, a: Seq<NativeValue>) -> Option<
    (Graph90Model, Seq<NativeValue>, Graph90Outcome),
> {
    if id == 0x65 || id == 0x66 || id == 0x75 {
        let (base, class) = if id == 0x75 { (MAP_BASE, 3i32) } else { (FILTER_BASE, 2i32) };
        let n: nat = if id == 0x65 { 4 } else { 7 };
        let (a1, vs) = source_ints_spec(a, n);
        match vs {
            Some(v) => if class_match(m.objects, v[0], base, 8, class) {
                let o = m.objects[v[0]];
                let (o2, alpha, priority) = if id == 0x65 {
                    (
                        Graph90Object {
                            filter_parameters: (o.filter_parameters.0, v[1], o.filter_parameters.2),
                            ..with_common(o, None, None, v[3])
                        },
                        v[2],
                        v[3],
                    )
                } else if id == 0x66 {
                    (
                        Graph90Object {
                            filter_parameters: (v[1], v[2], v[4]),
                            resource: if v[3] != -1 { Some(v[3]) } else { None },
                            ..with_common(o, None, None, v[6])
                        },
                        v[5],
                        v[6],
                    )
                } else {
                    (Graph90Object { resource: Some(v[3]), ..with_common(o, Some((v[1], v[2])), Some(v[4]), v[6]) }, v[5], v[6])
                };
                Some((
                    Graph90Model { objects: m.objects.insert(v[0], o2), ..m },
                    a1,
                    void_with(Some(Graph90RequestView::CommonState { object: v[0], alpha, reorder: 0 <= priority < 0x1_0000 })),
                ))
            } else {
                Some((m, a1, void_with(None)))
            },
            None => Some((m, a1, void_with(None))),
        }
    } else {
        None
    }
}

/// The map layout calls: grid (`0x76`), source (`0x78`), view (`0x79`)
/// and replacement tile (`0x7A`) of a map object; a handle of another
/// class, or too few arguments, changes nothing.
pub open spec fn map_call_spec(m: Graph90Model, id: u8, a: Seq<NativeValue>) -> Option<
    (Graph90Model, Seq<NativeValue>, Graph90Outcome),
> {
    if id == 0x76 || id == 0x78 || id == 0x79 || id == 0x7A {
        let n: nat = if id == 0x76 { 5 } else if id == 0x78 { 4 } else if id == 0x79 { 6 } else { 2 };
        let (a1, vs) = source_ints_spec(a, n);
        match vs {
            Some(v) => if class_match(m.objects, v[0], MAP_BASE, 8, 3) {
                let o = m.objects[v[0]];
                let o2 = if id == 0x76 {
                    Graph90Object { map_grid: (v[1], v[2], v[3], v[4]), ..o }
                } else if id == 0x78 {
                    Graph90Object { map_source: (v[1], v[2], v[3]), ..o }
                } else if id == 0x79 {
                    Graph90Object { map_view: (v[1], v[2], v[3], v[4], v[5]), ..o }
                } else {
                    Graph90Object { map_replace_tile: v[1], ..o }
                };
                Some((Graph90Model { objects: m.objects.insert(v[0], o2), ..m }, a1, void_with(None)))
            } else {
                Some((m, a1, void_with(None)))
            },
            None => Some((m, a1, void_with(None))),
        }
    } else {
        None
    }
}

/// A call of group `0x90`, `None` for one this library does not handle:
/// the state after, the stack after and the outcome.
pub open spec fn graph90_call_spec(m: Graph90Model, group: u8, id: u8, a: Seq<NativeValue>) -> Option<
    (Graph90Model, Seq<NativeValue>, Graph90Outcome),
> {
    if group != 0x90 {
        None
    } else if settings_call_spec(m, id, a) is Some {
        settings_call_spec(m, id, a)
    } else if consume_call_spec(m, id, a) is Some {
        consume_call_spec(m, id, a)
    } else if object_call_spec(m, id, a) is Some {
        object_call_spec(m, id, a)
    } else if common_state_call_spec(m, id, a) is Some {
        common_state_call_spec(m, id, a)
    } else if map_call_spec(m, id, a) is Some {
        map_call_spec(m, id, a)
    } else {
        class_call_spec(m, id, a)
    }
}

/// Whether a handled call's result and the state and stack after it are
/// those that `spec` gives, or, for an unhandled one, nothing changed.
pub open spec fn graph90_call_done(
    spec: Option<(Graph90Model, Seq<NativeValue>, Graph90Outcome)>,
    m0: Graph90Model,
    a0: Seq<NativeValue>,
    m1: Graph90Model,
    a1: Seq<NativeValue>,
    out: Option<Result<(NativeValue, Option<Graph90Request>), Graph90Error>>,
) -> bool {
    match spec {
        None => out is None && m1 == m0 && a1 == a0,
        Some((m, a, r)) => out is Some && m1 == m && a1 == a && outcome_view(out.unwrap()) == r,
    }
}

/// The integer reading of each value.
fn ints_of(values: &Vec<NativeValue>) -> (r: Vec<i32>)
    ensures
        r@ == values@.map_values(|v: NativeValue| value_int(v)),
{
    let mut r: Vec<i32> = Vec::new();
    let mut i: usize = 0;
    while i < values.len()
        invariant
            i <= values@.len(),
            r@ == values@.take(i as int).map_values(|v: NativeValue| value_int(v)),
        decreases values@.len() - i,
    {
        let v: i32 = match &values[i] {
            NativeValue::Int(x) => *x,
            _ => 0,
        };
        r.push(v);
        assert(values@.take(i + 1).map_values(|v: NativeValue| value_int(v)) =~= values@.take(i as int).map_values(
            |v: NativeValue| value_int(v),
        ).push(v));
        i += 1;
    }
    assert(values@.take(values@.len() as int) =~= values@);
    r
}

impl Graph90State {
    fn settings_call(&mut self, id: u8, args: &mut Vec<NativeValue>) -> (out: Option<
        Result<(NativeValue, Option<Graph90Request>), Graph90Error>,
    >)
        requires
            old(self).wf(),
        ensures
            final(self).wf(),
            final(self).handles@ == old(self).handles@,
            graph90_call_done(settings_call_spec(old(self)@, id, old(args)@), old(self)@, old(args)@, final(self)@, final(args)@, out),
    {
        let ghost a = args@;
        let ghost m = self@;
        if id == 0x0A {
            let full = pop_int_value(args, 0);
            let enabled = pop_int_value(args, 0);
            self.redraw_full = full != 0;
            self.redraw_enabled = enabled != 0;
        } else if id == 0x0B {
            let bitmap = pop_int_value(args, 0);
            self.primary_bitmap = Some(bitmap);
        } else if id == 0x0F {
            self.unblend_color = pop_int_value(args, 0);
        } else if id == 0x92 {
            let enabled = pop_int_value(args, 0);
            self.message_input_filter = enabled != 0;
        } else if id == 0x9E {
            let count = pop_int_value(args, 0);
            let bitmap = pop_int_value(args, 0);
            if count <= 0 {
                self.glyph_strip = (None, 0, 0);
            } else if count <= 255 {
                match self.bitmap_widths.get(&bitmap) {
                    Some(w) => {
                        let width = *w;
                        let c = count as u32;
                        if width % c == 0 {
                            self.glyph_strip = (Some(bitmap), count, (width / c) as i32);
                        }
                    },
                    None => {},
                }
            }
        } else if id == 0xA4 {
            let style_b = pop_int_value(args, 0);
            let style_a = pop_int_value(args, 0);
            self.highlight_styles = (style_a, style_b);
        } else if id == 0xA5 {
            self.item_input_mask = pop_int_value(args, 0);
        } else if id == 0xA6 {
            let arg3 = pop_int_value(args, 0);
            let arg2 = pop_int_value(args, 0);
            let arg1 = pop_int_value(args, 0);
            let alternate = pop_int_value(args, 0);
            self.item_navigation = (alternate, arg1, arg2, arg3);
        } else if id == 0xAF {
            self.poll_gate = pop_int_value(args, 0);
        } else {
            assert(settings_call_spec(m, id, a) is None);
            return None;
        }
        let out = Some(Ok((NativeValue::Void, None)));
        proof {
            let r = settings_call_spec(m, id, a).unwrap();
            assert(self@ =~= r.0);
        }
        out
    }

    fn consume_call(&mut self, id: u8, args: &mut Vec<NativeValue>) -> (out: Option<
        Result<(NativeValue, Option<Graph90Request>), Graph90Error>,
    >)
        requires
            old(self).wf(),
        ensures
            final(self).wf(),
            final(self).handles@ == old(self).handles@,
            graph90_call_done(consume_call_spec(old(self)@, id, old(args)@), old(self)@, old(args)@, final(self)@, final(args)@, out),
    {
        let ghost a = args@;
        let operation = if id == 0x1A {
            Some((Graph90BitmapOperation::Composite, 6usize))
        } else if id == 0x1B || id == 0x1D {
            Some((Graph90BitmapOperation::Copy, 4usize))
        } else if id == 0x1C {
            Some((Graph90BitmapOperation::Scale, 10usize))
        } else {
            None
        };
        match operation {
            Some((operation, n)) => {
                let values = pop_values(args, n);
                let ints = ints_of(&values);
                return Some(Ok((NativeValue::Void, Some(Graph90Request::BitmapOperation { operation, args: ints }))));
            },
            None => {},
        }
        let consumed: usize = if id == 0xA0 {
            8
        } else if id == 0xA2 || id == 0xA3 {
            14
        } else if id == 0xA1 {
            6
        } else if id == 0xA7 || id == 0xBD {
            2
        } else if id == 0xB0 || id == 0xB1 {
            7
        } else if id == 0xC8 {
            18
        } else {
            0
        };
        if consumed > 0 {
            let _ = pop_values(args, consumed);
            return Some(Ok((if id == 0xBD { NativeValue::Int(0) } else { NativeValue::Void }, None)));
        }
        if id == 0xC2 {
            let direction = pop_int_value(args, 0);
            let source = pop_int_value(args, 0);
            let destination = pop_int_value(args, 0);
            Some(Ok((NativeValue::Void, Some(Graph90Request::FlipBitmap { destination, source, direction }))))
        } else if id == 0xC3 || id == 0xCA {
            let source = pop_int_value(args, 0);
            let destination = pop_int_value(args, 0);
            let req = if id == 0xC3 {
                Graph90Request::DownsampleBitmap { destination, source }
            } else {
                Graph90Request::AspectFitBitmap { destination, source }
            };
            Some(Ok((NativeValue::Void, Some(req))))
        } else {
            None
        }
    }
}

impl Graph90State {
    fn object_call(&mut self, id: u8, args: &mut Vec<NativeValue>) -> (out: Option<
        Result<(NativeValue, Option<Graph90Request>), Graph90Error>,
    >)
        requires
            old(self).wf(),
        ensures
            final(self).wf(),
            graph90_call_done(object_call_spec(old(self)@, id, old(args)@), old(self)@, old(args)@, final(self)@, final(args)@, out),
    {
        let ghost a = args@;
        let ghost m = self@;
        if id == 0x33 || id == 0x36 || id == 0x37 {
            let y = pop_int_value(args, 0);
            let x = pop_int_value(args, 0);
            let object = pop_int_value(args, 0);
            if !self.objects.contains_key(&object) {
                return Some(Err(Graph90Error::NotRegistered(object)));
            }
            let req = if id == 0x33 {
                Graph90Request::SetPosition { object, x, y }
            } else {
                Graph90Request::SetOffset { object, secondary: id == 0x37, x, y }
            };
            Some(Ok((NativeValue::Void, Some(req))))
        } else if id == 0x34 || id == 0x35 || id == 0x39 {
            let setting = if id == 0x34 {
                MemberSetting::MaskAlpha
            } else if id == 0x35 {
                MemberSetting::FixedParameter
            } else {
                MemberSetting::AlphaMultiplier
            };
            let value = pop_int_value(args, 0);
            let object = pop_int_value(args, 0);
            if !(0 <= value && value <= 256) {
                return Some(Err(Graph90Error::OutOfRange(value)));
            }
            if !self.objects.contains_key(&object) {
                return Some(Err(Graph90Error::NotRegistered(object)));
            }
            let stored = if id == 0x35 {
                value * 0x1_0000
            } else {
                value
            };
            self.set_member_setting(object, setting, stored);
            Some(Ok((NativeValue::Void, Some(Graph90Request::RefreshMembers { object, setting }))))
        } else if id == 0x3A {
            let priority = pop_int_value(args, 0);
            let object = pop_int_value(args, 0);
            if !(0 <= priority && priority < 0x1_0000) {
                return Some(Err(Graph90Error::PriorityOutOfRange(priority)));
            }
            match self.objects.get(&object) {
                Some(o) => {
                    let o2 = Graph90Object { priority: priority as u32, ..*o };
                    self.put_object(object, o2);
                    Some(Ok((NativeValue::Void, Some(Graph90Request::Reorder { object, priority }))))
                },
                None => Some(Err(Graph90Error::NotRegistered(object))),
            }
        } else if id == 0x3F {
            let object = pop_int_value(args, 0);
            if self.objects.contains_key(&object) {
                Some(Err(Graph90Error::Unsupported(object)))
            } else {
                Some(Err(Graph90Error::NotRegistered(object)))
            }
        } else {
            None
        }
    }

    fn class_matches(&self, h: i32, base: i32, slots: i32, class: i32) -> (b: bool)
        ensures
            b == class_match(self@.objects, h, base, slots as int, class),
    {
        if (h as i64) < (base as i64) || (h as i64) - (base as i64) >= (slots as i64) {
            return false;
        }
        match self.objects.get(&h) {
            Some(o) => match o.class {
                Some(c) => c == class,
                None => true,
            },
            None => false,
        }
    }

    fn allocate(&mut self, base: i32, slots: i32, o: Graph90Object) -> (h: i32)
        requires
            old(self).wf(),
            0 <= slots,
            base + slots <= 0,
        ensures
            final(self).wf(),
            h == allocated_handle(old(self)@.objects, base, slots as int),
            final(self)@ == (Graph90Model { objects: after_allocation(old(self)@.objects, base, slots as int, o), ..old(self)@ }),
    {
        let ghost m0 = self@.objects;
        let end = base + slots;
        let mut handle = base;
        while handle < end
            invariant
                base <= handle <= end,
                end == base + slots,
                self@ == old(self)@,
                self.wf(),
                m0 == self@.objects,
                forall|t: i32| base <= t < handle ==> m0.contains_key(t),
            decreases end - handle,
        {
            if !self.objects.contains_key(&handle) {
                proof {
                    assert(first_free(m0, base, slots as int, handle));
                    let c = choose|c: i32| #[trigger] first_free(m0, base, slots as int, c);
                    assert(first_free(m0, base, slots as int, c));
                    if c < handle {
                        assert(m0.contains_key(c));
                    }
                    if c > handle {
                        assert(m0.contains_key(handle));
                    }
                    assert(c == handle);
                }
                self.put_object(handle, o);
                return handle;
            }
            handle += 1;
        }
        proof {
            assert forall|h: i32| !#[trigger] first_free(m0, base, slots as int, h) by {
                if first_free(m0, base, slots as int, h) {
                    assert(m0.contains_key(h));
                }
            }
        }
        0
    }

    fn current(&mut self) -> (cur: i32)
        requires
            old(self).wf(),
        ensures
            final(self).wf(),
            cur == old(self)@.current_object,
            final(self)@ == (Graph90Model { objects: with_current(old(self)@), ..old(self)@ }),
    {
        let cur = self.current_object;
        if !self.objects.contains_key(&cur) {
            self.put_object(cur, Graph90Object::new(true));
        } else {
            assert(self@ =~= Graph90Model { objects: with_current(old(self)@), ..old(self)@ });
        }
        cur
    }

    fn class_call(&mut self, id: u8, args: &mut Vec<NativeValue>) -> (out: Option<
        Result<(NativeValue, Option<Graph90Request>), Graph90Error>,
    >)
        requires
            old(self).wf(),
        ensures
            final(self).wf(),
            graph90_call_done(class_call_spec(old(self)@, id, old(args)@), old(self)@, old(args)@, final(self)@, final(args)@, out),
    {
        let ghost a = args@;
        let ghost m = self@;
        if id == 0x4C {
            let cur = self.current();
            let vs = pop_source_ints(args, 2);
            match vs {
                Some(v) => {
                    let o = *self.objects.get(&cur).unwrap();
                    self.put_object(cur, Graph90Object { draw_enabled: v[0] != 0, ..o });
                    self.renderer_options = (v[0], v[1]);
                    self.redraw_requested = Some(true);
                },
                None => {},
            }
            proof {
                let r = class_call_spec(m, id, a).unwrap();
                assert(self@ =~= r.0);
            }
            return Some(Ok((NativeValue::Void, None)));
        }
        if id == 0x4D {
            let cur = self.current();
            let mode = self.objects.get(&cur).unwrap().mode;
            return Some(Ok((NativeValue::Int(mode), None)));
        }
        let class = if id == 0x50 || id == 0x51 || id == 0x53 || id == 0x54 || id == 0x55 {
            Some((SPRITE_BASE, 512i32, 1i32))
        } else if id == 0x60 || id == 0x61 || id == 0x64 {
            Some((FILTER_BASE, 8i32, 2i32))
        } else if id == 0x70 || id == 0x71 || id == 0x74 {
            Some((MAP_BASE, 8i32, 3i32))
        } else {
            None
        };
        let (base, slots, class) = match class {
            Some(c) => c,
            None => {
                return None;
            },
        };
        if id == 0x50 || id == 0x60 || id == 0x70 {
            let mode: i32 = if id == 0x50 {
                0
            } else if id == 0x60 {
                7
            } else {
                1
            };
            let blend: i32 = if id == 0x60 {
                192
            } else {
                0
            };
            let fresh = Graph90Object::new(false);
            let o = Graph90Object { class: Some(class), mode, blend_mode: blend, ..fresh };
            let h = self.allocate(base, slots, o);
            return Some(Ok((NativeValue::Int(h), None)));
        }
        if id == 0x51 || id == 0x61 || id == 0x71 {
            let h = pop_int_value(args, 0);
            if self.class_matches(h, base, slots, class) {
                self.remove_object(h);
            }
            return Some(Ok((NativeValue::Void, None)));
        }
        let n: usize = if id == 0x53 {
            5
        } else {
            2
        };
        let vs = pop_source_ints(args, n);
        match vs {
            Some(v) => {
                if self.class_matches(v[0], base, slots, class) {
                    if id == 0x53 {
                        self.redraw_requested = Some(false);
                    } else {
                        let o = *self.objects.get(&v[0]).unwrap();
                        let o2 = if id == 0x54 {
                            Graph90Object { draw_enabled: v[1] != 0, ..o }
                        } else if id == 0x55 {
                            Graph90Object { aux_bitmap: if v[1] != -1 { Some(v[1]) } else { None }, ..o }
                        } else {
                            Graph90Object { enabled: v[1] != 0, ..o }
                        };
                        self.put_object(v[0], o2);
                    }
                }
            },
            None => {},
        }
        proof {
            let r = class_call_spec(m, id, a).unwrap();
            assert(self@ =~= r.0);
        }
        Some(Ok((NativeValue::Void, None)))
    }

    /// Runs a group `0x90` call (see [`graph90_call_spec`]): the object
    /// update redraw flags, primary bitmap and unblend colour, bitmap
    /// operations, the display objects' placement, member settings,
    /// priority and classes (sprites, filters, maps, with the filters' and
    /// maps' state and layout), the full-width glyph strip and the
    /// item-selection settings. `None` for a call it does not
    /// handle, with nothing changed.
    pub fn dispatch_native_graph(&mut self, group: u8, id: u8, args: &mut Vec<NativeValue>) -> (out: Option<
        Result<(NativeValue, Option<Graph90Request>), Graph90Error>,
    >)
        requires
            old(self).wf(),
        ensures
            final(self).wf(),
            graph90_call_done(graph90_call_spec(old(self)@, group, id, old(args)@), old(self)@, old(args)@, final(self)@, final(args)@, out),
    {
        if group != 0x90 {
            return None;
        }
        let r = self.settings_call(id, args);
        if r.is_some() {
            return r;
        }
        let r = self.consume_call(id, args);
        if r.is_some() {
            return r;
        }
        let r = self.object_call(id, args);
        if r.is_some() {
            return r;
        }
        let r = self.common_state_call(id, args);
        if r.is_some() {
            return r;
        }
        let r = self.map_call(id, args);
        if r.is_some() {
            return r;
        }
        self.class_call(id, args)
    }
}

impl Graph90State {
    fn common_state_call(&mut self, id: u8, args: &mut Vec<NativeValue>) -> (out: Option<
        Result<(NativeValue, Option<Graph90Request>), Graph90Error>,
    >)
        requires
            old(self).wf(),
        ensures
            final(self).wf(),
            graph90_call_done(common_state_call_spec(old(self)@, id, old(args)@), old(self)@, old(args)@, final(self)@, final(args)@, out),
    {
        let ghost a = args@;
        let ghost m = self@;
        if !(id == 0x65 || id == 0x66 || id == 0x75) {
            return None;
        }
        let (base, class) = if id == 0x75 {
            (MAP_BASE, 3i32)
        } else {
            (FILTER_BASE, 2i32)
        };
        let n: usize = if id == 0x65 {
            4
        } else {
            7
        };
        let vs = pop_source_ints(args, n);
        let v = match vs {
            Some(v) => v,
            None => {
                return Some(Ok((NativeValue::Void, None)));
            },
        };
        if !self.class_matches(v[0], base, 8, class) {
            return Some(Ok((NativeValue::Void, None)));
        }
        let o = *self.objects.get(&v[0]).unwrap();
        let priority = if id == 0x65 {
            v[3]
        } else {
            v[6]
        };
        let mut o1 = o;
        if id == 0x75 {
            o1 = Graph90Object { position: (v[1], v[2]), ..o1 };
            o1 = Graph90Object { blend_mode: v[4], ..o1 };
        }
        if 0 <= priority && priority < 0x1_0000 {
            o1 = Graph90Object { priority: priority as u32, ..o1 };
        }
        let (o2, alpha) = if id == 0x65 {
            (Graph90Object { filter_parameters: (o.filter_parameters.0, v[1], o.filter_parameters.2), ..o1 }, v[2])
        } else if id == 0x66 {
            (
                Graph90Object {
                    filter_parameters: (v[1], v[2], v[4]),
                    resource: if v[3] != -1 { Some(v[3]) } else { None },
                    ..o1
                },
                v[5],
            )
        } else {
            (Graph90Object { resource: Some(v[3]), ..o1 }, v[5])
        };
        self.put_object(v[0], o2);
        Some(Ok((NativeValue::Void, Some(Graph90Request::CommonState { object: v[0], alpha, reorder: 0 <= priority && priority < 0x1_0000 }))))
    }
}

impl Graph90State {
    fn map_call(&mut self, id: u8, args: &mut Vec<NativeValue>) -> (out: Option<
        Result<(NativeValue, Option<Graph90Request>), Graph90Error>,
    >)
        requires
            old(self).wf(),
        ensures
            final(self).wf(),
            graph90_call_done(map_call_spec(old(self)@, id, old(args)@), old(self)@, old(args)@, final(self)@, final(args)@, out),
    {
        if !(id == 0x76 || id == 0x78 || id == 0x79 || id == 0x7A) {
            return None;
        }
        let n: usize = if id == 0x76 {
            5
        } else if id == 0x78 {
            4
        } else if id == 0x79 {
            6
        } else {
            2
        };
        let vs = pop_source_ints(args, n);
        let v = match vs {
            Some(v) => v,
            None => {
                return Some(Ok((NativeValue::Void, None)));
            },
        };
        if self.class_matches(v[0], MAP_BASE, 8, 3) {
            let o = *self.objects.get(&v[0]).unwrap();
            let o2 = if id == 0x76 {
                Graph90Object { map_grid: (v[1], v[2], v[3], v[4]), ..o }
            } else if id == 0x78 {
                Graph90Object { map_source: (v[1], v[2], v[3]), ..o }
            } else if id == 0x79 {
                Graph90Object { map_view: (v[1], v[2], v[3], v[4], v[5]), ..o }
            } else {
                Graph90Object { map_replace_tile: v[1], ..o }
            };
            self.put_object(v[0], o2);
        }
        Some(Ok((NativeValue::Void, None)))
    }
}

/// Releasing the sprite that an allocation has just made gives back the
/// state from before the allocation, and the stack too.
pub proof fn law_release_undoes_sprite_allocation(m: Graph90Model, a: Seq<NativeValue>)
    requires
        exists|h: i32| #[trigger] first_free(m.objects, SPRITE_BASE, 512, h),
    ensures
        ({
            let (m1, a1, r1) = graph90_call_spec(m, 0x90, 0x50, a).unwrap();
            let h = allocated_handle(m.objects, SPRITE_BASE, 512);
            let (m2, a2, r2) = graph90_call_spec(m1, 0x90, 0x51, a1.push(NativeValue::Int(h))).unwrap();
            &&& r1 == Ok::<(NativeValue, Option<Graph90RequestView>), Graph90Error>((NativeValue::Int(h), None))
            &&& m1.objects.contains_key(h)
            &&& m2 == m
            &&& a2 == a
            &&& r2 == void_with(None)
        }),
{
    let h = allocated_handle(m.objects, SPRITE_BASE, 512);
    let w = choose|w: i32| #[trigger] first_free(m.objects, SPRITE_BASE, 512, w);
    assert(first_free(m.objects, SPRITE_BASE, 512, h));
    let (m1, a1, r1) = graph90_call_spec(m, 0x90, 0x50, a).unwrap();
    assert(settings_call_spec(m, 0x50, a) is None);
    assert(consume_call_spec(m, 0x50, a) is None);
    assert(object_call_spec(m, 0x50, a) is None);
    assert(m1.objects == m.objects.insert(h, allocated_object(1, 0, 0)));
    assert(a1 == a);
    let b = a1.push(NativeValue::Int(h));
    lemma_pop_pushed_int(a1, h);
    assert(settings_call_spec(m1, 0x51, b) is None);
    assert(consume_call_spec(m1, 0x51, b) is None);
    assert(object_call_spec(m1, 0x51, b) is None);
    assert(class_match(m1.objects, h, SPRITE_BASE, 512, 1));
    assert(m1.objects.remove(h) =~= m.objects);
    let (m2, a2, r2) = graph90_call_spec(m1, 0x90, 0x51, b).unwrap();
    assert(m2 =~= m);
}

/// Repeating a member-setting call (`0x34`, `0x35`, `0x39`) on the same
/// object with the same value changes nothing more, and answers the same.
pub proof fn law_member_setting_is_idempotent(m: Graph90Model, id: u8, object: i32, value: i32, rest: Seq<NativeValue>)
    requires
        member_setting(id) is Some,
    ensures
        ({
            let a = rest.push(NativeValue::Int(object)).push(NativeValue::Int(value));
            let (m1, a1, r1) = graph90_call_spec(m, 0x90, id, a).unwrap();
            let (m2, a2, r2) = graph90_call_spec(m1, 0x90, id, a).unwrap();
            m2 == m1 && a2 == a1 && r2 == r1
        }),
{
    let a = rest.push(NativeValue::Int(object)).push(NativeValue::Int(value));
    lemma_pop_pushed_int(rest.push(NativeValue::Int(object)), value);
    lemma_pop_pushed_int(rest, object);
    assert(settings_call_spec(m, id, a) is None);
    assert(consume_call_spec(m, id, a) is None);
    let (m1, a1, r1) = graph90_call_spec(m, 0x90, id, a).unwrap();
    assert(settings_call_spec(m1, id, a) is None);
    assert(consume_call_spec(m1, id, a) is None);
    if 0 <= value <= 256 && m.objects.contains_key(object) {
        let setting = member_setting(id).unwrap();
        let v: i32 = (if id == 0x35 { value * 0x1_0000 } else { value as int }) as i32;
        let f = |o: Graph90Object| with_setting(o, setting, v);
        let m0 = m.objects;
        let o1 = g90_apply_to_members(m0, object, f);
        assert(m1.objects == o1);
        assert(o1.dom() =~= m0.dom());
        assert(g90_same_links(o1, m0));
        let o2 = g90_apply_to_members(o1, object, f);
        assert forall|k: i32| #[trigger] o1.contains_key(k) implies o2[k] == o1[k] by {
            lemma_g90_member_same_links(o1, m0, k, object, m0.dom().len());
        }
        assert(o2 =~= o1);
    }
    let (m2, a2, r2) = graph90_call_spec(m1, 0x90, id, a).unwrap();
    assert(m2 =~= m1);
}

} // verus!
