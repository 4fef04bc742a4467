use vstd::prelude::*;
use std::collections::{HashMap, HashSet};
use crate::native_call::{pop_source_ints, source_ints_spec, NativeValue};

verus! {

broadcast use vstd::std_specs::hash::group_hash_axioms;

/// A display object's native transform state: whether drawing is
/// suppressed, its fixed position and its two vector banks (16.16), the
/// offset it was attached at, the object it is a member of, whether it uses
/// fixed member coordinates (projected sprites), its integer base
/// position, whether a new fixed position is rounded to whole units (and
/// the rounding mode: 1 rounds at any depth, otherwise only at depth 0),
/// and whether the integer position follows the fixed one.
#[derive(Debug, Clone, Copy)]
pub struct ObjectTransform {
    pub suppressed: bool,
    pub fixed_position: (i32, i32, i32),
    pub primary_vector: (i32, i32, i32),
    pub secondary_vector: (i32, i32, i32),
    pub attachment_offset: (i32, i32),
    pub owner: Option<i32>,
    pub fixed_members: bool,
    pub base_position: (i32, i32),
    pub rounding_enabled: bool,
    pub rounding_mode: i32,
    pub mirrors_position: bool,
}

/// One layer of the multi-layer background (see the engine's defaults in
/// [`MultiLayerRecord::initial`]).
#[derive(Debug, Clone, Copy)]
pub struct MultiLayerRecord {
    pub configured: bool,
    pub enabled: bool,
    pub x_16_16: i32,
    pub y_16_16: i32,
    pub blend_mode: i32,
    pub blend_parameter: i32,
    pub bitmap: i32,
    pub bitmap_generation: i32,
    pub source_x: i32,
    pub source_y: i32,
    pub rotation: i32,
    pub scale_x: i32,
    pub scale_y: i32,
    pub auxiliary_a: i32,
    pub auxiliary_b: i32,
    pub source_delta_x: i32,
    pub source_delta_y: i32,
    pub rotation_delta: i32,
    pub scale_delta_x: i32,
    pub scale_delta_y: i32,
    pub transparency: i32,
}

impl MultiLayerRecord {
    /// An unconfigured, disabled layer with no bitmap at unit scale.
    pub open spec fn initial() -> Self {
        MultiLayerRecord {
            configured: false,
            enabled: false,
            x_16_16: 0,
            y_16_16: 0,
            blend_mode: 0,
            blend_parameter: 0,
            bitmap: -1i32,
            bitmap_generation: 0,
            source_x: 0,
            source_y: 0,
            rotation: 0,
            scale_x: 0x1_0000,
            scale_y: 0x1_0000,
            auxiliary_a: 0,
            auxiliary_b: 0,
            source_delta_x: 0,
            source_delta_y: 0,
            rotation_delta: 0,
            scale_delta_x: 0,
            scale_delta_y: 0,
            transparency: 0,
        }
    }

    pub fn new() -> (r: Self)
        ensures
            r == Self::initial(),
    {
        MultiLayerRecord {
            configured: false,
            enabled: false,
            x_16_16: 0,
            y_16_16: 0,
            blend_mode: 0,
            blend_parameter: 0,
            bitmap: -1,
            bitmap_generation: 0,
            source_x: 0,
            source_y: 0,
            rotation: 0,
            scale_x: 0x1_0000,
            scale_y: 0x1_0000,
            auxiliary_a: 0,
            auxiliary_b: 0,
            source_delta_x: 0,
            source_delta_y: 0,
            rotation_delta: 0,
            scale_delta_x: 0,
            scale_delta_y: 0,
            transparency: 0,
        }
    }
}

/// The display objects' transform state, the registered bitmap resources,
/// the multi-layer background (whether it is active, its 16.16 position,
/// the selected layer and its eight layers) and the pending redraw request.
pub struct Graph91ObjectState {
    pub objects: HashMap<i32, ObjectTransform>,
    pub handles: Vec<i32>,
    pub resources: HashSet<i32>,
    pub multilayer_active: bool,
    pub multilayer_position: (i32, i32),
    pub selected_layer: usize,
    pub layers: Vec<MultiLayerRecord>,
    pub redraw_requested: Option<bool>,
}

#[verifier::ext_equal]
pub struct Graph91ObjectModel {
    pub objects: Map<i32, ObjectTransform>,
    pub resources: Set<i32>,
    pub multilayer_active: bool,
    pub multilayer_position: (i32, i32),
    pub selected_layer: usize,
    pub layers: Seq<MultiLayerRecord>,
    pub redraw_requested: Option<bool>,
}

impl View for Graph91ObjectState {
    type V = Graph91ObjectModel;

    open spec fn view(&self) -> Graph91ObjectModel {
        Graph91ObjectModel {
            objects: self.objects@,
            resources: self.resources@,
            multilayer_active: self.multilayer_active,
            multilayer_position: self.multilayer_position,
            selected_layer: self.selected_layer,
            layers: self.layers@,
            redraw_requested: self.redraw_requested,
        }
    }
}

impl Graph91ObjectState {
    /// The handle list names each object once, and there are eight layers.
    pub open spec fn wf(&self) -> bool {
        &&& self.handles@.no_duplicates()
        &&& forall|h: i32| #[trigger] self.objects@.contains_key(h) <==> self.handles@.contains(h)
        &&& self.layers@.len() == 8
    }

    /// No objects, no resources, an inactive background.
    pub fn new() -> (s: Self)
        ensures
            s.wf(),
            s@.objects == Map::<i32, ObjectTransform>::empty(),
            s@.resources == Set::<i32>::empty(),
            !s@.multilayer_active,
            s@.layers == Seq::new(8, |i: int| MultiLayerRecord::initial()),
    {
        let mut layers: Vec<MultiLayerRecord> = Vec::new();
        let mut i: usize = 0;
        while i < 8
            invariant
                i <= 8,
                layers@ == Seq::new(i as nat, |j: int| MultiLayerRecord::initial()),
            decreases 8 - i,
        {
            layers.push(MultiLayerRecord::new());
            i += 1;
            assert(layers@ =~= Seq::new(i as nat, |j: int| MultiLayerRecord::initial()));
        }
        let s = Graph91ObjectState {
            objects: HashMap::new(),
            handles: Vec::new(),
            resources: HashSet::new(),
            multilayer_active: false,
            multilayer_position: (0, 0),
            selected_layer: 0,
            layers,
            redraw_requested: None,
        };
        assert(s@.objects =~= Map::<i32, ObjectTransform>::empty());
        s
    }

    /// Registers a display object, or replaces one's transform state.
    pub fn put_object(&mut self, handle: i32, t: ObjectTransform)
        requires
            old(self).wf(),
        ensures
            final(self).wf(),
            final(self)@ == (Graph91ObjectModel { objects: old(self)@.objects.insert(handle, t), ..old(self)@ }),
    {
        if !self.objects.contains_key(&handle) {
            self.handles.push(handle);
            assert(!old(self).handles@.contains(handle));
            assert forall|h: i32| #[trigger] self.handles@.contains(h) == (old(self).handles@.contains(h) || h == handle) by {
                if old(self).handles@.contains(h) {
                    let j = choose|j: int| 0 <= j < old(self).handles@.len() && old(self).handles@[j] == h;
                    assert(self.handles@[j] == h);
                }
                if h == handle {
                    assert(self.handles@[self.handles@.len() - 1] == h);
                }
            }
        }
        self.objects.insert(handle, t);
        assert(self@ =~= Graph91ObjectModel { objects: old(self)@.objects.insert(handle, t), ..old(self)@ });
    }
}

/// Work the object calls leave to the host's display tree and renderer.
#[derive(Debug, Clone, Copy)]
pub enum Graph91ObjectRequest {
    /// Rebuild the raster geometry of an object and its members.
    ResyncGeometry { object: i32 },
    /// An object and its members took new fixed positions: carry the
    /// integer position along for those that follow it, and rebuild their
    /// raster geometry.
    FixedPositionMoved { object: i32 },
    /// Link `slave` under `master` in the display tree at the offset; the
    /// slave was placed at its new base position unless `fixed`.
    Attach { master: i32, slave: i32, x: i32, y: i32, fixed: bool },
    /// Unlink `slave` from `master`.
    Detach { master: i32, slave: i32 },
    /// Make the multi-layer background the current background at the 16.16
    /// position, then redraw all its layers.
    PrepareMultilayer { x: i32, y: i32 },
    /// Redraw one multi-layer background layer.
    SyncLayer { layer: i32 },
}

/// Whether `o` is `root` or, following member links for at most `fuel`
/// steps through registered objects, a member of it.
pub open spec fn member_of(m: Map<i32, ObjectTransform>, o: i32, root: i32, fuel: nat) -> bool
    decreases fuel,
{
    o == root || (fuel > 0 && m.contains_key(o) && match m[o].owner {
        Some(p) => member_of(m, p, root, (fuel - 1) as nat),
        None => false,
    })
}

/// Member links are followed at most as many steps as there are objects.
pub open spec fn depth_bound(m: Map<i32, ObjectTransform>) -> nat {
    m.dom().len()
}

/// Whether the object's own member chain comes back to it (setting a
/// vector bank on it would then never end).
pub open spec fn in_member_cycle(m: Map<i32, ObjectTransform>, root: i32) -> bool {
    m.contains_key(root) && match m[root].owner {
        Some(p) => member_of(m, p, root, depth_bound(m)),
        None => false,
    }
}

/// Every object that is `root` or one of its members has `f` applied.
pub open spec fn apply_to_members(
    m: Map<i32, ObjectTransform>,
    root: i32,
    f: spec_fn(ObjectTransform) -> ObjectTransform,
) -> Map<i32, ObjectTransform> {
    Map::new(
        |k: i32| m.contains_key(k),
        |k: i32| if member_of(m, k, root, depth_bound(m)) {
            f(m[k])
        } else {
            m[k]
        },
    )
}

/// The fixed position an object takes when `v` is asked for it: with
/// rounding on, and depth 0 or rounding mode 1, x and y are rounded to
/// whole 16.16 units (add 0x8000, wrapping, and clear the low 16 bits).
pub open spec fn rounded(t: ObjectTransform, v: (i32, i32, i32)) -> (i32, i32, i32) {
    if t.rounding_enabled && (v.2 == 0 || t.rounding_mode == 1) {
        (v.0.wrapping_add(0x8000) & !0xffffi32, v.1.wrapping_add(0x8000) & !0xffffi32, v.2)
    } else {
        v
    }
}

/// The fixed position object `k` takes when `root` is moved to `v`: the
/// root takes `v`; a member keeps its offset from its owner (old positions,
/// wrapping) against the owner's new position; each then rounds as it
/// does.
pub open spec fn moved_fixed_position(m: Map<i32, ObjectTransform>, k: i32, root: i32, v: (i32, i32, i32), fuel: nat) -> (
    i32,
    i32,
    i32,
)
    decreases fuel,
{
    if k == root {
        rounded(m[k], v)
    } else if fuel > 0 && m.contains_key(k) && m[k].owner is Some {
        let p = m[k].owner.unwrap();
        let np = moved_fixed_position(m, p, root, v, (fuel - 1) as nat);
        let c = m[k].fixed_position;
        let o = m[p].fixed_position;
        rounded(
            m[k],
            (np.0.wrapping_add(c.0.wrapping_sub(o.0)), np.1.wrapping_add(c.1.wrapping_sub(o.1)), np.2.wrapping_add(
                c.2.wrapping_sub(o.2),
            )),
        )
    } else {
        m[k].fixed_position
    }
}

/// The fixed position of `k` after moving `root` to `v`: moved for the
/// root and its members, unchanged for the rest.
pub open spec fn fixed_after_move(m: Map<i32, ObjectTransform>, k: i32, root: i32, v: (i32, i32, i32)) -> (i32, i32, i32) {
    if member_of(m, k, root, depth_bound(m)) {
        moved_fixed_position(m, k, root, v, depth_bound(m))
    } else {
        m[k].fixed_position
    }
}

/// Moving a registered object's fixed position (`0x33`) moves it and all
/// its members (see [`moved_fixed_position`]); an unknown object is
/// ignored.
pub open spec fn fixed_position_call_spec(m: Graph91ObjectModel, root: i32, v: (i32, i32, i32)) -> (
    Graph91ObjectModel,
    Option<Graph91ObjectRequest>,
) {
    if m.objects.contains_key(root) {
        (
            Graph91ObjectModel {
                objects: Map::new(
                    |k: i32| m.objects.contains_key(k),
                    |k: i32| ObjectTransform { fixed_position: fixed_after_move(m.objects, k, root, v), ..m.objects[k] },
                ),
                ..m
            },
            Some(Graph91ObjectRequest::FixedPositionMoved { object: root }),
        )
    } else {
        (m, None)
    }
}

/// The object calls of group `0x91` (`0x31`..`0x4A`) with the number of
/// integer arguments each takes.
pub open spec fn object_state_arity(id: u8) -> Option<nat> {
    if id == 0x41 {
        Some(1)
    } else if id == 0x31 || id == 0x3F || id == 0x42 || id == 0x44 || id == 0x45 {
        Some(2)
    } else if id == 0x43 || id == 0x48 || id == 0x49 {
        Some(3)
    } else if id == 0x33 || id == 0x36 || id == 0x37 || id == 0x3E || id == 0x46 || id == 0x4A {
        Some(4)
    } else if id == 0x47 {
        Some(5)
    } else if id == 0x40 {
        Some(9)
    } else {
        None
    }
}

/// The multi-layer background with layer `layer` changed by `f`, when the
/// background is active and the layer one of the eight.
pub open spec fn with_layer(m: Graph91ObjectModel, layer: i32, f: spec_fn(MultiLayerRecord) -> MultiLayerRecord) -> Option<
    Graph91ObjectModel,
> {
    if m.multilayer_active && 0 <= layer < 8 {
        Some(Graph91ObjectModel { layers: m.layers.update(layer as int, f(m.layers[layer as int])), ..m })
    } else {
        None
    }
}

/// A layer change: the new model and a redraw of the layer when it
/// applies, no change otherwise.
pub open spec fn layer_outcome(m: Graph91ObjectModel, changed: Option<Graph91ObjectModel>, layer: i32, redraw: bool) -> (
    Graph91ObjectModel,
    Option<Graph91ObjectRequest>,
) {
    match changed {
        Some(m2) => (m2, if redraw { Some(Graph91ObjectRequest::SyncLayer { layer }) } else { None }),
        None => (m, None),
    }
}

/// An object or multi-layer call with its integer arguments `v` (in the
/// order the script pushed them): the state after it and the host work.
pub open spec fn object_state_call_spec(m: Graph91ObjectModel, id: u8, v: Seq<i32>) -> (
    Graph91ObjectModel,
    Option<Graph91ObjectRequest>,
) {
    let objs = m.objects;
    if id == 0x33 {
        fixed_position_call_spec(m, v[0], (v[1], v[2], v[3]))
    } else if id == 0x31 {
        if objs.contains_key(v[0]) {
            (
                Graph91ObjectModel {
                    objects: objs.insert(v[0], ObjectTransform { suppressed: v[1] != 0, ..objs[v[0]] }),
                    redraw_requested: Some(false),
                    ..m
                },
                None,
            )
        } else {
            (m, None)
        }
    } else if id == 0x36 || id == 0x37 {
        let vector = (v[1], v[2], v[3]);
        if objs.contains_key(v[0]) {
            (
                Graph91ObjectModel {
                    objects: apply_to_members(
                        objs,
                        v[0],
                        |t: ObjectTransform| if id == 0x36 {
                            ObjectTransform { secondary_vector: vector, ..t }
                        } else {
                            ObjectTransform { primary_vector: vector, ..t }
                        },
                    ),
                    ..m
                },
                Some(Graph91ObjectRequest::ResyncGeometry { object: v[0] }),
            )
        } else {
            (m, None)
        }
    } else if id == 0x3E {
        let (master, slave, x, y) = (v[0], v[1], v[2], v[3]);
        if master != slave && objs.contains_key(master) && objs.contains_key(slave) && objs[slave].owner is None {
            let fixed = objs[master].fixed_members && objs[slave].fixed_members;
            let base = objs[master].base_position;
            let mb = objs[master].fixed_position;
            let s1 = ObjectTransform { owner: Some(master), attachment_offset: (x, y), ..objs[slave] };
            let s2 = if fixed {
                ObjectTransform { fixed_position: (mb.0.wrapping_add(x), mb.1.wrapping_add(y), mb.2), ..s1 }
            } else {
                ObjectTransform { base_position: (base.0.wrapping_add(x), base.1.wrapping_add(y)), ..s1 }
            };
            (
                Graph91ObjectModel { objects: objs.insert(slave, s2), ..m },
                Some(Graph91ObjectRequest::Attach { master, slave, x, y, fixed }),
            )
        } else {
            (m, None)
        }
    } else if id == 0x3F {
        let (master, slave) = (v[0], v[1]);
        if objs.contains_key(slave) && objs[slave].owner == Some(master) {
            (
                Graph91ObjectModel {
                    objects: objs.insert(
                        slave,
                        ObjectTransform { owner: None, attachment_offset: (0, 0), ..objs[slave] },
                    ),
                    ..m
                },
                Some(Graph91ObjectRequest::Detach { master, slave }),
            )
        } else {
            (m, None)
        }
    } else if id == 0x40 {
        if m.resources.contains(v[2]) && v[6] != 0 && v[7] != 0 {
            let first = MultiLayerRecord {
                configured: true,
                enabled: true,
                bitmap: v[2],
                source_x: v[3],
                source_y: v[4],
                rotation: v[5],
                scale_x: v[6],
                scale_y: v[7],
                transparency: v[8],
                ..MultiLayerRecord::initial()
            };
            (
                Graph91ObjectModel {
                    multilayer_active: true,
                    multilayer_position: (v[0], v[1]),
                    selected_layer: 0,
                    layers: Seq::new(8, |i: int| MultiLayerRecord::initial()).update(0, first),
                    ..m
                },
                Some(Graph91ObjectRequest::PrepareMultilayer { x: v[0], y: v[1] }),
            )
        } else {
            (m, None)
        }
    } else if id == 0x41 {
        if 0 <= v[0] < 8 && m.multilayer_active {
            (Graph91ObjectModel { selected_layer: v[0] as usize, ..m }, None)
        } else {
            (m, None)
        }
    } else if id == 0x42 {
        layer_outcome(m, with_layer(m, v[0], |r: MultiLayerRecord| MultiLayerRecord { enabled: v[1] != 0, ..r }), v[0], true)
    } else if id == 0x43 {
        layer_outcome(
            m,
            with_layer(m, v[0], |r: MultiLayerRecord| MultiLayerRecord { x_16_16: v[1], y_16_16: v[2], ..r }),
            v[0],
            true,
        )
    } else if id == 0x44 {
        layer_outcome(m, with_layer(m, v[0], |r: MultiLayerRecord| MultiLayerRecord { blend_mode: v[1], ..r }), v[0], true)
    } else if id == 0x45 {
        if 0 <= v[1] <= 256 {
            layer_outcome(
                m,
                with_layer(m, v[0], |r: MultiLayerRecord| MultiLayerRecord { blend_parameter: v[1], ..r }),
                v[0],
                true,
            )
        } else {
            (m, None)
        }
    } else if id == 0x46 {
        if v[1] != -1i32 && !m.resources.contains(v[1]) {
            (m, None)
        } else {
            layer_outcome(
                m,
                with_layer(
                    m,
                    v[0],
                    |r: MultiLayerRecord|
                        MultiLayerRecord {
                            configured: v[1] != -1i32,
                            bitmap: v[1],
                            bitmap_generation: if v[1] == -1i32 { 0i32 } else { 1i32 },
                            source_x: v[2],
                            source_y: v[3],
                            source_delta_x: 0,
                            source_delta_y: 0,
                            ..r
                        },
                ),
                v[0],
                true,
            )
        }
    } else if id == 0x47 {
        if v[2] == 0 || v[3] == 0 {
            (m, None)
        } else {
            layer_outcome(
                m,
                with_layer(
                    m,
                    v[0],
                    |r: MultiLayerRecord|
                        MultiLayerRecord {
                            rotation: v[1],
                            scale_x: v[2],
                            scale_y: v[3],
                            transparency: v[4],
                            rotation_delta: 0,
                            scale_delta_x: 0,
                            scale_delta_y: 0,
                            ..r
                        },
                ),
                v[0],
                true,
            )
        }
    } else if id == 0x48 {
        layer_outcome(
            m,
            with_layer(m, v[0], |r: MultiLayerRecord| MultiLayerRecord { auxiliary_a: v[1], auxiliary_b: v[2], ..r }),
            v[0],
            false,
        )
    } else if id == 0x49 {
        layer_outcome(
            m,
            with_layer(
                m,
                v[0],
                |r: MultiLayerRecord| MultiLayerRecord { source_delta_x: v[1], source_delta_y: v[2], ..r },
            ),
            v[0],
            false,
        )
    } else {
        layer_outcome(
            m,
            with_layer(
                m,
                v[0],
                |r: MultiLayerRecord|
                    MultiLayerRecord { rotation_delta: v[1], scale_delta_x: v[2], scale_delta_y: v[3], ..r },
            ),
            v[0],
            false,
        )
    }
}

/// Whether two object tables agree on their objects and member links.
pub open spec fn same_links(a: Map<i32, ObjectTransform>, b: Map<i32, ObjectTransform>) -> bool {
    a.dom() == b.dom() && forall|k: i32| #[trigger] a.contains_key(k) ==> a[k].owner == b[k].owner
}

proof fn lemma_member_same_links(a: Map<i32, ObjectTransform>, b: Map<i32, ObjectTransform>, o: i32, root: i32, fuel: nat)
    requires
        same_links(a, b),
    ensures
        member_of(a, o, root, fuel) == member_of(b, o, root, fuel),
    decreases fuel,
{
    if fuel > 0 && a.contains_key(o) {
        assert(b.contains_key(o));
        match a[o].owner {
            Some(p) => lemma_member_same_links(a, b, p, root, (fuel - 1) as nat),
            None => {},
        }
    }
}

/// A transform with one of its vector banks set.
fn with_vector(t: ObjectTransform, vector: (i32, i32, i32), secondary: bool) -> (r: ObjectTransform)
    ensures
        r == (if secondary {
            ObjectTransform { secondary_vector: vector, ..t }
        } else {
            ObjectTransform { primary_vector: vector, ..t }
        }),
{
    if secondary {
        ObjectTransform { secondary_vector: vector, ..t }
    } else {
        ObjectTransform { primary_vector: vector, ..t }
    }
}

impl Graph91ObjectState {
    /// The number of objects, the bound on member chains.
    fn object_count(&self) -> (n: usize)
        requires
            self.wf(),
        ensures
            n as nat == depth_bound(self@.objects),
    {
        proof {
            self.handles@.unique_seq_to_set();
            assert(self.handles@.to_set() =~= self@.objects.dom());
        }
        self.handles.len()
    }

    /// Whether `o` is `root` or one of its members (see [`member_of`]).
    fn is_member(&self, o: i32, root: i32, bound: usize) -> (out: bool)
        ensures
            out == member_of(self@.objects, o, root, bound as nat),
    {
        let mut cur = o;
        let mut fuel = bound;
        loop
            invariant
                member_of(self@.objects, o, root, bound as nat) == member_of(self@.objects, cur, root, fuel as nat),
            decreases fuel,
        {
            if cur == root {
                return true;
            }
            if fuel == 0 {
                return false;
            }
            match self.objects.get(&cur) {
                Some(t) => match t.owner {
                    Some(p) => {
                        cur = p;
                        fuel -= 1;
                    },
                    None => {
                        return false;
                    },
                },
                None => {
                    return false;
                },
            }
        }
    }

    /// Sets a vector bank on `root` and all its members (`secondary` picks
    /// the bank).
    fn set_member_vectors(&mut self, root: i32, vector: (i32, i32, i32), secondary: bool)
        requires
            old(self).wf(),
        ensures
            final(self).wf(),
            final(self)@ == (Graph91ObjectModel {
                objects: apply_to_members(
                    old(self)@.objects,
                    root,
                    |t: ObjectTransform| if secondary {
                        ObjectTransform { secondary_vector: vector, ..t }
                    } else {
                        ObjectTransform { primary_vector: vector, ..t }
                    },
                ),
                ..old(self)@
            }),
    {
        let ghost m0 = self@.objects;
        let ghost g = |t: ObjectTransform| if secondary {
            ObjectTransform { secondary_vector: vector, ..t }
        } else {
            ObjectTransform { primary_vector: vector, ..t }
        };
        let bound = self.object_count();
        let ghost target = apply_to_members(m0, root, g);
        let mut i: usize = 0;
        while i < self.handles.len()
            invariant
                0 <= i <= self.handles@.len(),
                self.wf(),
                self.handles@ == old(self).handles@,
                bound as nat == depth_bound(m0),
                target == apply_to_members(m0, root, g),
                forall|t: ObjectTransform| #[trigger] g(t) == (if secondary {
                    ObjectTransform { secondary_vector: vector, ..t }
                } else {
                    ObjectTransform { primary_vector: vector, ..t }
                }),
                same_links(self@.objects, m0),
                self@ == (Graph91ObjectModel { objects: self@.objects, ..old(self)@ }),
                forall|j: int| 0 <= j < i ==> #[trigger] self@.objects[self.handles@[j]] == target[self.handles@[j]],
                forall|k: i32|
                    #[trigger] m0.contains_key(k) && !self.handles@.take(i as int).contains(k) ==> self@.objects[k]
                        == m0[k],
            decreases self.handles@.len() - i,
        {
            let h = self.handles[i];
            proof {
                lemma_member_same_links(self@.objects, m0, h, root, bound as nat);
                assert(self.handles@.contains(h));
                assert(!self.handles@.take(i as int).contains(h)) by {
                    if self.handles@.take(i as int).contains(h) {
                        let j = choose|j: int| 0 <= j < i && self.handles@.take(i as int)[j] == h;
                        assert(self.handles@[j] == self.handles@[i as int]);
                    }
                }
            }
            let ghost before = self@.objects;
            if self.is_member(h, root, bound) {
                let t = *self.objects.get(&h).unwrap();
                assert(t == m0[h]);
                self.objects.insert(h, with_vector(t, vector, secondary));
                assert(m0.contains_key(h));
                assert(target[h] == g(m0[h]));
            } else {
                assert(m0.contains_key(h));
                assert(target[h] == m0[h]);
            }
            proof {
                assert(self@.objects.dom() =~= m0.dom());
                assert(self.handles@[i as int] == h);
                assert forall|j: int| 0 <= j < i + 1 implies #[trigger] self@.objects[self.handles@[j]]
                    == target[self.handles@[j]] by {
                    if j < i {
                        assert(self.handles@[j] != h);
                        assert(self@.objects[self.handles@[j]] == before[self.handles@[j]]);
                    }
                }
                assert forall|k: i32| #[trigger] m0.contains_key(k) && !self.handles@.take(i + 1).contains(k) implies self@.objects[k]
                    == m0[k] by {
                    if k == h {
                        assert(self.handles@.take(i + 1)[i as int] == h);
                    } else {
                        assert(!self.handles@.take(i as int).contains(k)) by {
                            if self.handles@.take(i as int).contains(k) {
                                let j = choose|j: int| 0 <= j < i && self.handles@.take(i as int)[j] == k;
                                assert(self.handles@.take(i + 1)[j] == k);
                            }
                        }
                    }
                }
            }
            i += 1;
        }
        proof {
            assert forall|k: i32| #[trigger] self@.objects.contains_key(k) implies self@.objects[k] == target[k] by {
                assert(self.handles@.contains(k));
                let j = choose|j: int| 0 <= j < self.handles@.len() && self.handles@[j] == k;
            }
            assert(self@.objects =~= target);
            assert(self@ =~= Graph91ObjectModel { objects: target, ..old(self)@ });
        }
    }
}

fn round_fixed(t: &ObjectTransform, v: (i32, i32, i32)) -> (r: (i32, i32, i32))
    ensures
        r == rounded(*t, v),
{
    if t.rounding_enabled && (v.2 == 0 || t.rounding_mode == 1) {
        (v.0.wrapping_add(0x8000) & !0xffffi32, v.1.wrapping_add(0x8000) & !0xffffi32, v.2)
    } else {
        v
    }
}

impl Graph91ObjectState {
    /// The fixed position a member of `root` takes (see
    /// [`moved_fixed_position`]).
    fn moved_position(&self, k: i32, root: i32, v: (i32, i32, i32), fuel: usize) -> (r: (i32, i32, i32))
        requires
            self@.objects.contains_key(root),
            member_of(self@.objects, k, root, fuel as nat),
        ensures
            r == moved_fixed_position(self@.objects, k, root, v, fuel as nat),
        decreases fuel,
    {
        if k == root {
            let t = self.objects.get(&k).unwrap();
            return round_fixed(t, v);
        }
        let t = self.objects.get(&k).unwrap();
        let p = t.owner.unwrap();
        let np = self.moved_position(p, root, v, fuel - 1);
        let c = t.fixed_position;
        let o = self.objects.get(&p).unwrap().fixed_position;
        round_fixed(t, (np.0.wrapping_add(c.0.wrapping_sub(o.0)), np.1.wrapping_add(c.1.wrapping_sub(o.1)), np.2.wrapping_add(c.2.wrapping_sub(o.2))))
    }

    /// Moves a registered object's fixed position, and its members' (see
    /// [`fixed_position_call_spec`]).
    fn fixed_position_call(&mut self, root: i32, v: (i32, i32, i32)) -> (out: Option<Graph91ObjectRequest>)
        requires
            old(self).wf(),
        ensures
            final(self).wf(),
            (final(self)@, out) == fixed_position_call_spec(old(self)@, root, v),
    {
        if !self.objects.contains_key(&root) {
            return None;
        }
        let ghost m0 = self@.objects;
        let bound = self.object_count();
        let ghost target = Map::new(
            |k: i32| m0.contains_key(k),
            |k: i32| ObjectTransform { fixed_position: fixed_after_move(m0, k, root, v), ..m0[k] },
        );
        let mut news: Vec<(i32, i32, i32)> = Vec::new();
        let mut i: usize = 0;
        while i < self.handles.len()
            invariant
                0 <= i <= self.handles@.len(),
                self.wf(),
                self@.objects == m0,
                m0.contains_key(root),
                bound as nat == depth_bound(m0),
                news@.len() == i,
                forall|j: int| 0 <= j < i ==> #[trigger] news@[j] == fixed_after_move(m0, self.handles@[j], root, v),
            decreases self.handles@.len() - i,
        {
            let h = self.handles[i];
            assert(self.handles@.contains(h));
            let f = if self.is_member(h, root, bound) {
                self.moved_position(h, root, v, bound)
            } else {
                self.objects.get(&h).unwrap().fixed_position
            };
            news.push(f);
            i += 1;
        }
        let mut i: usize = 0;
        while i < self.handles.len()
            invariant
                0 <= i <= self.handles@.len(),
                self.wf(),
                self.handles@ == old(self).handles@,
                news@.len() == self.handles@.len(),
                forall|j: int| 0 <= j < news@.len() ==> #[trigger] news@[j] == fixed_after_move(m0, self.handles@[j], root, v),
                target == Map::new(
                    |k: i32| m0.contains_key(k),
                    |k: i32| ObjectTransform { fixed_position: fixed_after_move(m0, k, root, v), ..m0[k] },
                ),
                self@ == (Graph91ObjectModel { objects: self@.objects, ..old(self)@ }),
                self@.objects.dom() == m0.dom(),
                forall|j: int| 0 <= j < i ==> #[trigger] self@.objects[self.handles@[j]] == target[self.handles@[j]],
                forall|k: i32|
                    #[trigger] m0.contains_key(k) && !self.handles@.take(i as int).contains(k) ==> self@.objects[k]
                        == m0[k],
            decreases self.handles@.len() - i,
        {
            let h = self.handles[i];
            proof {
                assert(self.handles@.contains(h));
                assert(!self.handles@.take(i as int).contains(h)) by {
                    if self.handles@.take(i as int).contains(h) {
                        let j = choose|j: int| 0 <= j < i && self.handles@.take(i as int)[j] == h;
                        assert(self.handles@[j] == self.handles@[i as int]);
                    }
                }
            }
            let ghost before = self@.objects;
            let t = *self.objects.get(&h).unwrap();
            assert(t == m0[h]);
            self.objects.insert(h, ObjectTransform { fixed_position: news[i], ..t });
            proof {
                assert(target[h] == ObjectTransform { fixed_position: news@[i as int], ..t });
                assert(self@.objects.dom() =~= m0.dom());
                assert(self.handles@[i as int] == h);
                assert forall|j: int| 0 <= j < i + 1 implies #[trigger] self@.objects[self.handles@[j]]
                    == target[self.handles@[j]] by {
                    if j < i {
                        assert(self.handles@[j] != h);
                        assert(self@.objects[self.handles@[j]] == before[self.handles@[j]]);
                    }
                }
                assert forall|k: i32| #[trigger] m0.contains_key(k) && !self.handles@.take(i + 1).contains(k) implies self@.objects[k]
                    == m0[k] by {
                    if k == h {
                        assert(self.handles@.take(i + 1)[i as int] == h);
                    } else {
                        assert(!self.handles@.take(i as int).contains(k)) by {
                            if self.handles@.take(i as int).contains(k) {
                                let j = choose|j: int| 0 <= j < i && self.handles@.take(i as int)[j] == k;
                                assert(self.handles@.take(i + 1)[j] == k);
                            }
                        }
                    }
                }
            }
            i += 1;
        }
        proof {
            assert forall|k: i32| #[trigger] self@.objects.contains_key(k) implies self@.objects[k] == target[k] by {
                assert(self.handles@.contains(k));
                let j = choose|j: int| 0 <= j < self.handles@.len() && self.handles@[j] == k;
            }
            assert(self@.objects =~= target);
            assert(self@ =~= fixed_position_call_spec(old(self)@, root, v).0);
        }
        Some(Graph91ObjectRequest::FixedPositionMoved { object: root })
    }
}

impl Graph91ObjectState {
    /// Changes a multi-layer layer when the background is active and the
    /// layer one of the eight (see [`with_layer`]); reports whether it did.
    fn change_layer(&mut self, layer: i32, r: MultiLayerRecord) -> (changed: bool)
        requires
            old(self).wf(),
        ensures
            final(self).wf(),
            changed == (old(self)@.multilayer_active && 0 <= layer < 8),
            changed ==> final(self)@ == (Graph91ObjectModel { layers: old(self)@.layers.update(layer as int, r), ..old(self)@ }),
            !changed ==> final(self)@ == old(self)@,
    {
        if !self.multilayer_active || layer < 0 || layer >= 8 {
            return false;
        }
        self.layers.set(layer as usize, r);
        assert(self@ =~= Graph91ObjectModel { layers: old(self)@.layers.update(layer as int, r), ..old(self)@ });
        true
    }

    /// The current record of a layer (the first when out of range).
    fn layer_record(&self, layer: i32) -> (r: MultiLayerRecord)
        requires
            self.wf(),
        ensures
            0 <= layer < 8 ==> r == self@.layers[layer as int],
    {
        if 0 <= layer && layer < 8 {
            self.layers[layer as usize]
        } else {
            self.layers[0]
        }
    }

    /// Runs a multi-layer call on its integer arguments.
    #[verifier::rlimit(60)]
    fn multilayer_call(&mut self, id: u8, v: &Vec<i32>) -> (out: Option<Graph91ObjectRequest>)
        requires
            old(self).wf(),
            0x40 <= id <= 0x4A,
            v@.len() == object_state_arity(id)->0,
        ensures
            final(self).wf(),
            (final(self)@, out) == object_state_call_spec(old(self)@, id, v@),
    {
        if id == 0x40 {
            if !self.resources.contains(&v[2]) || v[6] == 0 || v[7] == 0 {
                return None;
            }
            let mut layers: Vec<MultiLayerRecord> = Vec::new();
            let mut i: usize = 0;
            while i < 8
                invariant
                    i <= 8,
                    layers@ == Seq::new(i as nat, |j: int| MultiLayerRecord::initial()),
                decreases 8 - i,
            {
                layers.push(MultiLayerRecord::new());
                i += 1;
                assert(layers@ =~= Seq::new(i as nat, |j: int| MultiLayerRecord::initial()));
            }
            let first = MultiLayerRecord {
                configured: true,
                enabled: true,
                bitmap: v[2],
                source_x: v[3],
                source_y: v[4],
                rotation: v[5],
                scale_x: v[6],
                scale_y: v[7],
                transparency: v[8],
                ..MultiLayerRecord::new()
            };
            layers.set(0, first);
            self.layers = layers;
            self.multilayer_active = true;
            self.multilayer_position = (v[0], v[1]);
            self.selected_layer = 0;
            return Some(Graph91ObjectRequest::PrepareMultilayer { x: v[0], y: v[1] });
        }
        if id == 0x41 {
            if 0 <= v[0] && v[0] < 8 && self.multilayer_active {
                self.selected_layer = v[0] as usize;
            }
            return None;
        }
        let layer = v[0];
        let r = self.layer_record(layer);
        let (updated, redraw) = if id == 0x42 {
            (MultiLayerRecord { enabled: v[1] != 0, ..r }, true)
        } else if id == 0x43 {
            (MultiLayerRecord { x_16_16: v[1], y_16_16: v[2], ..r }, true)
        } else if id == 0x44 {
            (MultiLayerRecord { blend_mode: v[1], ..r }, true)
        } else if id == 0x45 {
            if !(0 <= v[1] && v[1] <= 256) {
                return None;
            }
            (MultiLayerRecord { blend_parameter: v[1], ..r }, true)
        } else if id == 0x46 {
            if v[1] != -1 && !self.resources.contains(&v[1]) {
                return None;
            }
            (
                MultiLayerRecord {
                    configured: v[1] != -1,
                    bitmap: v[1],
                    bitmap_generation: if v[1] == -1 { 0 } else { 1 },
                    source_x: v[2],
                    source_y: v[3],
                    source_delta_x: 0,
                    source_delta_y: 0,
                    ..r
                },
                true,
            )
        } else if id == 0x47 {
            if v[2] == 0 || v[3] == 0 {
                return None;
            }
            (
                MultiLayerRecord {
                    rotation: v[1],
                    scale_x: v[2],
                    scale_y: v[3],
                    transparency: v[4],
                    rotation_delta: 0,
                    scale_delta_x: 0,
                    scale_delta_y: 0,
                    ..r
                },
                true,
            )
        } else if id == 0x48 {
            (MultiLayerRecord { auxiliary_a: v[1], auxiliary_b: v[2], ..r }, false)
        } else if id == 0x49 {
            (MultiLayerRecord { source_delta_x: v[1], source_delta_y: v[2], ..r }, false)
        } else {
            (MultiLayerRecord { rotation_delta: v[1], scale_delta_x: v[2], scale_delta_y: v[3], ..r }, false)
        };
        if self.change_layer(layer, updated) && redraw {
            Some(Graph91ObjectRequest::SyncLayer { layer })
        } else {
            None
        }
    }

    /// Runs an object call (`0x31`, `0x36`, `0x37`, `0x3E`, `0x3F`) on its
    /// integer arguments.
    #[verifier::rlimit(60)]
    fn object_call(&mut self, id: u8, v: &Vec<i32>) -> (out: Option<Graph91ObjectRequest>)
        requires
            old(self).wf(),
            id == 0x31 || id == 0x36 || id == 0x37 || id == 0x3E || id == 0x3F,
            v@.len() == object_state_arity(id)->0,
        ensures
            final(self).wf(),
            (final(self)@, out) == object_state_call_spec(old(self)@, id, v@),
    {
        let ghost m = self@;
        if id == 0x31 {
            match self.objects.get(&v[0]) {
                Some(t) => {
                    let t2 = ObjectTransform { suppressed: v[1] != 0, ..*t };
                    self.put_object(v[0], t2);
                    self.redraw_requested = Some(false);
                    assert(self@ =~= object_state_call_spec(m, id, v@).0);
                    None
                },
                None => None,
            }
        } else if id == 0x36 || id == 0x37 {
            if !self.objects.contains_key(&v[0]) {
                return None;
            }
            self.set_member_vectors(v[0], (v[1], v[2], v[3]), id == 0x36);
            Some(Graph91ObjectRequest::ResyncGeometry { object: v[0] })
        } else if id == 0x3E {
            let (master, slave, x, y) = (v[0], v[1], v[2], v[3]);
            if master == slave {
                return None;
            }
            let mt = match self.objects.get(&master) {
                Some(t) => *t,
                None => {
                    return None;
                },
            };
            let st = match self.objects.get(&slave) {
                Some(t) => *t,
                None => {
                    return None;
                },
            };
            if st.owner.is_some() {
                return None;
            }
            let fixed = mt.fixed_members && st.fixed_members;
            let s1 = ObjectTransform { owner: Some(master), attachment_offset: (x, y), ..st };
            let s2 = if fixed {
                ObjectTransform {
                    fixed_position: (
                        mt.fixed_position.0.wrapping_add(x),
                        mt.fixed_position.1.wrapping_add(y),
                        mt.fixed_position.2,
                    ),
                    ..s1
                }
            } else {
                ObjectTransform {
                    base_position: (mt.base_position.0.wrapping_add(x), mt.base_position.1.wrapping_add(y)),
                    ..s1
                }
            };
            self.put_object(slave, s2);
            Some(Graph91ObjectRequest::Attach { master, slave, x, y, fixed })
        } else {
            let (master, slave) = (v[0], v[1]);
            let st = match self.objects.get(&slave) {
                Some(t) => *t,
                None => {
                    return None;
                },
            };
            match st.owner {
                Some(o) => {
                    if o != master {
                        return None;
                    }
                },
                None => {
                    return None;
                },
            }
            self.put_object(slave, ObjectTransform { owner: None, attachment_offset: (0, 0), ..st });
            Some(Graph91ObjectRequest::Detach { master, slave })
        }
    }

    /// Runs an object or multi-layer background call of group `0x91`
    /// (`0x31`..`0x4A`): pops its integer arguments, changes the objects'
    /// transform state or the background's layers, and returns the work
    /// left to the host (see [`object_state_call_spec`]); `None` for another
    /// group or call. Moving the fixed position or setting a vector bank
    /// reaches every member; the object must not be one of its own members.
    pub fn dispatch_system91_31_4a(&mut self, group: u8, id: u8, args: &mut Vec<NativeValue>) -> (out: Option<
        (NativeValue, Option<Graph91ObjectRequest>),
    >)
        requires
            old(self).wf(),
            group == 0x91 ==> id != 0x38 && id != 0x3D,
            group == 0x91 && (id == 0x33 || id == 0x36 || id == 0x37) ==> match source_ints_spec(old(args)@, 4).1 {
                Some(v) => !in_member_cycle(old(self)@.objects, v[0]),
                None => true,
            },
        ensures
            final(self).wf(),
            match out {
                None => !(group == 0x91 && object_state_arity(id) is Some) && final(self)@ == old(self)@
                    && final(args)@ == old(args)@,
                Some((value, req)) => {
                    let n = object_state_arity(id)->0;
                    &&& group == 0x91 && object_state_arity(id) is Some
                    &&& value == NativeValue::Void
                    &&& final(args)@ == source_ints_spec(old(args)@, n).0
                    &&& match source_ints_spec(old(args)@, n).1 {
                        Some(v) => (final(self)@, req) == object_state_call_spec(old(self)@, id, v),
                        None => final(self)@ == old(self)@ && req is None,
                    }
                },
            },
    {
        if group != 0x91 {
            return None;
        }
        let n: usize = if id == 0x41 {
            1
        } else if id == 0x31 || id == 0x3F || id == 0x42 || id == 0x44 || id == 0x45 {
            2
        } else if id == 0x43 || id == 0x48 || id == 0x49 {
            3
        } else if id == 0x33 || id == 0x36 || id == 0x37 || id == 0x3E || id == 0x46 || id == 0x4A {
            4
        } else if id == 0x47 {
            5
        } else if id == 0x40 {
            9
        } else {
            return None;
        };
        let values = pop_source_ints(args, n);
        match values {
            None => Some((NativeValue::Void, None)),
            Some(v) => {
                let req = if 0x40 <= id && id <= 0x4A {
                    self.multilayer_call(id, &v)
                } else if id == 0x33 {
                    self.fixed_position_call(v[0], (v[1], v[2], v[3]))
                } else {
                    self.object_call(id, &v)
                };
                Some((NativeValue::Void, req))
            },
        }
    }
}

} // verus!
