use vstd::prelude::*;
use crate::native_call::{pop_source_ints, source_ints_spec, NativeValue};
use crate::native_graph_sys91::{
    bitmap_matches, cell_index_spec, copy_cell_image_post, copy_part_post, first_free_tagged, graph91_wf,
    in_tag_range, landscape_wf, new_landscape, set_cell_column_post, Graph91EffectorState, Graph91LandscapeCell,
    Graph91Model, LandscapeModel, GRAPH91_EFFECTOR_SLOTS, GRAPH91_EFFECTOR_TAG, GRAPH91_LANDSCAPE_SLOTS,
    GRAPH91_LANDSCAPE_TAG,
};
use crate::runtime::RuntimeTraceApi;

verus! {

broadcast use vstd::std_specs::hash::group_hash_axioms;

/// Work an effector or landscape call leaves to the host, whose display
/// objects and sprites live outside this state.
#[derive(Debug, Clone, Copy, PartialEq, Eq, Structural)]
pub enum Graph91Request {
    /// Link a sprite to another; the host's status is the call's result.
    SpriteRelation { sprite: i32, linked: i32 },
    /// Show or hide the display object of an effector or landscape.
    ObjectEnabled { handle: i32, enabled: bool },
    /// Give a landscape's display object a new priority and sort key.
    ObjectPriority { handle: i32, priority: i32 },
}

/// What [`RuntimeTraceApi::graph91_create_effector`] promises.
pub open spec fn create_effector_post(m: Graph91Model, m2: Graph91Model, h: i32) -> bool {
    &&& h == first_free_tagged(m.effectors.dom(), GRAPH91_EFFECTOR_TAG, 0, GRAPH91_EFFECTOR_SLOTS)
    &&& h == 0 ==> m2 == m
    &&& h != 0 ==> m2 == (Graph91Model { effectors: m.effectors.insert(h, m2.effectors[h]), ..m })
        && m2.effectors[h].is_initial()
}

/// What [`RuntimeTraceApi::graph91_release_effector`] promises.
pub open spec fn release_effector_post(m: Graph91Model, m2: Graph91Model, handle: i32) -> bool {
    if in_tag_range(handle, GRAPH91_EFFECTOR_TAG, GRAPH91_EFFECTOR_SLOTS) && m.effectors.contains_key(handle) {
        m2 == (Graph91Model { effectors: m.effectors.remove(handle), ..m })
    } else {
        m2 == m
    }
}

/// What [`RuntimeTraceApi::graph91_configure_effector`] promises.
pub open spec fn configure_effector_post(
    m: Graph91Model,
    m2: Graph91Model,
    handle: i32,
    mode: i32,
    maps: [i32; 2],
    parameters: [i32; 9],
    priority: i32,
) -> bool {
    let required = if mode == 2 {
        6i32
    } else {
        4i32
    };
    if m.effectors.contains_key(handle) && bitmap_matches(m, maps[0], required) && bitmap_matches(m, maps[1], 4) {
        let e = m.effectors[handle];
        m2 == (Graph91Model {
            effectors: m.effectors.insert(
                handle,
                Graph91EffectorState {
                    mode,
                    vector_maps: maps,
                    parameters,
                    priority: if 0 <= priority < 0x1_0000 {
                        priority
                    } else {
                        e.priority
                    },
                    ..e
                },
            ),
            ..m
        })
    } else {
        m2 == m
    }
}

/// What [`RuntimeTraceApi::graph91_create_landscape`] promises.
pub open spec fn create_landscape_post(m: Graph91Model, m2: Graph91Model, h: i32, v: Seq<i32>) -> bool {
    &&& h == first_free_tagged(m.landscapes.dom(), GRAPH91_LANDSCAPE_TAG, 0, GRAPH91_LANDSCAPE_SLOTS)
    &&& h == 0 ==> m2 == m
    &&& h != 0 ==> m2 == (Graph91Model {
        landscapes: m.landscapes.insert(h, new_landscape(v[0], v[1], v[2], v[3], v[4], v[5])),
        ..m
    })
}

/// What [`RuntimeTraceApi::graph91_release_landscape`] promises.
pub open spec fn release_landscape_post(m: Graph91Model, m2: Graph91Model, handle: i32) -> bool {
    if in_tag_range(handle, GRAPH91_LANDSCAPE_TAG, GRAPH91_LANDSCAPE_SLOTS) && m.landscapes.contains_key(handle) {
        m2 == (Graph91Model { landscapes: m.landscapes.remove(handle), ..m })
    } else {
        m2 == m
    }
}

/// The calls of group `0x91` this state answers, with the number of integer
/// arguments each takes.
pub open spec fn object_call_arity(id: u8) -> Option<nat> {
    if id == 0x60 {
        Some(0)
    } else if id == 0x61 || id == 0x71 {
        Some(1)
    } else if id == 0x55 || id == 0x64 || id == 0x74 {
        Some(2)
    } else if id == 0x69 || id == 0x7C {
        Some(3)
    } else if id == 0x66 || id == 0x7D || id == 0x7F {
        Some(4)
    } else if id == 0x65 || id == 0x67 || id == 0x70 || id == 0x75 || id == 0x76 {
        Some(6)
    } else if id == 0x68 {
        Some(9)
    } else {
        None
    }
}

/// The calls of the group that the script machine answers itself (they
/// write through pointers the script passed).
pub open spec fn machine_owned_object_call(id: u8) -> bool {
    id == 0x73 || (0x78 <= id <= 0x7B) || id == 0x7E
}

/// An effector or landscape call (group `0x91`, `0x55`..`0x7F`) with its
/// integer arguments `v` (none when the stack held too few): the state
/// after it, its result and the work left to the host.
pub open spec fn object_call_post(
    m: Graph91Model,
    m2: Graph91Model,
    id: u8,
    s: Option<Seq<i32>>,
    value: NativeValue,
    req: Option<Graph91Request>,
) -> bool {
    if id == 0x60 {
        value matches NativeValue::Int(h) && create_effector_post(m, m2, h) && req is None
    } else if id == 0x70 {
        match s {
            Some(v) => value matches NativeValue::Int(h) && create_landscape_post(m, m2, h, v) && req is None,
            None => m2 == m && value == NativeValue::Int(0) && req is None,
        }
    } else if id == 0x7F {
        match s {
            Some(v) => (value == NativeValue::Int(1) || value == NativeValue::Int(0)) && copy_cell_image_post(
                m,
                m2,
                value == NativeValue::Int(1),
                v[0],
                v[1],
                v[2],
                v[3],
            ) && req is None,
            None => m2 == m && value == NativeValue::Int(0) && req is None,
        }
    } else if id == 0x55 {
        match s {
            Some(v) => m2 == m && value == NativeValue::Void && req == Some(
                Graph91Request::SpriteRelation { sprite: v[0], linked: v[1] },
            ),
            None => m2 == m && value == NativeValue::Int(255) && req is None,
        }
    } else {
        value == NativeValue::Void && match s {
            None => m2 == m && req is None,
            Some(v) => if id == 0x61 {
                release_effector_post(m, m2, v[0]) && req is None
            } else if id == 0x71 {
                release_landscape_post(m, m2, v[0]) && req is None
            } else if id == 0x64 {
                if m.effectors.contains_key(v[0]) {
                    m2 == (Graph91Model {
                        effectors: m.effectors.insert(
                            v[0],
                            Graph91EffectorState { enabled: v[1] != 0, ..m.effectors[v[0]] },
                        ),
                        ..m
                    }) && req == Some(Graph91Request::ObjectEnabled { handle: v[0], enabled: v[1] != 0 })
                } else {
                    m2 == m && req is None
                }
            } else if id == 0x74 {
                if m.landscapes.contains_key(v[0]) {
                    m2 == (Graph91Model {
                        landscapes: m.landscapes.insert(
                            v[0],
                            LandscapeModel { enabled: v[1] != 0, ..m.landscapes[v[0]] },
                        ),
                        ..m
                    }) && req == Some(Graph91Request::ObjectEnabled { handle: v[0], enabled: v[1] != 0 })
                } else {
                    m2 == m && req is None
                }
            } else if id == 0x75 {
                if 0 <= v[5] < 0x1_0000 && m.landscapes.contains_key(v[0]) {
                    m2 == (Graph91Model {
                        landscapes: m.landscapes.insert(
                            v[0],
                            LandscapeModel {
                                x: v[1],
                                y: v[2],
                                blend_mode: v[3],
                                alpha: v[4],
                                priority: v[5],
                                ..m.landscapes[v[0]]
                            },
                        ),
                        ..m
                    }) && req == Some(Graph91Request::ObjectPriority { handle: v[0], priority: v[5] })
                } else {
                    m2 == m && req is None
                }
            } else if id == 0x76 {
                req is None && if 0 <= v[3] <= 2 && 0 <= v[4] <= 256 && m.landscapes.contains_key(v[0])
                    && cell_index_spec(m.landscapes[v[0]], v[1], v[2]) is Some {
                    let l = m.landscapes[v[0]];
                    let i = cell_index_spec(l, v[1], v[2])->0;
                    m2 == (Graph91Model {
                        landscapes: m.landscapes.insert(
                            v[0],
                            LandscapeModel {
                                cells: l.cells.update(
                                    i,
                                    Graph91LandscapeCell {
                                        silhouette_type: v[3],
                                        silhouette_level: v[4],
                                        silhouette_value: v[5],
                                        ..l.cells[i]
                                    },
                                ),
                                ..l
                            },
                        ),
                        ..m
                    })
                } else {
                    m2 == m
                }
            } else if id == 0x7C {
                req is None && (copy_part_post(m, m2, true, v[0], v[1], v[2]) || copy_part_post(
                    m,
                    m2,
                    false,
                    v[0],
                    v[1],
                    v[2],
                ))
            } else if id == 0x7D {
                req is None && (set_cell_column_post(m, m2, true, v[0], v[1], v[2], v[3]) || set_cell_column_post(
                    m,
                    m2,
                    false,
                    v[0],
                    v[1],
                    v[2],
                    v[3],
                ))
            } else if id == 0x65 {
                req is None && configure_effector_post(
                    m,
                    m2,
                    v[0],
                    0,
                    [v[1], v[2]],
                    [v[3], v[4], 0, 0, 0, 0, 0, 0, 0],
                    v[5],
                )
            } else if id == 0x66 {
                req is None && if 0 <= v[1] <= 1 {
                    configure_effector_post(m, m2, v[0], 1, [-1i32, -1i32], [v[1], v[2], 0, 0, 0, 0, 0, 0, 0], v[3])
                } else {
                    m2 == m
                }
            } else if id == 0x67 {
                req is None && if v[2] != 0 {
                    configure_effector_post(m, m2, v[0], 2, [v[1], -1i32], [v[2], v[3], v[4], 0, 0, 0, 0, 0, 0], v[5])
                } else {
                    m2 == m
                }
            } else if id == 0x68 {
                req is None && if v[4] != 0 && v[5] != 0 {
                    configure_effector_post(
                        m,
                        m2,
                        v[0],
                        3,
                        [-1i32, -1i32],
                        [v[1], v[2], v[3], v[4], v[5], v[6], v[7], 0, 0],
                        v[8],
                    )
                } else {
                    m2 == m
                }
            } else {
                req is None && configure_effector_post(
                    m,
                    m2,
                    v[0],
                    4,
                    [-1i32, -1i32],
                    [v[1], 0, 0, 0, 0, 0, 0, 0, 0],
                    v[2],
                )
            },
        }
    }
}

impl RuntimeTraceApi {
    /// Runs an effector call with its integer arguments.
    #[verifier::rlimit(60)]
    fn effector_call(&mut self, id: u8, v: &Vec<i32>) -> (out: (NativeValue, Option<Graph91Request>))
        requires
            graph91_wf(old(self).graph91@),
            id == 0x55 || id == 0x61 || id == 0x64 || id == 0x65 || id == 0x66 || id == 0x67 || id == 0x68 || id
                == 0x69,
            v@.len() == object_call_arity(id)->0,
        ensures
            final(self).same_outside_graph91(*old(self)),
            graph91_wf(final(self).graph91@),
            object_call_post(old(self).graph91@, final(self).graph91@, id, Some(v@), out.0, out.1),
    {
        let ghost m = self.graph91@;
        if id == 0x55 {
            (NativeValue::Void, Some(Graph91Request::SpriteRelation { sprite: v[0], linked: v[1] }))
        } else if id == 0x61 {
            let _ = self.graph91_release_effector(v[0]);
            (NativeValue::Void, None)
        } else if id == 0x64 {
            let handle = v[0];
            let enabled = v[1] != 0;
            match self.graph91.effectors.get(&handle) {
                Some(e) => {
                    let updated = Graph91EffectorState { enabled, ..*e };
                    self.graph91.effectors.insert(handle, updated);
                    assert(self.graph91@ =~= Graph91Model {
                        effectors: m.effectors.insert(handle, updated),
                        ..m
                    });
                    (NativeValue::Void, Some(Graph91Request::ObjectEnabled { handle, enabled }))
                },
                None => (NativeValue::Void, None),
            }
        } else if id == 0x65 {
            self.graph91_configure_effector(v[0], 0, [v[1], v[2]], [v[3], v[4], 0, 0, 0, 0, 0, 0, 0], v[5]);
            (NativeValue::Void, None)
        } else if id == 0x66 {
            if 0 <= v[1] && v[1] <= 1 {
                self.graph91_configure_effector(v[0], 1, [-1, -1], [v[1], v[2], 0, 0, 0, 0, 0, 0, 0], v[3]);
            }
            (NativeValue::Void, None)
        } else if id == 0x67 {
            if v[2] != 0 {
                self.graph91_configure_effector(v[0], 2, [v[1], -1], [v[2], v[3], v[4], 0, 0, 0, 0, 0, 0], v[5]);
            }
            (NativeValue::Void, None)
        } else if id == 0x68 {
            if v[4] != 0 && v[5] != 0 {
                self.graph91_configure_effector(
                    v[0],
                    3,
                    [-1, -1],
                    [v[1], v[2], v[3], v[4], v[5], v[6], v[7], 0, 0],
                    v[8],
                );
            }
            (NativeValue::Void, None)
        } else {
            self.graph91_configure_effector(v[0], 4, [-1, -1], [v[1], 0, 0, 0, 0, 0, 0, 0, 0], v[2]);
            (NativeValue::Void, None)
        }
    }

    /// Runs a landscape call with its integer arguments.
    #[verifier::rlimit(60)]
    fn landscape_call(&mut self, id: u8, v: &Vec<i32>) -> (out: (NativeValue, Option<Graph91Request>))
        requires
            graph91_wf(old(self).graph91@),
            id == 0x70 || id == 0x71 || id == 0x74 || id == 0x75 || id == 0x76 || id == 0x7C || id == 0x7D || id
                == 0x7F,
            v@.len() == object_call_arity(id)->0,
        ensures
            final(self).same_outside_graph91(*old(self)),
            graph91_wf(final(self).graph91@),
            object_call_post(old(self).graph91@, final(self).graph91@, id, Some(v@), out.0, out.1),
    {
        let ghost m = self.graph91@;
        if id == 0x70 {
            let h = self.graph91_create_landscape(v[0], v[1], v[2], v[3], v[4], v[5]);
            (NativeValue::Int(h), None)
        } else if id == 0x71 {
            let _ = self.graph91_release_landscape(v[0]);
            (NativeValue::Void, None)
        } else if id == 0x7C {
            let _ = self.graph91_copy_landscape_part(v[0], v[1], v[2]);
            (NativeValue::Void, None)
        } else if id == 0x7D {
            let _ = self.graph91_set_landscape_cell_column(v[0], v[1], v[2], v[3]);
            (NativeValue::Void, None)
        } else if id == 0x7F {
            let copied = self.graph91_copy_landscape_cell_image(v[0], v[1], v[2], v[3]);
            (NativeValue::Int(if copied { 1 } else { 0 }), None)
        } else {
            let handle = v[0];
            if id == 0x75 && !(0 <= v[5] && v[5] < 0x1_0000) {
                return (NativeValue::Void, None);
            }
            if id == 0x76 && !(0 <= v[3] && v[3] <= 2 && 0 <= v[4] && v[4] <= 256) {
                return (NativeValue::Void, None);
            }
            let mut l = match self.graph91.landscapes.remove(&handle) {
                Some(l) => l,
                None => {
                    assert(self.graph91@ =~= m);
                    return (NativeValue::Void, None);
                },
            };
            let ghost lm = l@;
            assert(m.landscapes.contains_key(handle));
            assert(lm == m.landscapes[handle]);
            assert(landscape_wf(lm));
            let req = if id == 0x74 {
                l.enabled = v[1] != 0;
                assert(l@ =~= LandscapeModel { enabled: v[1] != 0, ..lm });
                Some(Graph91Request::ObjectEnabled { handle, enabled: v[1] != 0 })
            } else if id == 0x75 {
                l.x = v[1];
                l.y = v[2];
                l.blend_mode = v[3];
                l.alpha = v[4];
                l.priority = v[5];
                assert(l@ =~= LandscapeModel {
                    x: v[1],
                    y: v[2],
                    blend_mode: v[3],
                    alpha: v[4],
                    priority: v[5],
                    ..lm
                });
                Some(Graph91Request::ObjectPriority { handle, priority: v[5] })
            } else {
                match l.cell_index(v[1], v[2]) {
                    Some(i) => {
                        let mut cell = l.cells[i];
                        cell.silhouette_type = v[3];
                        cell.silhouette_level = v[4];
                        cell.silhouette_value = v[5];
                        l.cells.set(i, cell);
                        assert(l@ =~= LandscapeModel {
                            cells: lm.cells.update(
                                i as int,
                                Graph91LandscapeCell {
                                    silhouette_type: v[3],
                                    silhouette_level: v[4],
                                    silhouette_value: v[5],
                                    ..lm.cells[i as int]
                                },
                            ),
                            ..lm
                        });
                    },
                    None => {
                        assert(l@ == lm);
                    },
                }
                None
            };
            self.graph91.landscapes.insert(handle, l);
            assert(self.graph91@ =~= Graph91Model { landscapes: m.landscapes.insert(handle, l@), ..m });
            proof {
                if id == 0x76 && cell_index_spec(lm, v[1], v[2]) is None {
                    assert(m.landscapes.insert(handle, l@) =~= m.landscapes);
                }
            }
            (NativeValue::Void, req)
        }
    }

    /// Runs an effector or landscape call of group `0x91` (`0x55`..`0x7F`):
    /// pops its integer arguments, changes the effectors and landscapes, and
    /// returns the call's result with the work left to the host (see
    /// [`object_call_post`]); `None` for another group or call. The calls
    /// that write through script pointers are the script machine's and are
    /// not taken here.
    pub fn dispatch_system91_55_7f(&mut self, group: u8, id: u8, args: &mut Vec<NativeValue>) -> (out: Option<
        (NativeValue, Option<Graph91Request>),
    >)
        requires
            graph91_wf(old(self).graph91@),
            group == 0x91 ==> !machine_owned_object_call(id),
        ensures
            final(self).same_outside_graph91(*old(self)),
            graph91_wf(final(self).graph91@),
            match out {
                None => !(group == 0x91 && object_call_arity(id) is Some) && final(self).graph91@ == old(
                    self,
                ).graph91@ && final(args)@ == old(args)@,
                Some((v, r)) => group == 0x91 && object_call_arity(id) is Some && final(args)@ == source_ints_spec(
                    old(args)@,
                    object_call_arity(id)->0,
                ).0 && object_call_post(
                    old(self).graph91@,
                    final(self).graph91@,
                    id,
                    source_ints_spec(old(args)@, object_call_arity(id)->0).1,
                    v,
                    r,
                ),
            },
    {
        if group != 0x91 {
            return None;
        }
        let n: usize = if id == 0x60 {
            0
        } else if id == 0x61 || id == 0x71 {
            1
        } else if id == 0x55 || id == 0x64 || id == 0x74 {
            2
        } else if id == 0x69 || id == 0x7C {
            3
        } else if id == 0x66 || id == 0x7D || id == 0x7F {
            4
        } else if id == 0x65 || id == 0x67 || id == 0x70 || id == 0x75 || id == 0x76 {
            6
        } else if id == 0x68 {
            9
        } else {
            return None;
        };
        let values = pop_source_ints(args, n);
        if id == 0x60 {
            let h = self.graph91_create_effector();
            return Some((NativeValue::Int(h), None));
        }
        match values {
            None => {
                let value = if id == 0x70 || id == 0x7F {
                    NativeValue::Int(0)
                } else if id == 0x55 {
                    NativeValue::Int(255)
                } else {
                    NativeValue::Void
                };
                Some((value, None))
            },
            Some(v) => {
                if id == 0x70 || id == 0x71 || id == 0x74 || id == 0x75 || id == 0x76 || id == 0x7C || id == 0x7D
                    || id == 0x7F {
                    Some(self.landscape_call(id, &v))
                } else {
                    Some(self.effector_call(id, &v))
                }
            },
        }
    }
}

} // verus!
