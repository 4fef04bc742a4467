use vstd::prelude::*;
use std::collections::HashMap;

verus! {

broadcast use vstd::std_specs::hash::group_hash_axioms;

/// A registered bitmap as the background logic reads it: its generation,
/// its target format (`None` reads as format 2), whether an image has been
/// made for it to draw from, and whether some pixel of that image has an
/// alpha byte below 0xFF.
#[derive(Debug, Clone, Copy, PartialEq, Eq, Structural)]
pub struct BackfBitmap {
    pub generation: u32,
    pub format: Option<i32>,
    pub has_image: bool,
    pub partial_alpha: bool,
}

/// What a background's secondary handle is bound to: a sentinel handle
/// (`0x7000` black, `0x7001` white, `0x7FFF` or -1 none) or a registered
/// bitmap with its generation.
#[derive(Debug, Clone, Copy, PartialEq, Eq, Structural)]
pub enum SecondaryBinding {
    Sentinel(i32),
    Bitmap { handle: i32, generation: u32 },
}

/// A background object's state: its native priority, the format resource,
/// whether it has background and BackF subclass state, and the bindings
/// and offsets those hold, its display depth and which of the two layers it
/// owns (its own, and the shared secondary one).
#[derive(Debug, Clone, Copy)]
pub struct BackfObject {
    pub priority: u32,
    pub format_resource: Option<i32>,
    pub has_background: bool,
    pub has_backf: bool,
    pub primary_offset: (i32, i32),
    pub resource_binding: Option<(i32, u32)>,
    pub secondary_binding: Option<SecondaryBinding>,
    pub secondary_offset: (i32, i32),
    pub mask_binding: Option<(i32, u32)>,
    pub mask_parameter: i32,
    pub transparency: i32,
    pub depth: i32,
    pub owns_primary_layer: bool,
    pub owns_secondary_layer: bool,
}

/// Where a layer's pixels come from: a bitmap's image; that image made
/// opaque; that image with its alpha cleared; the primary weighted by a
/// mask bitmap; the primary faded toward black or white by the object's
/// transparency; or a solid black or white screen. The host makes the
/// pixels of each.
#[derive(Debug, Clone, Copy, PartialEq, Eq, Structural)]
pub enum LayerSource {
    Bitmap(i32),
    OpaqueView(i32),
    AlphaCleared(i32),
    Masked { bitmap: i32, mask: i32 },
    Faded { bitmap: i32, white: bool, transparency: i32 },
    Solid { white: bool },
}

/// A drawn layer: the object it belongs to, its source, the source offset
/// it is drawn at (the layer sits at minus this offset) and its depth.
#[derive(Debug, Clone, Copy)]
pub struct BackfLayer {
    pub owner: i32,
    pub source: LayerSource,
    pub offset: (i32, i32),
    pub z: i32,
}

/// The bitmaps, background objects and layers the BackF synchronisation
/// reads and writes; the secondary layer has one id for every object.
pub struct BackfState {
    pub bitmaps: HashMap<i32, BackfBitmap>,
    pub objects: HashMap<i32, BackfObject>,
    pub layers: HashMap<i32, BackfLayer>,
    pub secondary_layer_id: i32,
}

#[verifier::ext_equal]
pub struct BackfModel {
    pub bitmaps: Map<i32, BackfBitmap>,
    pub objects: Map<i32, BackfObject>,
    pub layers: Map<i32, BackfLayer>,
    pub secondary_layer_id: i32,
}

impl View for BackfState {
    type V = BackfModel;

    open spec fn view(&self) -> BackfModel {
        BackfModel {
            bitmaps: self.bitmaps@,
            objects: self.objects@,
            layers: self.layers@,
            secondary_layer_id: self.secondary_layer_id,
        }
    }
}

/// Why a BackF synchronisation stopped. Those after the bindings were
/// committed leave them committed; after a mask error the host redraws the
/// primary layer from the committed binding.
#[derive(Debug, Clone, Copy, PartialEq, Eq, Structural)]
pub enum BackfSyncError {
    PrimaryNotRegistered(i32),
    SecondaryNotRegistered(i32),
    NoBackgroundState,
    NoBackfState,
    MaskNotRegistered(i32),
    MaskFormat { mask: i32, format: i32 },
}

/// Whether a secondary handle is a sentinel rather than a bitmap.
pub open spec fn is_secondary_sentinel(secondary: i32) -> bool {
    secondary == 0x7000 || secondary == 0x7001 || secondary == 0x7FFF || secondary == -1
}

/// The layer map after one layer id is set to `layer`, or removed.
pub open spec fn put_layer(layers: Map<i32, BackfLayer>, id: i32, layer: Option<BackfLayer>) -> Map<i32, BackfLayer> {
    match layer {
        Some(l) => layers.insert(id, l),
        None => layers.remove(id),
    }
}

/// The source of a secondary layer drawn from a bitmap: an opaque view of a
/// format-1 bitmap some of whose pixels are not opaque, the bitmap itself
/// otherwise.
pub open spec fn secondary_source(bitmaps: Map<i32, BackfBitmap>, secondary: i32) -> LayerSource {
    if bitmaps[secondary].format == Some(1i32) && bitmaps[secondary].partial_alpha {
        LayerSource::OpaqueView(secondary)
    } else {
        LayerSource::Bitmap(secondary)
    }
}

/// A bitmap's target format, 2 when none is recorded.
pub open spec fn format_or_two(bitmaps: Map<i32, BackfBitmap>, h: i32) -> i32 {
    if bitmaps.contains_key(h) {
        match bitmaps[h].format {
            Some(f) => f,
            None => 2,
        }
    } else {
        2
    }
}

/// The derived view a BackF primary is drawn from, `None` for the bitmap
/// itself: with a mask, a format-1 primary is weighted by the mask and any
/// other has its alpha cleared; with a sentinel secondary, a format-1
/// primary fades toward white (`0x7001`) or black (`0x7000`, or any
/// sentinel while the object is transparent); with a bitmap secondary that
/// is not format 1, a format-1 primary with non-opaque pixels is made
/// opaque.
pub open spec fn backf_primary_view(m: BackfModel, o: BackfObject, primary: i32) -> Option<LayerSource> {
    let primary_format = format_or_two(m.bitmaps, primary);
    match o.mask_binding {
        Some((mask, _)) => if primary_format != 1 {
            Some(LayerSource::AlphaCleared(primary))
        } else {
            Some(LayerSource::Masked { bitmap: primary, mask })
        },
        None => match o.secondary_binding {
            Some(SecondaryBinding::Sentinel(sentinel)) => {
                let white = sentinel == 0x7001;
                if primary_format == 1 && (white || sentinel == 0x7000 || o.transparency != 0) {
                    Some(LayerSource::Faded { bitmap: primary, white, transparency: o.transparency })
                } else {
                    None
                }
            },
            other => {
                let secondary_format = match other {
                    Some(SecondaryBinding::Bitmap { handle, .. }) => format_or_two(m.bitmaps, handle),
                    _ => 2,
                };
                if primary_format == 1 && secondary_format != 1 && m.bitmaps[primary].partial_alpha {
                    Some(LayerSource::OpaqueView(primary))
                } else {
                    None
                }
            },
        },
    }
}

/// The model with an object's own layer removed, and no longer owned.
pub open spec fn drop_primary_layer(m: BackfModel, object: i32, o: BackfObject) -> BackfModel {
    BackfModel {
        layers: m.layers.remove(object),
        objects: m.objects.insert(object, BackfObject { owns_primary_layer: false, ..o }),
        ..m
    }
}

/// Redraws a BackF object's primary layer from its committed bindings (see
/// [`backf_primary_view`]): nothing for an unknown object, one without
/// background state or without a bound primary; an error when its BackF
/// state is gone; the layer dropped when the primary, or a mask a format-1
/// primary needs, has no image; otherwise an existing layer takes the view.
pub open spec fn refresh_backf_primary_spec(m: BackfModel, object: i32) -> (BackfModel, Result<(), BackfSyncError>) {
    if !m.objects.contains_key(object) || !m.objects[object].has_background {
        (m, Ok(()))
    } else if !m.objects[object].has_backf {
        (m, Err(BackfSyncError::NoBackfState))
    } else {
        let o = m.objects[object];
        match o.resource_binding {
            None => (m, Ok(())),
            Some((primary, _)) => if !m.bitmaps.contains_key(primary) || !m.bitmaps[primary].has_image {
                (drop_primary_layer(m, object, o), Ok(()))
            } else {
                let needs_mask_image = match o.mask_binding {
                    Some((mask, _)) => format_or_two(m.bitmaps, primary) == 1 && !(m.bitmaps.contains_key(mask)
                        && m.bitmaps[mask].has_image),
                    None => false,
                };
                if needs_mask_image {
                    (drop_primary_layer(m, object, o), Ok(()))
                } else if m.layers.contains_key(object) {
                    let source = match backf_primary_view(m, o, primary) {
                        Some(v) => v,
                        None => LayerSource::Bitmap(primary),
                    };
                    (BackfModel { layers: m.layers.insert(object, BackfLayer { source, ..m.layers[object] }), ..m }, Ok(()))
                } else {
                    (m, Ok(()))
                }
            },
        }
    }
}

/// Binds a background object to a primary bitmap, a secondary bitmap or
/// sentinel, and a mask, in the order the engine does, and rebuilds the
/// object's layers: the primary layer when the primary has an image, the
/// shared secondary layer from the secondary's image or a black or white
/// sentinel. Each check that fails stops there; what was committed before
/// it stays.
pub open spec fn backf_sync_spec(
    m: BackfModel,
    object: i32,
    primary_x: i32,
    primary_y: i32,
    primary: i32,
    secondary_x: i32,
    secondary_y: i32,
    secondary: i32,
    mask: i32,
    mask_parameter: i32,
) -> (BackfModel, Result<(), BackfSyncError>) {
    if !m.bitmaps.contains_key(primary) {
        (m, Err(BackfSyncError::PrimaryNotRegistered(primary)))
    } else if !is_secondary_sentinel(secondary) && !m.bitmaps.contains_key(secondary) {
        (m, Err(BackfSyncError::SecondaryNotRegistered(secondary)))
    } else {
        let p = m.bitmaps[primary];
        let binding = if is_secondary_sentinel(secondary) {
            SecondaryBinding::Sentinel(secondary)
        } else {
            SecondaryBinding::Bitmap { handle: secondary, generation: m.bitmaps[secondary].generation }
        };
        let secondary_image = !is_secondary_sentinel(secondary) && m.bitmaps[secondary].has_image;
        let o0 = m.objects[object];
        let z = o0.priority as i32;
        let o1 = BackfObject { format_resource: Some(primary), ..o0 };
        if !o1.has_background {
            (BackfModel { objects: m.objects.insert(object, o1), ..m }, Err(BackfSyncError::NoBackgroundState))
        } else {
            let o2 = BackfObject {
                primary_offset: (primary_x, primary_y),
                resource_binding: Some((primary, p.generation)),
                secondary_binding: Some(binding),
                ..o1
            };
            if !o2.has_backf {
                (BackfModel { objects: m.objects.insert(object, o2), ..m }, Err(BackfSyncError::NoBackfState))
            } else {
                let sid = m.secondary_layer_id;
                let primary_layer = if p.has_image {
                    Some(BackfLayer { owner: object, source: LayerSource::Bitmap(primary), offset: (primary_x, primary_y), z })
                } else {
                    None
                };
                let secondary_layer = if secondary_image {
                    Some(
                        BackfLayer {
                            owner: object,
                            source: secondary_source(m.bitmaps, secondary),
                            offset: (secondary_x, secondary_y),
                            z,
                        },
                    )
                } else if secondary == 0x7000 || secondary == 0x7001 {
                    Some(BackfLayer { owner: object, source: LayerSource::Solid { white: secondary == 0x7001 }, offset: (0, 0), z })
                } else {
                    None
                };
                let layers = put_layer(put_layer(m.layers, object, primary_layer), sid, secondary_layer);
                let o3 = BackfObject {
                    secondary_offset: (secondary_x, secondary_y),
                    depth: z,
                    owns_primary_layer: p.has_image,
                    owns_secondary_layer: secondary_layer is Some,
                    ..o2
                };
                let staged = BackfModel { objects: m.objects.insert(object, o3), layers, ..m };
                if mask == -1 {
                    (
                        BackfModel { objects: m.objects.insert(object, BackfObject { mask_binding: None, ..o3 }), ..staged },
                        Ok(()),
                    )
                } else if !m.bitmaps.contains_key(mask) {
                    (refresh_backf_primary_spec(staged, object).0, Err(BackfSyncError::MaskNotRegistered(mask)))
                } else {
                    let format = match m.bitmaps[mask].format {
                        Some(f) => f,
                        None => 2,
                    };
                    if format != 3 {
                        (refresh_backf_primary_spec(staged, object).0, Err(BackfSyncError::MaskFormat { mask, format }))
                    } else {
                        (
                            BackfModel {
                                objects: m.objects.insert(
                                    object,
                                    BackfObject {
                                        mask_binding: Some((mask, m.bitmaps[mask].generation)),
                                        mask_parameter,
                                        ..o3
                                    },
                                ),
                                ..staged
                            },
                            Ok(()),
                        )
                    }
                }
            }
        }
    }
}

/// Synchronising a background twice with the same arguments ends where
/// synchronising once does, with the same outcome.
pub proof fn law_backf_sync_is_idempotent(
    m: BackfModel,
    object: i32,
    primary_x: i32,
    primary_y: i32,
    primary: i32,
    secondary_x: i32,
    secondary_y: i32,
    secondary: i32,
    mask: i32,
    mask_parameter: i32,
)
    requires
        m.objects.contains_key(object),
    ensures
        ({
            let once = backf_sync_spec(
                m,
                object,
                primary_x,
                primary_y,
                primary,
                secondary_x,
                secondary_y,
                secondary,
                mask,
                mask_parameter,
            );
            backf_sync_spec(
                once.0,
                object,
                primary_x,
                primary_y,
                primary,
                secondary_x,
                secondary_y,
                secondary,
                mask,
                mask_parameter,
            ) == once
        }),
{
    let once = backf_sync_spec(
        m,
        object,
        primary_x,
        primary_y,
        primary,
        secondary_x,
        secondary_y,
        secondary,
        mask,
        mask_parameter,
    );
    let twice = backf_sync_spec(
        once.0,
        object,
        primary_x,
        primary_y,
        primary,
        secondary_x,
        secondary_y,
        secondary,
        mask,
        mask_parameter,
    );
    assert(once.0.bitmaps == m.bitmaps);
    assert(twice.0 =~= once.0);
}

impl BackfState {
    /// Sets one layer id to `layer`, or removes it.
    fn put_layer(&mut self, id: i32, layer: Option<BackfLayer>)
        ensures
            final(self)@ == (BackfModel { layers: put_layer(old(self)@.layers, id, layer), ..old(self)@ }),
    {
        match layer {
            Some(l) => {
                self.layers.insert(id, l);
            },
            None => {
                let _ = self.layers.remove(&id);
            },
        }
        assert(self@ =~= BackfModel { layers: put_layer(old(self)@.layers, id, layer), ..old(self)@ });
    }

    /// A bitmap's target format, 2 when none is recorded.
    fn format_of(&self, h: i32) -> (f: i32)
        ensures
            f == format_or_two(self@.bitmaps, h),
    {
        match self.bitmaps.get(&h) {
            Some(b) => match b.format {
                Some(f) => f,
                None => 2,
            },
            None => 2,
        }
    }

    /// Redraws a BackF object's primary layer from its committed bindings
    /// (see [`refresh_backf_primary_spec`]).
    pub fn graph90_refresh_backf_primary(&mut self, object: i32) -> (out: Result<(), BackfSyncError>)
        ensures
            (final(self)@, out) == refresh_backf_primary_spec(old(self)@, object),
    {
        let ghost m = self@;
        let o = match self.objects.get(&object) {
            Some(o) => *o,
            None => {
                return Ok(());
            },
        };
        if !o.has_background {
            return Ok(());
        }
        if !o.has_backf {
            return Err(BackfSyncError::NoBackfState);
        }
        let primary = match o.resource_binding {
            Some((p, _)) => p,
            None => {
                return Ok(());
            },
        };
        let p = match self.bitmaps.get(&primary) {
            Some(b) => *b,
            None => {
                self.drop_primary_layer(object, o);
                return Ok(());
            },
        };
        if !p.has_image {
            self.drop_primary_layer(object, o);
            return Ok(());
        }
        let primary_format = self.format_of(primary);
        let view = match o.mask_binding {
            Some((mask, _)) => {
                if primary_format != 1 {
                    Some(LayerSource::AlphaCleared(primary))
                } else {
                    let mask_image = match self.bitmaps.get(&mask) {
                        Some(b) => b.has_image,
                        None => false,
                    };
                    if !mask_image {
                        self.drop_primary_layer(object, o);
                        return Ok(());
                    }
                    Some(LayerSource::Masked { bitmap: primary, mask })
                }
            },
            None => match o.secondary_binding {
                Some(SecondaryBinding::Sentinel(sentinel)) => {
                    let white = sentinel == 0x7001;
                    if primary_format == 1 && (white || sentinel == 0x7000 || o.transparency != 0) {
                        Some(LayerSource::Faded { bitmap: primary, white, transparency: o.transparency })
                    } else {
                        None
                    }
                },
                other => {
                    let secondary_format = match other {
                        Some(SecondaryBinding::Bitmap { handle, .. }) => self.format_of(handle),
                        _ => 2,
                    };
                    if primary_format == 1 && secondary_format != 1 && p.partial_alpha {
                        Some(LayerSource::OpaqueView(primary))
                    } else {
                        None
                    }
                },
            },
        };
        assert(view == backf_primary_view(m, o, primary));
        let layer = match self.layers.get(&object) {
            Some(l) => *l,
            None => {
                return Ok(());
            },
        };
        let source = match view {
            Some(v) => v,
            None => LayerSource::Bitmap(primary),
        };
        self.layers.insert(object, BackfLayer { source, ..layer });
        assert(self@ =~= BackfModel { layers: m.layers.insert(object, BackfLayer { source, ..m.layers[object] }), ..m });
        Ok(())
    }

    /// Removes an object's own layer, which it no longer owns.
    fn drop_primary_layer(&mut self, object: i32, o: BackfObject)
        ensures
            final(self)@ == drop_primary_layer(old(self)@, object, o),
    {
        let _ = self.layers.remove(&object);
        self.objects.insert(object, BackfObject { owns_primary_layer: false, ..o });
        assert(self@ =~= drop_primary_layer(old(self)@, object, o));
    }

    /// Binds a background object's primary, secondary and mask and rebuilds
    /// its layers (see [`backf_sync_spec`]). The object must have its
    /// properties.
    pub fn graph90_sync_backf_layers(
        &mut self,
        object: i32,
        primary_x: i32,
        primary_y: i32,
        primary: i32,
        secondary_x: i32,
        secondary_y: i32,
        secondary: i32,
        mask: i32,
        mask_parameter: i32,
    ) -> (out: Result<(), BackfSyncError>)
        requires
            old(self)@.objects.contains_key(object),
        ensures
            (final(self)@, out) == backf_sync_spec(
                old(self)@,
                object,
                primary_x,
                primary_y,
                primary,
                secondary_x,
                secondary_y,
                secondary,
                mask,
                mask_parameter,
            ),
    {
        let ghost m = self@;
        let p = match self.bitmaps.get(&primary) {
            Some(b) => *b,
            None => {
                return Err(BackfSyncError::PrimaryNotRegistered(primary));
            },
        };
        let sentinel = secondary == 0x7000 || secondary == 0x7001 || secondary == 0x7FFF || secondary == -1;
        let (binding, secondary_image, secondary_opaque) = if sentinel {
            (SecondaryBinding::Sentinel(secondary), false, false)
        } else {
            match self.bitmaps.get(&secondary) {
                Some(b) => (
                    SecondaryBinding::Bitmap { handle: secondary, generation: b.generation },
                    b.has_image,
                    b.format == Some(1i32) && b.partial_alpha,
                ),
                None => {
                    return Err(BackfSyncError::SecondaryNotRegistered(secondary));
                },
            }
        };
        let o0 = match self.objects.get(&object) {
            Some(o) => *o,
            None => {
                return Err(BackfSyncError::NoBackgroundState);
            },
        };
        let z = o0.priority as i32;
        let o1 = BackfObject { format_resource: Some(primary), ..o0 };
        if !o1.has_background {
            self.objects.insert(object, o1);
            assert(self@ =~= BackfModel { objects: m.objects.insert(object, o1), ..m });
            return Err(BackfSyncError::NoBackgroundState);
        }
        let o2 = BackfObject {
            primary_offset: (primary_x, primary_y),
            resource_binding: Some((primary, p.generation)),
            secondary_binding: Some(binding),
            ..o1
        };
        if !o2.has_backf {
            self.objects.insert(object, o2);
            assert(self@ =~= BackfModel { objects: m.objects.insert(object, o2), ..m });
            return Err(BackfSyncError::NoBackfState);
        }
        let primary_layer = if p.has_image {
            Some(BackfLayer { owner: object, source: LayerSource::Bitmap(primary), offset: (primary_x, primary_y), z })
        } else {
            None
        };
        let secondary_layer = if secondary_image {
            let source = if secondary_opaque {
                LayerSource::OpaqueView(secondary)
            } else {
                LayerSource::Bitmap(secondary)
            };
            Some(BackfLayer { owner: object, source, offset: (secondary_x, secondary_y), z })
        } else if secondary == 0x7000 || secondary == 0x7001 {
            Some(BackfLayer { owner: object, source: LayerSource::Solid { white: secondary == 0x7001 }, offset: (0, 0), z })
        } else {
            None
        };
        let sid = self.secondary_layer_id;
        self.put_layer(object, primary_layer);
        self.put_layer(sid, secondary_layer);
        let o3 = BackfObject {
            secondary_offset: (secondary_x, secondary_y),
            depth: z,
            owns_primary_layer: p.has_image,
            owns_secondary_layer: secondary_layer.is_some(),
            ..o2
        };
        self.objects.insert(object, o3);
        let ghost staged = self@;
        assert(staged =~= BackfModel {
            objects: m.objects.insert(object, o3),
            layers: put_layer(put_layer(m.layers, object, primary_layer), sid, secondary_layer),
            ..m
        });
        if mask == -1 {
            self.objects.insert(object, BackfObject { mask_binding: None, ..o3 });
            assert(self@ =~= BackfModel {
                objects: m.objects.insert(object, BackfObject { mask_binding: None, ..o3 }),
                ..staged
            });
            return Ok(());
        }
        let k = match self.bitmaps.get(&mask) {
            Some(b) => *b,
            None => {
                let _ = self.graph90_refresh_backf_primary(object);
                return Err(BackfSyncError::MaskNotRegistered(mask));
            },
        };
        let format = match k.format {
            Some(f) => f,
            None => 2,
        };
        if format != 3 {
            let _ = self.graph90_refresh_backf_primary(object);
            return Err(BackfSyncError::MaskFormat { mask, format });
        }
        let o4 = BackfObject { mask_binding: Some((mask, k.generation)), mask_parameter, ..o3 };
        self.objects.insert(object, o4);
        assert(self@ =~= BackfModel { objects: m.objects.insert(object, o4), ..staged });
        Ok(())
    }
}

} // verus!
