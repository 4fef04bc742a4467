use std::collections::HashMap;

use ethornell_app::backf::{
    BackfBitmap, BackfLayer, BackfObject, BackfState, BackfSyncError, LayerSource, SecondaryBinding,
};

const SECONDARY_LAYER: i32 = 0x7FFF_0000;

fn object(priority: u32, has_background: bool, has_backf: bool) -> BackfObject {
    BackfObject {
        priority,
        format_resource: None,
        has_background,
        has_backf,
        primary_offset: (0, 0),
        resource_binding: None,
        secondary_binding: None,
        secondary_offset: (0, 0),
        mask_binding: None,
        mask_parameter: 0,
        transparency: 0,
        depth: 0,
        owns_primary_layer: false,
        owns_secondary_layer: false,
    }
}

fn state(objects: &[(i32, BackfObject)]) -> BackfState {
    let mut bitmaps = HashMap::new();
    bitmaps.insert(10, BackfBitmap { generation: 3, format: Some(1), has_image: true, partial_alpha: false });
    bitmaps.insert(11, BackfBitmap { generation: 5, format: None, has_image: true, partial_alpha: false });
    bitmaps.insert(12, BackfBitmap { generation: 7, format: Some(3), has_image: false, partial_alpha: false });
    BackfState {
        bitmaps,
        objects: objects.iter().copied().collect(),
        layers: HashMap::new(),
        secondary_layer_id: SECONDARY_LAYER,
    }
}

#[test]
fn backf_binds_primary_sentinel_and_mask() {
    let mut s = state(&[(40, object(9, true, true))]);
    assert_eq!(s.graph90_sync_backf_layers(40, 5, 6, 10, 7, 8, 0x7001, 12, 77), Ok(()));
    let o = s.objects[&40];
    assert_eq!(o.format_resource, Some(10));
    assert_eq!(o.resource_binding, Some((10, 3)));
    assert_eq!(o.secondary_binding, Some(SecondaryBinding::Sentinel(0x7001)));
    assert_eq!((o.primary_offset, o.secondary_offset, o.depth), ((5, 6), (7, 8), 9));
    assert_eq!((o.mask_binding, o.mask_parameter), (Some((12, 7)), 77));
    assert!(o.owns_primary_layer && o.owns_secondary_layer);
    assert_eq!(s.layers[&40].source, LayerSource::Bitmap(10));
    assert_eq!(s.layers[&40].offset, (5, 6));
    assert_eq!(s.layers[&SECONDARY_LAYER].source, LayerSource::Solid { white: true });
}

#[test]
fn backf_secondary_bitmap_and_missing_mask() {
    let mut s = state(&[(40, object(2, true, true))]);
    s.layers.insert(SECONDARY_LAYER, BackfLayer { owner: 1, source: LayerSource::Bitmap(99), offset: (0, 0), z: 0 });
    assert_eq!(s.graph90_sync_backf_layers(40, 0, 0, 12, 1, 2, 11, 13, 5), Err(BackfSyncError::MaskNotRegistered(13)));
    let o = s.objects[&40];
    assert_eq!(o.secondary_binding, Some(SecondaryBinding::Bitmap { handle: 11, generation: 5 }));
    assert!(!o.owns_primary_layer && o.owns_secondary_layer);
    assert!(!s.layers.contains_key(&40));
    assert_eq!(s.layers[&SECONDARY_LAYER].source, LayerSource::Bitmap(11));
    assert_eq!(s.layers[&SECONDARY_LAYER].owner, 40);
    assert_eq!(
        s.graph90_sync_backf_layers(40, 0, 0, 10, 0, 0, -1, 11, 5),
        Err(BackfSyncError::MaskFormat { mask: 11, format: 2 })
    );
    assert!(!s.layers.contains_key(&SECONDARY_LAYER));
}

#[test]
fn backf_refuses_unregistered_handles_and_missing_state() {
    let mut s = state(&[(40, object(0, false, false)), (41, object(0, true, false))]);
    assert_eq!(s.graph90_sync_backf_layers(40, 0, 0, 99, 0, 0, -1, -1, 0), Err(BackfSyncError::PrimaryNotRegistered(99)));
    assert_eq!(s.objects[&40].format_resource, None);
    assert_eq!(
        s.graph90_sync_backf_layers(40, 0, 0, 10, 0, 0, 98, -1, 0),
        Err(BackfSyncError::SecondaryNotRegistered(98))
    );
    assert_eq!(s.graph90_sync_backf_layers(40, 0, 0, 10, 0, 0, -1, -1, 0), Err(BackfSyncError::NoBackgroundState));
    assert_eq!(s.objects[&40].format_resource, Some(10));
    assert_eq!(s.objects[&40].resource_binding, None);
    assert_eq!(s.graph90_sync_backf_layers(41, 3, 4, 10, 0, 0, 0x7000, -1, 0), Err(BackfSyncError::NoBackfState));
    assert_eq!(s.objects[&41].resource_binding, Some((10, 3)));
    assert_eq!(s.objects[&41].secondary_binding, Some(SecondaryBinding::Sentinel(0x7000)));
    assert!(s.layers.is_empty());
}

#[test]
fn backf_sync_twice_is_sync_once() {
    let mut s = state(&[(40, object(4, true, true))]);
    let first = s.graph90_sync_backf_layers(40, 1, 2, 10, 3, 4, 11, 12, 9);
    let objects_once = format!("{:?}", s.objects[&40]);
    let mut layers_once: Vec<String> = s.layers.iter().map(|(k, v)| format!("{k}:{v:?}")).collect();
    layers_once.sort();
    let second = s.graph90_sync_backf_layers(40, 1, 2, 10, 3, 4, 11, 12, 9);
    let mut layers_twice: Vec<String> = s.layers.iter().map(|(k, v)| format!("{k}:{v:?}")).collect();
    layers_twice.sort();
    assert_eq!(first, Ok(()));
    assert_eq!(second, first);
    assert_eq!(format!("{:?}", s.objects[&40]), objects_once);
    assert_eq!(layers_twice, layers_once);
}

#[test]
fn backf_secondary_opaque_view_and_refresh_on_mask_error() {
    let mut s = state(&[(40, object(1, true, true))]);
    s.bitmaps.insert(20, BackfBitmap { generation: 1, format: Some(1), has_image: true, partial_alpha: true });
    s.bitmaps.insert(21, BackfBitmap { generation: 2, format: None, has_image: true, partial_alpha: false });
    // A format-1 secondary with non-opaque pixels is drawn from an opaque view.
    assert_eq!(s.graph90_sync_backf_layers(40, 0, 0, 10, 0, 0, 20, -1, 0), Ok(()));
    assert_eq!(s.layers[&SECONDARY_LAYER].source, LayerSource::OpaqueView(20));
    // A format-1 primary with non-opaque pixels over a format-2 secondary: a
    // failed mask refreshes the primary into its opaque view.
    assert_eq!(
        s.graph90_sync_backf_layers(40, 0, 0, 20, 0, 0, 21, 11, 0),
        Err(BackfSyncError::MaskFormat { mask: 11, format: 2 })
    );
    assert_eq!(s.layers[&40].source, LayerSource::OpaqueView(20));
    // With the primary bound to a format-1 bitmap over a white sentinel, a
    // refresh fades it toward white.
    assert_eq!(s.graph90_sync_backf_layers(40, 0, 0, 10, 0, 0, 0x7001, -1, 0), Ok(()));
    assert_eq!(s.graph90_refresh_backf_primary(40), Ok(()));
    assert_eq!(s.layers[&40].source, LayerSource::Faded { bitmap: 10, white: true, transparency: 0 });
    assert_eq!(s.graph90_refresh_backf_primary(99), Ok(()));
}
