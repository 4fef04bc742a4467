use std::collections::BTreeSet;

use ethornell_app::surface_controls::{SurfaceControlOwner, SurfaceControlRegistry};

/// A stand-in for the input descriptor the controls were made from.
#[derive(Debug, Clone, PartialEq, Default)]
struct Descriptor {
    items: Vec<i32>,
}

#[test]
fn replace_returns_only_the_same_owners_stale_layers() {
    let mut registry = SurfaceControlRegistry::new();
    let descriptor = Descriptor::default();
    let owner_a = SurfaceControlOwner::InputObject(100);
    let owner_b = SurfaceControlOwner::InputObject(101);

    assert!(registry.replace(owner_a, 7, descriptor.clone(), BTreeSet::from([1, 2])).is_empty());
    assert!(registry.is_unchanged(owner_a, 7, &descriptor));

    assert!(registry.replace(owner_b, 7, descriptor.clone(), BTreeSet::from([8])).is_empty());
    assert_eq!(registry.layer_count(7), 3);
    assert_eq!(registry.owner_layer_count(owner_a), 2);
    assert_eq!(registry.owner_layer_count(owner_b), 1);

    assert_eq!(registry.replace(owner_a, 7, descriptor, BTreeSet::from([3])), BTreeSet::from([1, 2]));
    assert!(registry.contains_layer(3));
    assert!(registry.contains_layer_for_owner(owner_a, 3));
    assert!(!registry.contains_layer_for_owner(owner_b, 3));
    assert!(registry.contains_layer_for_owner(owner_b, 8));
    assert_eq!(registry.layer_count(7), 2);

    assert_eq!(registry.remove_owner(owner_a), BTreeSet::from([3]));
    assert!(registry.contains_layer(8));
    assert_eq!(registry.layer_count(7), 1);
    assert_eq!(registry.remove_surface(7), BTreeSet::from([8]));
    assert_eq!(registry.layer_count(7), 0);
}

#[test]
fn descriptor_changes_are_seen_and_surfaces_are_separate() {
    let mut registry = SurfaceControlRegistry::new();
    let first = Descriptor { items: vec![1] };
    let second = Descriptor { items: vec![2] };
    let owner = SurfaceControlOwner::Surface(5);
    let other = SurfaceControlOwner::Surface(6);

    assert!(!registry.is_unchanged(owner, 5, &first));
    registry.replace(owner, 5, first.clone(), BTreeSet::from([10, 11]));
    registry.replace(other, 6, first.clone(), BTreeSet::from([12]));
    assert!(registry.is_unchanged(owner, 5, &first));
    assert!(!registry.is_unchanged(owner, 6, &first));
    assert!(!registry.is_unchanged(owner, 5, &second));
    registry.update_descriptor(owner, second.clone());
    assert!(registry.is_unchanged(owner, 5, &second));
    registry.update_descriptor(SurfaceControlOwner::InputObject(5), first.clone());
    assert_eq!(registry.owner_layer_count(SurfaceControlOwner::InputObject(5)), 0);

    assert_eq!(registry.remove_surface(5), BTreeSet::from([10, 11]));
    assert!(!registry.contains_layer(10));
    assert!(registry.contains_layer(12));
    assert_eq!(registry.layer_count(6), 1);
    assert!(registry.remove_owner(owner).is_empty());
}
