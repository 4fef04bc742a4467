use vstd::prelude::*;

pub mod backf;
pub mod bcs;
pub mod graph91_calls;
pub mod graph91_input;
pub mod graph91_objects;
pub mod graph91_text;
pub mod native_call;
pub mod native_graph;
pub mod native_graph_ext;
pub mod native_graph_resource;
pub mod native_graph_sys91;
pub mod native_graph_sys92;
pub mod native_sound;
pub mod native_system;
pub mod native_system_ext;
pub mod native_user;
pub mod native_user_calls;
pub mod platform;
pub mod resource_lookup;
pub mod runtime;
pub mod scenario;
pub mod scenario_action;
pub mod scenario_builder;
pub mod scenario_playback;
pub mod scenario_vm;
pub mod seqs;
pub mod shift_jis;
pub mod snapshot;
pub mod surface_controls;
pub mod scene;
pub mod text;

verus! {

} // verus!
