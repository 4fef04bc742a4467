# ethornell_app

The runtime logic of a BURIKO (Ethornell) visual-novel engine host, written
in Verus: each public function states what it does in `requires`/`ensures`
over mathematical models, and Verus proves the code against it.

## Layout

- `src/` — the verified library.
  - `bcs.rs` — decoded script instructions and operands.
  - `scenario_vm.rs` — the model and specification of the script machine
    (one instruction, one frame of playback, loading a called script) and
    its laws.
  - `scenario_playback.rs` — the machine itself, proved against
    `scenario_vm.rs`.
  - `scenario_builder.rs`, `scenario_action.rs` — how engine commands turn
    into presentation actions (messages, sprites, sounds, waits).
  - `scenario.rs`, `scene.rs`, `resource_lookup.rs`, `text.rs`, `seqs.rs` —
    names, aliases, layers and the text helpers they share.
  - `native_call.rs` — the values a native call reads off the script
    stack, and how its arguments are popped.
  - `native_sound.rs` — BGM and effect slots, gain banks, the virtual CD
    device, the audio request queue and the sound call group.
  - `native_user.rs` — edit box, debug windows, modeless dialogs, fonts,
    the CRT random generator and the screen shake; `native_user_calls.rs`
    — the debug-window, edit-box, message-box, modeless-dialog, window
    placement, cursor and font-alias calls of the user group.
  - `shift_jis.rs` — the script's Shift_JIS text, through `encoding_rs`.
  - `native_graph.rs` — the group `0x90` display objects (classes,
    allocation, member settings, priority), redraw flags and item-selection
    settings, and the calls that drive them.
  - `graph91_objects.rs`, `graph91_input.rs`, `graph91_text.rs` — the
    group `0x91` object transforms and multi-layer background, input
    objects and knobs, and surface text.
  - `native_graph_sys91.rs`, `native_graph_sys92.rs`,
    `native_graph_resource.rs`, `native_graph_ext.rs` — effectors,
    landscapes and bitmap operations (with the group `0x92` effect calls);
    `graph91_calls.rs` — the effector
    and landscape calls; `backf.rs` — binding a BackF background to its
    bitmaps and layers.
  - `surface_controls.rs` — which owner's native controls sit on which
    window surface.
  - `platform.rs`, `native_system.rs`, `native_system_ext.rs`,
    `runtime.rs`, `snapshot.rs` — the portable platform store, command
    lines, the extended system calls, the runtime state and frame digests.
- `tests/` — tests of the library.
- `app/` — the host program: files, directories, the platform store file,
  CD track discovery, the error text of refused calls, and everything that
  works in floating point (gains, opacities, trigonometry, pointer hit
  tests).
