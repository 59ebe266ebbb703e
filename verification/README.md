# flat_template

A composable view builder. Views (elements, static and dynamic attributes, static
and dynamic text) each contribute a tape of raw ops; `op_builder::drive` lowers a
tape into one flat template (ops, interned strings, and the path of each dynamic
value), and `View::into_vnode` pairs that template with the view's dynamic values.

- `src/hash.rs` — XXH64, proved to compute `xxh64_spec`, and hashing a range
  proved equal to hashing the sub-slice.
- `src/string_interner.rs` — a deduplicating string interner over one byte blob.
- `src/debug_text.rs` — the pieces of the `{:?}` text that the interner and template
  paths write.
- `src/op_builder.rs` — raw tapes, flat templates, `drive` and the state machine
  over raw ops that it follows, with the laws that lowering keeps.
- `src/traits.rs` — template paths, the `Raw`, `Built` and `View` traits, dynamic
  values and lowered nodes.
- `src/elements.rs`, `src/attributes.rs`, `src/text.rs` — the view pieces.
- `src/components.rs` — a card component, with a proof that every card lowers.
- `app/main.rs` — builds a card and prints it with dioxus-core's node types.
