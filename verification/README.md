# relm4 (verified core)

The logic of an Elm-inspired GUI library, verified with Verus, and the
toolkit glue around it.

- `src/` is the verified library.
  - `factory/` keeps the models of factory collections and plans the widget
    operations that bring a container in line with its model
    (`render::plan_render`, `vec_deque::FactoryVecDeque::render_changes`),
    the same container for asynchronous components in `async_vec_deque.rs`,
    a keyed container in `sync/hashmap.rs` that records the widgets to append
    and remove, and the event handling of a running component in `service.rs`.
  - `typed_view/` holds the typed models of list, column and grid views: items,
    a stack of filters and sorted insertion.
  - `shared_state/` holds shared values with subscribers and reducers.
  - `channel.rs`, `shutdown.rs` and `sender.rs` wrap the channels and the
    runtime of components; `runtime_util.rs`, `late_initialization.rs`,
    `loading_widgets.rs`, `temp_widgets.rs` and `action_names.rs` hold the
    smaller state machines and naming rules.
- `tests/` exercises the library on concrete values.
- `app/` is ordinary Rust that needs the toolkit or an async runtime: the
  widget containers as factory views, the service loops of components, the
  statics that hold shared state, and the action safety traits.
