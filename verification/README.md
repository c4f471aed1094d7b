# embedded_gpui

Plugins that draw inside a host application, and the objects both share, as a verified
library: what crosses the boundary, in which order, and who may reach what.

- `src/frame.rs`, `src/model.rs`, `src/registry.rs`, `src/registry_laws.rs`,
  `src/registry_runs.rs`: the object registry both ends run. Calls, responses, subscriptions
  and releases travel as frames; the laws say what two registries that exchange frames can
  rely on, and what holds of one through whatever is done to it.
- `src/capabilities.rs`, `src/membrane.rs`: attenuation, accounting, mirrors, and the
  revocable membrane.
- `src/shared_guest.rs`, `src/shared_host.rs`, `src/shared_runs.rs`: entities shared under well-known names.
- `src/host.rs`, `src/worker.rs`, `src/limits.rs`, `src/host_surface.rs`,
  `src/clipboard.rs`, `src/text_imports.rs`: the host's end. The worker's queue, the budgets
  and caps, the surfaces, and what is answered to a plugin that shapes text.
- `src/guest.rs`, `src/guest_platform.rs`, `src/guest_window.rs`, `src/dispatcher.rs`,
  `src/display.rs`: the guest's end. Windows that mirror the host's, views placed in them,
  and the scheduler.
- `src/display_list.rs`, `src/scene.rs`, `src/images.rs`, `src/replay.rs`: pixels, from a
  painted scene to the order they are replayed in.
- `src/surface.rs`, `src/platform_types.rs`, `src/input_query.rs`: input, and questions to a
  focused text field.
- `src/schema.rs`, `src/interfaces.rs`, `src/interface_plan.rs`, `src/naming.rs`: interfaces
  as data, and what an annotated trait is expanded to.
- `src/js.rs`, `src/ui_tree.rs`, `src/numerals.rs`: the script runtime behind a plugin's root,
  and the trees it renders.
- `src/demo.rs`: the demonstration's counter, workspace and input line.
- `src/trial_interfaces.rs`: the interfaces the integration tests speak.

Floating-point numbers pass through the library unread, as their bits. Entities, handlers,
receipts and signals live outside; the library knows them by number.

`app/` runs plugins without a window: components in a wasm sandbox, or scripts in an engine.
