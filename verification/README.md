# vixen

Typed htmx actions, partial responses and Basecoat widgets for axum and
maud, with the logic proved correct by Verus.

- `src/` is the verified library. Every value it renders is HTML text, and
  each function's contract says exactly which text: the `hx-action`
  attributes of an action, the `<hx-partial>` blocks of a response, the
  shells, slots and toasts of the widgets, the asset tags of a page, the
  paths of the bundler and the base path. The decisions of the attribute
  macros (ids, names, docs, setters, errors, asset lookups) are there too.
  Public proof functions named `law_*` state what holds across calls.
  An action's `hx-vals` are held as a list of key and JSON-text pairs kept
  in ascending key order, and written as `serde_json` writes its `Map`;
  the manifest's maps are held as lists of pairs.
- `app/` is the runtime around it: maud `Render` and axum `IntoResponse`
  for the library's values, the asset router and base-path mounting, the
  build script's environment, files and processes, the manifest read with
  serde, and the token expansions of the macros.
- `tests/` runs the library on concrete values.
