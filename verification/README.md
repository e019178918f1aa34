# aurora_ui

The logic of the AuroraUI widget toolkit as a verified library: each
widget's state and how it answers clicks and keys, the calendar and date
arithmetic, table sorting, theme configuration, syntax highlighting and
whole-pixel drawing, each with a contract proved by Verus.

- `src/` — the verified library, one module per area (`dates`, `calendar`,
  `date_time_picker`, `date_range_picker`, `autocomplete`, `pickers`,
  `menus`, `navigation`, `disclosure`, `input_otp`, `data_table`,
  `theming`, `theme`, `syntax`, `code_block`, `canvas`, `text`, ...).
  Calls into regex, serde_json, image, cosmic-text and usvg stand behind
  small trusted wrappers whose contracts are documented where they are
  declared.
- `app/` — what works in floating point or performs I/O: anti-aliased
  shapes on the canvas, SVG rasterisation, the theme module generator
  (reads the JSON file, emits tokens), font options and the number input.
- `tests/` — tests of the library on concrete values.
