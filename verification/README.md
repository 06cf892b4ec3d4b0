# tailwind_literal

Verified parsing and classification of the literal part of tailwind
directives.

- `src/subject.rs`: subject values (`2xl`, `1/2`, `[#fff]`); the scanner
  for plain values as a state machine over characters, and the reading of
  bracketed css values.
- `src/plugin.rs`: the plugins and what argument each takes.
- `src/literal.rs`: a literal (plugin and value), the choice of the
  argument handed to the plugin, and conversion errors.
- `src/shorthand.rs`: the theme tables and the translation of shorthand
  classes (`bg-red-500`, `h-4`) into style properties.
- `src/object.rs`: building ecmascript object literals with `swc`.
- `src/charclass.rs`: character classes, through `nom`.
- `app/lib.rs`: `Display` and `std::error::Error` on copies of the value and
  error types.
