# amd_transform

A verified pass that turns an ECMAScript module into an AMD module: one call of
`define` with the sources that the module depends on and a factory.

* `src/` is the library. Every function states what it does, and Verus proves it:
  `folding.rs`, `items.rs` and `define.rs` say what becomes of code, of the items of a
  module and of a module as a whole; `fold.rs`, `read.rs`, `finish.rs` and `amd.rs` do
  it; `history.rs`, `laws.rs` and `apart.rs` prove what holds of all of this together.
* `app/` holds the settings as they are read from and written to configuration files.
* `tests/` runs the library on small modules.

Marks and syntax contexts come from `swc_common`, the camel case of generated names from
`Inflector`, and the set of exported names is an `fxhash::FxHashSet`. `hygiene.rs` and
`names.rs` say what is taken for granted of them.

The pass does not read `export a from 'b'` and `export * as a from 'b'`: they have to be
rewritten by another pass before.
