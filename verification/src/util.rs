//! Settings that module transforms share.

use vstd::prelude::*;

verus! {

/// How a module is compiled, whatever it is compiled to.
#[derive(Clone, Copy, Debug, PartialEq, Eq, Structural)]
pub struct Config {
    /// Whether `__esModule` is left out.
    pub strict: bool,
    /// Whether `'use strict'` is added where it is missing.
    pub strict_mode: bool,
    /// Whether imported modules are taken as they are, without an interop helper.
    pub no_interop: bool,
}

/// The settings where nothing is said.
pub open spec fn default_config() -> Config {
    Config { strict: false, strict_mode: true, no_interop: false }
}

impl Default for Config {
    fn default() -> (config: Self)
        ensures
            config == default_config(),
    {
        Config { strict: false, strict_mode: true, no_interop: false }
    }
}

} // verus!
