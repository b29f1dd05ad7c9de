//! A pass that turns an ECMAScript module into an AMD module: a call of `define` with
//! the sources that the module depends on and a factory.
//!
//! ```js
//! import { add } from './math';
//! export const two = add(1, 1);
//! ```
//!
//! becomes
//!
//! ```js
//! define(["exports", "./math"], function (_exports, _math) {
//!     'use strict';
//!     Object.defineProperty(_exports, "__esModule", { value: true });
//!     _exports.two = void 0;
//!     const two = (0, _math.add)(1, 1);
//!     _exports.two = two;
//! });
//! ```
//!
//! * [`ast`] holds the syntax tree, and [`model`] the values that contracts speak of.
//! * [`emit`] builds the code that the pass writes.
//! * [`scope`], with [`imports`] and [`bindings`], holds what is known of names.
//! * [`folding`] says what becomes of code inside a module; [`fold`] does it.
//! * [`items`] says what becomes of the items of a module; [`read`] reads them.
//! * [`define`] says what the call of `define` is made of; [`finish`] builds it.
//! * [`hygiene`] and [`names`] generate names; [`budget`] counts how many can be needed.
//! * [`history`], [`laws`] and [`apart`] prove what holds of all of this together;
//!   [`reach`], [`effects`] and [`whole`] prove what it comes to for code, for items and for
//!   modules, with the trees of [`shapes`] and the values of [`values`] spelled out.
//! * [`amd`] is the pass.

pub mod amd;
pub mod apart;
pub mod ast;
pub mod bindings;
pub mod budget;
pub mod define;
pub mod effects;
pub mod emit;
pub mod finish;
pub mod fold;
pub mod folding;
pub mod history;
pub mod hygiene;
pub mod imports;
pub mod items;
pub mod laws;
pub mod model;
pub mod names;
pub mod reach;
pub mod read;
pub mod scope;
pub mod shapes;
pub mod table;
pub mod util;
pub mod values;
pub mod whole;

pub use crate::amd::{amd, amd_module, Amd, Config};
