//! Verified core of a widget-based GUI toolkit: widget identity, focus
//! navigation, per-widget state storage and the input-handling rules of the
//! built-in widgets.
use vstd::prelude::*;

pub mod ids;
pub mod focus;
pub mod storage;
pub mod text;
pub mod input;
pub mod widgets;
pub mod error;
pub mod menus;
pub mod scope;
pub mod wrap;
pub mod passes;
pub mod batches;
pub mod textures;

verus! {

/// Rendering pass for controlling text z-order.
#[derive(Debug, Clone, Copy, PartialEq, Eq, Structural)]
pub enum DrawPass {
    Normal,
    Overlay,
}

} // verus!
