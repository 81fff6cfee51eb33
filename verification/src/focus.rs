//! The areas of the screen that can be named as holding the focus.
use vstd::prelude::*;

verus! {

/// An area of the screen.
#[derive(Debug, Default, Clone, Copy, PartialEq, Eq, Hash, Structural)]
pub enum Focus {
    #[default]
    URL,
    Method,
    Params,
    Headers,
    Body,
    Request,
    Response,
}

} // verus!
