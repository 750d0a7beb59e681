//! What a pointer press on an annotation can grab.
use vstd::prelude::*;

verus! {

/// One of the resize handles around a selected annotation.
#[derive(Debug, Clone, Copy, PartialEq, Eq, Structural)]
pub enum HandleId {
    TopLeft,
    Top,
    TopRight,
    Right,
    BottomRight,
    Bottom,
    BottomLeft,
    Left,
    /// Arrow endpoints.
    ArrowFrom,
    ArrowTo,
}

/// What a hit test found under the pointer.
#[derive(Debug, Clone, Copy, PartialEq, Eq, Structural)]
pub enum HitKind {
    Body,
    Handle(HandleId),
}

/// What a drag does to the annotation it started on.
#[derive(Debug, Clone, Copy)]
pub enum DragKind {
    Move,
    Resize(HandleId),
}

} // verus!
