//! What widgets answer to input events, and the keys they react to.
use vstd::prelude::*;

verus! {

/// Keys the interactive widgets react to; every other key is `Other`.
#[derive(Clone, Copy, Debug, PartialEq, Eq, Structural)]
pub enum Key {
    Backspace,
    Down,
    Enter,
    Escape,
    Left,
    Right,
    Tab,
    Up,
    Other,
}

/// Mouse cursor a widget asks for.
#[derive(Clone, Copy, Debug, PartialEq, Eq, Structural)]
pub enum Cursor {
    Default,
    Grab,
    Pointer,
    Text,
}

/// Whether an event was handled.
#[derive(Clone, Copy, Debug, PartialEq, Eq, Structural)]
pub enum Status {
    /// Not handled: it goes on to other widgets.
    Ignored,
    /// Handled here.
    Consumed,
    /// Handled by an overlay, which stops it from reaching the widgets below.
    Canceled,
}

/// A widget's answer to an event.
#[derive(Clone, Copy, Debug, PartialEq, Eq, Structural)]
pub struct Response {
    pub status: Status,
    pub cursor: Option<Cursor>,
}

impl Response {
    /// The event was not handled.
    pub fn ignored() -> (r: Response)
        ensures
            r == (Response { status: Status::Ignored, cursor: None }),
    {
        Response { status: Status::Ignored, cursor: None }
    }

    /// The event was handled.
    pub fn consumed() -> (r: Response)
        ensures
            r == (Response { status: Status::Consumed, cursor: None }),
    {
        Response { status: Status::Consumed, cursor: None }
    }

    /// The event was handled, and the cursor becomes `cursor`.
    pub fn consumed_with(cursor: Cursor) -> (r: Response)
        ensures
            r == (Response { status: Status::Consumed, cursor: Some(cursor) }),
    {
        Response { status: Status::Consumed, cursor: Some(cursor) }
    }

    /// An open overlay kept the event from the widgets below.
    pub fn canceled() -> (r: Response)
        ensures
            r == (Response { status: Status::Canceled, cursor: None }),
    {
        Response { status: Status::Canceled, cursor: None }
    }
}

} // verus!
