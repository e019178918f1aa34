//! A one-time-code input: a fixed number of character cells with a cursor.
use vstd::prelude::*;
use crate::events::{Cursor, Key, Response, Status};
use crate::text::{is_control, is_control_char, push_chars};

verus! {

/// What the owner of a code input does after an event.
#[derive(Clone, Copy, Debug, PartialEq, Eq, Structural)]
pub struct OtpReply {
    pub response: Response,
    /// The code changed: the change callback gets `value_string()`.
    pub changed: bool,
    /// Every cell is filled after the change: the completion callback gets
    /// `value_string()` too.
    pub completed: bool,
    /// Focus should go to the widget with this id.
    pub request_focus: Option<u64>,
    /// Focus moves on to the next widget.
    pub focus_next: bool,
    /// Focus moves back to the previous widget.
    pub focus_prev: bool,
}

/// An answer that changes nothing around the widget.
pub open spec fn plain_reply(status: Status, cursor: Option<Cursor>) -> OtpReply {
    OtpReply {
        response: Response { status, cursor },
        changed: false,
        completed: false,
        request_focus: None,
        focus_next: false,
        focus_prev: false,
    }
}

/// An input of `length` code cells.
pub struct InputOtp {
    pub id: u64,
    pub length: usize,
    pub value: Vec<char>,
    pub cursor: usize,
    pub focused: bool,
    pub tab_index: Option<u32>,
}

impl InputOtp {
    /// At least one cell; the code fits in the cells and the cursor is on
    /// a cell.
    pub open spec fn wf(&self) -> bool {
        &&& self.length >= 1
        &&& self.value@.len() <= self.length
        &&& self.cursor < self.length
    }

    /// An empty input of `length` cells (at least one), identified by `id`.
    pub fn new(id: u64, length: usize) -> (o: InputOtp)
        ensures
            o.wf(),
            o.id == id,
            o.length == (if length >= 1 { length } else { 1 }),
            o.value@.len() == 0,
            o.cursor == 0,
            !o.focused,
            o.tab_index is None,
    {
        InputOtp { id, length: if length >= 1 { length } else { 1 }, value: Vec::new(), cursor: 0, focused: false, tab_index: None }
    }

    /// Sets the position in the tab order.
    pub fn tab_index(self, index: u32) -> (o: InputOtp)
        requires
            self.wf(),
        ensures
            o.wf(),
            o.tab_index == Some(index),
            o.value == self.value,
            o.length == self.length,
            o.cursor == self.cursor,
            o.id == self.id,
    {
        let mut o = self;
        o.tab_index = Some(index);
        o
    }

    /// The code typed so far.
    pub fn value_string(&self) -> (s: String)
        ensures
            s@ == self.value@,
    {
        let mut s = String::new();
        push_chars(&mut s, self.value.as_slice());
        s
    }

    fn notify(&self) -> (r: OtpReply)
        ensures
            r == (OtpReply {
                response: Response { status: Status::Consumed, cursor: None },
                changed: true,
                completed: self.value@.len() == self.length,
                request_focus: None,
                focus_next: false,
                focus_prev: false,
            }),
    {
        OtpReply {
            response: Response::consumed(),
            changed: true,
            completed: self.value.len() == self.length,
            request_focus: None,
            focus_next: false,
            focus_prev: false,
        }
    }

    /// Focus was moved to the widget `target`: when that is this input, it
    /// takes focus with the cursor after the code, on the last cell at most.
    pub fn focus(&mut self, target: u64) -> (r: OtpReply)
        requires
            old(self).wf(),
        ensures
            final(self).wf(),
            final(self).value == old(self).value,
            target != old(self).id ==> *final(self) == *old(self) && r == plain_reply(Status::Ignored, None),
            target == old(self).id ==> {
                &&& final(self).focused
                &&& final(self).cursor == (if old(self).value@.len() < old(self).length - 1 {
                    old(self).value@.len() as int
                } else {
                    old(self).length - 1
                })
                &&& r == plain_reply(Status::Consumed, None)
            },
    {
        if target == self.id {
            self.focused = true;
            self.cursor = if self.value.len() < self.length - 1 { self.value.len() } else { self.length - 1 };
            return OtpReply { response: Response::consumed(), changed: false, completed: false, request_focus: None, focus_next: false, focus_prev: false };
        }
        OtpReply { response: Response::ignored(), changed: false, completed: false, request_focus: None, focus_next: false, focus_prev: false }
    }

    /// A press, on cell `cell` of the input or (`None`) elsewhere. On the
    /// input it takes focus and puts the cursor on that cell, but no further
    /// than after the code and the last cell; elsewhere it loses focus.
    pub fn press(&mut self, cell: Option<usize>) -> (r: OtpReply)
        requires
            old(self).wf(),
        ensures
            final(self).wf(),
            final(self).value == old(self).value,
            match cell {
                Some(idx) => {
                    let lim1 = if idx < old(self).value@.len() { idx as int } else { old(self).value@.len() as int };
                    &&& final(self).focused
                    &&& final(self).cursor == (if lim1 < old(self).length - 1 { lim1 } else { old(self).length - 1 })
                    &&& r == (OtpReply {
                        response: Response { status: Status::Consumed, cursor: Some(Cursor::Text) },
                        changed: false,
                        completed: false,
                        request_focus: Some(old(self).id),
                        focus_next: false,
                        focus_prev: false,
                    })
                },
                None => !final(self).focused && final(self).cursor == old(self).cursor
                    && r == plain_reply(Status::Ignored, None),
            },
    {
        match cell {
            Some(idx) => {
                self.focused = true;
                let lim1 = if idx < self.value.len() { idx } else { self.value.len() };
                self.cursor = if lim1 < self.length - 1 { lim1 } else { self.length - 1 };
                OtpReply {
                    response: Response::consumed_with(Cursor::Text),
                    changed: false,
                    completed: false,
                    request_focus: Some(self.id),
                    focus_next: false,
                    focus_prev: false,
                }
            },
            None => {
                self.focused = false;
                OtpReply { response: Response::ignored(), changed: false, completed: false, request_focus: None, focus_next: false, focus_prev: false }
            },
        }
    }

    /// A typed character. While cells are free, a focused input writes it
    /// at the cursor (over the character there, or after the code when the
    /// cursor is past it) and moves the cursor on, staying on the last cell.
    /// A full code is not changed by typing.
    pub fn char_typed(&mut self, ch: char) -> (r: OtpReply)
        requires
            old(self).wf(),
        ensures
            final(self).wf(),
            final(self).length == old(self).length,
            !old(self).focused || is_control_char(ch) ==> *final(self) == *old(self)
                && r == plain_reply(Status::Ignored, None),
            old(self).focused && !is_control_char(ch) && old(self).value@.len() >= old(self).length
                ==> *final(self) == *old(self) && r == plain_reply(Status::Consumed, None),
            old(self).focused && !is_control_char(ch) && old(self).value@.len() < old(self).length ==> {
                &&& final(self).value@ == (if old(self).cursor < old(self).value@.len() {
                    old(self).value@.update(old(self).cursor as int, ch)
                } else {
                    old(self).value@.push(ch)
                })
                &&& final(self).cursor == (if old(self).cursor + 1 < old(self).length - 1 {
                    old(self).cursor + 1
                } else {
                    old(self).length - 1
                })
                &&& final(self).focused
                &&& r == (OtpReply {
                    response: Response { status: Status::Consumed, cursor: None },
                    changed: true,
                    completed: final(self).value@.len() == old(self).length,
                    request_focus: None,
                    focus_next: false,
                    focus_prev: false,
                })
            },
    {
        if !self.focused || is_control(ch) {
            return OtpReply { response: Response::ignored(), changed: false, completed: false, request_focus: None, focus_next: false, focus_prev: false };
        }
        if self.value.len() < self.length {
            if self.cursor < self.value.len() {
                self.value.set(self.cursor, ch);
            } else {
                self.value.push(ch);
            }
            self.cursor = if self.cursor + 1 < self.length - 1 { self.cursor + 1 } else { self.length - 1 };
            return self.notify();
        }
        OtpReply { response: Response::consumed(), changed: false, completed: false, request_focus: None, focus_next: false, focus_prev: false }
    }

    /// A pressed key, for a focused input:
    /// - Backspace deletes the character at the cursor (the last one when
    ///   the cursor is past the code) and moves the cursor back;
    /// - Left and Right move the cursor within the cells;
    /// - Tab gives the focus away, forward or (with Shift) back.
    /// Other keys are not handled.
    pub fn key_pressed(&mut self, key: Key, shift: bool) -> (r: OtpReply)
        requires
            old(self).wf(),
        ensures
            final(self).wf(),
            final(self).length == old(self).length,
            !old(self).focused || key == Key::Other || key == Key::Enter || key == Key::Escape
                || key == Key::Up || key == Key::Down ==> *final(self) == *old(self)
                && r == plain_reply(Status::Ignored, None),
            old(self).focused && key == Key::Backspace ==> {
                let v = old(self).value@;
                let c = old(self).cursor;
                if v.len() == 0 {
                    *final(self) == *old(self) && r == plain_reply(Status::Consumed, None)
                } else {
                    &&& final(self).value@ == (if c < v.len() { v.remove(c as int) } else { v.drop_last() })
                    &&& final(self).cursor == (if c > 0 { c - 1 } else { 0 })
                    &&& r == (OtpReply {
                        response: Response { status: Status::Consumed, cursor: None },
                        changed: true,
                        completed: final(self).value@.len() == old(self).length,
                        request_focus: None,
                        focus_next: false,
                        focus_prev: false,
                    })
                }
            },
            old(self).focused && key == Key::Left ==> final(self).value == old(self).value
                && final(self).cursor == (if old(self).cursor > 0 { old(self).cursor - 1 } else { 0 })
                && r == plain_reply(Status::Consumed, None),
            old(self).focused && key == Key::Right ==> final(self).value == old(self).value
                && final(self).cursor == (if old(self).cursor < old(self).length - 1 {
                    old(self).cursor + 1
                } else {
                    old(self).cursor as int
                })
                && r == plain_reply(Status::Consumed, None),
            old(self).focused && key == Key::Tab ==> {
                &&& !final(self).focused
                &&& final(self).value == old(self).value
                &&& final(self).cursor == old(self).cursor
                &&& r == (OtpReply {
                    response: Response { status: Status::Consumed, cursor: None },
                    changed: false,
                    completed: false,
                    request_focus: Some(old(self).id),
                    focus_next: !shift,
                    focus_prev: shift,
                })
            },
    {
        if !self.focused {
            return OtpReply { response: Response::ignored(), changed: false, completed: false, request_focus: None, focus_next: false, focus_prev: false };
        }
        match key {
            Key::Backspace => {
                if self.value.len() > 0 {
                    if self.cursor < self.value.len() {
                        let _ = self.value.remove(self.cursor);
                    } else {
                        let _ = self.value.pop();
                    }
                    if self.cursor > 0 {
                        self.cursor = self.cursor - 1;
                    }
                    return self.notify();
                }
            },
            Key::Left => {
                if self.cursor > 0 {
                    self.cursor = self.cursor - 1;
                }
            },
            Key::Right => {
                if self.cursor < self.length - 1 {
                    self.cursor = self.cursor + 1;
                }
            },
            Key::Tab => {
                self.focused = false;
                return OtpReply {
                    response: Response::consumed(),
                    changed: false,
                    completed: false,
                    request_focus: Some(self.id),
                    focus_next: !shift,
                    focus_prev: shift,
                };
            },
            _ => {
                return OtpReply { response: Response::ignored(), changed: false, completed: false, request_focus: None, focus_next: false, focus_prev: false };
            },
        }
        OtpReply { response: Response::consumed(), changed: false, completed: false, request_focus: None, focus_next: false, focus_prev: false }
    }
}

} // verus!
