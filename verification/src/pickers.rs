//! A searchable select (combobox) and a command palette: both offer the
//! entries whose label contains the typed search, and move a highlighted
//! row with the arrow keys.
use vstd::prelude::*;
use crate::autocomplete::{filter_suggestions, filtered_spec};
use crate::events::{Cursor, Key, Response, Status};
use crate::text::{is_control, is_control_char, pop_char, push_char};

verus! {

/// The highlighted row after Down, with `n` rows offered: one row further,
/// stopping at the last; the first row when none was highlighted.
pub open spec fn hover_after_down(hover: Option<usize>, n: int) -> Option<usize> {
    if n == 0 {
        hover
    } else {
        match hover {
            Some(i) => Some((if i + 1 < n - 1 { i + 1 } else { n - 1 }) as usize),
            None => Some(0usize),
        }
    }
}

/// The highlighted row after Up: one row back, stopping at the first.
pub open spec fn hover_after_up(hover: Option<usize>) -> Option<usize> {
    match hover {
        Some(i) => Some((if i > 0 { i - 1 } else { 0 }) as usize),
        None => None,
    }
}

/// Moves the highlight down among `n` offered rows.
pub fn hover_down(hover: Option<usize>, n: usize) -> (h: Option<usize>)
    ensures
        h == hover_after_down(hover, n as int),
{
    if n == 0 {
        return hover;
    }
    match hover {
        Some(i) => Some(if n >= 2 && i < n - 2 { i + 1 } else { n - 1 }),
        None => Some(0),
    }
}

/// Moves the highlight up.
pub fn hover_up(hover: Option<usize>) -> (h: Option<usize>)
    ensures
        h == hover_after_up(hover),
{
    match hover {
        Some(i) => Some(if i > 0 { i - 1 } else { 0 }),
        None => None,
    }
}

/// The row under the pointer, when it is an offered one.
pub open spec fn offered_row(row: Option<usize>, n: int) -> Option<usize> {
    match row {
        Some(i) => if i < n { Some(i) } else { None },
        None => None,
    }
}

/// A select whose options are searched by typing.
pub struct Combobox {
    pub options: Vec<String>,
    pub search: String,
    pub selected: Option<usize>,
    pub placeholder: String,
    pub open: bool,
    pub focused: bool,
    pub max_dropdown_items: usize,
    pub filtered_indices: Vec<usize>,
    pub hover_index: Option<usize>,
}

/// What the owner of a combobox does after an event.
#[derive(Clone, Copy, Debug, PartialEq, Eq, Structural)]
pub struct ComboboxReply {
    pub response: Response,
    /// An option was chosen: the select callback gets its index.
    pub chosen: Option<usize>,
}

impl Combobox {
    /// Offered indices name options.
    pub open spec fn wf(&self) -> bool {
        forall|k: int| 0 <= k < self.filtered_indices@.len() ==> #[trigger] self.filtered_indices@[k] < self.options@.len()
    }

    /// No options, closed, placeholder `"Search..."`, eight rows at most.
    pub fn new() -> (c: Combobox)
        ensures
            c.wf(),
            c.options@.len() == 0,
            c.search@.len() == 0,
            c.selected is None,
            c.placeholder@ == "Search..."@,
            !c.open,
            !c.focused,
            c.max_dropdown_items == 8,
            c.filtered_indices@.len() == 0,
            c.hover_index is None,
    {
        Combobox {
            options: Vec::new(),
            search: String::new(),
            selected: None,
            placeholder: String::from_str("Search..."),
            open: false,
            focused: false,
            max_dropdown_items: 8,
            filtered_indices: Vec::new(),
            hover_index: None,
        }
    }

    /// Adds an option.
    pub fn option(self, label: String) -> (c: Combobox)
        requires
            self.wf(),
        ensures
            c.wf(),
            c.options@ == self.options@.push(label),
            c.search == self.search,
            c.filtered_indices == self.filtered_indices,
    {
        let mut c = self;
        c.options.push(label);
        c
    }

    /// Sets the placeholder.
    pub fn placeholder(self, text: String) -> (c: Combobox)
        requires
            self.wf(),
        ensures
            c.wf(),
            c.placeholder == text,
            c.options == self.options,
    {
        let mut c = self;
        c.placeholder = text;
        c
    }

    /// Recomputes the offered options for the search.
    pub fn update_filtered(&mut self)
        requires
            old(self).wf(),
        ensures
            final(self).wf(),
            final(self).filtered_indices@ == filtered_spec(old(self).options@, old(self).search@, old(self).max_dropdown_items),
            final(self).options == old(self).options,
            final(self).search == old(self).search,
            final(self).open == old(self).open,
            final(self).focused == old(self).focused,
            final(self).selected == old(self).selected,
            final(self).hover_index == old(self).hover_index,
    {
        let found = filter_suggestions(&self.options, &self.search, self.max_dropdown_items);
        let _n = self.options.len();
        proof {
            crate::autocomplete::lemma_offered_suggestions(self.options@, self.search@, self.max_dropdown_items);
        }
        self.filtered_indices = found;
    }

    /// A press: on the input (`inside`), or, with the dropdown open, on
    /// dropdown row `row` (`None` outside the dropdown).
    ///
    /// On the input it takes focus, opens and clears the search. On an
    /// offered row the option is chosen, the dropdown closes and the search
    /// clears. Anywhere else an open dropdown closes and the focus goes.
    pub fn press(&mut self, inside: bool, row: Option<usize>) -> (r: ComboboxReply)
        requires
            old(self).wf(),
        ensures
            final(self).wf(),
            final(self).options == old(self).options,
            final(self).filtered_indices == old(self).filtered_indices,
            final(self).hover_index == old(self).hover_index,
            inside ==> final(self).focused && final(self).open && final(self).search@.len() == 0
                && final(self).selected == old(self).selected
                && r == (ComboboxReply { response: Response { status: Status::Consumed, cursor: Some(Cursor::Text) }, chosen: None }),
            !inside && old(self).open ==> match offered_row(row, old(self).filtered_indices@.len() as int) {
                Some(i) => {
                    let picked = old(self).filtered_indices@[i as int];
                    &&& final(self).selected == Some(picked)
                    &&& !final(self).open
                    &&& final(self).search@.len() == 0
                    &&& final(self).focused == old(self).focused
                    &&& r == (ComboboxReply { response: Response { status: Status::Consumed, cursor: None }, chosen: Some(picked) })
                },
                None => {
                    &&& !final(self).open
                    &&& !final(self).focused
                    &&& final(self).search == old(self).search
                    &&& final(self).selected == old(self).selected
                    &&& r == (ComboboxReply { response: Response { status: Status::Consumed, cursor: None }, chosen: None })
                },
            },
            !inside && !old(self).open ==> !final(self).focused && !final(self).open
                && final(self).search == old(self).search && final(self).selected == old(self).selected
                && r == (ComboboxReply { response: Response { status: Status::Ignored, cursor: None }, chosen: None }),
    {
        if inside {
            self.focused = true;
            self.open = true;
            self.search = String::new();
            return ComboboxReply { response: Response::consumed_with(Cursor::Text), chosen: None };
        }
        if self.open {
            match row {
                Some(i) => {
                    if i < self.filtered_indices.len() {
                        let picked = self.filtered_indices[i];
                        self.selected = Some(picked);
                        self.open = false;
                        self.search = String::new();
                        return ComboboxReply { response: Response::consumed(), chosen: Some(picked) };
                    }
                },
                None => {},
            }
            self.open = false;
            self.focused = false;
            return ComboboxReply { response: Response::consumed(), chosen: None };
        }
        self.focused = false;
        ComboboxReply { response: Response::ignored(), chosen: None }
    }

    /// The pointer moved: over the input (`inside`), or over dropdown row
    /// `row` of an open dropdown.
    pub fn pointer_moved(&mut self, inside: bool, row: Option<usize>) -> (r: Response)
        requires
            old(self).wf(),
        ensures
            final(self).wf(),
            final(self).options == old(self).options,
            final(self).search == old(self).search,
            final(self).filtered_indices == old(self).filtered_indices,
            final(self).open == old(self).open,
            final(self).focused == old(self).focused,
            final(self).selected == old(self).selected,
            old(self).open && row is Some ==> final(self).hover_index == offered_row(row, old(self).filtered_indices@.len() as int)
                && r == (Response { status: Status::Ignored, cursor: Some(Cursor::Pointer) }),
            !(old(self).open && row is Some) ==> {
                &&& final(self).hover_index == (if old(self).open { None } else { old(self).hover_index })
                &&& r == (if inside {
                    Response { status: Status::Ignored, cursor: Some(Cursor::Text) }
                } else {
                    Response { status: Status::Ignored, cursor: None }
                })
            },
    {
        if self.open {
            match row {
                Some(i) => {
                    self.hover_index = if i < self.filtered_indices.len() { Some(i) } else { None };
                    return Response { status: Status::Ignored, cursor: Some(Cursor::Pointer) };
                },
                None => {
                    self.hover_index = None;
                },
            }
        }
        if inside {
            Response { status: Status::Ignored, cursor: Some(Cursor::Text) }
        } else {
            Response::ignored()
        }
    }

    /// A typed character: a focused combobox appends it to the search
    /// (unless it is a control character), opens and drops the selection.
    pub fn char_typed(&mut self, ch: char) -> (r: Response)
        requires
            old(self).wf(),
        ensures
            final(self).wf(),
            !old(self).focused || is_control_char(ch) ==> *final(self) == *old(self)
                && r == (Response { status: Status::Ignored, cursor: None }),
            old(self).focused && !is_control_char(ch) ==> {
                &&& final(self).search@ == old(self).search@.push(ch)
                &&& final(self).open
                &&& final(self).selected is None
                &&& final(self).options == old(self).options
                &&& final(self).filtered_indices == old(self).filtered_indices
                &&& final(self).hover_index == old(self).hover_index
                &&& r == (Response { status: Status::Consumed, cursor: None })
            },
    {
        if !self.focused || is_control(ch) {
            return Response::ignored();
        }
        push_char(&mut self.search, ch);
        self.open = true;
        self.selected = None;
        Response::consumed()
    }

    /// A pressed key, for a focused combobox: Backspace deletes from the
    /// search and opens, Escape closes and clears the search, Enter chooses
    /// the highlighted offered row, Down and Up move the highlight.
    pub fn key_pressed(&mut self, key: Key) -> (r: ComboboxReply)
        requires
            old(self).wf(),
        ensures
            final(self).wf(),
            final(self).options == old(self).options,
            final(self).filtered_indices == old(self).filtered_indices,
            final(self).focused == old(self).focused,
            !old(self).focused || key == Key::Other || key == Key::Left || key == Key::Right || key == Key::Tab
                ==> *final(self) == *old(self)
                && r == (ComboboxReply { response: Response { status: Status::Ignored, cursor: None }, chosen: None }),
            old(self).focused && key == Key::Backspace ==> {
                let s = old(self).search@;
                &&& final(self).search@ == (if s.len() > 0 { s.drop_last() } else { s })
                &&& final(self).open
                &&& final(self).selected == old(self).selected
                &&& final(self).hover_index == old(self).hover_index
                &&& r == (ComboboxReply { response: Response { status: Status::Consumed, cursor: None }, chosen: None })
            },
            old(self).focused && key == Key::Escape ==> {
                &&& !final(self).open
                &&& final(self).search@.len() == 0
                &&& final(self).selected == old(self).selected
                &&& final(self).hover_index == old(self).hover_index
                &&& r == (ComboboxReply { response: Response { status: Status::Consumed, cursor: None }, chosen: None })
            },
            old(self).focused && key == Key::Enter ==> match old(self).hover_index {
                Some(hi) if hi < old(self).filtered_indices@.len() => {
                    let picked = old(self).filtered_indices@[hi as int];
                    &&& final(self).selected == Some(picked)
                    &&& !final(self).open
                    &&& final(self).search@.len() == 0
                    &&& final(self).hover_index == old(self).hover_index
                    &&& r == (ComboboxReply { response: Response { status: Status::Consumed, cursor: None }, chosen: Some(picked) })
                },
                _ => *final(self) == *old(self)
                    && r == (ComboboxReply { response: Response { status: Status::Consumed, cursor: None }, chosen: None }),
            },
            old(self).focused && key == Key::Down ==> {
                &&& final(self).hover_index == hover_after_down(old(self).hover_index, old(self).filtered_indices@.len() as int)
                &&& final(self).search == old(self).search
                &&& final(self).open == old(self).open
                &&& final(self).selected == old(self).selected
                &&& r == (ComboboxReply { response: Response { status: Status::Consumed, cursor: None }, chosen: None })
            },
            old(self).focused && key == Key::Up ==> {
                &&& final(self).hover_index == hover_after_up(old(self).hover_index)
                &&& final(self).search == old(self).search
                &&& final(self).open == old(self).open
                &&& final(self).selected == old(self).selected
                &&& r == (ComboboxReply { response: Response { status: Status::Consumed, cursor: None }, chosen: None })
            },
    {
        if !self.focused {
            return ComboboxReply { response: Response::ignored(), chosen: None };
        }
        match key {
            Key::Backspace => {
                let _ = pop_char(&mut self.search);
                self.open = true;
            },
            Key::Escape => {
                self.open = false;
                self.search = String::new();
            },
            Key::Enter => {
                match self.hover_index {
                    Some(hi) => {
                        if hi < self.filtered_indices.len() {
                            let picked = self.filtered_indices[hi];
                            self.selected = Some(picked);
                            self.open = false;
                            self.search = String::new();
                            return ComboboxReply { response: Response::consumed(), chosen: Some(picked) };
                        }
                    },
                    None => {},
                }
            },
            Key::Down => {
                self.hover_index = hover_down(self.hover_index, self.filtered_indices.len());
            },
            Key::Up => {
                self.hover_index = hover_up(self.hover_index);
            },
            _ => {
                return ComboboxReply { response: Response::ignored(), chosen: None };
            },
        }
        ComboboxReply { response: Response::consumed(), chosen: None }
    }
}

/// A palette of named commands, searched by typing.
pub struct Command {
    pub open: bool,
    pub search: String,
    pub labels: Vec<String>,
    pub max_items: usize,
    pub hover_index: Option<usize>,
    pub filtered_indices: Vec<usize>,
}

/// What the owner of a command palette does after an event.
#[derive(Clone, Copy, Debug, PartialEq, Eq, Structural)]
pub struct PaletteReply {
    pub response: Response,
    /// A command was run: its callback is called.
    pub run: Option<usize>,
}

impl Command {
    /// Offered indices name commands.
    pub open spec fn wf(&self) -> bool {
        forall|k: int| 0 <= k < self.filtered_indices@.len() ==> #[trigger] self.filtered_indices@[k] < self.labels@.len()
    }

    /// A closed palette without commands, ten rows at most.
    pub fn new() -> (p: Command)
        ensures
            p.wf(),
            !p.open,
            p.search@.len() == 0,
            p.labels@.len() == 0,
            p.max_items == 10,
            p.hover_index is None,
            p.filtered_indices@.len() == 0,
    {
        Command {
            open: false,
            search: String::new(),
            labels: Vec::new(),
            max_items: 10,
            hover_index: None,
            filtered_indices: Vec::new(),
        }
    }

    /// Opens or closes it (builder form).
    pub fn open(self, open: bool) -> (p: Command)
        requires
            self.wf(),
        ensures
            p.wf(),
            p.open == open,
            p.labels == self.labels,
            p.search == self.search,
            p.hover_index == self.hover_index,
    {
        let mut p = self;
        p.open = open;
        p
    }

    /// Adds a command.
    pub fn command(self, label: String) -> (p: Command)
        requires
            self.wf(),
        ensures
            p.wf(),
            p.labels@ == self.labels@.push(label),
            p.open == self.open,
            p.search == self.search,
            p.filtered_indices == self.filtered_indices,
    {
        let mut p = self;
        p.labels.push(label);
        p
    }

    /// Opens or closes it; opening starts with an empty search and no
    /// highlighted row.
    pub fn set_open(&mut self, open: bool)
        requires
            old(self).wf(),
        ensures
            final(self).wf(),
            final(self).open == open,
            final(self).labels == old(self).labels,
            final(self).filtered_indices == old(self).filtered_indices,
            open ==> final(self).search@.len() == 0 && final(self).hover_index is None,
            !open ==> final(self).search == old(self).search && final(self).hover_index == old(self).hover_index,
    {
        self.open = open;
        if open {
            self.search = String::new();
            self.hover_index = None;
        }
    }

    /// Recomputes the offered commands for the search.
    pub fn update_filtered(&mut self)
        requires
            old(self).wf(),
        ensures
            final(self).wf(),
            final(self).filtered_indices@ == filtered_spec(old(self).labels@, old(self).search@, old(self).max_items),
            final(self).labels == old(self).labels,
            final(self).search == old(self).search,
            final(self).open == old(self).open,
            final(self).hover_index == old(self).hover_index,
    {
        let found = filter_suggestions(&self.labels, &self.search, self.max_items);
        let _n = self.labels.len();
        proof {
            crate::autocomplete::lemma_offered_suggestions(self.labels@, self.search@, self.max_items);
        }
        self.filtered_indices = found;
    }

    /// A press while open: outside the palette (`inside` false) it closes;
    /// on an offered row (`row`) it closes and runs that command. An open
    /// palette handles every press; a closed one none.
    pub fn press(&mut self, inside: bool, row: Option<usize>) -> (r: PaletteReply)
        requires
            old(self).wf(),
        ensures
            final(self).wf(),
            final(self).labels == old(self).labels,
            final(self).search == old(self).search,
            final(self).filtered_indices == old(self).filtered_indices,
            final(self).hover_index == old(self).hover_index,
            !old(self).open ==> *final(self) == *old(self)
                && r == (PaletteReply { response: Response { status: Status::Ignored, cursor: None }, run: None }),
            old(self).open && !inside ==> !final(self).open
                && r == (PaletteReply { response: Response { status: Status::Consumed, cursor: None }, run: None }),
            old(self).open && inside ==> match offered_row(row, old(self).filtered_indices@.len() as int) {
                Some(i) => !final(self).open && r == (PaletteReply {
                    response: Response { status: Status::Consumed, cursor: None },
                    run: Some(old(self).filtered_indices@[i as int]),
                }),
                None => final(self).open && r == (PaletteReply {
                    response: Response { status: Status::Consumed, cursor: None },
                    run: None,
                }),
            },
    {
        if !self.open {
            return PaletteReply { response: Response::ignored(), run: None };
        }
        if !inside {
            self.open = false;
            return PaletteReply { response: Response::consumed(), run: None };
        }
        match row {
            Some(i) => {
                if i < self.filtered_indices.len() {
                    let cmd = self.filtered_indices[i];
                    self.open = false;
                    return PaletteReply { response: Response::consumed(), run: Some(cmd) };
                }
            },
            None => {},
        }
        PaletteReply { response: Response::consumed(), run: None }
    }

    /// The pointer moved while open: over the palette the offered row under
    /// it is highlighted (`row` is `None` above the rows).
    pub fn pointer_moved(&mut self, inside: bool, row: Option<usize>) -> (r: Response)
        requires
            old(self).wf(),
        ensures
            final(self).wf(),
            final(self).labels == old(self).labels,
            final(self).search == old(self).search,
            final(self).filtered_indices == old(self).filtered_indices,
            final(self).open == old(self).open,
            !old(self).open ==> *final(self) == *old(self) && r == (Response { status: Status::Ignored, cursor: None }),
            old(self).open && inside ==> final(self).hover_index == offered_row(row, old(self).filtered_indices@.len() as int)
                && r == (Response { status: Status::Ignored, cursor: Some(Cursor::Pointer) }),
            old(self).open && !inside ==> final(self).hover_index == old(self).hover_index
                && r == (Response { status: Status::Consumed, cursor: None }),
    {
        if !self.open {
            return Response::ignored();
        }
        if inside {
            self.hover_index = match row {
                Some(i) => if i < self.filtered_indices.len() { Some(i) } else { None },
                None => None,
            };
            return Response { status: Status::Ignored, cursor: Some(Cursor::Pointer) };
        }
        Response::consumed()
    }

    /// A typed character while open: added to the search unless it is a
    /// control character, which clears the highlight.
    pub fn char_typed(&mut self, ch: char) -> (r: Response)
        requires
            old(self).wf(),
        ensures
            final(self).wf(),
            final(self).labels == old(self).labels,
            final(self).open == old(self).open,
            final(self).filtered_indices == old(self).filtered_indices,
            !old(self).open ==> *final(self) == *old(self) && r == (Response { status: Status::Ignored, cursor: None }),
            old(self).open ==> r == (Response { status: Status::Consumed, cursor: None }),
            old(self).open && is_control_char(ch) ==> *final(self) == *old(self),
            old(self).open && !is_control_char(ch) ==> final(self).search@ == old(self).search@.push(ch)
                && final(self).hover_index is None,
    {
        if !self.open {
            return Response::ignored();
        }
        if !is_control(ch) {
            push_char(&mut self.search, ch);
            self.hover_index = None;
        }
        Response::consumed()
    }

    /// A pressed key while open: Backspace deletes from the search, Escape
    /// closes and clears it, Enter closes and runs the highlighted offered
    /// command, Down and Up move the highlight. An open palette handles
    /// every key.
    pub fn key_pressed(&mut self, key: Key) -> (r: PaletteReply)
        requires
            old(self).wf(),
        ensures
            final(self).wf(),
            final(self).labels == old(self).labels,
            final(self).filtered_indices == old(self).filtered_indices,
            !old(self).open ==> *final(self) == *old(self)
                && r == (PaletteReply { response: Response { status: Status::Ignored, cursor: None }, run: None }),
            old(self).open ==> r.response == (Response { status: Status::Consumed, cursor: None }),
            old(self).open && key == Key::Backspace ==> {
                let s = old(self).search@;
                &&& final(self).search@ == (if s.len() > 0 { s.drop_last() } else { s })
                &&& final(self).hover_index is None
                &&& final(self).open
                &&& r.run is None
            },
            old(self).open && key == Key::Escape ==> !final(self).open && final(self).search@.len() == 0
                && final(self).hover_index == old(self).hover_index && r.run is None,
            old(self).open && key == Key::Enter ==> match old(self).hover_index {
                Some(hi) if hi < old(self).filtered_indices@.len() => !final(self).open
                    && final(self).search == old(self).search
                    && r.run == Some(old(self).filtered_indices@[hi as int]),
                _ => *final(self) == *old(self) && r.run is None,
            },
            old(self).open && key == Key::Down ==> final(self).hover_index == hover_after_down(
                old(self).hover_index,
                old(self).filtered_indices@.len() as int,
            ) && final(self).search == old(self).search && final(self).open && r.run is None,
            old(self).open && key == Key::Up ==> final(self).hover_index == hover_after_up(old(self).hover_index)
                && final(self).search == old(self).search && final(self).open && r.run is None,
            old(self).open && (key == Key::Other || key == Key::Left || key == Key::Right || key == Key::Tab)
                ==> *final(self) == *old(self) && r.run is None,
    {
        if !self.open {
            return PaletteReply { response: Response::ignored(), run: None };
        }
        match key {
            Key::Backspace => {
                let _ = pop_char(&mut self.search);
                self.hover_index = None;
            },
            Key::Escape => {
                self.open = false;
                self.search = String::new();
            },
            Key::Enter => {
                match self.hover_index {
                    Some(hi) => {
                        if hi < self.filtered_indices.len() {
                            let cmd = self.filtered_indices[hi];
                            self.open = false;
                            return PaletteReply { response: Response::consumed(), run: Some(cmd) };
                        }
                    },
                    None => {},
                }
            },
            Key::Down => {
                self.hover_index = hover_down(self.hover_index, self.filtered_indices.len());
            },
            Key::Up => {
                self.hover_index = hover_up(self.hover_index);
            },
            _ => {},
        }
        PaletteReply { response: Response::consumed(), run: None }
    }
}

} // verus!
