//! A text input with a dropdown of matching suggestions: what it shows and
//! how it answers clicks and keys.
use vstd::prelude::*;
use crate::events::{Cursor, Key, Response};
use crate::text::{
    chars_of, contains_chars, is_control, is_control_char, lowercase_of, occurs_in, pop_char,
    push_char, to_lowercase,
};

verus! {

/// Whether a suggestion is offered for the lowercased query `query`: every
/// suggestion is offered for an empty query, otherwise those whose lowercase
/// form contains the query.
pub open spec fn query_matches(suggestion: Seq<char>, query: Seq<char>) -> bool {
    query.len() == 0 || occurs_in(lowercase_of(suggestion), query)
}

/// Indices below `n` whose suggestion matches `query`, in increasing order.
pub open spec fn matching_indices(sugs: Seq<String>, query: Seq<char>, n: int) -> Seq<usize>
    decreases n,
{
    if n <= 0 {
        seq![]
    } else {
        let prev = matching_indices(sugs, query, n - 1);
        if query_matches(sugs[n - 1]@, query) {
            prev.push((n - 1) as usize)
        } else {
            prev
        }
    }
}

/// How many matches are kept: `max`, but one match even when `max` is zero
/// (the limit is checked after each match is taken).
pub open spec fn filter_cap(max: usize) -> int {
    if max == 0 { 1 } else { max as int }
}

/// The suggestions offered for `text`: the first matching indices, at most
/// `filter_cap(max)` of them.
pub open spec fn filtered_spec(sugs: Seq<String>, text: Seq<char>, max: usize) -> Seq<usize> {
    let all = matching_indices(sugs, lowercase_of(text), sugs.len() as int);
    if all.len() <= filter_cap(max) { all } else { all.take(filter_cap(max)) }
}

proof fn lemma_matching_prefix(sugs: Seq<String>, query: Seq<char>, j: int, n: int)
    requires
        0 <= j <= n,
    ensures
        matching_indices(sugs, query, j).len() <= matching_indices(sugs, query, n).len(),
        matching_indices(sugs, query, n).take(matching_indices(sugs, query, j).len() as int)
            == matching_indices(sugs, query, j),
    decreases n - j,
{
    if j < n {
        lemma_matching_prefix(sugs, query, j, n - 1);
        let a = matching_indices(sugs, query, j);
        let b = matching_indices(sugs, query, n - 1);
        let c = matching_indices(sugs, query, n);
        assert(c.take(a.len() as int) =~= b.take(a.len() as int));
    } else {
        let a = matching_indices(sugs, query, j);
        assert(a.take(a.len() as int) =~= a);
    }
}

proof fn lemma_matching_facts(sugs: Seq<String>, query: Seq<char>, n: int)
    requires
        0 <= n <= sugs.len(),
        sugs.len() <= usize::MAX,
    ensures
        matching_indices(sugs, query, n).len() <= n,
        forall|k: int| 0 <= k < matching_indices(sugs, query, n).len() ==> {
            let idx = #[trigger] matching_indices(sugs, query, n)[k];
            &&& idx < n
            &&& query_matches(sugs[idx as int]@, query)
        },
        forall|k1: int, k2: int|
            0 <= k1 < k2 < matching_indices(sugs, query, n).len() ==> matching_indices(sugs, query, n)[k1]
                < matching_indices(sugs, query, n)[k2],
    decreases n,
{
    if n > 0 {
        lemma_matching_facts(sugs, query, n - 1);
        let prev = matching_indices(sugs, query, n - 1);
        let cur = matching_indices(sugs, query, n);
        if query_matches(sugs[n - 1]@, query) {
            assert(cur == prev.push((n - 1) as usize));
            assert forall|k: int| 0 <= k < prev.len() implies #[trigger] cur[k] == prev[k] by {}
        } else {
            assert(cur == prev);
        }
    }
}

/// What is offered for a text: only suggestions that match it, each once, in
/// their order in the list, never more than the limit; and when no more
/// suggestions match than the limit allows, every matching one.
pub proof fn lemma_offered_suggestions(sugs: Seq<String>, text: Seq<char>, max: usize)
    requires
        sugs.len() <= usize::MAX,
    ensures
        filtered_spec(sugs, text, max).len() <= filter_cap(max),
        forall|k: int| 0 <= k < filtered_spec(sugs, text, max).len() ==> {
            let idx = #[trigger] filtered_spec(sugs, text, max)[k];
            &&& idx < sugs.len()
            &&& query_matches(sugs[idx as int]@, lowercase_of(text))
        },
        forall|k1: int, k2: int|
            0 <= k1 < k2 < filtered_spec(sugs, text, max).len() ==> filtered_spec(sugs, text, max)[k1]
                < filtered_spec(sugs, text, max)[k2],
        forall|i: int|
            0 <= i < sugs.len() && query_matches(sugs[i]@, lowercase_of(text))
                && matching_indices(sugs, lowercase_of(text), sugs.len() as int).len() <= filter_cap(max)
                ==> filtered_spec(sugs, text, max).contains(i as usize),
{
    let q = lowercase_of(text);
    let n = sugs.len() as int;
    lemma_matching_facts(sugs, q, n);
    let all = matching_indices(sugs, q, n);
    let out = filtered_spec(sugs, text, max);
    assert forall|k: int| 0 <= k < out.len() implies #[trigger] out[k] == all[k] by {}
    assert forall|i: int|
        0 <= i < sugs.len() && query_matches(sugs[i]@, q) && all.len() <= filter_cap(max)
        implies out.contains(i as usize) by {
        lemma_matching_complete(sugs, q, n, i);
    }
}

/// Law: matching ignores case: suggestions with the same lowercase form
/// are offered for the same texts, texts with the same lowercase form
/// offer the same suggestions, and an empty query offers every suggestion.
pub proof fn lemma_matching_ignores_case(a: Seq<char>, b: Seq<char>, t: Seq<char>, u: Seq<char>)
    ensures
        lowercase_of(a) == lowercase_of(b) ==> query_matches(a, lowercase_of(t)) == query_matches(b, lowercase_of(t)),
        lowercase_of(t) == lowercase_of(u) ==> query_matches(a, lowercase_of(t)) == query_matches(a, lowercase_of(u)),
        query_matches(a, Seq::empty()),
{
}

/// Law: as many suggestions are offered as match, but never more than the
/// limit `max`, and one even when `max` is zero; the offered ones are the
/// first matches in list order.
pub proof fn lemma_offered_count(sugs: Seq<String>, text: Seq<char>, max: usize)
    ensures
        ({
            let all = matching_indices(sugs, lowercase_of(text), sugs.len() as int);
            let limit: int = if max >= 1 { max as int } else { 1 };
            let out = filtered_spec(sugs, text, max);
            &&& out.len() == (if all.len() < limit { all.len() as int } else { limit })
            &&& out == all.take(out.len() as int)
        }),
{
    let all = matching_indices(sugs, lowercase_of(text), sugs.len() as int);
    let out = filtered_spec(sugs, text, max);
    if all.len() <= filter_cap(max) {
        assert(all.take(all.len() as int) =~= all);
    }
}

proof fn lemma_matching_complete(sugs: Seq<String>, query: Seq<char>, n: int, i: int)
    requires
        0 <= i < n <= sugs.len(),
        sugs.len() <= usize::MAX,
        query_matches(sugs[i]@, query),
    ensures
        matching_indices(sugs, query, n).contains(i as usize),
    decreases n,
{
    let prev = matching_indices(sugs, query, n - 1);
    let cur = matching_indices(sugs, query, n);
    if i == n - 1 {
        assert(cur == prev.push((n - 1) as usize));
        assert(cur[cur.len() - 1] == i as usize);
    } else {
        lemma_matching_complete(sugs, query, n - 1, i);
        let k = choose|k: int| 0 <= k < prev.len() && prev[k] == i as usize;
        if query_matches(sugs[n - 1]@, query) {
            assert(cur == prev.push((n - 1) as usize));
            assert(cur[k] == i as usize);
        }
    }
}

/// The indices of the suggestions that match `text`, case-insensitively, in
/// order, keeping at most `max` of them (one when `max` is zero).
pub fn filter_suggestions(suggestions: &Vec<String>, text: &String, max: usize) -> (r: Vec<usize>)
    ensures
        r@ == filtered_spec(suggestions@, text@, max),
{
    let lowered = to_lowercase(text.as_str());
    let query = chars_of(lowered.as_str());
    let ghost q = query@;
    let ghost sugs = suggestions@;
    let ghost all = matching_indices(sugs, q, sugs.len() as int);
    let empty = query.len() == 0;
    let mut found: Vec<usize> = Vec::new();
    let mut i: usize = 0;
    while i < suggestions.len()
        invariant_except_break
            q == lowercase_of(text@),
            query@ == q,
            empty == (q.len() == 0),
            sugs == suggestions@,
            all == matching_indices(sugs, q, sugs.len() as int),
            i <= suggestions.len(),
            found@ == matching_indices(sugs, q, i as int),
            found@.len() < filter_cap(max),
        ensures
            found@ == filtered_spec(suggestions@, text@, max),
        decreases suggestions.len() - i,
    {
        let hit = if empty {
            true
        } else {
            let sug: &str = suggestions[i].as_str();
            assert(sug@ == sugs[i as int]@);
            let low = to_lowercase(sug);
            let chars = chars_of(low.as_str());
            assert(chars@ == lowercase_of(sugs[i as int]@));
            let c = contains_chars(&chars, &query);
            assert(c == occurs_in(lowercase_of(sugs[i as int]@), q));
            c
        };
        assert(hit == query_matches(sugs[i as int]@, q));
        assert(matching_indices(sugs, q, i + 1) == if query_matches(sugs[i as int]@, q) {
            matching_indices(sugs, q, i as int).push(i)
        } else {
            matching_indices(sugs, q, i as int)
        });
        if hit {
            found.push(i);
            assert(found@ == matching_indices(sugs, q, i + 1));
            if found.len() >= max {
                proof {
                    lemma_matching_prefix(sugs, q, i + 1, sugs.len() as int);
                    assert(found@.len() == filter_cap(max));
                }
                break;
            }
        } else {
            assert(found@ == matching_indices(sugs, q, i + 1));
        }
        i = i + 1;
    }
    found
}

/// What the owner of an autocomplete input does after an event.
#[derive(Clone, Copy, Debug, PartialEq, Eq, Structural)]
pub struct AutoCompleteReply {
    /// The answer to the event.
    pub response: Response,
    /// `Some(true)` to animate the dropdown open, `Some(false)` closed.
    pub anim: Option<bool>,
    /// The text changed: the change callback gets the new text.
    pub changed: bool,
    /// A suggestion was chosen: the select callback gets its index.
    pub chosen: Option<usize>,
}

impl AutoCompleteReply {
    pub open spec fn quiet(r: Response) -> AutoCompleteReply {
        AutoCompleteReply { response: r, anim: None, changed: false, chosen: None }
    }
}

/// The state of a text input with a suggestion dropdown.
pub struct AutoComplete {
    pub suggestions: Vec<String>,
    pub text: String,
    pub placeholder: String,
    pub selected: Option<usize>,
    pub open: bool,
    pub focused: bool,
    pub max_suggestions: usize,
    pub filtered_indices: Vec<usize>,
    pub hover_index: Option<usize>,
    pub error: bool,
}

impl AutoComplete {
    /// Offered indices name suggestions.
    pub open spec fn wf(&self) -> bool {
        forall|k: int| 0 <= k < self.filtered_indices@.len()
            ==> #[trigger] self.filtered_indices@[k] < self.suggestions@.len()
    }

    /// An empty input with no suggestions, placeholder `"Search..."` and at
    /// most eight suggestions shown.
    pub fn new() -> (ac: AutoComplete)
        ensures
            ac.wf(),
            ac.suggestions@.len() == 0,
            ac.text@.len() == 0,
            ac.placeholder@ == "Search..."@,
            ac.selected is None,
            !ac.open,
            !ac.focused,
            ac.max_suggestions == 8,
            ac.filtered_indices@.len() == 0,
            ac.hover_index is None,
            !ac.error,
    {
        AutoComplete {
            suggestions: Vec::new(),
            text: String::new(),
            placeholder: String::from_str("Search..."),
            selected: None,
            open: false,
            focused: false,
            max_suggestions: 8,
            filtered_indices: Vec::new(),
            hover_index: None,
            error: false,
        }
    }

    /// Adds a suggestion at the end.
    pub fn suggestion(self, label: String) -> (ac: AutoComplete)
        ensures
            ac.suggestions@ == self.suggestions@.push(label),
            ac == (AutoComplete { suggestions: ac.suggestions, ..self }),
            self.wf() ==> ac.wf(),
    {
        let mut ac = self;
        ac.suggestions.push(label);
        ac
    }

    /// Replaces the suggestions.
    pub fn suggestions(self, suggestions: Vec<String>) -> (ac: AutoComplete)
        ensures
            ac == (AutoComplete { suggestions: suggestions, ..self }),
    {
        let mut ac = self;
        ac.suggestions = suggestions;
        ac
    }

    /// Sets the text.
    pub fn text(self, text: String) -> (ac: AutoComplete)
        ensures
            ac == (AutoComplete { text: text, ..self }),
    {
        let mut ac = self;
        ac.text = text;
        ac
    }

    /// Sets the placeholder shown while the text is empty.
    pub fn placeholder(self, text: String) -> (ac: AutoComplete)
        ensures
            ac == (AutoComplete { placeholder: text, ..self }),
    {
        let mut ac = self;
        ac.placeholder = text;
        ac
    }

    /// Sets how many suggestions are shown at most.
    pub fn max_suggestions(self, max: usize) -> (ac: AutoComplete)
        ensures
            ac == (AutoComplete { max_suggestions: max, ..self }),
    {
        let mut ac = self;
        ac.max_suggestions = max;
        ac
    }

    /// Turns the error state (red border) on or off.
    pub fn error(self, error: bool) -> (ac: AutoComplete)
        ensures
            ac == (AutoComplete { error: error, ..self }),
    {
        let mut ac = self;
        ac.error = error;
        ac
    }

    /// The text the input shows: the placeholder while the text is empty.
    pub fn display_text(&self) -> (s: String)
        ensures
            s@ == (if self.text@.len() == 0 { self.placeholder@ } else { self.text@ }),
    {
        if self.text.as_str().is_empty() {
            self.placeholder.clone()
        } else {
            self.text.clone()
        }
    }

    /// Recomputes which suggestions are offered for the current text.
    pub fn update_filtered(&mut self)
        ensures
            final(self).wf(),
            *final(self) == (AutoComplete { filtered_indices: final(self).filtered_indices, ..*old(self) }),
            final(self).filtered_indices@ == filtered_spec(
                old(self).suggestions@,
                old(self).text@,
                old(self).max_suggestions,
            ),
            final(self).suggestions == old(self).suggestions,
            final(self).text == old(self).text,
            final(self).hover_index == old(self).hover_index,
            final(self).selected == old(self).selected,
            final(self).open == old(self).open,
            final(self).focused == old(self).focused,
            final(self).max_suggestions == old(self).max_suggestions,
    {
        let found = filter_suggestions(&self.suggestions, &self.text, self.max_suggestions);
        let _count = self.suggestions.len();
        proof {
            let sugs = self.suggestions@;
            let q = lowercase_of(self.text@);
            lemma_matching_facts(sugs, q, sugs.len() as int);
            let all = matching_indices(sugs, q, sugs.len() as int);
            assert forall|k: int| 0 <= k < found@.len() implies #[trigger] found@[k] < sugs.len() by {
                assert(found@[k] == all[k]);
            }
        }
        self.filtered_indices = found;
    }

    /// Chooses the offered suggestion in row `row`: it becomes the text and
    /// the selection, and the dropdown closes.
    fn take_row(&mut self, row: usize) -> (r: AutoCompleteReply)
        requires
            old(self).wf(),
            row < old(self).filtered_indices@.len(),
        ensures
            final(self).wf(),
            ({
                let picked = old(self).filtered_indices@[row as int];
                &&& final(self).selected == Some(picked)
                &&& final(self).text@ == old(self).suggestions@[picked as int]@
                &&& !final(self).open
                &&& r == (AutoCompleteReply {
                    response: Response { status: crate::events::Status::Consumed, cursor: None },
                    anim: Some(false),
                    changed: false,
                    chosen: Some(picked),
                })
            }),
            final(self).suggestions == old(self).suggestions,
            final(self).filtered_indices == old(self).filtered_indices,
            final(self).hover_index == old(self).hover_index,
            final(self).focused == old(self).focused,
            final(self).max_suggestions == old(self).max_suggestions,
    {
        let picked = self.filtered_indices[row];
        self.selected = Some(picked);
        self.text = self.suggestions[picked].clone();
        self.open = false;
        AutoCompleteReply { response: Response::consumed(), anim: Some(false), changed: false, chosen: Some(picked) }
    }

    /// A released click on the input (`inside`) or elsewhere.
    ///
    /// Inside, the input takes focus and, when it has text or suggestions,
    /// opens; the cursor becomes a text cursor. Elsewhere it loses focus and
    /// closes.
    pub fn click(&mut self, inside: bool) -> (r: AutoCompleteReply)
        requires
            old(self).wf(),
        ensures
            final(self).wf(),
            final(self).text == old(self).text,
            final(self).suggestions == old(self).suggestions,
            final(self).filtered_indices == old(self).filtered_indices,
            final(self).hover_index == old(self).hover_index,
            final(self).selected == old(self).selected,
            final(self).focused == inside,
            inside ==> {
                let opens = old(self).text@.len() > 0 || old(self).suggestions@.len() > 0;
                &&& final(self).open == (old(self).open || opens)
                &&& r == (AutoCompleteReply {
                    response: Response { status: crate::events::Status::Consumed, cursor: Some(Cursor::Text) },
                    anim: if opens { Some(true) } else { None },
                    changed: false,
                    chosen: None,
                })
            },
            !inside ==> !final(self).open && r == (AutoCompleteReply {
                response: Response { status: crate::events::Status::Ignored, cursor: None },
                anim: Some(false),
                changed: false,
                chosen: None,
            }),
    {
        if inside {
            self.focused = true;
            let opens = !self.text.as_str().is_empty() || self.suggestions.len() > 0;
            if opens {
                self.open = true;
            }
            AutoCompleteReply {
                response: Response::consumed_with(Cursor::Text),
                anim: if opens { Some(true) } else { None },
                changed: false,
                chosen: None,
            }
        } else {
            self.focused = false;
            self.open = false;
            AutoCompleteReply { response: Response::ignored(), anim: Some(false), changed: false, chosen: None }
        }
    }

    /// The pointer moved, over the input (`inside`) or elsewhere.
    pub fn pointer_moved(&self, inside: bool) -> (r: Response)
        ensures
            r == (if inside {
                Response { status: crate::events::Status::Consumed, cursor: Some(Cursor::Text) }
            } else {
                Response { status: crate::events::Status::Ignored, cursor: None }
            }),
    {
        if inside {
            Response::consumed_with(Cursor::Text)
        } else {
            Response::ignored()
        }
    }

    /// A typed character. A focused input appends every character that is
    /// not a control character, offers the matching suggestions, opens when
    /// some match and closes otherwise, and clears selection and hover.
    pub fn char_typed(&mut self, ch: char) -> (r: AutoCompleteReply)
        requires
            old(self).wf(),
        ensures
            final(self).wf(),
            final(self).suggestions == old(self).suggestions,
            final(self).focused == old(self).focused,
            !old(self).focused || is_control_char(ch) ==> *final(self) == *old(self)
                && r == AutoCompleteReply::quiet(
                Response { status: crate::events::Status::Ignored, cursor: None },
            ),
            old(self).focused && !is_control_char(ch) ==> {
                let offered = filtered_spec(old(self).suggestions@, old(self).text@.push(ch), old(self).max_suggestions);
                &&& final(self).text@ == old(self).text@.push(ch)
                &&& final(self).filtered_indices@ == offered
                &&& final(self).open == (offered.len() > 0)
                &&& final(self).selected is None
                &&& final(self).hover_index is None
                &&& r == (AutoCompleteReply {
                    response: Response { status: crate::events::Status::Consumed, cursor: None },
                    anim: Some(offered.len() > 0),
                    changed: true,
                    chosen: None,
                })
            },
    {
        if !self.focused || is_control(ch) {
            return AutoCompleteReply { response: Response::ignored(), anim: None, changed: false, chosen: None };
        }
        push_char(&mut self.text, ch);
        self.hover_index = None;
        self.update_filtered();
        let any = self.filtered_indices.len() > 0;
        self.open = any;
        self.selected = None;
        AutoCompleteReply { response: Response::consumed(), anim: Some(any), changed: true, chosen: None }
    }

    /// A pressed key. Only a focused input reacts:
    /// - Backspace deletes the last character, offers the matching
    ///   suggestions, opens when some match and text is left, closes when the
    ///   text is empty, and clears selection and hover;
    /// - Escape closes;
    /// - Enter chooses the hovered row, if it is an offered one;
    /// - Down moves the hover one row down, stopping at the last offered row
    ///   (from no hover to the first row);
    /// - Up moves it one row up, stopping at the first.
    /// Other keys are not handled.
    pub fn key_pressed(&mut self, key: Key) -> (r: AutoCompleteReply)
        requires
            old(self).wf(),
        ensures
            final(self).wf(),
            final(self).suggestions == old(self).suggestions,
            final(self).focused == old(self).focused,
            !old(self).focused || key == Key::Other || key == Key::Left || key == Key::Right
                || key == Key::Tab ==> *final(self) == *old(self) && r == AutoCompleteReply::quiet(
                Response { status: crate::events::Status::Ignored, cursor: None },
            ),
            old(self).focused && key == Key::Backspace ==> {
                let text = old(self).text@;
                let new_text = if text.len() > 0 { text.drop_last() } else { text };
                let offered = filtered_spec(old(self).suggestions@, new_text, old(self).max_suggestions);
                &&& final(self).text@ == new_text
                &&& final(self).filtered_indices@ == offered
                &&& final(self).open == (if offered.len() > 0 && new_text.len() > 0 {
                    true
                } else if new_text.len() == 0 {
                    false
                } else {
                    old(self).open
                })
                &&& final(self).selected is None
                &&& final(self).hover_index is None
                &&& r == (AutoCompleteReply {
                    response: Response { status: crate::events::Status::Consumed, cursor: None },
                    anim: if offered.len() > 0 && new_text.len() > 0 {
                        Some(true)
                    } else if new_text.len() == 0 {
                        Some(false)
                    } else {
                        None
                    },
                    changed: true,
                    chosen: None,
                })
            },
            old(self).focused && key == Key::Escape ==> {
                &&& !final(self).open
                &&& final(self).text == old(self).text
                &&& final(self).selected == old(self).selected
                &&& final(self).hover_index == old(self).hover_index
                &&& final(self).filtered_indices == old(self).filtered_indices
                &&& r == (AutoCompleteReply {
                    response: Response { status: crate::events::Status::Consumed, cursor: None },
                    anim: Some(false),
                    changed: false,
                    chosen: None,
                })
            },
            old(self).focused && key == Key::Enter ==> match old(self).hover_index {
                Some(hi) if hi < old(self).filtered_indices@.len() => {
                    let picked = old(self).filtered_indices@[hi as int];
                    &&& final(self).selected == Some(picked)
                    &&& final(self).text@ == old(self).suggestions@[picked as int]@
                    &&& !final(self).open
                    &&& final(self).hover_index == old(self).hover_index
                    &&& r == (AutoCompleteReply {
                        response: Response { status: crate::events::Status::Consumed, cursor: None },
                        anim: Some(false),
                        changed: false,
                        chosen: Some(picked),
                    })
                },
                _ => *final(self) == *old(self) && r == AutoCompleteReply::quiet(
                    Response { status: crate::events::Status::Consumed, cursor: None },
                ),
            },
            old(self).focused && key == Key::Down ==> {
                let n = old(self).filtered_indices@.len();
                &&& final(self).hover_index == (if n == 0 {
                    old(self).hover_index
                } else {
                    match old(self).hover_index {
                        Some(i) => Some((if i + 1 < n - 1 { i + 1 } else { n - 1 }) as usize),
                        None => Some(0usize),
                    }
                })
                &&& final(self).text == old(self).text
                &&& final(self).open == old(self).open
                &&& final(self).selected == old(self).selected
                &&& r == AutoCompleteReply::quiet(
                    Response { status: crate::events::Status::Consumed, cursor: None },
                )
            },
            old(self).focused && key == Key::Up ==> {
                &&& final(self).hover_index == (match old(self).hover_index {
                    Some(i) => Some((if i > 0 { i - 1 } else { 0 }) as usize),
                    None => None,
                })
                &&& final(self).text == old(self).text
                &&& final(self).open == old(self).open
                &&& final(self).selected == old(self).selected
                &&& r == AutoCompleteReply::quiet(
                    Response { status: crate::events::Status::Consumed, cursor: None },
                )
            },
    {
        if !self.focused {
            return AutoCompleteReply { response: Response::ignored(), anim: None, changed: false, chosen: None };
        }
        match key {
            Key::Backspace => {
                let _ = pop_char(&mut self.text);
                self.hover_index = None;
                self.update_filtered();
                let mut anim: Option<bool> = None;
                if self.filtered_indices.len() > 0 && !self.text.as_str().is_empty() {
                    self.open = true;
                    anim = Some(true);
                } else if self.text.as_str().is_empty() {
                    self.open = false;
                    anim = Some(false);
                }
                self.selected = None;
                AutoCompleteReply { response: Response::consumed(), anim, changed: true, chosen: None }
            },
            Key::Escape => {
                self.open = false;
                AutoCompleteReply { response: Response::consumed(), anim: Some(false), changed: false, chosen: None }
            },
            Key::Enter => {
                match self.hover_index {
                    Some(hi) => {
                        if hi < self.filtered_indices.len() {
                            return self.take_row(hi);
                        }
                    },
                    None => {},
                }
                AutoCompleteReply { response: Response::consumed(), anim: None, changed: false, chosen: None }
            },
            Key::Down => {
                let n = self.filtered_indices.len();
                if n > 0 {
                    self.hover_index = match self.hover_index {
                        Some(i) => Some(if n >= 2 && i < n - 2 { i + 1 } else { n - 1 }),
                        None => Some(0),
                    };
                }
                AutoCompleteReply { response: Response::consumed(), anim: None, changed: false, chosen: None }
            },
            Key::Up => {
                match self.hover_index {
                    Some(i) => {
                        self.hover_index = Some(if i > 0 { i - 1 } else { 0 });
                    },
                    None => {},
                }
                AutoCompleteReply { response: Response::consumed(), anim: None, changed: false, chosen: None }
            },
            _ => AutoCompleteReply { response: Response::ignored(), anim: None, changed: false, chosen: None },
        }
    }

    /// A click while the dropdown is open. `row` is the dropdown row under
    /// the pointer, `None` when the pointer is outside the dropdown.
    ///
    /// A released click on an offered row chooses it. Any other released
    /// click closes the dropdown and takes the focus away. An open dropdown
    /// keeps every click from the widgets below; a closed one ignores it.
    pub fn overlay_click(&mut self, released: bool, row: Option<usize>) -> (r: AutoCompleteReply)
        requires
            old(self).wf(),
        ensures
            final(self).wf(),
            final(self).suggestions == old(self).suggestions,
            final(self).filtered_indices == old(self).filtered_indices,
            !old(self).open ==> *final(self) == *old(self) && r == AutoCompleteReply::quiet(
                Response { status: crate::events::Status::Ignored, cursor: None },
            ),
            old(self).open && !released ==> *final(self) == *old(self) && r == AutoCompleteReply::quiet(
                Response { status: crate::events::Status::Canceled, cursor: None },
            ),
            old(self).open && released ==> match row {
                Some(i) if i < old(self).filtered_indices@.len() => {
                    let picked = old(self).filtered_indices@[i as int];
                    &&& final(self).selected == Some(picked)
                    &&& final(self).text@ == old(self).suggestions@[picked as int]@
                    &&& !final(self).open
                    &&& final(self).focused == old(self).focused
                    &&& r == (AutoCompleteReply {
                        response: Response { status: crate::events::Status::Consumed, cursor: None },
                        anim: Some(false),
                        changed: false,
                        chosen: Some(picked),
                    })
                },
                _ => {
                    &&& !final(self).open
                    &&& !final(self).focused
                    &&& final(self).text == old(self).text
                    &&& final(self).selected == old(self).selected
                    &&& r == (AutoCompleteReply {
                        response: Response { status: crate::events::Status::Canceled, cursor: None },
                        anim: Some(false),
                        changed: false,
                        chosen: None,
                    })
                },
            },
    {
        if !self.open {
            return AutoCompleteReply { response: Response::ignored(), anim: None, changed: false, chosen: None };
        }
        if !released {
            return AutoCompleteReply { response: Response::canceled(), anim: None, changed: false, chosen: None };
        }
        match row {
            Some(i) => {
                if i < self.filtered_indices.len() {
                    return self.take_row(i);
                }
            },
            None => {},
        }
        self.open = false;
        self.focused = false;
        AutoCompleteReply { response: Response::canceled(), anim: Some(false), changed: false, chosen: None }
    }

    /// The pointer moved while the dropdown is open; `row` as in
    /// `overlay_click`. Over the dropdown the row under the pointer is
    /// hovered when it is an offered one (no row otherwise) and the cursor
    /// becomes a pointer; elsewhere nothing is hovered.
    pub fn overlay_moved(&mut self, row: Option<usize>) -> (r: Response)
        requires
            old(self).wf(),
        ensures
            final(self).wf(),
            final(self).text == old(self).text,
            final(self).suggestions == old(self).suggestions,
            final(self).filtered_indices == old(self).filtered_indices,
            final(self).open == old(self).open,
            final(self).selected == old(self).selected,
            !old(self).open ==> *final(self) == *old(self)
                && r == (Response { status: crate::events::Status::Ignored, cursor: None }),
            old(self).open ==> match row {
                Some(i) => {
                    &&& final(self).hover_index == (if i < old(self).filtered_indices@.len() {
                        Some(i)
                    } else {
                        None
                    })
                    &&& r == (Response { status: crate::events::Status::Consumed, cursor: Some(Cursor::Pointer) })
                },
                None => {
                    &&& final(self).hover_index is None
                    &&& r == (Response { status: crate::events::Status::Canceled, cursor: None })
                },
            },
    {
        if !self.open {
            return Response::ignored();
        }
        match row {
            Some(i) => {
                if i < self.filtered_indices.len() {
                    self.hover_index = Some(i);
                } else {
                    self.hover_index = None;
                }
                Response::consumed_with(Cursor::Pointer)
            },
            None => {
                self.hover_index = None;
                Response::canceled()
            },
        }
    }
}

} // verus!
