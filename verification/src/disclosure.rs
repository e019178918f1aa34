//! Widgets that show or hide content, or hold a checked state: accordion
//! sections, a collapsible panel and a checkbox.
use vstd::prelude::*;

verus! {

/// What a click on an accordion header did.
#[derive(Clone, Copy, Debug, PartialEq, Eq, Structural)]
pub struct SectionToggle {
    /// The clicked section.
    pub index: usize,
    /// Its new state; the change callback gets `(index, expanded)`.
    pub expanded: bool,
    /// The other sections were collapsed (and animate closed).
    pub others_collapsed: bool,
}

/// Sections with a title each, expanded or collapsed.
pub struct Accordion {
    pub titles: Vec<String>,
    pub expanded: Vec<bool>,
    pub allow_multiple: bool,
}

/// How many of `flags` are set.
pub open spec fn count_set(flags: Seq<bool>) -> nat
    decreases flags.len(),
{
    if flags.len() == 0 {
        0
    } else {
        count_set(flags.drop_last()) + if flags.last() { 1nat } else { 0nat }
    }
}

proof fn lemma_count_none(flags: Seq<bool>)
    requires
        forall|k: int| 0 <= k < flags.len() ==> !#[trigger] flags[k],
    ensures
        count_set(flags) == 0,
    decreases flags.len(),
{
    if flags.len() > 0 {
        lemma_count_none(flags.drop_last());
    }
}

proof fn lemma_count_one(flags: Seq<bool>, i: int)
    requires
        0 <= i < flags.len(),
        flags[i],
        forall|k: int| 0 <= k < flags.len() && k != i ==> !#[trigger] flags[k],
    ensures
        count_set(flags) == 1,
    decreases flags.len(),
{
    if i == flags.len() - 1 {
        lemma_count_none(flags.drop_last());
    } else {
        lemma_count_one(flags.drop_last(), i);
    }
}

proof fn lemma_count_clear(flags: Seq<bool>, i: int)
    requires
        0 <= i < flags.len(),
    ensures
        count_set(flags.update(i, false)) <= count_set(flags),
    decreases flags.len(),
{
    if i < flags.len() - 1 {
        lemma_count_clear(flags.drop_last(), i);
        assert(flags.update(i, false).drop_last() =~= flags.drop_last().update(i, false));
    } else {
        assert(flags.update(i, false).drop_last() =~= flags.drop_last());
    }
}

impl Accordion {
    /// One state per section.
    pub open spec fn wf(&self) -> bool {
        self.titles@.len() == self.expanded@.len()
    }

    /// No sections; one open section at a time.
    pub fn new() -> (a: Accordion)
        ensures
            a.wf(),
            a.titles@.len() == 0,
            !a.allow_multiple,
    {
        Accordion { titles: Vec::new(), expanded: Vec::new(), allow_multiple: false }
    }

    /// Adds a collapsed section.
    pub fn section(self, title: String) -> (a: Accordion)
        requires
            self.wf(),
        ensures
            a.wf(),
            a.titles@ == self.titles@.push(title),
            a.expanded@ == self.expanded@.push(false),
            a.allow_multiple == self.allow_multiple,
    {
        let mut a = self;
        a.titles.push(title);
        a.expanded.push(false);
        a
    }

    /// Expands section `index`, when there is one; other sections stay as
    /// they are.
    pub fn expanded(self, index: usize) -> (a: Accordion)
        requires
            self.wf(),
        ensures
            a.wf(),
            a.titles == self.titles,
            a.allow_multiple == self.allow_multiple,
            a.expanded@ == (if index < self.expanded@.len() {
                self.expanded@.update(index as int, true)
            } else {
                self.expanded@
            }),
    {
        let mut a = self;
        if index < a.expanded.len() {
            a.expanded.set(index, true);
        }
        a
    }

    /// Lets several sections be open at once, or not.
    pub fn allow_multiple(self, allow: bool) -> (a: Accordion)
        requires
            self.wf(),
        ensures
            a.wf(),
            a.allow_multiple == allow,
            a.titles == self.titles,
            a.expanded == self.expanded,
    {
        let mut a = self;
        a.allow_multiple = allow;
        a
    }

    /// A click on the header of section `i`: it opens or closes; opening it
    /// closes every other section unless several may be open.
    pub fn toggle(&mut self, i: usize) -> (t: SectionToggle)
        requires
            old(self).wf(),
            i < old(self).expanded@.len(),
        ensures
            final(self).wf(),
            final(self).titles == old(self).titles,
            final(self).allow_multiple == old(self).allow_multiple,
            ({
                let new_state = !old(self).expanded@[i as int];
                let closes = !old(self).allow_multiple && new_state;
                &&& final(self).expanded@.len() == old(self).expanded@.len()
                &&& final(self).expanded@[i as int] == new_state
                &&& forall|j: int| 0 <= j < old(self).expanded@.len() && j != i ==>
                    #[trigger] final(self).expanded@[j] == (if closes { false } else { old(self).expanded@[j] })
                &&& t == (SectionToggle { index: i, expanded: new_state, others_collapsed: closes })
            }),
    {
        let new_state = !self.expanded[i];
        let closes = !self.allow_multiple && new_state;
        if closes {
            let mut j: usize = 0;
            while j < self.expanded.len()
                invariant
                    j <= self.expanded@.len(),
                    self.expanded@.len() == old(self).expanded@.len(),
                    self.titles == old(self).titles,
                    self.allow_multiple == old(self).allow_multiple,
                    i < self.expanded@.len(),
                    self.expanded@[i as int] == old(self).expanded@[i as int],
                    forall|k: int| 0 <= k < j && k != i ==> !#[trigger] self.expanded@[k],
                    forall|k: int| j <= k < self.expanded@.len() ==> #[trigger] self.expanded@[k] == old(self).expanded@[k],
                decreases self.expanded@.len() - j,
            {
                if j != i {
                    self.expanded.set(j, false);
                }
                j = j + 1;
            }
        }
        self.expanded.set(i, new_state);
        SectionToggle { index: i, expanded: new_state, others_collapsed: closes }
    }
}

/// With one section open at a time, a click never leaves more than one
/// section open, if no more than one was open before.
pub proof fn lemma_single_open(before: Seq<bool>, after: Seq<bool>, i: int, allow_multiple: bool)
    requires
        !allow_multiple,
        0 <= i < before.len(),
        after.len() == before.len(),
        after[i] == !before[i],
        forall|j: int| 0 <= j < before.len() && j != i ==>
            #[trigger] after[j] == (if !before[i] { false } else { before[j] }),
        count_set(before) <= 1,
    ensures
        count_set(after) <= 1,
{
    if after[i] {
        lemma_count_one(after, i);
    } else {
        assert(after =~= before.update(i, false));
        lemma_count_clear(before, i);
    }
}

/// With several sections allowed open, two clicks on one header restore
/// every section.
pub proof fn lemma_toggle_twice(before: Seq<bool>, i: int)
    requires
        0 <= i < before.len(),
    ensures
        before.update(i, !before[i]).update(i, !before.update(i, !before[i])[i]) == before,
{
    assert(before.update(i, !before[i]).update(i, !before.update(i, !before[i])[i]) =~= before);
}

/// A panel with a header that shows or hides its content.
pub struct Collapsible {
    pub title: String,
    pub expanded: bool,
}

impl Collapsible {
    /// A collapsed panel titled `title`.
    pub fn new(title: String) -> (c: Collapsible)
        ensures
            c.title == title,
            !c.expanded,
    {
        Collapsible { title, expanded: false }
    }

    /// Sets whether it starts expanded.
    pub fn expanded(self, expanded: bool) -> (c: Collapsible)
        ensures
            c.expanded == expanded,
            c.title == self.title,
    {
        let mut c = self;
        c.expanded = expanded;
        c
    }

    /// A press on the header flips the panel; the toggle callback gets the
    /// new state.
    pub fn header_pressed(&mut self) -> (expanded: bool)
        ensures
            final(self).expanded == !old(self).expanded,
            final(self).title == old(self).title,
            expanded == final(self).expanded,
    {
        self.expanded = !self.expanded;
        self.expanded
    }
}

/// A checkbox, which a press flips unless it is disabled.
pub struct Checkbox {
    pub checked: bool,
    pub label: Option<String>,
    pub disabled: bool,
}

impl Checkbox {
    /// Unchecked, enabled, without label.
    pub fn new() -> (c: Checkbox)
        ensures
            !c.checked,
            c.label is None,
            !c.disabled,
    {
        Checkbox { checked: false, label: None, disabled: false }
    }

    /// Sets the state.
    pub fn checked(self, checked: bool) -> (c: Checkbox)
        ensures
            c.checked == checked,
            c.label == self.label,
            c.disabled == self.disabled,
    {
        let mut c = self;
        c.checked = checked;
        c
    }

    /// Sets the label.
    pub fn label(self, label: String) -> (c: Checkbox)
        ensures
            c.label == Some(label),
            c.checked == self.checked,
            c.disabled == self.disabled,
    {
        let mut c = self;
        c.label = Some(label);
        c
    }

    /// Enables or disables it.
    pub fn disabled(self, disabled: bool) -> (c: Checkbox)
        ensures
            c.disabled == disabled,
            c.checked == self.checked,
            c.label == self.label,
    {
        let mut c = self;
        c.disabled = disabled;
        c
    }

    /// A press on the box: an enabled box flips and reports the new state
    /// for the change callback; a disabled one ignores it.
    pub fn pressed(&mut self) -> (changed: Option<bool>)
        ensures
            final(self).label == old(self).label,
            final(self).disabled == old(self).disabled,
            old(self).disabled ==> final(self).checked == old(self).checked && changed is None,
            !old(self).disabled ==> final(self).checked == !old(self).checked && changed == Some(final(self).checked),
    {
        if self.disabled {
            return None;
        }
        self.checked = !self.checked;
        Some(self.checked)
    }
}

} // verus!
