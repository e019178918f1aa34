//! Page navigation (numbered buttons with previous and next) and a slide
//! carousel: which pages are shown and where a press moves to.
use vstd::prelude::*;

verus! {

/// First page button shown for `current` of `total` pages, `visible` buttons.
pub open spec fn first_shown(current: int, total: int, visible: int) -> int {
    let half = visible / 2;
    if current <= half + 1 {
        1
    } else if current + half > total {
        if total >= visible - 1 { total - (visible - 1) } else { 0 }
    } else {
        current - half
    }
}

/// Last page button shown.
pub open spec fn last_shown(current: int, total: int, visible: int) -> int {
    let e = first_shown(current, total, visible) + visible - 1;
    if e < total { e } else { total }
}

/// The page numbers shown, consecutive from `first_shown` to `last_shown`.
pub open spec fn shown_pages(current: int, total: int, visible: int) -> Seq<usize> {
    let s = first_shown(current, total, visible);
    let e = last_shown(current, total, visible);
    Seq::new(if e >= s { (e - s + 1) as nat } else { 0 }, |k: int| (s + k) as usize)
}

/// The computation of the shown pages stays within `usize`.
pub open spec fn pages_fit(current: usize, total: usize, visible: usize) -> bool {
    &&& visible >= 1
    &&& (current > visible / 2 + 1 ==> current + visible / 2 <= usize::MAX)
    &&& first_shown(current as int, total as int, visible as int) + visible - 1 <= usize::MAX
}

/// Numbered page navigation.
pub struct Pagination {
    pub current_page: usize,
    pub total_pages: usize,
    pub visible_pages: usize,
    /// The page numbers of the buttons, as the last layout computed them.
    pub displayed_pages: Vec<usize>,
}

/// Where a press on the navigation landed.
#[derive(Clone, Copy, Debug, PartialEq, Eq, Structural)]
pub enum PageHit {
    Prev,
    /// The `k`-th numbered button.
    Page(usize),
    Next,
    /// Between or beside the buttons.
    Nothing,
}

impl Pagination {
    /// Page counts are at least one.
    pub open spec fn wf(&self) -> bool {
        &&& self.current_page >= 1
        &&& self.total_pages >= 1
        &&& self.visible_pages >= 1
    }

    /// Page 1 of 1, five buttons.
    pub fn new() -> (p: Pagination)
        ensures
            p.wf(),
            p.current_page == 1,
            p.total_pages == 1,
            p.visible_pages == 5,
            p.displayed_pages@.len() == 0,
    {
        Pagination { current_page: 1, total_pages: 1, visible_pages: 5, displayed_pages: Vec::new() }
    }

    /// Sets the current page (at least 1).
    pub fn current_page(self, page: usize) -> (p: Pagination)
        requires
            self.wf(),
        ensures
            p.wf(),
            p.current_page == (if page >= 1 { page } else { 1 }),
            p.total_pages == self.total_pages,
            p.visible_pages == self.visible_pages,
            p.displayed_pages == self.displayed_pages,
    {
        let mut p = self;
        p.current_page = if page >= 1 { page } else { 1 };
        p
    }

    /// Sets the number of pages (at least 1).
    pub fn total_pages(self, total: usize) -> (p: Pagination)
        requires
            self.wf(),
        ensures
            p.wf(),
            p.total_pages == (if total >= 1 { total } else { 1 }),
            p.current_page == self.current_page,
            p.visible_pages == self.visible_pages,
            p.displayed_pages == self.displayed_pages,
    {
        let mut p = self;
        p.total_pages = if total >= 1 { total } else { 1 };
        p
    }

    /// Sets how many numbered buttons are shown (at least 1).
    pub fn visible_pages(self, count: usize) -> (p: Pagination)
        requires
            self.wf(),
        ensures
            p.wf(),
            p.visible_pages == (if count >= 1 { count } else { 1 }),
            p.current_page == self.current_page,
            p.total_pages == self.total_pages,
            p.displayed_pages == self.displayed_pages,
    {
        let mut p = self;
        p.visible_pages = if count >= 1 { count } else { 1 };
        p
    }

    /// The page numbers to show: a window of `visible_pages` consecutive
    /// pages around the current one, moved to stay within the pages.
    pub fn compute_displayed_pages(&self) -> (pages: Vec<usize>)
        requires
            pages_fit(self.current_page, self.total_pages, self.visible_pages),
        ensures
            pages@ == shown_pages(self.current_page as int, self.total_pages as int, self.visible_pages as int),
    {
        let half = self.visible_pages / 2;
        let start: usize = if self.current_page <= half + 1 {
            1
        } else if self.current_page + half > self.total_pages {
            if self.total_pages >= self.visible_pages - 1 {
                self.total_pages - (self.visible_pages - 1)
            } else {
                0
            }
        } else {
            self.current_page - half
        };
        assert(start == first_shown(self.current_page as int, self.total_pages as int, self.visible_pages as int));
        let e = start + (self.visible_pages - 1);
        let end = if e < self.total_pages { e } else { self.total_pages };
        let ghost want = shown_pages(self.current_page as int, self.total_pages as int, self.visible_pages as int);
        let mut pages: Vec<usize> = Vec::new();
        if start <= end {
            let mut p = start;
            while p <= end
                invariant_except_break
                    p <= end,
                    pages@ == want.take(p - start),
                invariant
                    start <= p,
                    end < usize::MAX || p <= end + 1,
                    p <= end + 1,
                    start == first_shown(self.current_page as int, self.total_pages as int, self.visible_pages as int),
                    end == last_shown(self.current_page as int, self.total_pages as int, self.visible_pages as int),
                    want == shown_pages(self.current_page as int, self.total_pages as int, self.visible_pages as int),
                    want.len() == end + 1 - start,
                ensures
                    pages@ == want,
                decreases end + 1 - p,
            {
                pages.push(p);
                assert(pages@ =~= want.take(p + 1 - start));
                if p == end {
                    assert(pages@ =~= want);
                    break;
                }
                p = p + 1;
            }
            assert(pages@ =~= want);
        } else {
            assert(pages@ =~= want);
        }
        pages
    }

    /// Recomputes the page buttons, as layout does.
    pub fn refresh(&mut self)
        requires
            pages_fit(old(self).current_page, old(self).total_pages, old(self).visible_pages),
        ensures
            final(self).displayed_pages@ == shown_pages(
                old(self).current_page as int,
                old(self).total_pages as int,
                old(self).visible_pages as int,
            ),
            final(self).current_page == old(self).current_page,
            final(self).total_pages == old(self).total_pages,
            final(self).visible_pages == old(self).visible_pages,
    {
        self.displayed_pages = self.compute_displayed_pages();
    }

    /// A press on the navigation. Previous and next move one page while
    /// there is one to move to; a numbered button goes to its page. Returns
    /// the page moved to, for the change callback.
    pub fn press(&mut self, hit: PageHit) -> (moved: Option<usize>)
        requires
            old(self).wf(),
        ensures
            final(self).wf(),
            final(self).total_pages == old(self).total_pages,
            final(self).visible_pages == old(self).visible_pages,
            final(self).displayed_pages == old(self).displayed_pages,
            moved == (match hit {
                PageHit::Prev => if old(self).current_page > 1 {
                    Some((old(self).current_page - 1) as usize)
                } else {
                    None
                },
                PageHit::Page(k) => if k < old(self).displayed_pages@.len() && old(self).displayed_pages@[k as int] >= 1 {
                    Some(old(self).displayed_pages@[k as int])
                } else {
                    None
                },
                PageHit::Next => if old(self).current_page < old(self).total_pages {
                    Some((old(self).current_page + 1) as usize)
                } else {
                    None
                },
                PageHit::Nothing => None,
            }),
            final(self).current_page == (match moved {
                Some(page) => page,
                None => old(self).current_page,
            }),
    {
        match hit {
            PageHit::Prev => {
                if self.current_page > 1 {
                    self.current_page = self.current_page - 1;
                    return Some(self.current_page);
                }
                None
            },
            PageHit::Page(k) => {
                if k < self.displayed_pages.len() && self.displayed_pages[k] >= 1 {
                    self.current_page = self.displayed_pages[k];
                    return Some(self.current_page);
                }
                None
            },
            PageHit::Next => {
                if self.current_page < self.total_pages {
                    self.current_page = self.current_page + 1;
                    return Some(self.current_page);
                }
                None
            },
            PageHit::Nothing => None,
        }
    }
}

/// The shown pages are consecutive, at most `visible` of them, end at or
/// before the last page, and include the current page whenever it is one of
/// the pages.
pub proof fn lemma_shown_pages(current: usize, total: usize, visible: usize)
    requires
        pages_fit(current, total, visible),
        total >= 1,
    ensures
        shown_pages(current as int, total as int, visible as int).len() <= visible,
        forall|k: int| 0 < k < shown_pages(current as int, total as int, visible as int).len() ==>
            #[trigger] shown_pages(current as int, total as int, visible as int)[k]
                == shown_pages(current as int, total as int, visible as int)[k - 1] + 1,
        forall|k: int| 0 <= k < shown_pages(current as int, total as int, visible as int).len() ==>
            #[trigger] shown_pages(current as int, total as int, visible as int)[k] <= total,
        1 <= current <= total ==> shown_pages(current as int, total as int, visible as int).contains(current),
{
    let pages = shown_pages(current as int, total as int, visible as int);
    let s = first_shown(current as int, total as int, visible as int);
    let e = last_shown(current as int, total as int, visible as int);
    if 1 <= current <= total {
        assert(s <= current <= e);
        assert(pages[current - s] == current);
    }
}

/// Where a press on a carousel landed, as far as the geometry tells: on the
/// previous or next arrow, on the dot of a slide, or elsewhere on the slide.
#[derive(Clone, Copy, Debug, PartialEq, Eq, Structural)]
pub enum CarouselHit {
    PrevArrow,
    NextArrow,
    Dot(usize),
    Slide,
}

/// What a press on a carousel did.
#[derive(Clone, Copy, Debug, PartialEq, Eq, Structural)]
pub enum CarouselPress {
    /// The arrows or dots handled it; `Some` with the new slide when the
    /// slide changed.
    Handled(Option<usize>),
    /// It goes on to the current slide's content.
    ToSlide,
}

/// Slides shown one at a time with arrows and dots.
pub struct Carousel {
    pub slide_count: usize,
    pub current: usize,
    /// The slide sliding out in the running transition.
    pub slide_from: usize,
    /// Direction of the running transition: 1 when the new slide enters from
    /// the right, -1 from the left, 0 before any.
    pub direction: i8,
    pub show_indicators: bool,
    pub show_arrows: bool,
}

impl Carousel {
    /// No slides, arrows and dots shown.
    pub fn new() -> (c: Carousel)
        ensures
            c.slide_count == 0,
            c.current == 0,
            c.slide_from == 0,
            c.direction == 0,
            c.show_indicators,
            c.show_arrows,
    {
        Carousel { slide_count: 0, current: 0, slide_from: 0, direction: 0, show_indicators: true, show_arrows: true }
    }

    /// Adds a slide at the end.
    pub fn slide(self) -> (c: Carousel)
        requires
            self.slide_count < usize::MAX,
        ensures
            c.slide_count == self.slide_count + 1,
            c.current == self.current,
            c.slide_from == self.slide_from,
            c.direction == self.direction,
            c.show_indicators == self.show_indicators,
            c.show_arrows == self.show_arrows,
    {
        let mut c = self;
        c.slide_count = c.slide_count + 1;
        c
    }

    /// Sets the current slide (not checked against the slides).
    pub fn current(self, index: usize) -> (c: Carousel)
        ensures
            c.current == index,
            c.slide_count == self.slide_count,
            c.slide_from == self.slide_from,
            c.direction == self.direction,
            c.show_indicators == self.show_indicators,
            c.show_arrows == self.show_arrows,
    {
        let mut c = self;
        c.current = index;
        c
    }

    /// Shows or hides the dots.
    pub fn show_indicators(self, show: bool) -> (c: Carousel)
        ensures
            c.show_indicators == show,
            c.slide_count == self.slide_count,
            c.current == self.current,
            c.show_arrows == self.show_arrows,
    {
        let mut c = self;
        c.show_indicators = show;
        c
    }

    /// Shows or hides the arrows.
    pub fn show_arrows(self, show: bool) -> (c: Carousel)
        ensures
            c.show_arrows == show,
            c.slide_count == self.slide_count,
            c.current == self.current,
            c.show_indicators == self.show_indicators,
    {
        let mut c = self;
        c.show_arrows = show;
        c
    }

    /// Goes to slide `index`, when it is another existing slide. Returns the
    /// new slide for the change callback.
    pub fn go_to(&mut self, index: usize) -> (moved: Option<usize>)
        ensures
            final(self).slide_count == old(self).slide_count,
            final(self).show_indicators == old(self).show_indicators,
            final(self).show_arrows == old(self).show_arrows,
            old(self).slide_count == 0 || index == old(self).current || index >= old(self).slide_count
                ==> *final(self) == *old(self) && moved is None,
            !(old(self).slide_count == 0 || index == old(self).current || index >= old(self).slide_count)
                ==> {
                &&& final(self).current == index
                &&& final(self).slide_from == old(self).current
                &&& final(self).direction == (if index > old(self).current { 1i8 } else { -1i8 })
                &&& moved == Some(index)
            },
    {
        if self.slide_count == 0 || index == self.current || index >= self.slide_count {
            return None;
        }
        self.slide_from = self.current;
        self.direction = if index > self.current { 1 } else { -1 };
        self.current = index;
        Some(index)
    }

    /// Goes to the previous slide, from the first to the last.
    pub fn prev(&mut self) -> (moved: Option<usize>)
        ensures
            final(self).slide_count == old(self).slide_count,
            final(self).show_indicators == old(self).show_indicators,
            final(self).show_arrows == old(self).show_arrows,
            old(self).slide_count == 0 ==> *final(self) == *old(self) && moved is None,
            old(self).slide_count > 0 ==> {
                let new = if old(self).current == 0 { old(self).slide_count - 1 } else { old(self).current - 1 };
                &&& final(self).current == new
                &&& final(self).slide_from == old(self).current
                &&& final(self).direction == -1i8
                &&& moved == Some(new as usize)
            },
    {
        if self.slide_count == 0 {
            return None;
        }
        let new = if self.current == 0 { self.slide_count - 1 } else { self.current - 1 };
        self.slide_from = self.current;
        self.direction = -1;
        self.current = new;
        Some(new)
    }

    /// Goes to the next slide, from the last to the first.
    pub fn next(&mut self) -> (moved: Option<usize>)
        requires
            old(self).current < usize::MAX,
        ensures
            final(self).slide_count == old(self).slide_count,
            final(self).show_indicators == old(self).show_indicators,
            final(self).show_arrows == old(self).show_arrows,
            old(self).slide_count == 0 ==> *final(self) == *old(self) && moved is None,
            old(self).slide_count > 0 ==> {
                let new = (old(self).current + 1) % (old(self).slide_count as int);
                &&& final(self).current == new
                &&& final(self).slide_from == old(self).current
                &&& final(self).direction == 1i8
                &&& moved == Some(new as usize)
            },
    {
        if self.slide_count == 0 {
            return None;
        }
        let new = (self.current + 1) % self.slide_count;
        self.slide_from = self.current;
        self.direction = 1;
        self.current = new;
        Some(new)
    }

    /// The dot for slide `i` is drawn and can be pressed: dots are shown and
    /// there is more than one slide.
    pub open spec fn dots_active(&self) -> bool {
        self.show_indicators && self.slide_count > 1
    }

    /// The arrows are drawn and can be pressed.
    pub open spec fn arrows_active(&self) -> bool {
        self.show_arrows && self.slide_count > 1
    }

    /// A press inside the carousel. Arrows, when shown, move one slide; a dot
    /// goes to its slide; anything else goes on to the current slide.
    pub fn press(&mut self, hit: CarouselHit) -> (r: CarouselPress)
        requires
            old(self).current < usize::MAX,
        ensures
            final(self).slide_count == old(self).slide_count,
            match hit {
                CarouselHit::PrevArrow if old(self).arrows_active() => {
                    let new = if old(self).current == 0 { old(self).slide_count - 1 } else { old(self).current - 1 };
                    final(self).current == new && r == CarouselPress::Handled(Some(new as usize))
                },
                CarouselHit::NextArrow if old(self).arrows_active() => {
                    let new = (old(self).current + 1) % (old(self).slide_count as int);
                    final(self).current == new && r == CarouselPress::Handled(Some(new as usize))
                },
                CarouselHit::Dot(i) if old(self).dots_active() && i < old(self).slide_count => {
                    &&& final(self).current == i
                    &&& r == CarouselPress::Handled(if i == old(self).current { None } else { Some(i) })
                },
                _ => *final(self) == *old(self) && r == CarouselPress::ToSlide,
            },
    {
        match hit {
            CarouselHit::PrevArrow => {
                if self.show_arrows && self.slide_count > 1 {
                    return CarouselPress::Handled(self.prev());
                }
                CarouselPress::ToSlide
            },
            CarouselHit::NextArrow => {
                if self.show_arrows && self.slide_count > 1 {
                    return CarouselPress::Handled(self.next());
                }
                CarouselPress::ToSlide
            },
            CarouselHit::Dot(i) => {
                if self.show_indicators && self.slide_count > 1 && i < self.slide_count {
                    return CarouselPress::Handled(self.go_to(i));
                }
                CarouselPress::ToSlide
            },
            CarouselHit::Slide => CarouselPress::ToSlide,
        }
    }
}

/// The next slide after the previous one, and the previous one after the
/// next one, is the slide one started from.
pub proof fn lemma_prev_next_undo(count: usize, current: usize)
    requires
        count > 0,
        current < count,
    ensures
        ({
            let p = if current == 0 { count - 1 } else { current - 1 };
            (p + 1) % (count as int) == current
        }),
        ({
            let n = (current + 1) % (count as int);
            (if n == 0 { count - 1 } else { n - 1 }) == current
        }),
{
    if current == 0 {
        vstd::arithmetic::div_mod::lemma_mod_self_0(count as int);
    } else {
        vstd::arithmetic::div_mod::lemma_small_mod(current as nat, count as nat);
    }
    if current + 1 < count {
        vstd::arithmetic::div_mod::lemma_small_mod((current + 1) as nat, count as nat);
    } else {
        vstd::arithmetic::div_mod::lemma_mod_self_0(count as int);
    }
}


/// A trail of links ending at the current page.
pub struct Breadcrumb {
    pub items: Vec<String>,
    pub separator: String,
}

impl Breadcrumb {
    /// An empty trail separated by `/`.
    pub fn new() -> (b: Breadcrumb)
        ensures
            b.items@.len() == 0,
            b.separator@ == "/"@,
    {
        Breadcrumb { items: Vec::new(), separator: String::from_str("/") }
    }

    /// Adds a link at the end.
    pub fn item(self, label: String) -> (b: Breadcrumb)
        ensures
            b.items@ == self.items@.push(label),
            b.separator == self.separator,
    {
        let mut b = self;
        b.items.push(label);
        b
    }

    /// A press on item `i`: every item but the last (the current page) is a
    /// link; returns the item for the click callback.
    pub fn item_pressed(&self, i: usize) -> (link: Option<usize>)
        ensures
            link == (if i + 1 < self.items@.len() { Some(i) } else { None::<usize> }),
    {
        if self.items.len() > 0 && i < self.items.len() - 1 {
            Some(i)
        } else {
            None
        }
    }
}

/// Which outer corners of button `i` of a group of `n` are rounded:
/// (left, right). A lone button keeps both, the first its left ones, the
/// last its right ones, the others none.
pub open spec fn rounded_sides(i: int, n: int) -> (bool, bool) {
    if n == 1 {
        (true, true)
    } else if i == 0 {
        (true, false)
    } else if i == n - 1 {
        (false, true)
    } else {
        (false, false)
    }
}

/// The rounded sides of button `i` of a group of `n`.
pub fn button_sides(i: usize, n: usize) -> (sides: (bool, bool))
    ensures
        sides == rounded_sides(i as int, n as int),
{
    if n == 1 {
        (true, true)
    } else if i == 0 {
        (true, false)
    } else if n > 0 && i == n - 1 {
        (false, true)
    } else {
        (false, false)
    }
}

} // verus!
