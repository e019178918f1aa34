//! A table whose rows can be sorted by a column: the order of the rows,
//! the header labels, and what clicks on headers and rows do.
use vstd::prelude::*;
use crate::text::{chars_of, push_char, push_chars};

verus! {

/// Sort direction of a column.
#[derive(Clone, Copy, Debug, PartialEq, Eq, Structural)]
pub enum SortDirection {
    Unsorted,
    Ascending,
    Descending,
}

impl Default for SortDirection {
    fn default() -> (d: SortDirection)
        ensures
            d == SortDirection::Unsorted,
    {
        SortDirection::Unsorted
    }
}

/// The direction after another click on the sorted column:
/// none, ascending, descending, and round again.
pub open spec fn next_direction(d: SortDirection) -> SortDirection {
    match d {
        SortDirection::Unsorted => SortDirection::Ascending,
        SortDirection::Ascending => SortDirection::Descending,
        SortDirection::Descending => SortDirection::Unsorted,
    }
}

/// Lexicographic order of character sequences, by code point; a prefix
/// comes first. This is the order of `str`, whose UTF-8 bytes compare as
/// their code points do.
pub open spec fn lex_le(a: Seq<char>, b: Seq<char>) -> bool
    decreases a.len(),
{
    if a.len() == 0 {
        true
    } else if b.len() == 0 {
        false
    } else if a[0] != b[0] {
        a[0] < b[0]
    } else {
        lex_le(a.drop_first(), b.drop_first())
    }
}

pub(crate) proof fn lemma_lex_total(a: Seq<char>, b: Seq<char>)
    ensures
        lex_le(a, b) || lex_le(b, a),
    decreases a.len(),
{
    if a.len() > 0 && b.len() > 0 && a[0] == b[0] {
        lemma_lex_total(a.drop_first(), b.drop_first());
    }
}

pub(crate) proof fn lemma_lex_trans(a: Seq<char>, b: Seq<char>, c: Seq<char>)
    requires
        lex_le(a, b),
        lex_le(b, c),
    ensures
        lex_le(a, c),
    decreases a.len(),
{
    if a.len() > 0 && b.len() > 0 && c.len() > 0 && a[0] == b[0] && b[0] == c[0] {
        lemma_lex_trans(a.drop_first(), b.drop_first(), c.drop_first());
    }
}

pub(crate) proof fn lemma_lex_antisym(a: Seq<char>, b: Seq<char>)
    requires
        lex_le(a, b),
        lex_le(b, a),
    ensures
        a == b,
    decreases a.len(),
{
    if a.len() > 0 && b.len() > 0 {
        lemma_lex_antisym(a.drop_first(), b.drop_first());
        assert(a =~= seq![a[0]] + a.drop_first());
        assert(b =~= seq![b[0]] + b.drop_first());
    }
}

/// The text a row shows in a column, empty where the row is short.
pub open spec fn cell_text(rows: Seq<Vec<String>>, r: int, col: int) -> Seq<char> {
    if 0 <= col < rows[r]@.len() { rows[r]@[col]@ } else { Seq::empty() }
}

/// Row `a` may come before row `b` when sorting by `col` in direction `dir`
/// (ascending or descending).
pub open spec fn comes_before(rows: Seq<Vec<String>>, col: int, ascending: bool, a: int, b: int) -> bool {
    if ascending {
        lex_le(cell_text(rows, a, col), cell_text(rows, b, col))
    } else {
        lex_le(cell_text(rows, b, col), cell_text(rows, a, col))
    }
}

/// `order` lists each row below `n` exactly once.
pub open spec fn is_row_order(order: Seq<usize>, n: int) -> bool {
    &&& order.len() == n
    &&& forall|k: int| 0 <= k < order.len() ==> #[trigger] order[k] < n
    &&& forall|i: int, j: int| 0 <= i < j < order.len() ==> order[i] != order[j]
}

/// `order` is a stable sort of the rows by `col`: each row comes before
/// every later one, and rows with equal cells keep their order.
pub open spec fn is_stable_sort(rows: Seq<Vec<String>>, col: int, ascending: bool, order: Seq<usize>) -> bool {
    &&& is_row_order(order, rows.len() as int)
    &&& forall|i: int, j: int|
        0 <= i < j < order.len() ==> comes_before(rows, col, ascending, order[i] as int, order[j] as int)
    &&& forall|i: int, j: int|
        0 <= i < j < order.len() && comes_before(rows, col, ascending, order[j] as int, order[i] as int)
            ==> order[i] < order[j]
}

/// The rows in their own order.
pub open spec fn identity_order(n: int) -> Seq<usize> {
    Seq::new(n as nat, |k: int| k as usize)
}

/// Whether `a` comes no later than `b` lexicographically.
pub fn chars_le(a: &Vec<char>, b: &Vec<char>) -> (le: bool)
    ensures
        le == lex_le(a@, b@),
{
    let mut i: usize = 0;
    assert(a@.skip(0) =~= a@);
    assert(b@.skip(0) =~= b@);
    while i < a.len() && i < b.len()
        invariant
            i <= a.len(),
            i <= b.len(),
            lex_le(a@, b@) == lex_le(a@.skip(i as int), b@.skip(i as int)),
        decreases a.len() - i,
    {
        if a[i] != b[i] {
            let r = a[i] < b[i];
            assert(a@.skip(i as int)[0] == a@[i as int]);
            assert(b@.skip(i as int)[0] == b@[i as int]);
            return r;
        }
        assert(a@.skip(i as int).drop_first() =~= a@.skip(i + 1));
        assert(b@.skip(i as int).drop_first() =~= b@.skip(i + 1));
        i = i + 1;
    }
    i == a.len()
}

/// The rows' order, sorted stably by `col` in `direction`; in their own
/// order when nothing is sorted.
pub fn sort_rows(rows: &Vec<Vec<String>>, col: Option<usize>, direction: SortDirection) -> (order: Vec<usize>)
    ensures
        match (col, direction) {
            (Some(c), SortDirection::Ascending) => is_stable_sort(rows@, c as int, true, order@),
            (Some(c), SortDirection::Descending) => is_stable_sort(rows@, c as int, false, order@),
            _ => order@ == identity_order(rows@.len() as int),
        },
{
    let n = rows.len();
    let (c, ascending) = match (col, direction) {
        (Some(c), SortDirection::Ascending) => (c, true),
        (Some(c), SortDirection::Descending) => (c, false),
        _ => {
            let mut order: Vec<usize> = Vec::new();
            let mut r: usize = 0;
            while r < n
                invariant
                    n == rows@.len(),
                    r <= n,
                    order@ == identity_order(r as int),
                decreases n - r,
            {
                order.push(r);
                assert(order@ =~= identity_order(r + 1));
                r = r + 1;
            }
            return order;
        },
    };
    let mut keys: Vec<Vec<char>> = Vec::new();
    let mut r: usize = 0;
    while r < n
        invariant
            n == rows@.len(),
            r <= n,
            keys@.len() == r,
            forall|k: int| 0 <= k < r ==> #[trigger] keys@[k]@ == cell_text(rows@, k, c as int),
        decreases n - r,
    {
        let key = if c < rows[r].len() {
            chars_of(rows[r][c].as_str())
        } else {
            Vec::new()
        };
        keys.push(key);
        r = r + 1;
    }
    let ghost rs = rows@;
    let mut order: Vec<usize> = Vec::new();
    let mut r: usize = 0;
    while r < n
        invariant
            n == rs.len(),
            rs == rows@,
            r <= n,
            keys@.len() == n,
            forall|k: int| 0 <= k < n ==> #[trigger] keys@[k]@ == cell_text(rs, k, c as int),
            is_row_order(order@, r as int),
            forall|i: int, j: int|
                0 <= i < j < order@.len() ==> comes_before(rs, c as int, ascending, order@[i] as int, order@[j] as int),
            forall|i: int, j: int|
                0 <= i < j < order@.len() && comes_before(rs, c as int, ascending, order@[j] as int, order@[i] as int)
                    ==> order@[i] < order@[j],
        decreases n - r,
    {
        // Find the first row that must come after row `r`.
        let mut p: usize = 0;
        while p < order.len()
            invariant
                n == rs.len(),
                r < n,
                keys@.len() == n,
                forall|k: int| 0 <= k < n ==> #[trigger] keys@[k]@ == cell_text(rs, k, c as int),
                is_row_order(order@, r as int),
                p <= order@.len(),
                forall|k: int| 0 <= k < p ==> comes_before(rs, c as int, ascending, #[trigger] order@[k] as int, r as int),
                forall|i: int, j: int|
                    0 <= i < j < order@.len() ==> comes_before(rs, c as int, ascending, order@[i] as int, order@[j] as int),
                forall|i: int, j: int|
                    0 <= i < j < order@.len() && comes_before(rs, c as int, ascending, order@[j] as int, order@[i] as int)
                        ==> order@[i] < order@[j],
            ensures
                p <= order@.len(),
                p < order@.len() ==> !comes_before(rs, c as int, ascending, order@[p as int] as int, r as int),
            decreases order.len() - p,
        {
            let x = order[p];
            let le = if ascending { chars_le(&keys[x], &keys[r]) } else { chars_le(&keys[r], &keys[x]) };
            if !le {
                break;
            }
            p = p + 1;
        }
        let ghost old_order = order@;
        proof {
            // Every row from `p` on comes strictly after row `r`.
            assert forall|k: int| p <= k < old_order.len() implies
                !comes_before(rs, c as int, ascending, #[trigger] old_order[k] as int, r as int) by {
                let kp = cell_text(rs, old_order[p as int] as int, c as int);
                let kk = cell_text(rs, old_order[k] as int, c as int);
                let kr = cell_text(rs, r as int, c as int);
                if k > p {
                    assert(comes_before(rs, c as int, ascending, old_order[p as int] as int, old_order[k] as int));
                    if ascending {
                        if lex_le(kk, kr) {
                            lemma_lex_trans(kp, kk, kr);
                        }
                    } else {
                        if lex_le(kr, kk) {
                            lemma_lex_trans(kr, kk, kp);
                        }
                    }
                }
            }
        }
        order.insert(p, r);
        proof {
            let no = order@;
            assert(no =~= old_order.subrange(0, p as int).push(r).add(old_order.subrange(p as int, old_order.len() as int)));
            assert forall|k: int| 0 <= k < no.len() implies #[trigger] no[k] < r + 1 by {
                if k < p { assert(no[k] == old_order[k]); }
                else if k > p { assert(no[k] == old_order[k - 1]); }
            }
            assert forall|i: int, j: int| 0 <= i < j < no.len() implies no[i] != no[j] by {
                if i < p && j < p { assert(no[i] == old_order[i] && no[j] == old_order[j]); }
                else if i < p && j == p { assert(no[i] == old_order[i]); }
                else if i < p && j > p { assert(no[i] == old_order[i] && no[j] == old_order[j - 1]); }
                else if i == p { assert(no[j] == old_order[j - 1]); }
                else { assert(no[i] == old_order[i - 1] && no[j] == old_order[j - 1]); }
            }
            assert forall|i: int, j: int| 0 <= i < j < no.len() implies
                comes_before(rs, c as int, ascending, no[i] as int, no[j] as int) by {
                if i < p && j < p { assert(no[i] == old_order[i] && no[j] == old_order[j]); }
                else if i < p && j == p { assert(no[i] == old_order[i]); }
                else if i < p && j > p { assert(no[i] == old_order[i] && no[j] == old_order[j - 1]); }
                else if i == p {
                    assert(no[j] == old_order[j - 1]);
                    lemma_lex_total(cell_text(rs, r as int, c as int), cell_text(rs, no[j] as int, c as int));
                }
                else { assert(no[i] == old_order[i - 1] && no[j] == old_order[j - 1]); }
            }
            assert forall|i: int, j: int|
                0 <= i < j < no.len() && comes_before(rs, c as int, ascending, no[j] as int, no[i] as int)
                implies no[i] < no[j] by {
                if i < p && j < p { assert(no[i] == old_order[i] && no[j] == old_order[j]); }
                else if i < p && j == p { assert(no[i] == old_order[i]); }
                else if i < p && j > p { assert(no[i] == old_order[i] && no[j] == old_order[j - 1]); }
                else if i == p { assert(no[j] == old_order[j - 1]); }
                else { assert(no[i] == old_order[i - 1] && no[j] == old_order[j - 1]); }
            }
        }
        r = r + 1;
    }
    if ascending {
        assert(is_stable_sort(rows@, c as int, true, order@));
    } else {
        assert(is_stable_sort(rows@, c as int, false, order@));
    }
    order
}

/// A table of text cells whose rows can be sorted by a column.
pub struct DataTable {
    pub columns: Vec<String>,
    pub rows: Vec<Vec<String>>,
    /// Row indices in display order, as the last layout sorted them.
    pub sorted_indices: Vec<usize>,
    pub sort_column: Option<usize>,
    pub sort_direction: SortDirection,
    pub striped: bool,
}

impl DataTable {
    /// Every displayed index names a row.
    pub open spec fn wf(&self) -> bool {
        forall|k: int| 0 <= k < self.sorted_indices@.len() ==> #[trigger] self.sorted_indices@[k] < self.rows@.len()
    }

    /// No columns, no rows, unsorted, striped.
    pub fn new() -> (t: DataTable)
        ensures
            t.wf(),
            t.columns@.len() == 0,
            t.rows@.len() == 0,
            t.sorted_indices@.len() == 0,
            t.sort_column is None,
            t.sort_direction == SortDirection::Unsorted,
            t.striped,
    {
        DataTable {
            columns: Vec::new(),
            rows: Vec::new(),
            sorted_indices: Vec::new(),
            sort_column: None,
            sort_direction: SortDirection::Unsorted,
            striped: true,
        }
    }

    /// Adds a column.
    pub fn column(self, name: String) -> (t: DataTable)
        requires
            self.wf(),
        ensures
            t.wf(),
            t.columns@ == self.columns@.push(name),
            t.rows == self.rows,
            t.sorted_indices == self.sorted_indices,
            t.sort_column == self.sort_column,
            t.sort_direction == self.sort_direction,
    {
        let mut t = self;
        t.columns.push(name);
        t
    }

    /// Adds a row.
    pub fn row(self, row: Vec<String>) -> (t: DataTable)
        requires
            self.wf(),
        ensures
            t.wf(),
            t.rows@ == self.rows@.push(row),
            t.columns == self.columns,
            t.sorted_indices == self.sorted_indices,
            t.sort_column == self.sort_column,
            t.sort_direction == self.sort_direction,
    {
        let mut t = self;
        t.rows.push(row);
        t
    }

    /// Turns striping of alternate rows on or off.
    pub fn striped(self, striped: bool) -> (t: DataTable)
        requires
            self.wf(),
        ensures
            t.wf(),
            t.striped == striped,
            t.rows == self.rows,
            t.columns == self.columns,
            t.sorted_indices == self.sorted_indices,
    {
        let mut t = self;
        t.striped = striped;
        t
    }

    /// Puts the rows in display order: stably sorted by the sort column in
    /// the sort direction, or in their own order.
    pub fn apply_sort(&mut self)
        ensures
            final(self).wf(),
            final(self).rows == old(self).rows,
            final(self).columns == old(self).columns,
            final(self).sort_column == old(self).sort_column,
            final(self).sort_direction == old(self).sort_direction,
            match (old(self).sort_column, old(self).sort_direction) {
                (Some(c), SortDirection::Ascending) => is_stable_sort(old(self).rows@, c as int, true, final(self).sorted_indices@),
                (Some(c), SortDirection::Descending) => is_stable_sort(old(self).rows@, c as int, false, final(self).sorted_indices@),
                _ => final(self).sorted_indices@ == identity_order(old(self).rows@.len() as int),
            },
    {
        let order = sort_rows(&self.rows, self.sort_column, self.sort_direction);
        self.sorted_indices = order;
    }

    /// A click on the header of column `col`: the same column steps to the
    /// next direction, another column becomes the sort column, ascending.
    /// Returns the column and direction for the sort callback.
    pub fn header_click(&mut self, col: usize) -> (r: (usize, SortDirection))
        requires
            old(self).wf(),
        ensures
            final(self).wf(),
            final(self).rows == old(self).rows,
            final(self).sorted_indices == old(self).sorted_indices,
            final(self).sort_column == Some(col),
            final(self).sort_direction == (if old(self).sort_column == Some(col) {
                next_direction(old(self).sort_direction)
            } else {
                SortDirection::Ascending
            }),
            r == (col, final(self).sort_direction),
    {
        if self.sort_column == Some(col) {
            self.sort_direction = match self.sort_direction {
                SortDirection::Unsorted => SortDirection::Ascending,
                SortDirection::Ascending => SortDirection::Descending,
                SortDirection::Descending => SortDirection::Unsorted,
            };
        } else {
            self.sort_column = Some(col);
            self.sort_direction = SortDirection::Ascending;
        }
        (col, self.sort_direction)
    }

    /// A click on display row `display_idx`: the row it shows, for the row
    /// callback, when there is such a row.
    pub fn row_click(&self, display_idx: usize) -> (row: Option<usize>)
        ensures
            row == (if display_idx < self.sorted_indices@.len() {
                Some(self.sorted_indices@[display_idx as int])
            } else {
                None
            }),
    {
        if display_idx < self.sorted_indices.len() {
            Some(self.sorted_indices[display_idx])
        } else {
            None
        }
    }

    /// The label of column `i`'s header: its name, with `" ^"` when the
    /// table is sorted ascending by it and `" v"` when descending.
    pub fn header_label(&self, i: usize) -> (s: String)
        requires
            i < self.columns@.len(),
        ensures
            s@ == self.columns@[i as int]@ + (match (self.sort_column, self.sort_direction) {
                (Some(sc), SortDirection::Ascending) if sc == i => seq![' ', '^'],
                (Some(sc), SortDirection::Descending) if sc == i => seq![' ', 'v'],
                _ => Seq::<char>::empty(),
            }),
    {
        let mut s = String::new();
        let name = chars_of(self.columns[i].as_str());
        push_chars(&mut s, name.as_slice());
        let ghost base = s@;
        match (self.sort_column, self.sort_direction) {
            (Some(sc), SortDirection::Ascending) => {
                if sc == i {
                    push_char(&mut s, ' ');
                    push_char(&mut s, '^');
                }
            },
            (Some(sc), SortDirection::Descending) => {
                if sc == i {
                    push_char(&mut s, ' ');
                    push_char(&mut s, 'v');
                }
            },
            _ => {},
        }
        assert(s@ =~= self.columns@[i as int]@ + (match (self.sort_column, self.sort_direction) {
            (Some(sc), SortDirection::Ascending) if sc == i => seq![' ', '^'],
            (Some(sc), SortDirection::Descending) if sc == i => seq![' ', 'v'],
            _ => Seq::<char>::empty(),
        }));
        s
    }
}

/// Display rows to lay out: from `buffer` rows above the first visible one
/// to `buffer` rows below the last, within the rows.
pub fn visible_rows(first: usize, visible: usize, buffer: usize, row_count: usize) -> (range: (usize, usize))
    requires
        first + visible <= usize::MAX,
        (if first + visible < row_count { first + visible } else { row_count as int }) + buffer <= usize::MAX,
    ensures
        ({
            let last = if first + visible < row_count { first + visible } else { row_count as int };
            &&& range.0 == (if first >= buffer { first - buffer } else { 0 })
            &&& range.1 == (if last + buffer < row_count { last + buffer } else { row_count as int })
        }),
{
    let last = if first + visible < row_count { first + visible } else { row_count };
    let start = if first >= buffer { first - buffer } else { 0 };
    let end = if last + buffer < row_count { last + buffer } else { row_count };
    (start, end)
}

/// Each row comes before every later one, and rows with equal cells keep
/// their order.
pub open spec fn ordered_pairs(rows: Seq<Vec<String>>, col: int, ascending: bool, order: Seq<usize>) -> bool {
    &&& forall|i: int, j: int|
        0 <= i < j < order.len() ==> comes_before(rows, col, ascending, order[i] as int, order[j] as int)
    &&& forall|i: int, j: int|
        0 <= i < j < order.len() && comes_before(rows, col, ascending, order[j] as int, order[i] as int)
            ==> order[i] < order[j]
}

/// No row appears twice.
pub open spec fn distinct_rows(order: Seq<usize>) -> bool {
    forall|i: int, j: int| 0 <= i < j < order.len() ==> order[i] != order[j]
}

proof fn lemma_row_order_complete(order: Seq<usize>, n: int, x: int)
    requires
        is_row_order(order, n),
        0 <= x < n,
    ensures
        order.contains(x as usize),
{
    broadcast use vstd::seq_lib::seq_to_set_is_finite;
    let s = order.map_values(|v: usize| v as int);
    assert(s.no_duplicates()) by {
        assert forall|i: int, j: int| 0 <= i < s.len() && 0 <= j < s.len() && i != j implies s[i] != s[j] by {
            if i < j { assert(order[i] != order[j]); } else { assert(order[j] != order[i]); }
        }
    }
    s.unique_seq_to_set();
    vstd::set_lib::lemma_int_range(0, n);
    assert(s.to_set().subset_of(vstd::set_lib::set_int_range(0, n))) by {
        assert forall|v: int| s.to_set().contains(v) implies vstd::set_lib::set_int_range(0, n).contains(v) by {
            let i = choose|i: int| 0 <= i < s.len() && s[i] == v;
            assert(order[i] < n);
        }
    }
    vstd::set_lib::lemma_subset_equality(s.to_set(), vstd::set_lib::set_int_range(0, n));
    assert(vstd::set_lib::set_int_range(0, n).contains(x));
    assert(s.to_set().contains(x));
    let i = choose|i: int| 0 <= i < s.len() && s[i] == x;
    assert(order[i] == x as usize);
}

proof fn lemma_ordered_unique(rows: Seq<Vec<String>>, col: int, ascending: bool, a: Seq<usize>, b: Seq<usize>)
    requires
        a.len() == b.len(),
        distinct_rows(a),
        distinct_rows(b),
        forall|x: usize| a.contains(x) <==> b.contains(x),
        ordered_pairs(rows, col, ascending, a),
        ordered_pairs(rows, col, ascending, b),
    ensures
        a == b,
    decreases a.len(),
{
    if a.len() > 0 {
        let x = a[0];
        let y = b[0];
        if x != y {
            assert(a.contains(x));
            let j = choose|j: int| 0 <= j < b.len() && b[j] == x;
            assert(b.contains(y));
            let i = choose|i: int| 0 <= i < a.len() && a[i] == y;
            assert(j > 0 && i > 0);
            assert(comes_before(rows, col, ascending, x as int, y as int));
            assert(comes_before(rows, col, ascending, y as int, x as int));
            assert(y < x);
            assert(x < y);
        }
        let a2 = a.drop_first();
        let b2 = b.drop_first();
        assert forall|v: usize| a2.contains(v) <==> b2.contains(v) by {
            if a2.contains(v) {
                let k = choose|k: int| 0 <= k < a2.len() && a2[k] == v;
                assert(a[k + 1] == v && a[0] != v);
                assert(b.contains(v));
                let m = choose|m: int| 0 <= m < b.len() && b[m] == v;
                assert(m != 0);
                assert(b2[m - 1] == v);
            }
            if b2.contains(v) {
                let k = choose|k: int| 0 <= k < b2.len() && b2[k] == v;
                assert(b[k + 1] == v && b[0] != v);
                assert(a.contains(v));
                let m = choose|m: int| 0 <= m < a.len() && a[m] == v;
                assert(m != 0);
                assert(a2[m - 1] == v);
            }
        }
        assert forall|p: int, q: int| 0 <= p < q < a2.len() implies a2[p] != a2[q] by { assert(a[p + 1] != a[q + 1]); }
        assert forall|p: int, q: int| 0 <= p < q < b2.len() implies b2[p] != b2[q] by { assert(b[p + 1] != b[q + 1]); }
        assert forall|p: int, q: int| 0 <= p < q < a2.len() implies
            comes_before(rows, col, ascending, a2[p] as int, a2[q] as int) by { assert(a2[p] == a[p + 1] && a2[q] == a[q + 1]); }
        assert forall|p: int, q: int| 0 <= p < q < a2.len() && comes_before(rows, col, ascending, a2[q] as int, a2[p] as int)
            implies a2[p] < a2[q] by { assert(a2[p] == a[p + 1] && a2[q] == a[q + 1]); }
        assert forall|p: int, q: int| 0 <= p < q < b2.len() implies
            comes_before(rows, col, ascending, b2[p] as int, b2[q] as int) by { assert(b2[p] == b[p + 1] && b2[q] == b[q + 1]); }
        assert forall|p: int, q: int| 0 <= p < q < b2.len() && comes_before(rows, col, ascending, b2[q] as int, b2[p] as int)
            implies b2[p] < b2[q] by { assert(b2[p] == b[p + 1] && b2[q] == b[q + 1]); }
        lemma_ordered_unique(rows, col, ascending, a2, b2);
        assert(a =~= seq![x].add(a2));
        assert(b =~= seq![y].add(b2));
    }
}

/// Sorting the rows has one outcome: any two stable sorts of the same rows
/// by the same column and direction are the same order.
pub proof fn lemma_stable_sort_unique(rows: Seq<Vec<String>>, col: int, ascending: bool, a: Seq<usize>, b: Seq<usize>)
    requires
        is_stable_sort(rows, col, ascending, a),
        is_stable_sort(rows, col, ascending, b),
    ensures
        a == b,
{
    let n = rows.len() as int;
    assert forall|x: usize| a.contains(x) <==> b.contains(x) by {
        if a.contains(x) {
            let k = choose|k: int| 0 <= k < a.len() && a[k] == x;
            assert(a[k] < n);
            lemma_row_order_complete(b, n, x as int);
        }
        if b.contains(x) {
            let k = choose|k: int| 0 <= k < b.len() && b[k] == x;
            assert(b[k] < n);
            lemma_row_order_complete(a, n, x as int);
        }
    }
    lemma_ordered_unique(rows, col, ascending, a, b);
}

/// Three clicks on the sorted column bring its direction back.
pub proof fn lemma_direction_cycle(d: SortDirection)
    ensures
        next_direction(next_direction(next_direction(d))) == d,
        next_direction(d) != d,
{
}

/// The order of sorted rows is a total preorder: any two cells compare, and
/// comparing is transitive.
pub proof fn lemma_cell_order(a: Seq<char>, b: Seq<char>, c: Seq<char>)
    ensures
        lex_le(a, b) || lex_le(b, a),
        lex_le(a, b) && lex_le(b, c) ==> lex_le(a, c),
{
    lemma_lex_total(a, b);
    if lex_le(a, b) && lex_le(b, c) {
        lemma_lex_trans(a, b, c);
    }
}

} // verus!
