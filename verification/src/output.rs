//! Fixed-budget text tables: fixed columns keep their width, the flexible
//! column takes what is left of the budget, and cells are padded with spaces.
use vstd::prelude::*;
use vstd::string::*;
use crate::cli::SearchResult;
use crate::manifest::{
    opt_view, InstalledPlugin, Lockfile, PluginUpdateStatus, RegistryPluginSummary, RegistrySkillSummary,
    SkillRow,
};
use crate::text::{append_str, push_char, spaces, to_owned, ends_with, is_suffix};

verus! {

/// One column of a table.
pub struct Column {
    pub name: &'static str,
    pub width: usize,
    pub flexible: bool,
}

/// A table laid out within a character budget.
pub struct Table {
    budget: usize,
    columns: Vec<Column>,
    rows: Vec<Vec<String>>,
}

/// The text of each cell of a row.
pub open spec fn cells_view(r: Seq<String>) -> Seq<Seq<char>> {
    r.map_values(|s: String| s@)
}

/// `a - b`, or 0 when `b > a`.
pub open spec fn sat_sub(a: int, b: int) -> nat {
    if a >= b {
        (a - b) as nat
    } else {
        0
    }
}

/// `s` padded on the right with spaces to `w` characters; longer text is
/// kept whole.
pub open spec fn pad_right(s: Seq<char>, w: nat) -> Seq<char> {
    if s.len() >= w {
        s
    } else {
        s + spaces((w - s.len()) as nat)
    }
}

/// `s` cut to at most `max` characters, the cut marked by `...`.
pub open spec fn truncated(s: Seq<char>, max: nat) -> Seq<char> {
    if s.len() <= max {
        s
    } else {
        s.take(sat_sub(max as int, 3) as int) + "..."@
    }
}

/// Cut text is never longer than the limit when the limit leaves room for
/// the `...` mark, and text within the limit is kept whole.
pub proof fn lemma_truncated_fits(s: Seq<char>, max: nat)
    requires
        max >= 3,
    ensures
        truncated(s, max).len() <= max,
        s.len() <= max ==> truncated(s, max) == s,
{
    reveal_strlit("...");
}

/// Padding makes text exactly as wide as asked when it is not wider.
pub proof fn lemma_pad_right_len(s: Seq<char>, w: nat)
    requires
        s.len() <= w,
    ensures
        pad_right(s, w).len() == w,
        pad_right(s, w).subrange(0, s.len() as int) == s,
{
    if s.len() < w {
        assert(pad_right(s, w).subrange(0, s.len() as int) =~= s);
    } else {
        assert(s.subrange(0, s.len() as int) =~= s);
    }
}

/// The sum of the widths of the first `k` columns that are not flexible.
pub open spec fn fixed_sum(cols: Seq<Column>, k: int) -> nat
    decreases k,
{
    if k <= 0 {
        0
    } else {
        fixed_sum(cols, k - 1) + if cols[k - 1].flexible {
            0nat
        } else {
            cols[k - 1].width as nat
        }
    }
}

/// `a + b`, or `usize::MAX` when that overflows.
pub open spec fn sat_add(a: int, b: int) -> int {
    if a + b > usize::MAX {
        usize::MAX as int
    } else {
        a + b
    }
}

/// The line of `k` cells, each turned by `cell`, joined by single spaces.
pub open spec fn joined(cell: spec_fn(int) -> Seq<char>, k: int) -> Seq<char>
    decreases k,
{
    if k <= 0 {
        Seq::empty()
    } else if k == 1 {
        cell(0)
    } else {
        joined(cell, k - 1) + " "@ + cell(k - 1)
    }
}

impl Column {
    /// A column of fixed width.
    pub fn fixed(name: &'static str, width: usize) -> (r: Self)
        ensures
            r.name == name,
            r.width == width,
            !r.flexible,
    {
        Column { name, width, flexible: false }
    }

    /// A column that takes the budget left over by the fixed columns.
    pub fn flexible(name: &'static str, min_width: usize) -> (r: Self)
        ensures
            r.name == name,
            r.width == min_width,
            r.flexible,
    {
        Column { name, width: min_width, flexible: true }
    }
}

impl Table {
    /// The character budget.
    pub closed spec fn budget_view(&self) -> usize {
        self.budget
    }

    /// The columns, in order.
    pub closed spec fn columns_view(&self) -> Seq<Column> {
        self.columns@
    }

    /// The text of the rows' cells, in order.
    pub closed spec fn rows_view(&self) -> Seq<Seq<Seq<char>>> {
        self.rows@.map_values(|r: Vec<String>| cells_view(r@))
    }

    /// The total width of the fixed columns and the separators between all
    /// columns, saturating.
    pub open spec fn fixed_total(&self) -> int {
        sat_add(
            fixed_sum(self.columns_view(), self.columns_view().len() as int) as int,
            sat_sub(self.columns_view().len() as int, 1) as int,
        )
    }

    /// The width given to the flexible column: what is left, at least 1.
    pub open spec fn flex_width(&self) -> nat {
        let left = sat_sub(self.budget_view() as int, self.fixed_total());
        if left >= 1 {
            left
        } else {
            1
        }
    }

    /// The width of column `i`.
    pub open spec fn width_of(&self, i: int) -> nat {
        if self.columns_view()[i].flexible {
            self.flex_width()
        } else {
            self.columns_view()[i].width as nat
        }
    }

    /// Cell `i` of a row as it appears in the line: cut to the width when its
    /// column is flexible, then padded to the width. Cells beyond the last
    /// column take the last column's width.
    pub open spec fn cell_text(&self, cells: Seq<Seq<char>>, i: int) -> Seq<char> {
        let n = self.columns_view().len() as int;
        let w = self.width_of(if i < n - 1 { i } else { n - 1 });
        let text = if i < n && self.columns_view()[i].flexible {
            truncated(cells[i], w)
        } else {
            cells[i]
        };
        pad_right(text, w)
    }

    /// The line of a row.
    pub open spec fn line(&self, cells: Seq<Seq<char>>) -> Seq<char> {
        joined(|i: int| self.cell_text(cells, i), cells.len() as int)
    }

    /// The column names.
    pub open spec fn header(&self) -> Seq<Seq<char>> {
        self.columns_view().map_values(|c: Column| c.name@)
    }

    /// The width sum of the fixed columns does not overflow.
    pub open spec fn fits(&self) -> bool {
        fixed_sum(self.columns_view(), self.columns_view().len() as int) <= usize::MAX
    }

    /// A cell of a flexible column fills exactly the flexible width, however
    /// long its text, when that width leaves room for the `...` mark.
    pub proof fn lemma_flexible_cell_width(&self, cells: Seq<Seq<char>>, i: int)
        requires
            0 <= i < cells.len(),
            i < self.columns_view().len(),
            self.columns_view()[i].flexible,
            self.flex_width() >= 3,
        ensures
            self.cell_text(cells, i).len() == self.flex_width(),
    {
        lemma_truncated_fits(cells[i], self.flex_width());
        lemma_pad_right_len(truncated(cells[i], self.flex_width()), self.flex_width());
    }

    /// A cell of a fixed column whose text fits starts with that text and
    /// fills exactly the column's width.
    pub proof fn lemma_fixed_cell_width(&self, cells: Seq<Seq<char>>, i: int)
        requires
            0 <= i < cells.len(),
            i < self.columns_view().len(),
            !self.columns_view()[i].flexible,
            cells[i].len() <= self.columns_view()[i].width,
        ensures
            self.cell_text(cells, i).len() == self.columns_view()[i].width,
            self.cell_text(cells, i).subrange(0, cells[i].len() as int) == cells[i],
    {
        lemma_pad_right_len(cells[i], self.columns_view()[i].width as nat);
    }

    /// An empty table with the given budget.
    pub fn new(budget: usize) -> (r: Self)
        ensures
            r.budget_view() == budget,
            r.columns_view().len() == 0,
            r.rows_view().len() == 0,
    {
        Table { budget, columns: Vec::new(), rows: Vec::new() }
    }

    /// The table with `column` added after the others.
    pub fn column(self, column: Column) -> (r: Self)
        ensures
            r.budget_view() == self.budget_view(),
            r.columns_view() == self.columns_view().push(column),
            r.rows_view() == self.rows_view(),
    {
        let mut t = self;
        t.columns.push(column);
        t
    }

    /// Adds a row of cells.
    pub fn add_row(&mut self, cells: Vec<String>)
        ensures
            final(self).budget_view() == old(self).budget_view(),
            final(self).columns_view() == old(self).columns_view(),
            final(self).rows_view() == old(self).rows_view().push(cells_view(cells@)),
    {
        let ghost c = cells@;
        self.rows.push(cells);
        assert(self.rows_view() =~= old(self).rows_view().push(cells_view(c)));
    }

    /// Whether [`Table::format_rows`] may be called: the fixed widths sum
    /// within `usize`, and a table without columns has no cells.
    pub fn is_formattable(&self) -> (r: bool)
        ensures
            r == (self.fits() && (self.columns_view().len() > 0 || forall|i: int|
                0 <= i < self.rows_view().len() ==> #[trigger] self.rows_view()[i].len() == 0)),
    {
        let n = self.columns.len();
        let mut fixed: usize = 0;
        let mut k: usize = 0;
        while k < n
            invariant
                n == self.columns_view().len(),
                k <= n,
                fixed == fixed_sum(self.columns_view(), k as int),
            decreases n - k,
        {
            if !self.columns[k].flexible {
                match fixed.checked_add(self.columns[k].width) {
                    Some(f) => {
                        fixed = f;
                    },
                    None => {
                        proof {
                            assert(self.columns_view()[k as int] == self.columns@[k as int]);
                            assert(fixed_sum(self.columns_view(), k as int + 1) == fixed + self.columns@[k as int].width);
                            lemma_fixed_sum_monotone(self.columns_view(), k as int + 1, n as int);
                        }
                        return false;
                    },
                }
            }
            k = k + 1;
        }
        if n > 0 {
            return true;
        }
        let mut i: usize = 0;
        while i < self.rows.len()
            invariant
                i <= self.rows_view().len(),
                self.rows_view().len() == self.rows@.len(),
                self.columns_view().len() == 0,
                self.fits(),
                forall|q: int| 0 <= q < i ==> #[trigger] self.rows_view()[q].len() == 0,
            decreases self.rows@.len() - i,
        {
            assert(self.rows_view()[i as int] == cells_view(self.rows@[i as int]@));
            if self.rows[i].len() > 0 {
                assert(self.rows_view()[i as int].len() > 0);
                return false;
            }
            i = i + 1;
        }
        true
    }

    /// The lines of the table: the header, a rule as wide as the fixed
    /// columns and separators, then one line per row.
    pub fn format_rows(&self) -> (r: Vec<String>)
        requires
            self.fits(),
            self.columns_view().len() > 0 || forall|i: int|
                0 <= i < self.rows_view().len() ==> #[trigger] self.rows_view()[i].len() == 0,
        ensures
            r@.len() == self.rows_view().len() + 2,
            r@[0]@ == self.line(self.header()),
            r@[1]@ == Seq::new(self.fixed_total() as nat, |i: int| '-'),
            forall|i: int|
                0 <= i < self.rows_view().len() ==> #[trigger] r@[i + 2]@ == self.line(
                    self.rows_view()[i],
                ),
    {
        let n = self.columns.len();
        let mut fixed: usize = 0;
        let mut k: usize = 0;
        while k < n
            invariant
                n == self.columns_view().len(),
                k <= n,
                self.fits(),
                fixed == fixed_sum(self.columns_view(), k as int),
            decreases n - k,
        {
            proof {
                lemma_fixed_sum_monotone(self.columns_view(), k as int + 1, n as int);
            }
            if !self.columns[k].flexible {
                fixed = fixed + self.columns[k].width;
            }
            k = k + 1;
        }
        let seps: usize = if n > 0 { n - 1 } else { 0 };
        let fixed_total: usize = fixed.saturating_add(seps);
        let left: usize = self.budget.saturating_sub(fixed_total);
        let flex_width: usize = if left >= 1 { left } else { 1 };
        let mut widths: Vec<usize> = Vec::new();
        let mut j: usize = 0;
        while j < n
            invariant
                n == self.columns_view().len(),
                j <= n,
                flex_width == self.flex_width(),
                widths@.len() == j,
                forall|m: int| 0 <= m < j ==> widths@[m] == self.width_of(m),
            decreases n - j,
        {
            if self.columns[j].flexible {
                widths.push(flex_width);
            } else {
                widths.push(self.columns[j].width);
            }
            j = j + 1;
        }
        let mut header: Vec<String> = Vec::new();
        let mut h: usize = 0;
        while h < n
            invariant
                n == self.columns_view().len(),
                h <= n,
                cells_view(header@) == self.header().take(h as int),
            decreases n - h,
        {
            let name = to_owned(self.columns[h].name);
            let ghost prev = header@;
            header.push(name);
            assert(header@ == prev.push(name));
            assert(cells_view(header@) =~= cells_view(prev).push(name@));
            assert(self.header()[h as int] == self.columns_view()[h as int].name@);
            h = h + 1;
            assert(cells_view(header@) =~= self.header().take(h as int));
        }
        assert(self.header().take(n as int) =~= self.header());
        let mut out: Vec<String> = Vec::new();
        out.push(self.format_row(&header, &widths));
        let mut rule = String::new();
        let mut d: usize = 0;
        while d < fixed_total
            invariant
                d <= fixed_total,
                rule@ == Seq::new(d as nat, |i: int| '-'),
            decreases fixed_total - d,
        {
            push_char(&mut rule, '-');
            d = d + 1;
            assert(rule@ =~= Seq::new(d as nat, |i: int| '-'));
        }
        out.push(rule);
        let mut i: usize = 0;
        while i < self.rows.len()
            invariant
                n == self.columns_view().len(),
                widths@.len() == n,
                forall|m: int| 0 <= m < n ==> widths@[m] == self.width_of(m),
                n > 0 || forall|q: int|
                    0 <= q < self.rows_view().len() ==> #[trigger] self.rows_view()[q].len() == 0,
                i <= self.rows@.len(),
                out@.len() == i + 2,
                out@[0]@ == self.line(self.header()),
                out@[1]@ == Seq::new(self.fixed_total() as nat, |q: int| '-'),
                forall|q: int| 0 <= q < i ==> #[trigger] out@[q + 2]@ == self.line(self.rows_view()[q]),
            decreases self.rows@.len() - i,
        {
            assert(self.rows_view()[i as int] == cells_view(self.rows@[i as int]@));
            let line = self.format_row(&self.rows[i], &widths);
            out.push(line);
            i = i + 1;
        }
        out
    }

    /// The line of one row, given the column widths.
    fn format_row(&self, cells: &Vec<String>, widths: &Vec<usize>) -> (r: String)
        requires
            widths@.len() == self.columns_view().len(),
            forall|m: int| 0 <= m < widths@.len() ==> widths@[m] == self.width_of(m),
            cells@.len() == 0 || widths@.len() > 0,
        ensures
            r@ == self.line(cells_view(cells@)),
    {
        let ghost cv = cells_view(cells@);
        let ghost f = |q: int| self.cell_text(cv, q);
        let mut out = String::new();
        let mut i: usize = 0;
        while i < cells.len()
            invariant
                widths@.len() == self.columns_view().len(),
                forall|m: int| 0 <= m < widths@.len() ==> widths@[m] == self.width_of(m),
                cells@.len() == 0 || widths@.len() > 0,
                cv == cells_view(cells@),
                f == (|q: int| self.cell_text(cv, q)),
                i <= cells@.len(),
                out@ == joined(f, i as int),
            decreases cells@.len() - i,
        {
            let ghost before = out@;
            if i > 0 {
                append_str(&mut out, " ");
            }
            let last = widths.len() - 1;
            let wi = if i < last { i } else { last };
            let w = widths[wi];
            let flexible = i < self.columns.len() && self.columns[i].flexible;
            let text = if flexible {
                truncate_to(cells[i].as_str(), w)
            } else {
                to_owned(cells[i].as_str())
            };
            let padded = pad_to(text.as_str(), w);
            append_str(&mut out, padded.as_str());
            proof {
                assert(cv[i as int] == cells@[i as int]@);
                assert(padded@ == f(i as int));
                if i > 0 {
                    assert(out@ =~= joined(f, i as int) + " "@ + f(i as int));
                } else {
                    assert(out@ =~= f(0));
                }
            }
            i = i + 1;
        }
        out
    }
}

/// The sum of fixed widths grows with the number of columns counted.
pub proof fn lemma_fixed_sum_monotone(cols: Seq<Column>, a: int, b: int)
    requires
        a <= b,
    ensures
        fixed_sum(cols, a) <= fixed_sum(cols, b),
    decreases b - a,
{
    if a < b {
        lemma_fixed_sum_monotone(cols, a, b - 1);
    }
}

/// Two lines of `k` cells agree when their cells agree.
pub proof fn lemma_joined_agree(f: spec_fn(int) -> Seq<char>, g: spec_fn(int) -> Seq<char>, k: int)
    requires
        forall|i: int| 0 <= i < k ==> #[trigger] f(i) == g(i),
    ensures
        joined(f, k) == joined(g, k),
    decreases k,
{
    if k > 1 {
        lemma_joined_agree(f, g, k - 1);
    }
}

/// The sum of fixed widths of the first `k` columns depends on those
/// columns only.
pub proof fn lemma_fixed_sum_agree(a: Seq<Column>, b: Seq<Column>, k: int)
    requires
        k <= a.len(),
        k <= b.len(),
        forall|i: int| 0 <= i < k ==> a[i] == b[i],
    ensures
        fixed_sum(a, k) == fixed_sum(b, k),
    decreases k,
{
    if k > 0 {
        lemma_fixed_sum_agree(a, b, k - 1);
    }
}

/// Adding a fixed column to a table whose columns are all fixed (see
/// [`Table::column`]) extends the header line by one space and the new
/// column's name padded to its width, lengthens the rule under it by the
/// column's width and one separator, and keeps the rows, provided the fixed
/// widths and separators still sum within `usize`.
pub proof fn lemma_add_fixed_column(t0: Table, t1: Table, c: Column)
    requires
        t0.columns_view().len() >= 1,
        forall|i: int| 0 <= i < t0.columns_view().len() ==> !(#[trigger] t0.columns_view()[i]).flexible,
        !c.flexible,
        t1.budget_view() == t0.budget_view(),
        t1.columns_view() == t0.columns_view().push(c),
        t1.rows_view() == t0.rows_view(),
        fixed_sum(t0.columns_view(), t0.columns_view().len() as int) + c.width + t0.columns_view().len()
            <= usize::MAX,
    ensures
        t1.fits(),
        t1.line(t1.header()) == t0.line(t0.header()) + " "@ + pad_right(c.name@, c.width as nat),
        t1.fixed_total() == t0.fixed_total() + c.width + 1,
        Seq::new(t1.fixed_total() as nat, |i: int| '-').len() == Seq::new(t0.fixed_total() as nat, |i: int| '-').len()
            + c.width + 1,
        t1.rows_view().len() == t0.rows_view().len(),
{
    let k = t0.columns_view().len() as int;
    let c0 = t0.columns_view();
    let c1 = t1.columns_view();
    let h0 = t0.header();
    let h1 = t1.header();
    assert(h1 =~= h0.push(c.name@));
    lemma_fixed_sum_agree(c0, c1, k);
    assert(fixed_sum(c1, k + 1) == fixed_sum(c0, k) + c.width);
    let f0 = |i: int| t0.cell_text(h0, i);
    let f1 = |i: int| t1.cell_text(h1, i);
    assert forall|i: int| 0 <= i < k implies #[trigger] f1(i) == f0(i) by {
        assert(c1[i] == c0[i]);
        assert(!c0[i].flexible);
        assert(h1[i] == h0[i]);
        assert(t0.width_of(i) == c0[i].width);
        assert(t1.width_of(i) == c0[i].width);
    }
    lemma_joined_agree(f1, f0, k);
    assert(c1[k] == c);
    assert(h1[k] == c.name@);
    assert(t1.width_of(k) == c.width);
    assert(f1(k) == pad_right(c.name@, c.width as nat));
    assert(t1.line(h1) == joined(f1, k + 1));
    assert(t0.line(h0) == joined(f0, k));
}

/// `s` padded on the right with spaces to `w` characters.
pub fn pad_to(s: &str, w: usize) -> (r: String)
    ensures
        r@ == pad_right(s@, w as nat),
{
    let n = s.unicode_len();
    let mut r = to_owned(s);
    if n >= w {
        return r;
    }
    let mut k: usize = n;
    while k < w
        invariant
            n == s@.len(),
            n <= k <= w,
            r@ == s@ + spaces((k - n) as nat),
        decreases w - k,
    {
        push_char(&mut r, ' ');
        k = k + 1;
        assert(r@ =~= s@ + spaces((k - n) as nat));
    }
    r
}

/// `s` cut to at most `max_chars` characters; a cut text ends in `...`.
pub fn truncate_to(s: &str, max_chars: usize) -> (r: String)
    ensures
        r@ == truncated(s@, max_chars as nat),
{
    let n = s.unicode_len();
    if n <= max_chars {
        return to_owned(s);
    }
    let keep = max_chars.saturating_sub(3);
    let head = s.substring_char(0, keep);
    let mut r = to_owned(head);
    append_str(&mut r, "...");
    assert(s@.subrange(0, keep as int) =~= s@.take(keep as int));
    r
}

/// `s` cut to at most `max_chars` characters for display; a cut text ends in
/// `...`.
pub fn truncate_display(s: &str, max_chars: usize) -> (r: String)
    ensures
        r@ == truncated(s@, max_chars as nat),
{
    truncate_to(s, max_chars)
}

/// The label of the builds a plugin offers.
pub open spec fn builds_label(has_wasm: bool, has_native: bool) -> Seq<char> {
    if has_wasm && has_native {
        "wasm, native"@
    } else if has_wasm {
        "wasm"@
    } else if has_native {
        "native"@
    } else {
        "-"@
    }
}

/// The label of the builds a plugin offers.
pub fn builds_label_exec(has_wasm: bool, has_native: bool) -> (r: String)
    ensures
        r@ == builds_label(has_wasm, has_native),
{
    if has_wasm && has_native {
        to_owned("wasm, native")
    } else if has_wasm {
        to_owned("wasm")
    } else if has_native {
        to_owned("native")
    } else {
        to_owned("-")
    }
}

/// The text of an optional string, or `-`.
pub open spec fn or_dash(o: Option<Seq<char>>) -> Seq<char> {
    match o {
        Some(s) => s,
        None => "-"@,
    }
}

/// The text of an optional string, or `-`.
pub fn or_dash_exec(o: Option<&str>) -> (r: String)
    ensures
        r@ == or_dash(
            match o {
                Some(s) => Some(s@),
                None => None,
            },
        ),
{
    match o {
        Some(s) => to_owned(s),
        None => to_owned("-"),
    }
}

/// The text of an optional owned string, or `-`.
fn or_dash_owned(o: &Option<String>) -> (r: String)
    ensures
        r@ == or_dash(opt_view(*o)),
{
    match o {
        Some(s) => to_owned(s.as_str()),
        None => to_owned("-"),
    }
}

/// The registry row of one plugin: name, installed version (or `-`),
/// latest version, builds, description (or `-`).
pub open spec fn registry_row(p: RegistryPluginSummary, lockfile: Lockfile) -> Seq<Seq<char>> {
    seq![
        p.name@,
        match lockfile.entry(p.name@) {
            Some(e) => e.version@,
            None => "-"@,
        },
        p.latest@,
        builds_label(p.has_wasm, p.has_native),
        or_dash(opt_view(p.description)),
    ]
}

/// The table of registry plugins, with the installed version beside each.
pub fn render_registry_table(plugins: &[RegistryPluginSummary], lockfile: &Lockfile) -> (t: Table)
    ensures
        t.budget_view() == 88,
        t.header() == seq!["NAME"@, "CURRENT"@, "LATEST"@, "BUILDS"@, "DESCRIPTION"@],
        t.columns_view().map_values(|c: Column| (c.width, c.flexible)) == seq![
            (20usize, false),
            (10usize, false),
            (10usize, false),
            (14usize, false),
            (30usize, true),
        ],
        t.rows_view().len() == plugins@.len(),
        forall|i: int|
            0 <= i < plugins@.len() ==> #[trigger] t.rows_view()[i] == registry_row(
                plugins@[i],
                *lockfile,
            ),
{
    let mut t = Table::new(88).column(Column::fixed("NAME", 20)).column(Column::fixed("CURRENT", 10)).column(
        Column::fixed("LATEST", 10),
    ).column(Column::fixed("BUILDS", 14)).column(Column::flexible("DESCRIPTION", 30));
    let mut i: usize = 0;
    while i < plugins.len()
        invariant
            i <= plugins@.len(),
            t.budget_view() == 88,
            t.header() == seq!["NAME"@, "CURRENT"@, "LATEST"@, "BUILDS"@, "DESCRIPTION"@],
            t.columns_view().map_values(|c: Column| (c.width, c.flexible)) == seq![
                (20usize, false),
                (10usize, false),
                (10usize, false),
                (14usize, false),
                (30usize, true),
            ],
            t.rows_view().len() == i,
            forall|q: int| 0 <= q < i ==> #[trigger] t.rows_view()[q] == registry_row(plugins@[q], *lockfile),
        decreases plugins@.len() - i,
    {
        let p = &plugins[i];
        let current = match lockfile.get(p.name.as_str()) {
            Some(e) => to_owned(e.version.as_str()),
            None => to_owned("-"),
        };
        let mut cells: Vec<String> = Vec::new();
        cells.push(to_owned(p.name.as_str()));
        cells.push(current);
        cells.push(to_owned(p.latest.as_str()));
        cells.push(builds_label_exec(p.has_wasm, p.has_native));
        cells.push(or_dash_owned(&p.description));
        assert(cells_view(cells@) =~= registry_row(plugins@[i as int], *lockfile));
        t.add_row(cells);
        i = i + 1;
    }
    t
}

/// The status row of one artifact: name, installed and latest version,
/// whether it can be updated, builds.
pub open spec fn update_row(s: PluginUpdateStatus) -> Seq<Seq<char>> {
    seq![
        s.name@,
        s.installed_version@,
        s.latest_version@,
        if s.has_update {
            "Updateable"@
        } else {
            "Up-to-date"@
        },
        builds_label(s.has_wasm, s.has_native),
    ]
}

/// The table of update statuses.
pub fn render_update_status_table(statuses: &[PluginUpdateStatus]) -> (t: Table)
    ensures
        t.budget_view() == 70,
        t.header() == seq!["PLUGIN"@, "CURRENT"@, "LATEST"@, "STATUS"@, "BUILDS"@],
        t.columns_view().map_values(|c: Column| (c.width, c.flexible)) == seq![
            (16usize, false),
            (12usize, false),
            (12usize, false),
            (14usize, false),
            (12usize, true),
        ],
        t.rows_view().len() == statuses@.len(),
        forall|i: int|
            0 <= i < statuses@.len() ==> #[trigger] t.rows_view()[i] == update_row(statuses@[i]),
{
    let mut t = Table::new(70).column(Column::fixed("PLUGIN", 16)).column(Column::fixed("CURRENT", 12)).column(
        Column::fixed("LATEST", 12),
    ).column(Column::fixed("STATUS", 14)).column(Column::flexible("BUILDS", 12));
    let mut i: usize = 0;
    while i < statuses.len()
        invariant
            i <= statuses@.len(),
            t.budget_view() == 70,
            t.header() == seq!["PLUGIN"@, "CURRENT"@, "LATEST"@, "STATUS"@, "BUILDS"@],
            t.columns_view().map_values(|c: Column| (c.width, c.flexible)) == seq![
                (16usize, false),
                (12usize, false),
                (12usize, false),
                (14usize, false),
                (12usize, true),
            ],
            t.rows_view().len() == i,
            forall|q: int| 0 <= q < i ==> #[trigger] t.rows_view()[q] == update_row(statuses@[q]),
        decreases statuses@.len() - i,
    {
        let s = &statuses[i];
        let status = if s.has_update {
            to_owned("Updateable")
        } else {
            to_owned("Up-to-date")
        };
        let mut cells: Vec<String> = Vec::new();
        cells.push(to_owned(s.name.as_str()));
        cells.push(to_owned(s.installed_version.as_str()));
        cells.push(to_owned(s.latest_version.as_str()));
        cells.push(status);
        cells.push(builds_label_exec(s.has_wasm, s.has_native));
        assert(cells_view(cells@) =~= update_row(statuses@[i as int]));
        t.add_row(cells);
        i = i + 1;
    }
    t
}

/// The row of one installed plugin: name, version, builds (wasm when the
/// primary binary is a `.wasm` file, native when a native binary is kept),
/// description cut to 32 characters (or `-`), source.
pub open spec fn list_row(name: Seq<char>, p: InstalledPlugin) -> Seq<Seq<char>> {
    seq![
        name,
        p.version@,
        builds_label(is_suffix(".wasm"@, p.binary_path@), p.native_binary_path is Some),
        truncated(or_dash(opt_view(p.description)), 32),
        p.source@,
    ]
}

/// The table of installed plugins, in the lockfile's order.
pub fn render_list_table(lockfile: &Lockfile) -> (t: Table)
    ensures
        t.budget_view() == 84,
        t.header() == seq!["NAME"@, "VERSION"@, "BUILDS"@, "DESCRIPTION"@, "SOURCE"@],
        t.columns_view().map_values(|c: Column| (c.width, c.flexible)) == seq![
            (14usize, false),
            (10usize, false),
            (8usize, false),
            (34usize, false),
            (14usize, true),
        ],
        t.rows_view().len() == lockfile.plugins@.len(),
        forall|i: int|
            0 <= i < lockfile.plugins@.len() ==> #[trigger] t.rows_view()[i] == list_row(
                lockfile.plugins@[i].0@,
                lockfile.plugins@[i].1,
            ),
{
    let mut t = Table::new(84).column(Column::fixed("NAME", 14)).column(Column::fixed("VERSION", 10)).column(
        Column::fixed("BUILDS", 8),
    ).column(Column::fixed("DESCRIPTION", 34)).column(Column::flexible("SOURCE", 14));
    let mut i: usize = 0;
    while i < lockfile.plugins.len()
        invariant
            i <= lockfile.plugins@.len(),
            t.budget_view() == 84,
            t.header() == seq!["NAME"@, "VERSION"@, "BUILDS"@, "DESCRIPTION"@, "SOURCE"@],
            t.columns_view().map_values(|c: Column| (c.width, c.flexible)) == seq![
                (14usize, false),
                (10usize, false),
                (8usize, false),
                (34usize, false),
                (14usize, true),
            ],
            t.rows_view().len() == i,
            forall|q: int|
                0 <= q < i ==> #[trigger] t.rows_view()[q] == list_row(
                    lockfile.plugins@[q].0@,
                    lockfile.plugins@[q].1,
                ),
        decreases lockfile.plugins@.len() - i,
    {
        let name = &lockfile.plugins[i].0;
        let p = &lockfile.plugins[i].1;
        let is_wasm = ends_with(p.binary_path.as_str(), ".wasm");
        let desc = or_dash_owned(&p.description);
        let mut cells: Vec<String> = Vec::new();
        cells.push(to_owned(name.as_str()));
        cells.push(to_owned(p.version.as_str()));
        cells.push(builds_label_exec(is_wasm, p.native_binary_path.is_some()));
        cells.push(truncate_display(desc.as_str(), 32));
        cells.push(to_owned(p.source.as_str()));
        assert(cells_view(cells@) =~= list_row(lockfile.plugins@[i as int].0@, lockfile.plugins@[i as int].1));
        t.add_row(cells);
        i = i + 1;
    }
    t
}

/// The row of one skill: name, version, author (or `-`), description cut
/// to 28 characters (or `-`).
pub open spec fn skill_row<S: SkillRow>(s: S) -> Seq<Seq<char>> {
    seq![s.row_name(), s.row_version(), or_dash(s.row_author()), truncated(or_dash(s.row_description()), 28)]
}

/// The table of skills, installed or listed in the registry.
pub fn render_skills_table<S: SkillRow>(skills: &[S]) -> (t: Table)
    ensures
        t.budget_view() == 84,
        t.header() == seq!["NAME"@, "VERSION"@, "AUTHOR"@, "DESCRIPTION"@],
        t.columns_view().map_values(|c: Column| (c.width, c.flexible)) == seq![
            (18usize, false),
            (10usize, false),
            (18usize, false),
            (30usize, true),
        ],
        t.rows_view().len() == skills@.len(),
        forall|i: int| 0 <= i < skills@.len() ==> #[trigger] t.rows_view()[i] == skill_row(skills@[i]),
{
    let mut t = Table::new(84).column(Column::fixed("NAME", 18)).column(Column::fixed("VERSION", 10)).column(
        Column::fixed("AUTHOR", 18),
    ).column(Column::flexible("DESCRIPTION", 30));
    let mut i: usize = 0;
    while i < skills.len()
        invariant
            i <= skills@.len(),
            t.budget_view() == 84,
            t.header() == seq!["NAME"@, "VERSION"@, "AUTHOR"@, "DESCRIPTION"@],
            t.columns_view().map_values(|c: Column| (c.width, c.flexible)) == seq![
                (18usize, false),
                (10usize, false),
                (18usize, false),
                (30usize, true),
            ],
            t.rows_view().len() == i,
            forall|q: int| 0 <= q < i ==> #[trigger] t.rows_view()[q] == skill_row(skills@[q]),
        decreases skills@.len() - i,
    {
        let s = &skills[i];
        let author = or_dash_exec(s.author());
        let desc = or_dash_exec(s.description());
        let mut cells: Vec<String> = Vec::new();
        cells.push(to_owned(s.name()));
        cells.push(to_owned(s.version()));
        cells.push(author);
        cells.push(truncate_display(desc.as_str(), 28));
        assert(cells_view(cells@) =~= skill_row(skills@[i as int]));
        t.add_row(cells);
        i = i + 1;
    }
    t
}

/// The registry row of one skill: name, its latest version under both
/// CURRENT and LATEST, description (or `-`).
pub open spec fn available_skill_row(s: RegistrySkillSummary) -> Seq<Seq<char>> {
    seq![s.name@, s.latest@, s.latest@, or_dash(opt_view(s.description))]
}

/// The table of skills in the registry.
pub fn render_available_skills_table(skills: &[RegistrySkillSummary]) -> (t: Table)
    ensures
        t.budget_view() == 88,
        t.header() == seq!["NAME"@, "CURRENT"@, "LATEST"@, "DESCRIPTION"@],
        t.columns_view().map_values(|c: Column| (c.width, c.flexible)) == seq![
            (20usize, false),
            (10usize, false),
            (10usize, false),
            (30usize, true),
        ],
        t.rows_view().len() == skills@.len(),
        forall|i: int| 0 <= i < skills@.len() ==> #[trigger] t.rows_view()[i] == available_skill_row(skills@[i]),
{
    let mut t = Table::new(88).column(Column::fixed("NAME", 20)).column(Column::fixed("CURRENT", 10)).column(
        Column::fixed("LATEST", 10),
    ).column(Column::flexible("DESCRIPTION", 30));
    let mut i: usize = 0;
    while i < skills.len()
        invariant
            i <= skills@.len(),
            t.budget_view() == 88,
            t.header() == seq!["NAME"@, "CURRENT"@, "LATEST"@, "DESCRIPTION"@],
            t.columns_view().map_values(|c: Column| (c.width, c.flexible)) == seq![
                (20usize, false),
                (10usize, false),
                (10usize, false),
                (30usize, true),
            ],
            t.rows_view().len() == i,
            forall|q: int| 0 <= q < i ==> #[trigger] t.rows_view()[q] == available_skill_row(skills@[q]),
        decreases skills@.len() - i,
    {
        let s = &skills[i];
        let mut cells: Vec<String> = Vec::new();
        cells.push(to_owned(s.name.as_str()));
        cells.push(to_owned(s.latest.as_str()));
        cells.push(to_owned(s.latest.as_str()));
        cells.push(or_dash_owned(&s.description));
        assert(cells_view(cells@) =~= available_skill_row(skills@[i as int]));
        t.add_row(cells);
        i = i + 1;
    }
    t
}

/// The row of one search match: type, name, latest version, description,
/// and the description again cut to 28 characters.
pub open spec fn search_row(r: SearchResult) -> Seq<Seq<char>> {
    seq![r.ty@, r.name@, r.latest@, r.description@, truncated(r.description@, 28)]
}

/// The table of search matches.
pub fn render_search_table(matches: &[SearchResult]) -> (t: Table)
    ensures
        t.budget_view() == 88,
        t.header() == seq!["TYPE"@, "NAME"@, "CURRENT"@, "LATEST"@, "DESCRIPTION"@],
        t.columns_view().map_values(|c: Column| (c.width, c.flexible)) == seq![
            (10usize, false),
            (20usize, false),
            (10usize, false),
            (10usize, false),
            (30usize, true),
        ],
        t.rows_view().len() == matches@.len(),
        forall|i: int| 0 <= i < matches@.len() ==> #[trigger] t.rows_view()[i] == search_row(matches@[i]),
{
    let mut t = Table::new(88).column(Column::fixed("TYPE", 10)).column(Column::fixed("NAME", 20)).column(
        Column::fixed("CURRENT", 10),
    ).column(Column::fixed("LATEST", 10)).column(Column::flexible("DESCRIPTION", 30));
    let mut i: usize = 0;
    while i < matches.len()
        invariant
            i <= matches@.len(),
            t.budget_view() == 88,
            t.header() == seq!["TYPE"@, "NAME"@, "CURRENT"@, "LATEST"@, "DESCRIPTION"@],
            t.columns_view().map_values(|c: Column| (c.width, c.flexible)) == seq![
                (10usize, false),
                (20usize, false),
                (10usize, false),
                (10usize, false),
                (30usize, true),
            ],
            t.rows_view().len() == i,
            forall|q: int| 0 <= q < i ==> #[trigger] t.rows_view()[q] == search_row(matches@[q]),
        decreases matches@.len() - i,
    {
        let m = &matches[i];
        let mut cells: Vec<String> = Vec::new();
        cells.push(to_owned(m.ty.as_str()));
        cells.push(to_owned(m.name.as_str()));
        cells.push(to_owned(m.latest.as_str()));
        cells.push(to_owned(m.description.as_str()));
        cells.push(truncate_display(m.description.as_str(), 28));
        assert(cells_view(cells@) =~= search_row(matches@[i as int]));
        t.add_row(cells);
        i = i + 1;
    }
    t
}

} // verus!
