//! The grid of containers from which the ones to view are picked: pages of
//! cells, clicks that toggle a cell, and where each cell lies on screen.
use vstd::prelude::*;
use vstd::slice::slice_subrange;

use crate::layout::Placement;

verus! {

/// Cells across a page; [`cell_of`] states the same count.
pub const NUM_COLUMNS: usize = 4;

/// Cells down a page; [`cell_of`] states the same count.
pub const NUM_ROWS: usize = 3;

/// Cells on one page.
pub const PAGE_SIZE: usize = 12;

/// One container of the grid and whether it is picked.
pub struct Ofc {
    pub path: String,
    pub selected: bool,
}

pub struct Screen {
    pub ofcs: Vec<Ofc>,
    pub page_index: usize,
}

/// The number of pages that `n` cells fill.
pub open spec fn page_count_of(n: nat) -> nat {
    (n + 11) / 12
}

/// The last page that can be shown for `n` cells; page 0 when there are none.
pub open spec fn last_page(n: nat) -> nat {
    if n == 0 {
        0
    } else {
        (page_count_of(n) - 1) as nat
    }
}

/// Where page `p` starts among `n` cells.
pub open spec fn page_start(n: nat, p: nat) -> nat {
    if p * 12 <= n {
        p * 12
    } else {
        n
    }
}

/// Where page `p` ends among `n` cells.
pub open spec fn page_end(n: nat, p: nat) -> nat {
    if p * 12 + 12 <= n {
        p * 12 + 12
    } else {
        n
    }
}

/// The paths of the picked cells, in the order of the grid.
pub open spec fn selected_of(ofcs: Seq<Ofc>) -> Seq<String>
    decreases ofcs.len(),
{
    if ofcs.len() == 0 {
        Seq::empty()
    } else {
        let rest = selected_of(ofcs.drop_last());
        if ofcs.last().selected {
            rest.push(ofcs.last().path)
        } else {
            rest
        }
    }
}

/// `ofcs` with the pick of cell `k` flipped.
pub open spec fn toggled(ofcs: Seq<Ofc>, k: int) -> Seq<Ofc>
    recommends
        0 <= k < ofcs.len(),
{
    ofcs.update(k, Ofc { path: ofcs[k].path, selected: !ofcs[k].selected })
}

/// The column and row of the cell under the pixel `(x, y)` of a `w` by `h`
/// view.
pub open spec fn cell_of(x: nat, y: nat, w: nat, h: nat) -> (nat, nat)
    recommends
        w > 0,
        h > 0,
{
    (x * 4 / w, y * 3 / h)
}

/// The index, among all cells, of the cell under the pixel `(x, y)` of a `w`
/// by `h` view showing page `p`.
pub open spec fn click_index(p: nat, x: nat, y: nat, w: nat, h: nat) -> nat
    recommends
        w > 0,
        h > 0,
{
    p * 12 + cell_of(x, y, w, h).1 * 4 + cell_of(x, y, w, h).0
}

/// The column and row of the cell under the pixel `(x, y)` of a `width` by
/// `height` view; `None` for an empty view. A pixel past the view's edge
/// gives a column or row past the grid's.
pub fn cell_at(x: u32, y: u32, width: u32, height: u32) -> (r: Option<(u64, u64)>)
    ensures
        width == 0 || height == 0 ==> r is None,
        width > 0 && height > 0 ==> (r matches Some(c) && (c.0 as nat, c.1 as nat) == cell_of(
            x as nat,
            y as nat,
            width as nat,
            height as nat,
        )),
{
    if width == 0 || height == 0 {
        return None;
    }
    let col = (x as u64) * 4 / (width as u64);
    let row = (y as u64) * 3 / (height as u64);
    Some((col, row))
}

/// Where cell `i` of a page lies on a `screen_width` by `screen_height`
/// screen: cells are a whole fraction of the screen, row by row.
pub fn cell_rect(i: usize, screen_width: u32, screen_height: u32) -> (r: Placement)
    requires
        i < PAGE_SIZE,
    ensures
        r.width == screen_width / 4,
        r.height == screen_height / 3,
        r.x == (i % 4) * (screen_width / 4),
        r.y == (i / 4) * (screen_height / 3),
{
    let w = screen_width / (NUM_COLUMNS as u32);
    let h = screen_height / (NUM_ROWS as u32);
    let col = (i % NUM_COLUMNS) as u32;
    let row = (i / NUM_COLUMNS) as u32;
    assert(col * w <= 3 * w) by (nonlinear_arith)
        requires
            col <= 3,
    ;
    assert(row * h <= 2 * h) by (nonlinear_arith)
        requires
            row <= 2,
    ;
    Placement { x: col * w, y: row * h, width: w, height: h }
}

impl Screen {
    /// A grid over `paths`, none picked, on the first page.
    pub fn new(paths: Vec<String>) -> (r: Screen)
        ensures
            r.page_index == 0,
            r.ofcs@.len() == paths@.len(),
            forall|i: int|
                0 <= i < paths@.len() ==> #[trigger] r.ofcs@[i] == (Ofc {
                    path: paths@[i],
                    selected: false,
                }),
    {
        let mut ofcs: Vec<Ofc> = Vec::new();
        let mut i: usize = 0;
        while i < paths.len()
            invariant
                i <= paths@.len(),
                ofcs@.len() == i,
                forall|j: int|
                    0 <= j < i ==> #[trigger] ofcs@[j] == (Ofc { path: paths@[j], selected: false }),
            decreases paths@.len() - i,
        {
            ofcs.push(Ofc { path: paths[i].clone(), selected: false });
            i += 1;
        }
        Screen { ofcs, page_index: 0 }
    }

    /// The number of cells on a page.
    pub fn page_size() -> (r: usize)
        ensures
            r == 12,
    {
        NUM_COLUMNS * NUM_ROWS
    }

    /// The number of pages.
    pub fn page_count(&self) -> (r: usize)
        ensures
            r == page_count_of(self.ofcs@.len()),
    {
        let n = self.ofcs.len();
        n / PAGE_SIZE + if n % PAGE_SIZE == 0 {
            0
        } else {
            1
        }
    }

    /// Goes back a page; stays on the first.
    pub fn previous_page(&mut self)
        ensures
            final(self).ofcs == old(self).ofcs,
            final(self).page_index == if old(self).page_index == 0 {
                0
            } else {
                old(self).page_index - 1
            },
    {
        self.page_index = self.page_index.saturating_sub(1);
    }

    /// Goes on a page; stays on the last.
    pub fn next_page(&mut self)
        ensures
            final(self).ofcs == old(self).ofcs,
            final(self).page_index == if old(self).page_index + 1 <= last_page(
                old(self).ofcs@.len(),
            ) {
                old(self).page_index + 1
            } else {
                last_page(old(self).ofcs@.len()) as int
            },
    {
        let count = self.page_count();
        let last = if count == 0 {
            0
        } else {
            count - 1
        };
        if self.page_index < last {
            self.page_index = self.page_index + 1;
        } else {
            self.page_index = last;
        }
    }

    /// The cells of the page on display.
    pub fn current_page(&self) -> (r: &[Ofc])
        ensures
            r@ == self.ofcs@.subrange(
                page_start(self.ofcs@.len(), self.page_index as nat) as int,
                page_end(self.ofcs@.len(), self.page_index as nat) as int,
            ),
    {
        let n = self.ofcs.len();
        let start = if self.page_index <= n / PAGE_SIZE {
            assert(self.page_index * 12 <= (n / 12) * 12) by (nonlinear_arith)
                requires
                    self.page_index <= n / 12,
            ;
            self.page_index * PAGE_SIZE
        } else {
            assert(self.page_index * 12 > n) by (nonlinear_arith)
                requires
                    self.page_index > n / 12,
            ;
            n
        };
        let end = if n - start >= PAGE_SIZE {
            start + PAGE_SIZE
        } else {
            n
        };
        slice_subrange(self.ofcs.as_slice(), start, end)
    }

    /// Toggles the cell under the pixel `(x, y)` of a `width` by `height`
    /// view. Nothing changes for an empty view or where no cell lies there.
    pub fn on_click(&mut self, x: u32, y: u32, width: u32, height: u32)
        ensures
            final(self).page_index == old(self).page_index,
            width > 0 && height > 0 && click_index(
                old(self).page_index as nat,
                x as nat,
                y as nat,
                width as nat,
                height as nat,
            ) < old(self).ofcs@.len() ==> final(self).ofcs@ == toggled(
                old(self).ofcs@,
                click_index(
                    old(self).page_index as nat,
                    x as nat,
                    y as nat,
                    width as nat,
                    height as nat,
                ) as int,
            ),
            !(width > 0 && height > 0 && click_index(
                old(self).page_index as nat,
                x as nat,
                y as nat,
                width as nat,
                height as nat,
            ) < old(self).ofcs@.len()) ==> final(self).ofcs@ == old(self).ofcs@,
    {
        let cell = cell_at(x, y, width, height);
        if let Some((col, row)) = cell {
            assert(col <= x * 4) by (nonlinear_arith)
                requires
                    col == (x as int) * 4 / (width as int),
                    width > 0,
            ;
            assert(row <= y * 3) by (nonlinear_arith)
                requires
                    row == (y as int) * 3 / (height as int),
                    height > 0,
            ;
            let index_in_page = (row as u128) * (NUM_COLUMNS as u128) + (col as u128);
            let page_size = Self::page_size() as u128;
            let index = page_size * (self.page_index as u128) + index_in_page;
            if index < self.ofcs.len() as u128 {
                let k = index as usize;
                let toggled = Ofc { path: self.ofcs[k].path.clone(), selected: !self.ofcs[k].selected };
                self.ofcs.set(k, toggled);
            }
        }
    }

    /// The paths of the picked cells, in the order of the grid (not the
    /// order in which they were picked).
    pub fn selected_paths(&self) -> (r: Vec<String>)
        ensures
            r@ == selected_of(self.ofcs@),
    {
        let mut paths: Vec<String> = Vec::new();
        let mut i: usize = 0;
        while i < self.ofcs.len()
            invariant
                i <= self.ofcs@.len(),
                paths@ == selected_of(self.ofcs@.subrange(0, i as int)),
            decreases self.ofcs@.len() - i,
        {
            assert(self.ofcs@.subrange(0, i + 1).drop_last() =~= self.ofcs@.subrange(0, i as int));
            if self.ofcs[i].selected {
                paths.push(self.ofcs[i].path.clone());
            }
            i += 1;
        }
        assert(self.ofcs@.subrange(0, self.ofcs@.len() as int) =~= self.ofcs@);
        paths
    }
}

} // verus!
