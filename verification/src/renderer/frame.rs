//! Frames of a surface, and how links look in them.
use vstd::prelude::*;

verus! {

/// The bit of a cell's modifier that underlines it.
pub const UNDERLINED: u16 = 8;

#[derive(Debug, Clone, PartialEq, Eq)]
pub struct FrameCell {
    pub symbol: String,
    pub foreground: u32,
    pub background: u32,
    pub modifier: u16,
    /// The number of the cell's link.
    pub hyperlink: Option<u32>,
}

/// A picture of a surface, row by row.
#[derive(Debug, Clone, PartialEq, Eq)]
pub struct Frame {
    pub width: u16,
    pub height: u16,
    pub cells: Vec<FrameCell>,
    pub hyperlinks: Vec<String>,
}

/// The content of a cell.
pub struct CellView {
    pub symbol: Seq<char>,
    pub foreground: u32,
    pub background: u32,
    pub modifier: u16,
    pub hyperlink: Option<u32>,
}

impl View for FrameCell {
    type V = CellView;

    open spec fn view(&self) -> CellView {
        CellView {
            symbol: self.symbol@,
            foreground: self.foreground,
            background: self.background,
            modifier: self.modifier,
            hyperlink: self.hyperlink,
        }
    }
}

pub open spec fn cell_views(cells: Seq<FrameCell>) -> Seq<CellView> {
    Seq::new(cells.len(), |i: int| cells[i]@)
}

/// The content of a frame.
pub struct FrameView {
    pub width: u16,
    pub height: u16,
    pub cells: Seq<CellView>,
    pub hyperlinks: Seq<Seq<char>>,
}

impl View for Frame {
    type V = FrameView;

    open spec fn view(&self) -> FrameView {
        FrameView {
            width: self.width,
            height: self.height,
            cells: cell_views(self.cells@),
            hyperlinks: crate::json::texts(self.hyperlinks@),
        }
    }
}

impl FrameView {
    /// The same picture without links.
    pub open spec fn without_links(self) -> FrameView {
        FrameView {
            cells: Seq::new(
                self.cells.len(),
                |i: int| CellView { hyperlink: None, ..self.cells[i] },
            ),
            hyperlinks: Seq::empty(),
            ..self
        }
    }

    /// The place of a cell among the cells.
    pub open spec fn index(self, cell: (u16, u16)) -> int {
        cell.1 * self.width + cell.0
    }

    pub open spec fn holds(self, cell: (u16, u16)) -> bool {
        cell.0 < self.width && cell.1 < self.height && self.index(cell) < self.cells.len()
    }

    /// One cell underlined, if it is in the frame.
    pub open spec fn underlined_at(self, cell: (u16, u16)) -> FrameView {
        if self.holds(cell) {
            let at = self.index(cell);
            FrameView {
                cells: self.cells.update(
                    at,
                    CellView {
                        modifier: self.cells[at].modifier | UNDERLINED,
                        ..self.cells[at]
                    },
                ),
                ..self
            }
        } else {
            self
        }
    }

    /// Several cells underlined, one after the other.
    pub open spec fn underlined(self, cells: Seq<(u16, u16)>) -> FrameView
        decreases cells.len(),
    {
        if cells.len() == 0 {
            self
        } else {
            self.underlined(cells.drop_last()).underlined_at(cells.last())
        }
    }
}

impl FrameCell {
    fn copied(&self, hyperlink: Option<u32>) -> (copy: FrameCell)
        ensures
            copy@ == (CellView { hyperlink, ..self@ }),
    {
        FrameCell {
            symbol: self.symbol.clone(),
            foreground: self.foreground,
            background: self.background,
            modifier: self.modifier,
            hyperlink,
        }
    }
}

impl Frame {
    /// A copy of the picture without links.
    pub fn without_links(&self) -> (copy: Frame)
        ensures
            copy@ == self@.without_links(),
    {
        let mut cells: Vec<FrameCell> = Vec::new();
        let mut i: usize = 0;
        let ghost stripped = self@.without_links().cells;
        while i < self.cells.len()
            invariant
                i <= self.cells@.len(),
                stripped == self@.without_links().cells,
                cell_views(cells@) == stripped.take(i as int),
            decreases self.cells.len() - i,
        {
            let ghost before = cell_views(cells@);
            cells.push(self.cells[i].copied(None));
            i += 1;
            assert(cell_views(cells@) =~= before.push(stripped[i - 1]));
            assert(stripped.take(i as int) =~= stripped.take(i - 1).push(stripped[i - 1]));
        }
        assert(stripped.take(i as int) =~= stripped);
        let copy = Frame {
            width: self.width,
            height: self.height,
            cells,
            hyperlinks: Vec::new(),
        };
        assert(copy@.hyperlinks =~= Seq::empty());
        copy
    }

    /// A copy of the frame.
    pub fn duplicate(&self) -> (copy: Frame)
        ensures
            copy@ == self@,
    {
        let mut cells: Vec<FrameCell> = Vec::new();
        let mut i: usize = 0;
        let ghost all = self@.cells;
        while i < self.cells.len()
            invariant
                i <= self.cells@.len(),
                all == self@.cells,
                cell_views(cells@) == all.take(i as int),
            decreases self.cells.len() - i,
        {
            let ghost before = cell_views(cells@);
            cells.push(self.cells[i].copied(self.cells[i].hyperlink));
            i += 1;
            assert(cell_views(cells@) =~= before.push(all[i - 1]));
            assert(all.take(i as int) =~= all.take(i - 1).push(all[i - 1]));
        }
        assert(all.take(i as int) =~= all);
        let mut hyperlinks: Vec<String> = Vec::new();
        let mut j: usize = 0;
        let ghost links = self@.hyperlinks;
        while j < self.hyperlinks.len()
            invariant
                j <= self.hyperlinks@.len(),
                links == self@.hyperlinks,
                crate::json::texts(hyperlinks@) == links.take(j as int),
            decreases self.hyperlinks.len() - j,
        {
            let ghost before = crate::json::texts(hyperlinks@);
            hyperlinks.push(self.hyperlinks[j].clone());
            j += 1;
            assert(crate::json::texts(hyperlinks@) =~= before.push(links[j - 1]));
            assert(links.take(j as int) =~= links.take(j - 1).push(links[j - 1]));
        }
        assert(links.take(j as int) =~= links);
        Frame { width: self.width, height: self.height, cells, hyperlinks }
    }

    fn underline_at(&mut self, cell: (u16, u16))
        ensures
            final(self)@ == old(self)@.underlined_at(cell),
    {
        if cell.0 < self.width && cell.1 < self.height {
            proof {
                lemma_index_bounded(self@, cell);
            }
            let index: usize = cell.1 as usize * self.width as usize + cell.0 as usize;
            if index >= self.cells.len() {
                return ;
            }
            let ghost before = self@.cells;
            let old_cell = &self.cells[index];
            let cell = FrameCell {
                symbol: old_cell.symbol.clone(),
                foreground: old_cell.foreground,
                background: old_cell.background,
                modifier: old_cell.modifier | UNDERLINED,
                hyperlink: old_cell.hyperlink,
            };
            let ghost content = cell@;
            self.cells.set(index, cell);
            assert(self@.cells =~= before.update(index as int, content));
        }
    }

    /// Underlines the cells of a link; those outside the frame do not show.
    pub fn underline(&mut self, cells: &[(u16, u16)])
        ensures
            final(self)@ == old(self)@.underlined(cells@),
    {
        let mut i: usize = 0;
        assert(cells@.take(0) =~= Seq::empty());
        while i < cells.len()
            invariant
                i <= cells@.len(),
                self@ == old(self)@.underlined(cells@.take(i as int)),
            decreases cells.len() - i,
        {
            self.underline_at(cells[i]);
            i += 1;
            assert(cells@.take(i as int).drop_last() =~= cells@.take(i - 1));
        }
        assert(cells@.take(i as int) =~= cells@);
    }
}

/// The place of a cell is a number of 32 bits.
proof fn lemma_index_bounded(frame: FrameView, cell: (u16, u16))
    requires
        cell.0 < frame.width,
        cell.1 < frame.height,
    ensures
        0 <= frame.index(cell) <= 0xffff_ffff,
        0 <= cell.1 * frame.width <= 0xffff_ffff,
{
    let row = cell.1 as int;
    let width = frame.width as int;
    assert(0 <= row * width <= 0xfffe * 0xffff) by (nonlinear_arith)
        requires
            0 <= row <= 0xfffe,
            0 <= width <= 0xffff,
    ;
}

/// A picture without links has no trace of them, and is the same picture otherwise.
pub proof fn law_no_links_left(frame: FrameView, i: int)
    requires
        0 <= i < frame.cells.len(),
    ensures
        frame.without_links().cells[i].hyperlink is None,
        frame.without_links().cells[i].symbol == frame.cells[i].symbol,
        frame.without_links().hyperlinks.len() == 0,
        frame.without_links().cells.len() == frame.cells.len(),
{
}

/// Underlining changes nothing but the underline of the cells that are named: any other
/// cell stays as it was.
pub proof fn law_underline_touches_only_its_cells(
    frame: FrameView,
    cells: Seq<(u16, u16)>,
    i: int,
)
    requires
        0 <= i < frame.cells.len(),
        forall|j: int|
            0 <= j < cells.len() && frame.holds(#[trigger] cells[j]) ==> frame.index(cells[j]) != i,
    ensures
        frame.underlined(cells).cells.len() == frame.cells.len(),
        frame.underlined(cells).cells[i] == frame.cells[i],
    decreases cells.len(),
{
    if cells.len() > 0 {
        let rest = cells.drop_last();
        assert forall|j: int| 0 <= j < rest.len() && frame.holds(
            #[trigger] rest[j],
        ) implies frame.index(rest[j]) != i by {
            assert(rest[j] == cells[j]);
        }
        law_underline_touches_only_its_cells(frame, rest, i);
        lemma_underline_keeps_shape(frame, rest);
        let last = cells[cells.len() - 1];
        assert(cells.last() == last);
        let before = frame.underlined(rest);
        if before.holds(last) {
            assert(frame.holds(last) && frame.index(last) == before.index(last));
        }
    }
}

proof fn lemma_underline_keeps_shape(frame: FrameView, cells: Seq<(u16, u16)>)
    ensures
        frame.underlined(cells).width == frame.width,
        frame.underlined(cells).height == frame.height,
        frame.underlined(cells).cells.len() == frame.cells.len(),
    decreases cells.len(),
{
    if cells.len() > 0 {
        lemma_underline_keeps_shape(frame, cells.drop_last());
    }
}

/// Cells outside the frame do not show.
pub proof fn law_cells_outside_do_not_show(frame: FrameView, cell: (u16, u16))
    requires
        cell.0 >= frame.width || cell.1 >= frame.height || cell.1 * frame.width + cell.0
            >= frame.cells.len(),
    ensures
        frame.underlined(seq![cell]) == frame,
{
    reveal_with_fuel(FrameView::underlined, 2);
    assert(seq![cell].drop_last() =~= Seq::<(u16, u16)>::empty());
    assert(seq![cell].last() == cell);
}

} // verus!
