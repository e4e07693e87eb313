//! Anchor/focus text selection over grid coordinates.

use vstd::prelude::*;

verus! {

/// A grid position: `(row, column)`, row 0 being the oldest line.
pub type GridPoint = (usize, usize);

/// Row-major order on grid points: rows first, then columns.
pub open spec fn point_le(a: GridPoint, b: GridPoint) -> bool {
    a.0 < b.0 || (a.0 == b.0 && a.1 <= b.1)
}

/// The smaller of two points in row-major order.
pub open spec fn point_min(a: GridPoint, b: GridPoint) -> GridPoint {
    if point_le(a, b) { a } else { b }
}

/// The larger of two points in row-major order.
pub open spec fn point_max(a: GridPoint, b: GridPoint) -> GridPoint {
    if point_le(a, b) { b } else { a }
}

/// Whether `(row, col)` lies inside the inclusive range from `start` to `end`,
/// the range covering the tail of the first row, every interior row in full and
/// the head of the last row.
pub open spec fn range_contains(start: GridPoint, end: GridPoint, row: usize, col: usize) -> bool {
    &&& start.0 <= row <= end.0
    &&& row == start.0 ==> col >= start.1
    &&& row == end.0 ==> col <= end.1
}

/// Selection state driven by pointer input.
#[derive(Clone, Copy, Debug)]
pub struct TerminalSelectionState {
    pub anchor: Option<GridPoint>,
    pub focus: Option<GridPoint>,
    pub dragging: bool,
}

impl TerminalSelectionState {
    /// The selected range with its ends in row-major order, if both ends are set.
    pub open spec fn spec_normalized(self) -> Option<(GridPoint, GridPoint)> {
        match (self.anchor, self.focus) {
            (Some(a), Some(f)) => Some((point_min(a, f), point_max(a, f))),
            _ => None,
        }
    }

    /// A selection is active when it spans more than a single point.
    pub open spec fn spec_has_selection(self) -> bool {
        match self.spec_normalized() {
            Some((start, end)) => start != end,
            None => false,
        }
    }

    /// The empty selection.
    pub fn new() -> (s: Self)
        ensures
            s.anchor is None,
            s.focus is None,
            !s.dragging,
    {
        TerminalSelectionState { anchor: None, focus: None, dragging: false }
    }

    /// Discards the selection.
    pub fn clear(&mut self)
        ensures
            final(self).anchor is None,
            final(self).focus is None,
            !final(self).dragging,
    {
        self.anchor = None;
        self.focus = None;
        self.dragging = false;
    }

    /// Begins a selection at `(row, col)`.
    pub fn start(&mut self, row: usize, col: usize)
        ensures
            final(self).anchor == Some((row, col)),
            final(self).focus == Some((row, col)),
            final(self).dragging,
    {
        self.anchor = Some((row, col));
        self.focus = Some((row, col));
        self.dragging = true;
    }

    /// Moves the focus to `(row, col)`; without an anchor nothing changes.
    pub fn update(&mut self, row: usize, col: usize)
        ensures
            final(self).anchor == old(self).anchor,
            final(self).dragging == old(self).dragging,
            final(self).focus == if old(self).anchor is Some {
                Some((row, col))
            } else {
                old(self).focus
            },
    {
        if self.anchor.is_some() {
            self.focus = Some((row, col));
        }
    }

    /// Ends the drag and keeps the range.
    pub fn stop_dragging(&mut self)
        ensures
            final(self).anchor == old(self).anchor,
            final(self).focus == old(self).focus,
            !final(self).dragging,
    {
        self.dragging = false;
    }

    /// Whether a drag is in progress.
    pub fn is_dragging(&self) -> (b: bool)
        ensures
            b == self.dragging,
    {
        self.dragging
    }

    /// The selected range, smaller end first.
    pub fn normalized(&self) -> (r: Option<(GridPoint, GridPoint)>)
        ensures
            r == self.spec_normalized(),
            r matches Some((start, end)) ==> point_le(start, end),
    {
        match (self.anchor, self.focus) {
            (Some(a), Some(f)) => {
                if a.0 < f.0 || (a.0 == f.0 && a.1 <= f.1) {
                    Some((a, f))
                } else {
                    Some((f, a))
                }
            },
            _ => None,
        }
    }

    /// Whether the selection spans more than a single point.
    pub fn has_selection(&self) -> (b: bool)
        ensures
            b == self.spec_has_selection(),
            b <==> (self.anchor is Some && self.focus is Some && self.anchor != self.focus),
    {
        match self.normalized() {
            Some((start, end)) => start.0 != end.0 || start.1 != end.1,
            None => false,
        }
    }
}

impl Default for TerminalSelectionState {
    fn default() -> (s: Self)
        ensures
            s.anchor is None,
            s.focus is None,
            !s.dragging,
    {
        TerminalSelectionState::new()
    }
}

/// Whether the cell at `(row, col)` lies inside `range`.
pub fn selection_range_contains(
    range: Option<(GridPoint, GridPoint)>,
    row: usize,
    col: usize,
) -> (b: bool)
    ensures
        b == match range {
            Some((start, end)) => range_contains(start, end, row, col),
            None => false,
        },
{
    match range {
        None => false,
        Some((start, end)) => {
            if row < start.0 || row > end.0 {
                false
            } else if start.0 == end.0 {
                col >= start.1 && col <= end.1
            } else if row == start.0 {
                col >= start.1
            } else if row == end.0 {
                col <= end.1
            } else {
                true
            }
        },
    }
}

/// What the pointer did during one frame of the display.
#[derive(Clone, Copy, Debug)]
pub struct PointerFrame {
    /// The primary button went down.
    pub pressed: bool,
    /// The primary button is held down.
    pub down: bool,
    /// The primary button went up.
    pub released: bool,
    /// The cell under the pointer, if the pointer is over the grid.
    pub at: Option<GridPoint>,
}

/// The selection after its focus was moved to `at`; without an anchor it is
/// as it was.
pub open spec fn spec_updated(sel: TerminalSelectionState, at: GridPoint) -> TerminalSelectionState {
    if sel.anchor is Some {
        TerminalSelectionState { anchor: sel.anchor, focus: Some(at), dragging: sel.dragging }
    } else {
        sel
    }
}

/// The selection after one frame of pointer input.
///
/// While input is blocked the selection only stops being dragged. Otherwise
/// a press over the grid starts a selection there; while the selection is
/// dragged and the button is down the focus follows the pointer; and a
/// release ends the drag, after a last move of the focus, and discards a
/// selection of a single point.
pub open spec fn spec_apply_pointer(
    sel: TerminalSelectionState,
    frame: PointerFrame,
    input_blocked: bool,
) -> TerminalSelectionState {
    if input_blocked {
        TerminalSelectionState { anchor: sel.anchor, focus: sel.focus, dragging: false }
    } else {
        let pressed = if frame.pressed && frame.at is Some {
            TerminalSelectionState { anchor: frame.at, focus: frame.at, dragging: true }
        } else {
            sel
        };
        let dragged = if pressed.dragging && frame.down && frame.at is Some {
            spec_updated(pressed, frame.at->0)
        } else {
            pressed
        };
        if frame.released && dragged.dragging {
            let moved = if frame.at is Some {
                spec_updated(dragged, frame.at->0)
            } else {
                dragged
            };
            if moved.spec_has_selection() {
                TerminalSelectionState { anchor: moved.anchor, focus: moved.focus, dragging: false }
            } else {
                TerminalSelectionState { anchor: None, focus: None, dragging: false }
            }
        } else {
            dragged
        }
    }
}

/// Applies one frame of pointer input to the selection.
pub fn apply_pointer(sel: &mut TerminalSelectionState, frame: PointerFrame, input_blocked: bool)
    ensures
        *final(sel) == spec_apply_pointer(*old(sel), frame, input_blocked),
        input_blocked ==> final(sel).anchor == old(sel).anchor && final(sel).focus == old(
            sel,
        ).focus && !final(sel).dragging,
{
    if input_blocked {
        if sel.dragging {
            sel.stop_dragging();
        }
        return ;
    }
    if frame.pressed {
        match frame.at {
            Some((row, col)) => sel.start(row, col),
            None => {},
        }
    }
    if sel.dragging && frame.down {
        match frame.at {
            Some((row, col)) => sel.update(row, col),
            None => {},
        }
    }
    if frame.released && sel.dragging {
        match frame.at {
            Some((row, col)) => sel.update(row, col),
            None => {},
        }
        if !sel.has_selection() {
            sel.clear();
        }
        sel.stop_dragging();
    }
}

/// Normalising is a projection: the range it returns is already in order, so
/// normalising a selection rebuilt from that range returns the same range.
pub proof fn lemma_normalized_idempotent(s: TerminalSelectionState)
    ensures
        s.spec_normalized() matches Some((start, end)) ==> {
            &&& point_le(start, end)
            &&& (TerminalSelectionState {
                anchor: Some(start),
                focus: Some(end),
                dragging: s.dragging,
            }).spec_normalized() == Some((start, end))
        },
{
}

/// The normalised range does not depend on the direction of the drag: anchor
/// `p` with focus `q` selects the same ordered range as anchor `q` with focus `p`.
pub proof fn lemma_normalized_direction(p: GridPoint, q: GridPoint, dragging: bool)
    ensures
        ({
            let forward = TerminalSelectionState { anchor: Some(p), focus: Some(q), dragging };
            let backward = TerminalSelectionState { anchor: Some(q), focus: Some(p), dragging };
            &&& forward.spec_normalized() == backward.spec_normalized()
            &&& forward.spec_normalized() matches Some((start, end)) && point_le(start, end)
            &&& forward.spec_has_selection() == (p != q)
        }),
{
}

} // verus!
