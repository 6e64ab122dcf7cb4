use vstd::prelude::*;
use crate::packer::{Column, ColumnView, column_views};

verus! {

/// A terminal position: column and row, counted from 0.
#[derive(Clone, Copy, Debug, PartialEq, Eq, Structural)]
pub struct Placement {
    pub col: u16,
    pub row: u16,
}

/// Where each token of a layout is drawn, where the cursor goes back to
/// after each column, and where it is left once the grid is drawn.
#[derive(Debug)]
pub struct GridPlan {
    /// For each column, the position of each of its tokens, top to bottom.
    pub positions: Vec<Vec<Placement>>,
    /// The cursor origin: the origin's column on the grid's top row.
    pub home: Placement,
    /// The position below the grid, where the prompt resumes.
    pub end: Placement,
}

/// The screen column at which column `k` of a layout starts: the widths of
/// the columns before it, each with one space of padding.
pub open spec fn column_offset(cols: Seq<ColumnView>, k: int) -> int
    decreases k,
{
    if k <= 0 {
        0
    } else {
        column_offset(cols, k - 1) + cols[k - 1].1 + 1
    }
}

/// Whether every position of the grid, and the position below it, can be
/// written in terminal coordinates.
pub open spec fn grid_fits(cols: Seq<ColumnView>, top: int) -> bool {
    &&& forall|k: int| 0 <= k < cols.len() ==> #[trigger] column_offset(cols, k) <= u16::MAX
    &&& forall|k: int| 0 <= k < cols.len() ==> top + (#[trigger] cols[k]).0.len() <= u16::MAX + 1
    &&& cols.len() > 0 ==> top + cols[0].0.len() <= u16::MAX
}

/// The plan for drawing `cols` with its top row at `top`, the cursor origin
/// being in column `origin_col`.
pub open spec fn plan_matches(
    plan: GridPlan,
    cols: Seq<ColumnView>,
    origin_col: u16,
    top: u16,
) -> bool {
    &&& plan.positions@.len() == cols.len()
    &&& forall|k: int|
        0 <= k < cols.len() ==> (#[trigger] plan.positions@[k])@.len() == cols[k].0.len()
    &&& forall|k: int, j: int|
        0 <= k < cols.len() && 0 <= j < cols[k].0.len() ==> (#[trigger] plan.positions@[k]@[j])
            == (Placement { col: column_offset(cols, k) as u16, row: (top + j) as u16 })
    &&& plan.home == (Placement { col: origin_col, row: top })
    &&& plan.end == (Placement {
        col: origin_col,
        row: (top + if cols.len() > 0 {
            cols[0].0.len() as int
        } else {
            0
        }) as u16,
    })
}

/// The top row of the grid, found from the cursor's row once the first
/// column has been printed line by line: that many rows further up. None
/// when the first column is taller than the rows above the cursor.
pub fn anchor_row(cursor_row: u16, first_len: usize) -> (r: Option<u16>)
    ensures
        r == if first_len <= cursor_row {
            Some((cursor_row - first_len) as u16)
        } else {
            None::<u16>
        },
{
    if first_len <= cursor_row as usize {
        Some(cursor_row - first_len as u16)
    } else {
        None
    }
}

/// Computes where every token of `layout` is drawn when the grid's top row
/// is `top` and the cursor origin is in column `origin_col`. None when some
/// position falls outside terminal coordinates.
pub fn plan_grid(layout: &Vec<Column>, origin_col: u16, top: u16) -> (r: Option<GridPlan>)
    ensures
        r is Some <==> grid_fits(column_views(layout@), top as int),
        r matches Some(plan) ==> plan_matches(plan, column_views(layout@), origin_col, top),
{
    let ghost cols = column_views(layout@);
    let n = layout.len();
    if n > 0 && layout[0].items.len() >= 65536 - top as usize {
        return None;
    }
    let mut positions: Vec<Vec<Placement>> = Vec::new();
    let mut offset: u128 = 0;
    let mut k: usize = 0;
    while k < n
        invariant
            n == layout@.len(),
            cols == column_views(layout@),
            k <= n,
            offset as int == column_offset(cols, k as int),
            n > 0 ==> top + cols[0].0.len() <= u16::MAX,
            forall|i: int| 0 <= i < k ==> #[trigger] column_offset(cols, i) <= u16::MAX,
            forall|i: int| 0 <= i < k ==> top + (#[trigger] cols[i]).0.len() <= u16::MAX + 1,
            positions@.len() == k,
            forall|i: int| 0 <= i < k ==> (#[trigger] positions@[i])@.len() == cols[i].0.len(),
            forall|i: int, j: int|
                0 <= i < k && 0 <= j < cols[i].0.len() ==> (#[trigger] positions@[i]@[j])
                    == (Placement { col: column_offset(cols, i) as u16, row: (top + j) as u16 }),
        decreases n - k,
    {
        let col = &layout[k];
        assert(cols[k as int] == col@);
        if offset > 65535 {
            proof {
                assert(!grid_fits(cols, top as int)) by {
                    assert(column_offset(cols, k as int) > u16::MAX);
                }
            }
            return None;
        }
        let len = col.items.len();
        if len > 65536 - top as usize {
            proof {
                assert(!grid_fits(cols, top as int)) by {
                    assert(top + cols[k as int].0.len() > u16::MAX + 1);
                }
            }
            return None;
        }
        let mut column: Vec<Placement> = Vec::new();
        let mut j: usize = 0;
        while j < len
            invariant
                j <= len,
                len == cols[k as int].0.len(),
                top + len <= u16::MAX + 1,
                offset <= 65535,
                column@.len() == j,
                forall|i: int| 0 <= i < j ==> #[trigger] column@[i] == (Placement {
                    col: offset as u16,
                    row: (top + i) as u16,
                }),
            decreases len - j,
        {
            column.push(Placement { col: offset as u16, row: (top as usize + j) as u16 });
            j = j + 1;
        }
        positions.push(column);
        offset = offset + col.item_max_size as u128 + 1;
        k = k + 1;
    }
    let end_row: u16 = if n > 0 {
        top + layout[0].items.len() as u16
    } else {
        top
    };
    let plan = GridPlan {
        positions,
        home: Placement { col: origin_col, row: top },
        end: Placement { col: origin_col, row: end_row },
    };
    Some(plan)
}

} // verus!
