//! Paths on the grid through a sequence of cells.

use vstd::prelude::*;

verus! {

/// The cells of the grid path from cell `a` to cell `b` (both ends
/// included), or `None` where either is not a valid cell index or no path
/// can be computed between them.
pub uninterp spec fn grid_path(a: u64, b: u64) -> Option<Seq<u64>>;

/// Relies on `CellIndex::try_from(u64)` and `CellIndex::grid_path_cells`:
/// the path's cells in order, or `None` where the indexes are not cells or
/// the path (or one of its cells) cannot be computed.
#[verifier::external_body]
fn path_between(a: u64, b: u64) -> (r: Option<Vec<u64>>)
    ensures
        match r {
            Some(cells) => grid_path(a, b) == Some(cells@),
            None => grid_path(a, b) is None,
        },
{
    let a = h3o::CellIndex::try_from(a).ok()?;
    let b = h3o::CellIndex::try_from(b).ok()?;
    let cells = a.grid_path_cells(b).ok()?;
    cells.map(|cell| cell.map(u64::from)).collect::<Result<Vec<u64>, _>>().ok()
}

/// Why no path could be drawn.
#[derive(Clone, Copy, Debug, PartialEq, Eq, Structural)]
pub enum PathError {
    /// Fewer than two cells were given.
    NotEnoughCells,
    /// No path joins the cell at this position to the next one.
    NoPath(usize),
}

/// A sequence with each run of equal consecutive values kept once.
pub open spec fn dedup(s: Seq<u64>) -> Seq<u64>
    decreases s.len(),
{
    if s.len() == 0 {
        s
    } else {
        let d = dedup(s.drop_last());
        if d.len() > 0 && d.last() == s.last() {
            d
        } else {
            d.push(s.last())
        }
    }
}

/// The paths between consecutive cells among the first `k` cells, one after
/// the other, or the position of the first pair without a path.
pub open spec fn joined_paths(cells: Seq<u64>, k: int) -> Result<Seq<u64>, int>
    decreases k,
{
    if k <= 1 {
        Ok(Seq::empty())
    } else {
        match joined_paths(cells, k - 1) {
            Err(i) => Err(i),
            Ok(p) => match grid_path(cells[k - 2], cells[k - 1]) {
                None => Err(k - 2),
                Some(q) => Ok(p + q),
            },
        }
    }
}

/// The path through a sequence of cells: the paths between consecutive
/// cells, joined, with the cell where two paths meet kept once.
pub open spec fn path_through(cells: Seq<u64>) -> Result<Seq<u64>, PathError> {
    if cells.len() < 2 {
        Err(PathError::NotEnoughCells)
    } else {
        match joined_paths(cells, cells.len() as int) {
            Err(i) => Err(PathError::NoPath(i as usize)),
            Ok(p) => Ok(dedup(p)),
        }
    }
}

/// A failure among the first `k` cells is the failure of the whole.
proof fn lemma_joined_prefix(cells: Seq<u64>, k: int, n: int)
    requires
        1 <= k <= n,
        joined_paths(cells, k) is Err,
    ensures
        joined_paths(cells, n) == joined_paths(cells, k),
    decreases n - k,
{
    if k < n {
        lemma_joined_prefix(cells, k, n - 1);
    }
}

/// Computes the path through a sequence of cells (at least two): the grid
/// paths between consecutive cells, joined, without repeating a cell that
/// ends one path and starts the next.
pub fn grid_path_through(cells: &Vec<u64>) -> (r: Result<Vec<u64>, PathError>)
    ensures
        match r {
            Ok(path) => path_through(cells@) == Ok::<Seq<u64>, PathError>(path@),
            Err(e) => path_through(cells@) == Err::<Seq<u64>, PathError>(e),
        },
{
    if cells.len() < 2 {
        return Err(PathError::NotEnoughCells);
    }
    let mut out: Vec<u64> = Vec::new();
    let ghost mut joined: Seq<u64> = Seq::empty();
    let mut k: usize = 1;
    while k < cells.len()
        invariant
            1 <= k <= cells.len(),
            joined_paths(cells@, k as int) == Ok::<Seq<u64>, int>(joined),
            out@ == dedup(joined),
        decreases cells.len() - k,
    {
        match path_between(cells[k - 1], cells[k]) {
            None => {
                proof {
                    lemma_joined_prefix(cells@, k as int + 1, cells.len() as int);
                }
                return Err(PathError::NoPath(k - 1));
            },
            Some(q) => {
                let mut j: usize = 0;
                while j < q.len()
                    invariant
                        j <= q.len(),
                        out@ == dedup(joined + q@.take(j as int)),
                    decreases q.len() - j,
                {
                    let x = q[j];
                    proof {
                        assert((joined + q@.take(j as int + 1)).drop_last() =~= joined + q@.take(
                            j as int,
                        ));
                        assert((joined + q@.take(j as int + 1)).last() == x);
                    }
                    if out.len() == 0 || out[out.len() - 1] != x {
                        out.push(x);
                    }
                    j = j + 1;
                }
                proof {
                    assert(q@.take(q.len() as int) =~= q@);
                    joined = joined + q@;
                }
            },
        }
        k = k + 1;
    }
    Ok(out)
}

} // verus!
