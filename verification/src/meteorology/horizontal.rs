//! Index selection of bilinear horizontal sampling on a cell-centre grid.
//!
//! The lower corner `(ix, jy)` is the cell containing the request; the upper
//! corner is the next column and row, except on the last row (which
//! collapses onto itself) and on the last column of a regional grid (which
//! collapses likewise). A periodic grid reaches past its last column into a
//! ghost column `nx` that mirrors column 0.

use vstd::prelude::*;

verus! {

/// The upper corner `(ixp, jyp)` paired with the lower corner `(ix, jy)`.
pub open spec fn upper_corner(ix: int, jy: int, nx: int, ny: int, periodic: bool) -> (int, int) {
    let jyp = if jy + 1 >= ny {
        jy
    } else {
        jy + 1
    };
    let ixp = if periodic {
        ix + 1
    } else if ix + 1 >= nx {
        ix
    } else {
        ix + 1
    };
    (ixp, jyp)
}

/// The upper corner of the bilinear stencil whose lower corner is the cell
/// `(ix, jy)`.
pub fn horizontal_neighbours(ix: usize, jy: usize, nx: usize, ny: usize, periodic: bool) -> (r: (
    usize,
    usize,
))
    requires
        ix < nx,
        jy < ny,
    ensures
        r.0 == upper_corner(ix as int, jy as int, nx as int, ny as int, periodic).0,
        r.1 == upper_corner(ix as int, jy as int, nx as int, ny as int, periodic).1,
        jy <= r.1 < ny,
        ix <= r.0 <= ix + 1,
        periodic ==> r.0 <= nx,
        !periodic ==> r.0 < nx,
{
    let jyp = if jy + 1 >= ny {
        jy
    } else {
        jy + 1
    };
    let ixp = if periodic {
        ix + 1
    } else if ix + 1 >= nx {
        ix
    } else {
        ix + 1
    };
    (ixp, jyp)
}

/// Flat offset of the stored value read for column `ix` and row `jy`; the
/// ghost column `nx` of a periodic grid reads column 0. `None` outside the
/// grid.
pub open spec fn stored_offset(ix: int, jy: int, nx: int, ny: int, periodic: bool) -> Option<int> {
    if jy >= ny {
        None
    } else if periodic && ix == nx {
        Some(nx * jy)
    } else if ix < nx {
        Some(ix + nx * jy)
    } else {
        None
    }
}

/// Storage offset of the grid point `(ix, jy)`, wrapping `ix == nx` to the
/// first column on a periodic grid; `None` outside the grid.
pub fn stored_value_offset(ix: usize, jy: usize, nx: usize, ny: usize, periodic: bool) -> (r: Option<
    usize,
>)
    requires
        nx * ny <= usize::MAX,
    ensures
        match r {
            Some(o) => stored_offset(ix as int, jy as int, nx as int, ny as int, periodic) == Some(
                o as int,
            ) && (nx > 0 ==> o < nx * ny),
            None => stored_offset(ix as int, jy as int, nx as int, ny as int, periodic) is None,
        },
{
    if jy >= ny {
        return None;
    }
    let stored_x = if periodic && ix == nx {
        0
    } else if ix < nx {
        ix
    } else {
        return None;
    };
    proof {
        assert(stored_x + nx * jy <= nx * ny) by (nonlinear_arith)
            requires
                stored_x <= nx,
                jy < ny,
        ;
        if nx > 0 {
            assert(stored_x + nx * jy < nx * ny) by (nonlinear_arith)
                requires
                    stored_x < nx,
                    jy < ny,
            ;
        }
    }
    Some(stored_x + nx * jy)
}

/// Every corner of a stencil built from an in-grid lower corner reads a
/// stored value inside the field.
pub proof fn lemma_stencil_in_bounds(ix: int, jy: int, nx: int, ny: int, periodic: bool)
    requires
        0 <= ix < nx,
        0 <= jy < ny,
    ensures
        ({
            let (ixp, jyp) = upper_corner(ix, jy, nx, ny, periodic);
            &&& stored_offset(ix, jy, nx, ny, periodic) matches Some(a) && 0 <= a < nx * ny
            &&& stored_offset(ixp, jy, nx, ny, periodic) matches Some(b) && 0 <= b < nx * ny
            &&& stored_offset(ix, jyp, nx, ny, periodic) matches Some(c) && 0 <= c < nx * ny
            &&& stored_offset(ixp, jyp, nx, ny, periodic) matches Some(d) && 0 <= d < nx * ny
        }),
{
    let (ixp, jyp) = upper_corner(ix, jy, nx, ny, periodic);
    assert forall|x: int, y: int| 0 <= x < nx && 0 <= y < ny implies 0 <= #[trigger] (x + nx * y)
        < nx * ny by {
        assert(0 <= x + nx * y < nx * ny) by (nonlinear_arith)
            requires
                0 <= x < nx,
                0 <= y < ny,
        ;
    }
    assert(0 <= nx * jy < nx * ny) by (nonlinear_arith)
        requires
            0 <= jy < ny,
            0 < nx,
    ;
    assert(0 <= nx * jyp < nx * ny) by (nonlinear_arith)
        requires
            0 <= jyp < ny,
            0 < nx,
    ;
}

} // verus!
