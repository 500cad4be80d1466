//! Jones matrices by tile, frequency and direction, held by `ndarray`.

use vstd::prelude::*;

use crate::double::Double;
use crate::table::nonzero;

verus! {

/// A complex number.
#[derive(Clone, Copy, Debug, PartialEq, Eq, Structural)]
pub struct Complex {
    pub re: Double,
    pub im: Double,
}

/// A Jones matrix, row by row.
#[derive(Clone, Copy, Debug, PartialEq, Eq, Structural)]
pub struct Jones {
    pub j00: Complex,
    pub j01: Complex,
    pub j10: Complex,
    pub j11: Complex,
}

/// The number of bytes of a Jones matrix of binary64 numbers.
pub const JONES_BYTES: u64 = 64;

/// The Jones matrix of zeros.
pub open spec fn zero_jones() -> Jones {
    let zero = Complex { re: Double { bits: 0 }, im: Double { bits: 0 } };
    Jones { j00: zero, j01: zero, j10: zero, j11: zero }
}

impl Default for Jones {
    /// The Jones matrix of zeros.
    fn default() -> (jones: Self)
        ensures
            jones == zero_jones(),
    {
        let zero = Complex { re: Double { bits: 0 }, im: Double { bits: 0 } };
        Jones { j00: zero, j01: zero, j10: zero, j11: zero }
    }
}

/// Is a cube of this shape small enough to be addressed, and its matrices to be held?
pub open spec fn cube_fits(tiles: nat, freqs: nat, directions: nat) -> bool {
    &&& nonzero(tiles) * nonzero(freqs) * nonzero(directions) <= isize::MAX
    &&& tiles * freqs * directions * JONES_BYTES <= isize::MAX
}

/// The matrices `flat`, tile by tile and, in each, frequency by frequency.
pub open spec fn in_cube(
    flat: Seq<Jones>,
    tiles: nat,
    freqs: nat,
    directions: nat,
) -> Seq<Seq<Seq<Jones>>> {
    Seq::new(
        tiles,
        |t: int|
            Seq::new(
                freqs,
                |f: int| Seq::new(directions, |d: int| flat[(t * freqs + f) * directions + d]),
            ),
    )
}

/// The same matrix everywhere.
pub open spec fn filled(
    tiles: nat,
    freqs: nat,
    directions: nat,
    jones: Jones,
) -> Seq<Seq<Seq<Jones>>> {
    Seq::new(tiles, |t: int| Seq::new(freqs, |f: int| Seq::new(directions, |d: int| jones)))
}

/// Does every tile have a matrix for each frequency and direction?
pub open spec fn is_cube(cells: Seq<Seq<Seq<Jones>>>, freqs: nat, directions: nat) -> bool {
    forall|t: int|
        0 <= t < cells.len() ==> (#[trigger] cells[t]).len() == freqs && forall|f: int|
            0 <= f < freqs ==> (#[trigger] cells[t][f]).len() == directions
}

/// Jones matrices by tile, frequency and direction.
#[verifier::external_body]
pub struct ResponseCube {
    cells: ndarray::Array3<Jones>,
}

/// The matrices of a cube, tile by tile and, in each, frequency by frequency.
pub uninterp spec fn cube_cells(cube: ResponseCube) -> Seq<Seq<Seq<Jones>>>;

/// The number of frequencies of a cube, which has one even where it has no tile.
pub uninterp spec fn cube_freqs(cube: ResponseCube) -> nat;

/// The number of directions of a cube, which has one even where it has no tile.
pub uninterp spec fn cube_directions(cube: ResponseCube) -> nat;

/// `ndarray`'s `Array3::from_elem`: the same matrix everywhere.
#[verifier::external_body]
fn cube_from_elem(
    tiles: usize,
    freqs: usize,
    directions: usize,
    jones: Jones,
) -> (cube: ResponseCube)
    requires
        cube_fits(tiles as nat, freqs as nat, directions as nat),
    ensures
        cube_cells(cube) == filled(tiles as nat, freqs as nat, directions as nat, jones),
        cube_freqs(cube) == freqs,
        cube_directions(cube) == directions,
{
    ResponseCube { cells: ndarray::Array3::from_elem((tiles, freqs, directions), jones) }
}

/// `ndarray`'s `Array3::from_shape_vec`, in its default (row-major) layout: it gives a cube with
/// the matrices in order, and gives none exactly where the shape cannot be addressed or does not
/// match the number of matrices.
#[verifier::external_body]
fn cube_from_shape_vec(
    tiles: usize,
    freqs: usize,
    directions: usize,
    flat: Vec<Jones>,
) -> (cube: Option<ResponseCube>)
    ensures
        cube.is_some() == (nonzero(tiles as nat) * nonzero(freqs as nat) * nonzero(
            directions as nat,
        ) <= isize::MAX && flat@.len() == tiles * freqs * directions),
        cube.is_some() ==> cube_cells(cube->0) == in_cube(
            flat@,
            tiles as nat,
            freqs as nat,
            directions as nat,
        ),
        cube.is_some() ==> cube_freqs(cube->0) == freqs,
        cube.is_some() ==> cube_directions(cube->0) == directions,
{
    match ndarray::Array3::from_shape_vec((tiles, freqs, directions), flat) {
        Ok(cells) => Some(ResponseCube { cells }),
        Err(_) => None,
    }
}

/// `ndarray`'s `ArrayBase::len_of`: axis 0 counts the tiles, axis 1 the frequencies and axis 2 the
/// directions, and there is a matrix for each.
#[verifier::external_body]
fn cube_len_of(cube: &ResponseCube, axis: usize) -> (n: usize)
    requires
        axis < 3,
    ensures
        axis == 0 ==> n == cube_cells(*cube).len(),
        axis == 1 ==> n == cube_freqs(*cube) && is_cube(
            cube_cells(*cube),
            n as nat,
            cube_directions(*cube),
        ),
        axis == 2 ==> n == cube_directions(*cube),
{
    cube.cells.len_of(ndarray::Axis(axis))
}

/// `ndarray`'s indexing of an `Array3` by tile, frequency and direction.
#[verifier::external_body]
fn cube_index(cube: &ResponseCube, tile: usize, freq: usize, direction: usize) -> (jones: Jones)
    requires
        tile < cube_cells(*cube).len(),
        freq < cube_freqs(*cube),
        direction < cube_directions(*cube),
    ensures
        jones == cube_cells(*cube)[tile as int][freq as int][direction as int],
{
    cube.cells[[tile, freq, direction]]
}

/// `ndarray`'s `ArrayBase::assign` from one tile of a cube (`index_axis`) to one tile of another
/// (`index_axis_mut`) of the same frequencies and directions: it copies the matrices, and changes
/// nothing else.
#[verifier::external_body]
fn cube_assign(to: &mut ResponseCube, to_tile: usize, from: &ResponseCube, from_tile: usize)
    requires
        to_tile < cube_cells(*old(to)).len(),
        from_tile < cube_cells(*from).len(),
        cube_freqs(*old(to)) == cube_freqs(*from),
        cube_directions(*old(to)) == cube_directions(*from),
    ensures
        cube_cells(*final(to)) == cube_cells(*old(to)).update(
            to_tile as int,
            cube_cells(*from)[from_tile as int],
        ),
        cube_freqs(*final(to)) == cube_freqs(*old(to)),
        cube_directions(*final(to)) == cube_directions(*old(to)),
{
    let axis = ndarray::Axis(0);
    to.cells.index_axis_mut(axis, to_tile).assign(&from.cells.index_axis(axis, from_tile));
}

impl View for ResponseCube {
    type V = Seq<Seq<Seq<Jones>>>;

    open spec fn view(&self) -> Seq<Seq<Seq<Jones>>> {
        cube_cells(*self)
    }
}

impl ResponseCube {
    /// The number of frequencies.
    pub open spec fn freqs(&self) -> nat {
        cube_freqs(*self)
    }

    /// The number of directions.
    pub open spec fn directions(&self) -> nat {
        cube_directions(*self)
    }

    /// The same matrix everywhere.
    pub fn new(tiles: usize, freqs: usize, directions: usize, jones: Jones) -> (cube: ResponseCube)
        requires
            cube_fits(tiles as nat, freqs as nat, directions as nat),
        ensures
            cube@ == filled(tiles as nat, freqs as nat, directions as nat, jones),
            cube.freqs() == freqs,
            cube.directions() == directions,
    {
        cube_from_elem(tiles, freqs, directions, jones)
    }

    /// The matrices `flat`, tile by tile and, in each, frequency by frequency; or none where they
    /// do not fill the shape exactly.
    pub fn from_flat(
        tiles: usize,
        freqs: usize,
        directions: usize,
        flat: Vec<Jones>,
    ) -> (cube: Option<ResponseCube>)
        ensures
            cube is Some <==> nonzero(tiles as nat) * nonzero(freqs as nat) * nonzero(
                directions as nat,
            ) <= isize::MAX && flat@.len() == tiles * freqs * directions,
            cube matches Some(c) ==> {
                &&& c@ == in_cube(flat@, tiles as nat, freqs as nat, directions as nat)
                &&& c.freqs() == freqs
                &&& c.directions() == directions
            },
    {
        cube_from_shape_vec(tiles, freqs, directions, flat)
    }

    /// The number of tiles.
    pub fn num_tiles(&self) -> (n: usize)
        ensures
            n == self@.len(),
    {
        cube_len_of(self, 0)
    }

    /// The number of frequencies.
    pub fn num_freqs(&self) -> (n: usize)
        ensures
            n == self.freqs(),
            is_cube(self@, n as nat, self.directions()),
    {
        cube_len_of(self, 1)
    }

    /// The number of directions.
    pub fn num_directions(&self) -> (n: usize)
        ensures
            n == self.directions(),
    {
        cube_len_of(self, 2)
    }

    /// A matrix.
    pub fn get(&self, tile: usize, freq: usize, direction: usize) -> (jones: Jones)
        requires
            tile < self@.len(),
            freq < self.freqs(),
            direction < self.directions(),
        ensures
            jones == self@[tile as int][freq as int][direction as int],
    {
        cube_index(self, tile, freq, direction)
    }

    /// Copy the matrices of one tile of `from` to a tile.
    pub fn assign_tile(&mut self, tile: usize, from: &ResponseCube, from_tile: usize)
        requires
            tile < old(self)@.len(),
            from_tile < from@.len(),
            old(self).freqs() == from.freqs(),
            old(self).directions() == from.directions(),
        ensures
            final(self)@ == old(self)@.update(tile as int, from@[from_tile as int]),
            final(self).freqs() == old(self).freqs(),
            final(self).directions() == old(self).directions(),
    {
        cube_assign(self, tile, from, from_tile);
    }
}

} // verus!
