//! MWA tiles on the GPU.
//!
//! Tiles that have the same delays and gains have the same response, so the device computes it
//! once; the tile map says which of the unique tiles each tile is.

use vstd::prelude::*;

use crate::amps::amps_fit;
use crate::beam::{AnalyticBeam, AnalyticType};
use crate::double::Double;
use crate::error::AnalyticBeamError;
use crate::gpu::launch::Kernel;
use crate::gpu::laws::law_unique_tiles_are_the_tiles_once;
use crate::lists::append_copy;
use crate::rts::lemma_side;
use crate::table::{DelayTable, RealTable};

verus! {

/// The delays and gains of a tile, as they are given.
pub type TileModel = (Seq<u32>, Seq<Double>);

/// The tiles whose delays and gains are the rows of two tables, as many as both have.
pub open spec fn tiles_of(delays: Seq<Seq<u32>>, amps: Seq<Seq<Double>>) -> Seq<TileModel> {
    Seq::new(
        if delays.len() <= amps.len() {
            delays.len()
        } else {
            amps.len()
        },
        |t: int| (delays[t], amps[t]),
    )
}

/// The different ones of `tiles`, in the order in which they first occur.
pub open spec fn unique_tiles(tiles: Seq<TileModel>) -> Seq<TileModel>
    decreases tiles.len(),
{
    if tiles.len() == 0 {
        Seq::empty()
    } else {
        let unique = unique_tiles(tiles.drop_last());
        if unique.contains(tiles.last()) {
            unique
        } else {
            unique.push(tiles.last())
        }
    }
}

/// Does `map` say, of each tile, which of the unique tiles it is?
pub open spec fn maps_tiles(map: Seq<i32>, tiles: Seq<TileModel>) -> bool {
    let unique = unique_tiles(tiles);
    &&& map.len() == tiles.len()
    &&& forall|t: int|
        0 <= t < tiles.len() ==> 0 <= #[trigger] map[t] < unique.len() && unique[map[t] as int]
            == tiles[t]
}

/// Why these tables are refused, if they are.
pub open spec fn table_refusal(
    beam: AnalyticBeam,
    num_rows: nat,
    delay_cols: nat,
    amp_cols: nat,
) -> Option<AnalyticBeamError> {
    let n = beam.num_bowties();
    if delay_cols != n {
        Some(
            AnalyticBeamError::IncorrectDelaysArrayColLength {
                rows: num_rows as usize,
                num_delays: delay_cols as usize,
                expected: n as usize,
            },
        )
    } else if !amps_fit(amp_cols, n) {
        Some(
            AnalyticBeamError::IncorrectAmpsLength {
                got: amp_cols as usize,
                expected1: n as usize,
                expected2: (n * 2) as usize,
            },
        )
    } else {
        None
    }
}

/// What the device is given for MWA tiles.
pub struct MwaRtsInner {
    pub beam_type: AnalyticType,
    pub dipole_height: Double,
    pub bowties_per_row: u8,
    /// The delays of the unique tiles' bowties in the order in which they are counted, tile by
    /// tile, in delay steps.
    pub delays: Vec<u32>,
    /// For each unique tile the sum of its delays, where they count relative to their mean.
    pub means_of: Vec<Option<u128>>,
    /// The gains of the unique tiles' bowties in the order in which they are counted, tile by tile.
    pub amps: Vec<Double>,
    pub num_unique_tiles: i32,
    pub tile_map: Vec<i32>,
}

/// The sum `mean` as a natural number.
pub open spec fn mean_view(mean: Option<u128>) -> Option<nat> {
    match mean {
        Some(total) => Some(total as nat),
        None => None,
    }
}

/// The delays of the different ones of `tiles`, tile by tile.
pub open spec fn flat_delays(beam: AnalyticBeam, unique: Seq<TileModel>) -> Seq<u32> {
    unique.map_values(|tile: TileModel| beam.ordered_delays(tile.0).steps).flatten()
}

/// The gains of the different ones of `tiles`, tile by tile.
pub open spec fn flat_amps(beam: AnalyticBeam, unique: Seq<TileModel>) -> Seq<Double> {
    unique.map_values(|tile: TileModel| beam.ordered_amps(tile.0, tile.1)).flatten()
}

/// The sums of the delays of the different ones of `tiles`.
pub open spec fn tile_means(beam: AnalyticBeam, unique: Seq<TileModel>) -> Seq<Option<nat>> {
    unique.map_values(|tile: TileModel| beam.ordered_delays(tile.0).mean_of)
}

impl MwaRtsInner {
    /// Every tile is one of the unique tiles.
    pub open spec fn wf(&self) -> bool {
        forall|t: int|
            0 <= t < self.tile_map@.len() ==> 0 <= #[trigger] self.tile_map@[t]
                < self.num_unique_tiles
    }

    /// Is this what the device is given for `tiles`?
    pub open spec fn prepares(&self, beam: AnalyticBeam, tiles: Seq<TileModel>) -> bool {
        let unique = unique_tiles(tiles);
        &&& self.beam_type == beam.beam_type
        &&& self.dipole_height == beam.dipole_height
        &&& self.bowties_per_row == beam.bowties_per_row
        &&& self.delays@ == flat_delays(beam, unique)
        &&& self.means_of@.map_values(|mean: Option<u128>| mean_view(mean)) == tile_means(
            beam,
            unique,
        )
        &&& self.amps@ == flat_amps(beam, unique)
        &&& self.num_unique_tiles == unique.len()
        &&& maps_tiles(self.tile_map@, tiles)
    }

    /// Which kernel computes the responses of these tiles.
    pub open spec fn kernel(&self) -> Kernel<'_> {
        if self.beam_type is Rts {
            Kernel::Rts(self)
        } else {
            Kernel::MwaPb(self)
        }
    }

    /// Which kernel computes the responses of these tiles.
    pub fn get_kernel(&self) -> (kernel: Kernel<'_>)
        ensures
            kernel == self.kernel(),
    {
        match self.beam_type {
            AnalyticType::Rts => Kernel::Rts(self),
            _ => Kernel::MwaPb(self),
        }
    }

    /// Find the unique tiles, and put their delays and gains in the order in which they are
    /// counted.
    pub fn new(
        beam: &AnalyticBeam,
        delays_array: &DelayTable,
        amps_array: &RealTable,
    ) -> (r: Result<MwaRtsInner, AnalyticBeamError>)
        requires
            beam.wf(),
            beam.beam_type.is_mwa(),
            table_refusal(*beam, delays_array@.len(), delays_array.cols(), amps_array.cols()) is None
                ==> unique_tiles(tiles_of(delays_array@, amps_array@)).len() <= i32::MAX,
        ensures
            table_refusal(*beam, delays_array@.len(), delays_array.cols(), amps_array.cols())
                matches Some(e) ==> r == Err::<MwaRtsInner, AnalyticBeamError>(e),
            table_refusal(*beam, delays_array@.len(), delays_array.cols(), amps_array.cols()) is None
                ==> r is Ok && r->Ok_0.wf() && r->Ok_0.prepares(
                *beam,
                tiles_of(delays_array@, amps_array@),
            ),
    {
        let num_bowties = beam.get_num_bowties();
        let num_rows = delays_array.num_rows();
        let delay_cols = delays_array.num_cols();
        let amp_cols = amps_array.num_cols();
        if delay_cols != num_bowties {
            return Err(
                AnalyticBeamError::IncorrectDelaysArrayColLength {
                    rows: num_rows,
                    num_delays: delay_cols,
                    expected: num_bowties,
                },
            );
        }
        if amp_cols != num_bowties && amp_cols != num_bowties * 2 {
            return Err(
                AnalyticBeamError::IncorrectAmpsLength {
                    got: amp_cols,
                    expected1: num_bowties,
                    expected2: num_bowties * 2,
                },
            );
        }
        let num_amp_rows = amps_array.num_rows();
        let num_tiles = if num_rows <= num_amp_rows {
            num_rows
        } else {
            num_amp_rows
        };
        let ghost tiles = tiles_of(delays_array@, amps_array@);
        let mut unique: Vec<(Vec<u32>, Vec<Double>)> = Vec::new();
        let mut delays: Vec<u32> = Vec::new();
        let mut means_of: Vec<Option<u128>> = Vec::new();
        let mut amps: Vec<Double> = Vec::new();
        let mut tile_map: Vec<i32> = Vec::with_capacity(num_tiles);
        let mut t: usize = 0;
        proof {
            let none = Seq::<TileModel>::empty();
            assert(tiles.take(0) =~= none);
            assert(none.map_values(|tile: TileModel| beam.ordered_delays(tile.0).steps) =~= Seq::<Seq<u32>>::empty());
            assert(none.map_values(|tile: TileModel| beam.ordered_amps(tile.0, tile.1)) =~= Seq::<Seq<Double>>::empty());
        }
        while t < num_tiles
            invariant
                beam.wf(),
                beam.beam_type.is_mwa(),
                t <= num_tiles == tiles.len(),
                tiles == tiles_of(delays_array@, amps_array@),
                delays_array.cols() == beam.num_bowties(),
                amps_fit(amps_array.cols(), beam.num_bowties()),
                unique_tiles(tiles).len() <= i32::MAX,
                key_views(unique@) =~= unique_tiles(tiles.take(t as int)),
                delays@ == flat_delays(*beam, key_views(unique@)),
                means_of@.map_values(|mean: Option<u128>| mean_view(mean)) =~= tile_means(
                    *beam,
                    key_views(unique@),
                ),
                amps@ == flat_amps(*beam, key_views(unique@)),
                maps_tiles(tile_map@, tiles.take(t as int)),
            decreases num_tiles - t,
        {
            let row_delays = delays_array.row(t);
            let row_amps = amps_array.row(t);
            let ghost tile: TileModel = (row_delays@, row_amps@);
            let ghost before = unique_tiles(tiles.take(t as int));
            proof {
                assert(tiles[t as int] == tile);
                assert(tiles.take(t + 1).drop_last() =~= tiles.take(t as int));
                assert(tiles.take(t + 1).last() == tile);
                lemma_unique_grows(tiles, t + 1);
                lemma_side(beam.bowties_per_row as nat);
            }
            let index = find_tile(&unique, &row_delays, &row_amps);
            if index == unique.len() {
                let ghost old_unique = key_views(unique@);
                let (tile_amps, tile_delays) = beam.ordered_tile(&row_amps, &row_delays);
                append_copy(&mut delays, &tile_delays.steps);
                append_copy(&mut amps, &tile_amps);
                let ghost old_means = means_of@.map_values(|mean: Option<u128>| mean_view(mean));
                means_of.push(tile_delays.mean_of);
                unique.push((row_delays, row_amps));
                proof {
                    assert(key_views(unique@) =~= old_unique.push(tile));
                    let d = |tile: TileModel| beam.ordered_delays(tile.0).steps;
                    let a = |tile: TileModel| beam.ordered_amps(tile.0, tile.1);
                    assert(old_unique.push(tile).map_values(d) =~= old_unique.map_values(d).push(d(tile)));
                    assert(old_unique.push(tile).map_values(a) =~= old_unique.map_values(a).push(a(tile)));
                    old_unique.map_values(d).lemma_flatten_push(d(tile));
                    old_unique.map_values(a).lemma_flatten_push(a(tile));
                    let mean = tile_delays@.mean_of;
                    assert(tile_means(*beam, old_unique.push(tile)) =~= tile_means(*beam, old_unique).push(mean));
                    assert(means_of@.map_values(|mean: Option<u128>| mean_view(mean)) =~= old_means.push(mean));
                }
            }
            tile_map.push(index as i32);
            proof {
                let after = unique_tiles(tiles.take(t + 1));
                assert(after == key_views(unique@));
                assert(after[index as int] == tile);
                assert forall|s: int| 0 <= s < t + 1 implies 0 <= #[trigger] tile_map@[s] < after.len()
                    && after[tile_map@[s] as int] == tiles.take(t + 1)[s] by {
                    if s < t {
                        assert(before[tile_map@[s] as int] == tiles.take(t as int)[s]);
                        assert(after[tile_map@[s] as int] == before[tile_map@[s] as int]);
                    }
                }
            }
            t = t + 1;
        }
        assert(tiles.take(num_tiles as int) =~= tiles);
        Ok(
            MwaRtsInner {
                beam_type: beam.beam_type,
                dipole_height: beam.dipole_height,
                bowties_per_row: beam.bowties_per_row,
                delays,
                means_of,
                amps,
                num_unique_tiles: unique.len() as i32,
                tile_map,
            },
        )
    }
}

/// What the keys of unique tiles stand for.
spec fn key_views(keys: Seq<(Vec<u32>, Vec<Double>)>) -> Seq<TileModel> {
    keys.map_values(|key: (Vec<u32>, Vec<Double>)| (key.0@, key.1@))
}

/// Can the unique tiles of two tables be counted?
pub fn unique_tiles_fit(delays_array: &DelayTable, amps_array: &RealTable) -> (r: bool)
    ensures
        r == (unique_tiles(tiles_of(delays_array@, amps_array@)).len() <= i32::MAX),
{
    let ghost tiles = tiles_of(delays_array@, amps_array@);
    let num_rows = delays_array.num_rows();
    let num_amp_rows = amps_array.num_rows();
    let num_tiles = if num_rows <= num_amp_rows {
        num_rows
    } else {
        num_amp_rows
    };
    if num_tiles <= i32::MAX as usize {
        proof {
            law_unique_tiles_are_the_tiles_once(tiles);
        }
        return true;
    }
    let mut unique: Vec<(Vec<u32>, Vec<Double>)> = Vec::new();
    let mut t: usize = 0;
    assert(tiles.take(0) =~= Seq::<TileModel>::empty());
    while t < num_tiles
        invariant
            t <= num_tiles == tiles.len(),
            tiles == tiles_of(delays_array@, amps_array@),
            key_views(unique@) =~= unique_tiles(tiles.take(t as int)),
        decreases num_tiles - t,
    {
        let row_delays = delays_array.row(t);
        let row_amps = amps_array.row(t);
        assert(tiles[t as int] == (row_delays@, row_amps@));
        assert(tiles.take(t + 1).drop_last() =~= tiles.take(t as int));
        if find_tile(&unique, &row_delays, &row_amps) == unique.len() {
            unique.push((row_delays, row_amps));
        }
        t = t + 1;
    }
    assert(tiles.take(num_tiles as int) =~= tiles);
    unique.len() <= i32::MAX as usize
}

/// Where in `unique` a tile stands, or its length where it does not.
fn find_tile(
    unique: &Vec<(Vec<u32>, Vec<Double>)>,
    delays: &Vec<u32>,
    amps: &Vec<Double>,
) -> (index: usize)
    ensures
        index <= unique@.len(),
        index < unique@.len() ==> key_views(unique@)[index as int] == (delays@, amps@),
        index == unique@.len() ==> !key_views(unique@).contains((delays@, amps@)),
{
    let mut index: usize = 0;
    while index < unique.len()
        invariant
            index <= unique@.len(),
            forall|i: int| 0 <= i < index ==> key_views(unique@)[i] != (delays@, amps@),
        decreases unique@.len() - index,
    {
        if same_delays(&unique[index].0, delays) && same_amps(&unique[index].1, amps) {
            return index;
        }
        index = index + 1;
    }
    index
}

/// Are two rows of delays the same?
fn same_delays(a: &Vec<u32>, b: &Vec<u32>) -> (r: bool)
    ensures
        r == (a@ == b@),
{
    if a.len() != b.len() {
        return false;
    }
    let mut i: usize = 0;
    while i < a.len()
        invariant
            i <= a@.len() == b@.len(),
            forall|k: int| 0 <= k < i ==> a@[k] == b@[k],
        decreases a@.len() - i,
    {
        if a[i] != b[i] {
            return false;
        }
        i = i + 1;
    }
    assert(a@ =~= b@);
    true
}

/// Are two rows of gains the same, bit by bit?
fn same_amps(a: &Vec<Double>, b: &Vec<Double>) -> (r: bool)
    ensures
        r == (a@ == b@),
{
    if a.len() != b.len() {
        return false;
    }
    let mut i: usize = 0;
    while i < a.len()
        invariant
            i <= a@.len() == b@.len(),
            forall|k: int| 0 <= k < i ==> a@[k] == b@[k],
        decreases a@.len() - i,
    {
        if a[i].bits != b[i].bits {
            return false;
        }
        i = i + 1;
    }
    assert(a@ =~= b@);
    true
}

/// Looking at more tiles does not take unique tiles away.
proof fn lemma_unique_grows(tiles: Seq<TileModel>, t: int)
    requires
        0 <= t <= tiles.len(),
    ensures
        unique_tiles(tiles.take(t)).len() <= unique_tiles(tiles).len(),
    decreases tiles.len(),
{
    if t == tiles.len() {
        assert(tiles.take(t) =~= tiles);
    } else {
        assert(tiles.drop_last().take(t) =~= tiles.take(t));
        lemma_unique_grows(tiles.drop_last(), t);
    }
}

} // verus!
