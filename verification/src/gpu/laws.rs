//! What holds of the GPU beams as a whole.

use vstd::prelude::*;

use crate::amps::amps_fit;
use crate::beam::AnalyticBeam;
use crate::double::Double;
use crate::gpu::beam_gpu::{AnalyticBeamGpu, AnalyticTypeInner};
use crate::gpu::cube::Jones;
use crate::gpu::mwa_rts::{
    maps_tiles, mean_view, table_refusal, tile_means, unique_tiles, MwaRtsInner, TileModel,
};
use crate::gpu::ska::flat_tables;
use crate::lists::{lemma_flat_index, lemma_flat_len};
use crate::rts::lemma_side;
use crate::table::{is_grid, RealTable};

verus! {

/// The unique tiles are the tiles, each once: none of them occurs twice, each is a tile, and each
/// tile is one of them. So there are no more of them than tiles, and none only where there is no
/// tile.
pub proof fn law_unique_tiles_are_the_tiles_once(tiles: Seq<TileModel>)
    ensures
        unique_tiles(tiles).no_duplicates(),
        forall|tile: TileModel|
            #[trigger] unique_tiles(tiles).contains(tile) <==> tiles.contains(tile),
        unique_tiles(tiles).len() <= tiles.len(),
        unique_tiles(tiles).len() == 0 <==> tiles.len() == 0,
    decreases tiles.len(),
{
    let unique = unique_tiles(tiles);
    if tiles.len() > 0 {
        let last = tiles.last();
        let rest = tiles.drop_last();
        let before = unique_tiles(rest);
        law_unique_tiles_are_the_tiles_once(rest);
        assert forall|tile: TileModel| #[trigger] unique.contains(tile) <==> tiles.contains(tile) by {
            if tiles.contains(tile) {
                let i = choose|i: int| 0 <= i < tiles.len() && tiles[i] == tile;
                if i < rest.len() {
                    assert(rest[i] == tile);
                    assert(rest.contains(tile));
                    assert(before.contains(tile));
                    let k = choose|k: int| 0 <= k < before.len() && before[k] == tile;
                    assert(unique[k] == tile);
                } else if !before.contains(last) {
                    assert(unique[unique.len() - 1] == tile);
                }
            }
            if unique.contains(tile) {
                let k = choose|k: int| 0 <= k < unique.len() && unique[k] == tile;
                if k < before.len() {
                    assert(before[k] == tile);
                    assert(before.contains(tile));
                    assert(rest.contains(tile));
                    let i = choose|i: int| 0 <= i < rest.len() && rest[i] == tile;
                    assert(tiles[i] == tile);
                } else {
                    assert(tiles[tiles.len() - 1] == tile);
                }
            }
        }
        if before.contains(last) {
            assert(before.len() > 0);
        }
    }
}

/// Finding the unique tiles of unique tiles changes nothing.
pub proof fn law_unique_tiles_stay(tiles: Seq<TileModel>)
    ensures
        unique_tiles(unique_tiles(tiles)) == unique_tiles(tiles),
{
    law_unique_tiles_are_the_tiles_once(tiles);
    lemma_distinct_tiles_stay(unique_tiles(tiles));
}

proof fn lemma_distinct_tiles_stay(tiles: Seq<TileModel>)
    requires
        tiles.no_duplicates(),
    ensures
        unique_tiles(tiles) == tiles,
    decreases tiles.len(),
{
    if tiles.len() > 0 {
        let rest = tiles.drop_last();
        lemma_distinct_tiles_stay(rest);
        if rest.contains(tiles.last()) {
            let i = choose|i: int| 0 <= i < rest.len() && rest[i] == tiles.last();
            assert(tiles[i] == tiles[tiles.len() - 1]);
        }
        assert(rest.push(tiles.last()) =~= tiles);
    }
}

/// Two tiles are computed as one exactly where their delays and gains are the same.
pub proof fn law_tiles_are_shared_only_if_the_same(
    map: Seq<i32>,
    tiles: Seq<TileModel>,
    s: int,
    t: int,
)
    requires
        maps_tiles(map, tiles),
        0 <= s < tiles.len(),
        0 <= t < tiles.len(),
    ensures
        map[s] == map[t] <==> tiles[s] == tiles[t],
{
    law_unique_tiles_are_the_tiles_once(tiles);
    let unique = unique_tiles(tiles);
    assert(unique[map[s] as int] == tiles[s]);
    assert(unique[map[t] as int] == tiles[t]);
}

/// De-duplication is undone: if the device gives each unique tile the response that its delays and
/// gains call for, each tile ends up with the response that its own call for.
pub proof fn law_each_tile_gets_its_own_response(
    gpu: AnalyticBeamGpu,
    beam: AnalyticBeam,
    tiles: Seq<TileModel>,
    respond: spec_fn(TileModel) -> Seq<Seq<Jones>>,
    device: Seq<Seq<Seq<Jones>>>,
)
    requires
        gpu.analytic_type matches AnalyticTypeInner::MwaRts(inner) && inner.prepares(beam, tiles),
        device == unique_tiles(tiles).map_values(respond),
    ensures
        gpu.expanded(device) == tiles.map_values(respond),
        device.len() == gpu.device_num_tiles(),
{
    let inner = gpu.analytic_type->MwaRts_0;
    let unique = unique_tiles(tiles);
    assert forall|t: int| 0 <= t < tiles.len() implies #[trigger] gpu.expanded(device)[t] == respond(
        tiles[t],
    ) by {
        let u = inner.tile_map@[t] as int;
        assert(0 <= u < unique.len() && unique[u] == tiles[t]);
    }
    assert(gpu.expanded(device) =~= tiles.map_values(respond));
}

/// The rows of the tables are held to the same numbers of delays and gains as those of a tile whose
/// response is asked for without a GPU.
pub proof fn law_gpu_takes_the_same_tiles(
    beam: AnalyticBeam,
    num_rows: nat,
    num_delays: nat,
    num_amps: nat,
)
    ensures
        table_refusal(beam, num_rows, num_delays, num_amps) is None <==> beam.length_refusal(
            num_delays,
            num_amps,
        ) is None,
        num_delays == beam.num_bowties() ==> table_refusal(beam, num_rows, num_delays, num_amps)
            == beam.length_refusal(num_delays, num_amps),
{
}

/// Where its place in the tile map says, the device finds the delays and gains of each tile, bowtie
/// by bowtie as they enter the tile's response without a GPU.
pub proof fn law_device_holds_each_tile(
    inner: MwaRtsInner,
    beam: AnalyticBeam,
    tiles: Seq<TileModel>,
    latitude_rad: Double,
    norm_to_zenith: bool,
    t: int,
    k: int,
)
    requires
        beam.wf(),
        beam.beam_type.is_mwa(),
        inner.prepares(beam, tiles),
        forall|s: int|
            0 <= s < tiles.len() ==> (#[trigger] tiles[s]).0.len() == beam.num_bowties() && amps_fit(
                tiles[s].1.len(),
                beam.num_bowties(),
            ),
        0 <= t < tiles.len(),
        0 <= k < beam.num_bowties(),
    ensures
        ({
            let place = inner.tile_map@[t] * beam.num_bowties() + k;
            let response = beam.tile_response(
                beam.ordered_delays(tiles[t].0),
                beam.ordered_amps(tiles[t].0, tiles[t].1),
                latitude_rad,
                norm_to_zenith,
            );
            &&& 0 <= place < inner.delays@.len()
            &&& inner.amps@.len() == inner.delays@.len()
            &&& inner.delays@[place] == response.dipoles[k].delay
            &&& inner.amps@[place] == response.dipoles[k].amp
            &&& mean_view(inner.means_of@[inner.tile_map@[t] as int]) == response.mean_of
        }),
{
    let n = beam.num_bowties();
    let unique = unique_tiles(tiles);
    let u = inner.tile_map@[t] as int;
    let delays = unique.map_values(|tile: TileModel| beam.ordered_delays(tile.0).steps);
    let amps = unique.map_values(|tile: TileModel| beam.ordered_amps(tile.0, tile.1));
    lemma_side(beam.bowties_per_row as nat);
    law_unique_tiles_are_the_tiles_once(tiles);
    assert forall|i: int| 0 <= i < unique.len() implies (#[trigger] unique[i]).0.len() == n by {
        assert(unique.contains(unique[i]));
        assert(tiles.contains(unique[i]));
        let s = choose|s: int| 0 <= s < tiles.len() && tiles[s] == unique[i];
        assert(tiles[s].0.len() == n);
    }
    assert forall|i: int| 0 <= i < delays.len() implies (#[trigger] delays[i]).len() == n by {
        assert(unique[i].0.len() == n);
    }
    assert forall|i: int| 0 <= i < amps.len() implies (#[trigger] amps[i]).len() == n by {
        assert(unique[i].0.len() == n);
    }
    assert(0 <= u < unique.len() && unique[u] == tiles[t]);
    lemma_flat_index(delays, n, u, k);
    lemma_flat_index(amps, n, u, k);
    lemma_flat_len(delays, n);
    lemma_flat_len(amps, n);
    let means = inner.means_of@.map_values(|mean: Option<u128>| mean_view(mean));
    assert(means == tile_means(beam, unique));
    assert(tile_means(beam, unique).len() == unique.len());
    assert(means.len() == inner.means_of@.len());
    assert(means.len() == unique.len());
    assert(means[u] == mean_view(inner.means_of@[u]));
}

/// The number of rows of all of `tables`.
pub open spec fn num_rows(tables: Seq<RealTable>) -> nat
    decreases tables.len(),
{
    if tables.len() == 0 {
        0
    } else {
        num_rows(tables.drop_last()) + tables.last()@.len()
    }
}

/// The device finds coordinate `c` of element `i` of station `j` by counting the elements of the
/// stations before, where each element has `cols` coordinates.
pub proof fn law_device_holds_each_element(
    tables: Seq<RealTable>,
    cols: nat,
    j: int,
    i: int,
    c: int,
)
    requires
        forall|k: int| 0 <= k < tables.len() ==> is_grid((#[trigger] tables[k])@, cols),
        0 <= j < tables.len(),
        0 <= i < tables[j]@.len(),
        0 <= c < cols,
    ensures
        0 <= (num_rows(tables.take(j)) + i) * cols + c < flat_tables(tables).len(),
        flat_tables(tables)[(num_rows(tables.take(j)) + i) * cols + c] == tables[j]@[i][c],
    decreases tables.len(),
{
    let rest = tables.drop_last();
    let last = tables.last();
    let rows = |table: RealTable| table@.flatten();
    assert(is_grid(tables[tables.len() - 1]@, cols));
    assert forall|k: int| 0 <= k < rest.len() implies is_grid((#[trigger] rest[k])@, cols) by {
        assert(is_grid(tables[k]@, cols));
    }
    lemma_flat_tables_len(rest, cols);
    assert(tables.map_values(rows) =~= rest.map_values(rows).push(last@.flatten()));
    rest.map_values(rows).lemma_flatten_push(last@.flatten());
    assert(flat_tables(tables) == flat_tables(rest) + last@.flatten());
    let before = num_rows(tables.take(j));
    if j < rest.len() {
        law_device_holds_each_element(rest, cols, j, i, c);
        assert(rest.take(j) =~= tables.take(j));
    } else {
        assert(tables.take(j) =~= rest);
        lemma_flat_index(last@, cols, i, c);
        assert((before + i) * cols + c == before * cols + (i * cols + c)) by (nonlinear_arith);
    }
}

/// How many cells tables with rows of `cols` cells have.
pub proof fn lemma_flat_tables_len(tables: Seq<RealTable>, cols: nat)
    requires
        forall|k: int| 0 <= k < tables.len() ==> is_grid((#[trigger] tables[k])@, cols),
    ensures
        flat_tables(tables).len() == num_rows(tables) * cols,
    decreases tables.len(),
{
    let rows = |table: RealTable| table@.flatten();
    if tables.len() == 0 {
        assert(tables.map_values(rows) =~= Seq::<Seq<Double>>::empty());
        assert(0 * cols == 0);
    } else {
        let rest = tables.drop_last();
        let last = tables.last();
        assert(is_grid(tables[tables.len() - 1]@, cols));
        assert forall|k: int| 0 <= k < rest.len() implies is_grid((#[trigger] rest[k])@, cols) by {
            assert(is_grid(tables[k]@, cols));
        }
        lemma_flat_tables_len(rest, cols);
        lemma_flat_len(last@, cols);
        assert(tables.map_values(rows) =~= rest.map_values(rows).push(last@.flatten()));
        rest.map_values(rows).lemma_flatten_push(last@.flatten());
        let n = num_rows(rest);
        let m = last@.len();
        assert((n + m) * cols == n * cols + m * cols) by (nonlinear_arith);
    }
}

} // verus!
