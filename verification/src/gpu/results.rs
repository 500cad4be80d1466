//! What holds of whatever a call returns, where a GPU computes.
//!
//! In these laws `call_ensures(f, args, r)` says that `f` can return `r` where it is given `args`.
//! They speak of the fields of what comes back and of what was handed in.

use vstd::math::min;
use vstd::prelude::*;

use crate::amps::amps_fit;
use crate::beam::{azimuths, zenith_angles, AnalyticBeam};
use crate::double::Double;
use crate::error::{AnalyticBeamError, GpuError};
use crate::gpu::beam_gpu::{AnalyticBeamGpu, AnalyticTypeInner, HostEvent, HostStep};
use crate::gpu::cube::{Jones, ResponseCube};
use crate::gpu::launch::{
    device_step, kernel_step, DeviceAddress, DeviceBuffers, DeviceEvent, DeviceRequest, DeviceStep,
    Kernel, KernelLaunch, KernelStep,
};
use crate::gpu::laws::{
    law_device_holds_each_element, law_device_holds_each_tile, law_tiles_are_shared_only_if_the_same,
    law_unique_tiles_are_the_tiles_once, lemma_flat_tables_len, num_rows,
};
use crate::gpu::mwa_rts::{
    mean_view, tile_means, tiles_of, unique_tiles, MwaRtsInner, TileModel,
};
use crate::gpu::ska::{flat_lists, KernelReply, SkaInner};
use crate::lists::lemma_flat_len;
use crate::response::{Direction, JonesTask};
use crate::results::{is_gain, is_sound, lemma_ordered};
use crate::rts::{law_rts_mean_is_that_of_the_delays, lemma_side, square, total};
use crate::table::{is_grid, DelayTable, RealTable};

verus! {

/// Does `map` number the different ones among the rows of two tables, in the order in which they
/// first occur? Rows have the same number exactly where their delays and gains are the same.
pub open spec fn numbers_rows(
    map: Seq<i32>,
    num_unique: int,
    delays: Seq<Seq<u32>>,
    amps: Seq<Seq<Double>>,
) -> bool {
    &&& map.len() == min(delays.len() as int, amps.len() as int)
    &&& forall|t: int| 0 <= t < map.len() ==> 0 <= #[trigger] map[t] < num_unique
    &&& forall|u: int| 0 <= u < num_unique ==> #[trigger] is_used(map, u)
    &&& forall|s: int, t: int|
        0 <= s < map.len() && 0 <= t < map.len() ==> (#[trigger] map[s] == #[trigger] map[t]
            <==> delays[s] == delays[t] && amps[s] == amps[t])
    &&& forall|t: int| 0 <= t < map.len() ==> #[trigger] is_in_turn(map, t)
}

/// Is `u` the number of a row?
pub open spec fn is_used(map: Seq<i32>, u: int) -> bool {
    exists|t: int| 0 <= t < map.len() && #[trigger] map[t] == u
}

/// Is the number of row `t` that of a row before, or else above all of those?
pub open spec fn is_in_turn(map: Seq<i32>, t: int) -> bool {
    ||| exists|s: int| 0 <= s < t && #[trigger] map[s] == map[t]
    ||| forall|s: int| 0 <= s < t ==> #[trigger] map[s] < map[t]
}

/// Does the device find the delay and gain of the bowtie in row `row` and column `col` of tile `t`,
/// where the tile's number and the order of counting say?
pub open spec fn holds_bowtie(
    beam: AnalyticBeam,
    inner: MwaRtsInner,
    delays: Seq<u32>,
    amps: Seq<Double>,
    t: int,
    row: int,
    col: int,
) -> bool {
    let b = beam.bowties_per_row as int;
    let i = row * b + col;
    let k = if beam.beam_type is Rts {
        col * b + (b - 1 - row)
    } else {
        i
    };
    let place = inner.tile_map@[t] * (b * b) + k;
    &&& 0 <= place < inner.delays@.len()
    &&& inner.delays@[place] == delays[i]
    &&& is_gain(inner.amps@[place], amps, delays, i)
}

proof fn lemma_unique_prefix(tiles: Seq<TileModel>, t: int)
    requires
        0 <= t <= tiles.len(),
    ensures
        unique_tiles(tiles.take(t)).len() <= unique_tiles(tiles).len(),
        forall|k: int|
            0 <= k < unique_tiles(tiles.take(t)).len() ==> #[trigger] unique_tiles(
                tiles.take(t),
            )[k] == unique_tiles(tiles)[k],
    decreases tiles.len(),
{
    if t == tiles.len() {
        assert(tiles.take(t) =~= tiles);
    } else {
        let rest = tiles.drop_last();
        assert(rest.take(t) =~= tiles.take(t));
        lemma_unique_prefix(rest, t);
    }
}

proof fn lemma_in_turn(inner: MwaRtsInner, beam: AnalyticBeam, tiles: Seq<TileModel>, t: int)
    requires
        inner.prepares(beam, tiles),
        0 <= t < tiles.len(),
    ensures
        is_in_turn(inner.tile_map@, t),
{
    let map = inner.tile_map@;
    let unique = unique_tiles(tiles);
    let before = unique_tiles(tiles.take(t));
    law_unique_tiles_are_the_tiles_once(tiles);
    law_unique_tiles_are_the_tiles_once(tiles.take(t));
    lemma_unique_prefix(tiles, t);
    assert(unique[map[t] as int] == tiles[t]);
    if before.contains(tiles[t]) {
        assert(tiles.take(t).contains(tiles[t]));
        let s = choose|s: int| 0 <= s < tiles.take(t).len() && tiles.take(t)[s] == tiles[t];
        assert(tiles[s] == tiles[t]);
        law_tiles_are_shared_only_if_the_same(map, tiles, s, t);
        assert(map[s] == map[t]);
    } else {
        if map[t] < before.len() {
            assert(before[map[t] as int] == tiles[t]);
            assert(before.contains(tiles[t]));
        }
        assert forall|s: int| 0 <= s < t implies #[trigger] map[s] < map[t] by {
            assert(tiles.take(t)[s] == tiles[s]);
            assert(tiles.take(t).contains(tiles[s]));
            assert(before.contains(tiles[s]));
            let k = choose|k: int| 0 <= k < before.len() && before[k] == tiles[s];
            assert(unique[k] == tiles[s]);
            assert(unique[map[s] as int] == tiles[s]);
            assert(k == map[s]);
        }
    }
}

/// Whatever a beam of MWA tiles is refused for, or prepared to, for the GPU: tables whose rows do
/// not have one delay, and one gain or two, for each bowtie are refused; else the different ones
/// among the rows are numbered, and the beam's own type, height and side are kept.
pub proof fn law_tiles_are_prepared(
    beam: AnalyticBeam,
    delays: DelayTable,
    amps: RealTable,
    delay_rows: usize,
    delay_cols: usize,
    amp_cols: usize,
    r: Result<AnalyticBeamGpu, AnalyticBeamError>,
)
    requires
        is_sound(beam),
        beam.beam_type is MwaPb || beam.beam_type is Rts,
        call_ensures(DelayTable::num_rows, (&delays,), delay_rows),
        call_ensures(DelayTable::num_cols, (&delays,), delay_cols),
        call_ensures(RealTable::num_cols, (&amps,), amp_cols),
        call_ensures(AnalyticBeam::gpu_prepare, (&beam, &delays, &amps), r),
    ensures
        ({
            let n = beam.bowties_per_row * beam.bowties_per_row;
            if delay_cols != n {
                r matches Err(
                    AnalyticBeamError::IncorrectDelaysArrayColLength { rows, num_delays, expected },
                ) && rows == delay_rows && num_delays == delay_cols && expected == n
            } else if amp_cols != n && amp_cols != 2 * n {
                r matches Err(
                    AnalyticBeamError::IncorrectAmpsLength { got, expected1, expected2 },
                ) && got == amp_cols && expected1 == n && expected2 == 2 * n
            } else {
                &&& r is Ok
                &&& r->Ok_0.analytic_type is MwaRts
                &&& r->Ok_0.analytic_type->MwaRts_0.beam_type == beam.beam_type
                &&& r->Ok_0.analytic_type->MwaRts_0.dipole_height == beam.dipole_height
                &&& r->Ok_0.analytic_type->MwaRts_0.bowties_per_row == beam.bowties_per_row
                &&& numbers_rows(
                    r->Ok_0.analytic_type->MwaRts_0.tile_map@,
                    r->Ok_0.analytic_type->MwaRts_0.num_unique_tiles as int,
                    delays@,
                    amps@,
                )
            }
        }),
{
    let b = beam.bowties_per_row as int;
    assert(0 <= b * b <= 225) by (nonlinear_arith)
        requires
            0 <= b < 16,
    ;
    if r is Ok {
        let inner = r->Ok_0.analytic_type->MwaRts_0;
        let tiles = tiles_of(delays@, amps@);
        let map = inner.tile_map@;
        let unique = unique_tiles(tiles);
        law_unique_tiles_are_the_tiles_once(tiles);
        assert forall|u: int| 0 <= u < inner.num_unique_tiles implies #[trigger] is_used(map, u) by {
            assert(unique.contains(unique[u]));
            assert(tiles.contains(unique[u]));
            let t = choose|t: int| 0 <= t < tiles.len() && tiles[t] == unique[u];
            assert(unique[map[t] as int] == tiles[t]);
            assert(map[t] == u);
        }
        assert forall|s: int, t: int| 0 <= s < map.len() && 0 <= t < map.len() implies (
        #[trigger] map[s] == #[trigger] map[t] <==> delays@[s] == delays@[t] && amps@[s]
            == amps@[t]) by {
            law_tiles_are_shared_only_if_the_same(map, tiles, s, t);
            assert(tiles[s] == (delays@[s], amps@[s]));
            assert(tiles[t] == (delays@[t], amps@[t]));
        }
        assert forall|t: int| 0 <= t < map.len() implies #[trigger] is_in_turn(map, t) by {
            lemma_in_turn(inner, beam, tiles, t);
        }
    }
}

/// Whatever the device is given for MWA tiles, it holds the delay and gain of each bowtie of each
/// tile, and for the RTS the sum of each tile's delays; and no more than the unique tiles have.
pub proof fn law_tiles_are_laid_out(
    beam: AnalyticBeam,
    delays: DelayTable,
    amps: RealTable,
    delay_cols: usize,
    amp_cols: usize,
    r: Result<AnalyticBeamGpu, AnalyticBeamError>,
    t: int,
    row: int,
    col: int,
)
    requires
        is_sound(beam),
        beam.beam_type is MwaPb || beam.beam_type is Rts,
        call_ensures(DelayTable::num_cols, (&delays,), delay_cols),
        call_ensures(RealTable::num_cols, (&amps,), amp_cols),
        call_ensures(AnalyticBeam::gpu_prepare, (&beam, &delays, &amps), r),
        r is Ok,
        0 <= row < beam.bowties_per_row,
        0 <= col < beam.bowties_per_row,
    ensures
        ({
            let inner = r->Ok_0.analytic_type->MwaRts_0;
            let n = beam.bowties_per_row * beam.bowties_per_row;
            let mean_of = inner.means_of@[inner.tile_map@[t] as int];
            &&& inner.delays@.len() == inner.num_unique_tiles * n
            &&& inner.amps@.len() == inner.num_unique_tiles * n
            &&& inner.means_of@.len() == inner.num_unique_tiles
            &&& 0 <= t < delays@.len() && t < amps@.len() ==> {
                &&& holds_bowtie(beam, inner, delays@[t], amps@[t], t, row, col)
                &&& beam.beam_type is MwaPb ==> mean_of is None
                &&& beam.beam_type is Rts ==> mean_of is Some && mean_of->0 == total(delays@[t])
            }
        }),
{
    let b = beam.bowties_per_row as int;
    let n = (b * b) as nat;
    let inner = r->Ok_0.analytic_type->MwaRts_0;
    let tiles = tiles_of(delays@, amps@);
    let unique = unique_tiles(tiles);
    let k = if beam.beam_type is Rts {
        col * b + (b - 1 - row)
    } else {
        row * b + col
    };
    lemma_tables_are_tiles(beam, delays, amps, delay_cols, amp_cols, r);
    lemma_laid_out_len(beam, inner, tiles);
    if 0 <= t < delays@.len() && t < amps@.len() {
        assert(tiles[t] == (delays@[t], amps@[t]));
        lemma_ordered(beam, delays@[t], amps@[t], row, col);
        lemma_side(beam.bowties_per_row as nat);
        assert(square(beam.bowties_per_row as nat) == delays@[t].len());
        law_device_holds_each_tile(inner, beam, tiles, beam.dipole_height, true, t, k);
        if beam.beam_type is Rts {
            law_rts_mean_is_that_of_the_delays(delays@[t]);
        }
    }
}

proof fn lemma_tables_are_tiles(
    beam: AnalyticBeam,
    delays: DelayTable,
    amps: RealTable,
    delay_cols: usize,
    amp_cols: usize,
    r: Result<AnalyticBeamGpu, AnalyticBeamError>,
)
    requires
        beam.wf(),
        beam.beam_type.is_mwa(),
        call_ensures(DelayTable::num_cols, (&delays,), delay_cols),
        call_ensures(RealTable::num_cols, (&amps,), amp_cols),
        call_ensures(AnalyticBeam::gpu_prepare, (&beam, &delays, &amps), r),
        r is Ok,
    ensures
        r->Ok_0.analytic_type is MwaRts,
        r->Ok_0.analytic_type->MwaRts_0.prepares(beam, tiles_of(delays@, amps@)),
        forall|s: int|
            0 <= s < tiles_of(delays@, amps@).len() ==> (#[trigger] tiles_of(
                delays@,
                amps@,
            )[s]).0.len() == beam.num_bowties() && amps_fit(
                tiles_of(delays@, amps@)[s].1.len(),
                beam.num_bowties(),
            ),
{
    let tiles = tiles_of(delays@, amps@);
    assert forall|s: int| 0 <= s < tiles.len() implies (#[trigger] tiles[s]).0.len()
        == beam.num_bowties() && amps_fit(tiles[s].1.len(), beam.num_bowties()) by {
        assert(delays@[s].len() == delay_cols);
        assert(amps@[s].len() == amp_cols);
    }
}

proof fn lemma_laid_out_len(beam: AnalyticBeam, inner: MwaRtsInner, tiles: Seq<TileModel>)
    requires
        beam.wf(),
        beam.beam_type.is_mwa(),
        inner.prepares(beam, tiles),
        forall|s: int|
            0 <= s < tiles.len() ==> (#[trigger] tiles[s]).0.len() == beam.num_bowties(),
    ensures
        inner.delays@.len() == inner.num_unique_tiles * beam.num_bowties(),
        inner.amps@.len() == inner.num_unique_tiles * beam.num_bowties(),
        inner.means_of@.len() == inner.num_unique_tiles,
{
    let n = beam.num_bowties();
    let unique = unique_tiles(tiles);
    let delays = unique.map_values(|tile: TileModel| beam.ordered_delays(tile.0).steps);
    let amps = unique.map_values(|tile: TileModel| beam.ordered_amps(tile.0, tile.1));
    lemma_side(beam.bowties_per_row as nat);
    law_unique_tiles_are_the_tiles_once(tiles);
    assert forall|i: int| 0 <= i < unique.len() implies (#[trigger] unique[i]).0.len() == n by {
        assert(unique.contains(unique[i]));
        assert(tiles.contains(unique[i]));
        let s = choose|s: int| 0 <= s < tiles.len() && tiles[s] == unique[i];
        assert(tiles[s].0.len() == n);
    }
    assert forall|i: int| 0 <= i < delays.len() implies (#[trigger] delays[i]).len() == n by {
        assert(unique[i].0.len() == n);
    }
    assert forall|i: int| 0 <= i < amps.len() implies (#[trigger] amps[i]).len() == n by {
        assert(unique[i].0.len() == n);
    }
    lemma_flat_len(delays, n);
    lemma_flat_len(amps, n);
    let means = inner.means_of@.map_values(|mean: Option<u128>| mean_view(mean));
    assert(means == tile_means(beam, unique));
    assert(tile_means(beam, unique).len() == unique.len());
    assert(means.len() == inner.means_of@.len());
}

/// With a GPU and without, a beam computes with the same numbers: whatever the device is given for
/// a tile, and whatever task the same beam gives for the tile's delays and gains, have the same
/// dipole height, number of bowties, element pattern, delays, gains and mean.
pub proof fn law_gpu_and_task_agree(
    beam: AnalyticBeam,
    delays: DelayTable,
    amps: RealTable,
    delay_cols: usize,
    amp_cols: usize,
    r: Result<AnalyticBeamGpu, AnalyticBeamError>,
    t: int,
    azel: Direction,
    freq_hz: u32,
    tile_delays: &[u32],
    tile_amps: &[Double],
    latitude_rad: Double,
    norm_to_zenith: bool,
    tile_index: Option<usize>,
    task: JonesTask,
    k: int,
)
    requires
        is_sound(beam),
        beam.beam_type is MwaPb || beam.beam_type is Rts,
        call_ensures(DelayTable::num_cols, (&delays,), delay_cols),
        call_ensures(RealTable::num_cols, (&amps,), amp_cols),
        call_ensures(AnalyticBeam::gpu_prepare, (&beam, &delays, &amps), r),
        r is Ok,
        0 <= t < delays@.len(),
        t < amps@.len(),
        tile_delays@ == delays@[t],
        tile_amps@ == amps@[t],
        call_ensures(
            AnalyticBeam::calc_jones,
            (
                &beam,
                azel,
                freq_hz,
                tile_delays,
                tile_amps,
                latitude_rad,
                norm_to_zenith,
                tile_index,
            ),
            Ok::<JonesTask, AnalyticBeamError>(task),
        ),
        0 <= k < tile_delays@.len(),
    ensures
        ({
            let inner = r->Ok_0.analytic_type->MwaRts_0;
            let mwa = task.response->0->Mwa_0;
            let place = inner.tile_map@[t] * tile_delays@.len() + k;
            &&& inner.dipole_height == mwa.dipole_height
            &&& inner.dipole_height == beam.dipole_height
            &&& inner.bowties_per_row * inner.bowties_per_row == mwa.num_bowties
            &&& inner.beam_type is Rts <==> mwa.pattern is Rts
            &&& inner.delays@[place] == mwa.dipoles@[k].delay
            &&& inner.amps@[place] == mwa.dipoles@[k].amp
            &&& inner.means_of@[inner.tile_map@[t] as int] == mwa.mean_of
        }),
{
    let inner = r->Ok_0.analytic_type->MwaRts_0;
    let tiles = tiles_of(delays@, amps@);
    lemma_tables_are_tiles(beam, delays, amps, delay_cols, amp_cols, r);
    assert(tiles[t] == (delays@[t], amps@[t]));
    law_device_holds_each_tile(inner, beam, tiles, latitude_rad, norm_to_zenith, t, k);
    let mwa = task.response->0->Mwa_0;
    assert(task@.response == Some(task.response->0@));
    assert(mwa@ == beam.tile_response(
        beam.ordered_delays(tile_delays@),
        beam.ordered_amps(tile_delays@, tile_amps@),
        latitude_rad,
        norm_to_zenith,
    ));
    assert(mwa@.dipoles == mwa.dipoles@);
    assert(mean_view(inner.means_of@[inner.tile_map@[t] as int]) == mwa@.mean_of);
}

/// The number of items of all of `lists`.
pub open spec fn num_items(lists: Seq<Vec<Double>>) -> nat
    decreases lists.len(),
{
    if lists.len() == 0 {
        0
    } else {
        num_items(lists.drop_last()) + lists.last()@.len()
    }
}

proof fn lemma_flat_lists_len(lists: Seq<Vec<Double>>)
    ensures
        flat_lists(lists).len() == num_items(lists),
    decreases lists.len(),
{
    let content = |list: Vec<Double>| list@;
    if lists.len() == 0 {
        assert(lists.map_values(content) =~= Seq::<Seq<Double>>::empty());
    } else {
        let rest = lists.drop_last();
        lemma_flat_lists_len(rest);
        assert(lists.map_values(content) =~= rest.map_values(content).push(lists.last()@));
        rest.map_values(content).lemma_flatten_push(lists.last()@);
    }
}

proof fn lemma_flat_list_item(lists: Seq<Vec<Double>>, j: int, i: int)
    requires
        0 <= j < lists.len(),
        0 <= i < lists[j]@.len(),
    ensures
        0 <= num_items(lists.take(j)) + i < flat_lists(lists).len(),
        flat_lists(lists)[num_items(lists.take(j)) + i] == lists[j]@[i],
    decreases lists.len(),
{
    let content = |list: Vec<Double>| list@;
    let rest = lists.drop_last();
    lemma_flat_lists_len(rest);
    assert(lists.map_values(content) =~= rest.map_values(content).push(lists.last()@));
    rest.map_values(content).lemma_flatten_push(lists.last()@);
    if j < rest.len() {
        lemma_flat_list_item(rest, j, i);
        assert(rest.take(j) =~= lists.take(j));
    } else {
        assert(lists.take(j) =~= rest);
    }
}

/// Whatever a beam of SKA stations is prepared to for the GPU, it is never refused, and the device
/// is given the stations as they are: their number, their elements' coordinates and their feeds'
/// angles, station by station, and where and how they are pointed.
pub proof fn law_stations_are_laid_out(
    beam: AnalyticBeam,
    delays: DelayTable,
    amps: RealTable,
    r: Result<AnalyticBeamGpu, AnalyticBeamError>,
    cols: nat,
    j: int,
    i: int,
    c: int,
    list: int,
    item: int,
)
    requires
        beam.beam_type is Ska || beam.beam_type is SkaMean,
        beam.ska_config is Some,
        call_ensures(AnalyticBeam::gpu_prepare, (&beam, &delays, &amps), r),
        ({
            let config = beam.ska_config->0;
            let tables = config.feed_coordinates->0@;
            forall|k: int| 0 <= k < tables.len() ==> is_grid((#[trigger] tables[k])@, cols)
        }),
    ensures
        r is Ok,
        r->Ok_0.analytic_type is Ska,
        ({
            let inner = r->Ok_0.analytic_type->Ska_0;
            let config = beam.ska_config->0;
            let tables = config.feed_coordinates->0@;
            let lists = config.feed_angles_rad->0@;
            &&& config.number_of_stations <= i32::MAX ==> inner.num_stations
                == config.number_of_stations
            &&& inner.phase_centre == config.phase_centre
            &&& inner.site_latitude_rad == config.site_latitude_rad
            &&& inner.num_elems_per_station@.len() == tables.len()
            &&& 0 <= j < tables.len() && tables[j]@.len() <= i32::MAX
                ==> inner.num_elems_per_station@[j] == tables[j]@.len()
            &&& inner.feed_coordinates@.len() == num_rows(tables) * cols
            &&& 0 <= j < tables.len() && 0 <= i < tables[j]@.len() && 0 <= c < cols
                ==> inner.feed_coordinates@[(num_rows(tables.take(j)) + i) * cols + c]
                == tables[j]@[i][c]
            &&& inner.feed_angles@.len() == num_items(lists)
            &&& 0 <= list < lists.len() && 0 <= item < lists[list]@.len()
                ==> inner.feed_angles@[num_items(lists.take(list)) + item] == lists[list]@[item]
        }),
{
    let config = beam.ska_config->0;
    let tables = config.feed_coordinates->0@;
    let lists = config.feed_angles_rad->0@;
    if 0 <= j < tables.len() && 0 <= i < tables[j]@.len() && 0 <= c < cols {
        law_device_holds_each_element(tables, cols, j, i, c);
    }
    lemma_flat_tables_len(tables, cols);
    lemma_flat_lists_len(lists);
    if 0 <= list < lists.len() && 0 <= item < lists[list]@.len() {
        lemma_flat_list_item(lists, list, item);
    }
}

/// Whatever a prepared beam says of its tiles: there are as many as are numbered, or as there are
/// stations, and the device computes as many as are unique, or as there are stations.
pub proof fn law_tiles_are_counted(
    gpu: AnalyticBeamGpu,
    total_tiles: usize,
    device_tiles: usize,
    unique: i32,
    map: &Vec<i32>,
)
    requires
        call_ensures(AnalyticBeamGpu::get_total_num_tiles, (&gpu,), total_tiles),
        call_ensures(AnalyticBeamGpu::get_device_num_tiles, (&gpu,), device_tiles),
        gpu.analytic_type is MwaRts ==> call_ensures(
            AnalyticBeamGpu::get_num_unique_tiles,
            (&gpu,),
            unique,
        ) && call_ensures(AnalyticBeamGpu::get_tile_map, (&gpu,), map),
    ensures
        gpu.analytic_type matches AnalyticTypeInner::MwaRts(inner) ==> {
            &&& map@ == inner.tile_map@
            &&& total_tiles == inner.tile_map@.len()
            &&& unique == inner.num_unique_tiles
            &&& unique >= 0 ==> device_tiles == unique
        },
        gpu.analytic_type matches AnalyticTypeInner::Ska(inner) ==> (inner.num_stations >= 0
            ==> total_tiles == inner.num_stations && device_tiles == inner.num_stations),
{
}

/// How many tiles, or stations, the device computes.
pub open spec fn computed_tiles(on: AnalyticTypeInner) -> int {
    match on {
        AnalyticTypeInner::MwaRts(inner) => inner.num_unique_tiles as int,
        AnalyticTypeInner::Ska(inner) => inner.num_stations as int,
    }
}

/// Is this the kernel of the beam, on the beam's own tiles or stations?
pub open spec fn is_kernel_of(kernel: Kernel<'_>, on: AnalyticTypeInner) -> bool {
    match on {
        AnalyticTypeInner::MwaRts(inner) => if inner.beam_type is Rts {
            kernel matches Kernel::Rts(tiles) && *tiles == inner
        } else {
            kernel matches Kernel::MwaPb(tiles) && *tiles == inner
        },
        AnalyticTypeInner::Ska(inner) => kernel matches Kernel::Ska(stations) && *stations == inner,
    }
}

/// Can the device count so many directions and frequencies, and the size of its buffer be told?
pub open spec fn countable(
    tiles: int,
    num_directions: int,
    num_freqs: int,
    event: DeviceEvent,
) -> bool {
    &&& 0 <= tiles
    &&& num_directions <= i32::MAX
    &&& num_freqs <= i32::MAX
    &&& event matches DeviceEvent::Start { jones_bytes } ==> tiles * num_freqs * num_directions
        * jones_bytes <= usize::MAX
}

/// Does a request ask for these directions and frequencies to be copied, and for a buffer with a
/// Jones matrix for each tile, frequency and direction?
pub open spec fn requests(
    request: DeviceRequest,
    tiles: int,
    az_rad: Seq<Double>,
    za_rad: Seq<Double>,
    freqs_hz: Seq<u32>,
    jones_bytes: usize,
) -> bool {
    &&& request.az_rad@ == az_rad
    &&& request.za_rad@ == za_rad
    &&& request.freqs_hz@ == freqs_hz
    &&& request.sizes.bytes == tiles * freqs_hz.len() * az_rad.len() * jones_bytes
    &&& request.sizes.num_directions == az_rad.len()
    &&& request.sizes.num_freqs == freqs_hz.len()
}

/// Is a kernel launched on what is in the buffers, for so many directions and frequencies?
pub open spec fn launches(
    launch: KernelLaunch<'_>,
    buffers: DeviceBuffers,
    num_directions: int,
    num_freqs: int,
    latitude_rad: Double,
    norm_to_zenith: bool,
) -> bool {
    &&& launch.d_az_rad == buffers.d_az_rad
    &&& launch.d_za_rad == buffers.d_za_rad
    &&& launch.d_freqs_hz == buffers.d_freqs_hz
    &&& launch.d_results == buffers.d_results
    &&& launch.num_directions == num_directions
    &&& launch.num_freqs == num_freqs
    &&& launch.latitude_rad == latitude_rad
    &&& launch.norm_to_zenith == norm_to_zenith
}

/// Is a step what the device has to do? At the start it is a request; once that is granted it is a
/// launch of the beam's kernel, unless there are no directions.
pub open spec fn proceeds(
    on: AnalyticTypeInner,
    az_rad: Seq<Double>,
    za_rad: Seq<Double>,
    freqs_hz: Seq<u32>,
    latitude_rad: Double,
    norm_to_zenith: bool,
    event: DeviceEvent,
    step: DeviceStep<'_>,
) -> bool {
    match event {
        DeviceEvent::Start { jones_bytes } => step matches DeviceStep::Request(request)
            && requests(
            request,
            computed_tiles(on),
            az_rad,
            za_rad,
            freqs_hz,
            jones_bytes,
        ),
        DeviceEvent::Copied(buffers) => if az_rad.len() == 0 {
            step matches DeviceStep::Kernel(KernelStep::Done)
        } else {
            step matches DeviceStep::Kernel(KernelStep::Launch(launch)) && is_kernel_of(
                launch.kernel,
                on,
            ) && launches(
                launch,
                buffers,
                az_rad.len() as int,
                freqs_hz.len() as int,
                latitude_rad,
                norm_to_zenith,
            )
        },
    }
}

proof fn lemma_proceeds(
    gpu: AnalyticBeamGpu,
    az_rad: Seq<Double>,
    za_rad: Seq<Double>,
    freqs_hz: Seq<u32>,
    latitude_rad: Double,
    norm_to_zenith: bool,
    event: DeviceEvent,
    step: DeviceStep<'_>,
)
    requires
        countable(
            computed_tiles(gpu.analytic_type),
            az_rad.len() as int,
            freqs_hz.len() as int,
            event,
        ),
        gpu.asks(az_rad, za_rad, freqs_hz, latitude_rad, norm_to_zenith, event, step),
    ensures
        proceeds(
            gpu.analytic_type,
            az_rad,
            za_rad,
            freqs_hz,
            latitude_rad,
            norm_to_zenith,
            event,
            step,
        ),
{
    match event {
        DeviceEvent::Start { jones_bytes } => {
            let tiles = computed_tiles(gpu.analytic_type);
            let freqs = freqs_hz.len() as int;
            let directions = az_rad.len() as int;
            assert(0 <= tiles * freqs * directions * jones_bytes) by (nonlinear_arith)
                requires
                    0 <= tiles,
                    0 <= freqs,
                    0 <= directions,
                    0 <= jones_bytes,
            ;
        },
        _ => {},
    }
}

/// Whatever follows on the device for MWA tiles whose responses stay there: see [`proceeds`].
pub proof fn law_device_proceeds<'a>(
    gpu: &'a AnalyticBeamGpu,
    azels: &[Direction],
    freqs_hz: &[u32],
    latitude_rad: Double,
    norm_to_zenith: bool,
    event: DeviceEvent,
    step: DeviceStep<'a>,
)
    requires
        gpu.analytic_type is MwaRts,
        countable(
            computed_tiles(gpu.analytic_type),
            azels@.len() as int,
            freqs_hz@.len() as int,
            event,
        ),
        call_ensures(
            AnalyticBeamGpu::calc_jones_device,
            (gpu, azels, freqs_hz, latitude_rad, norm_to_zenith, event),
            step,
        ),
    ensures
        proceeds(
            gpu.analytic_type,
            Seq::new(azels@.len(), |i: int| azels@[i].az),
            Seq::new(azels@.len(), |i: int| azels@[i].za),
            freqs_hz@,
            latitude_rad,
            norm_to_zenith,
            event,
            step,
        ),
{
    let azs = Seq::new(azels@.len(), |i: int| azels@[i].az);
    let zas = Seq::new(azels@.len(), |i: int| azels@[i].za);
    assert(azs =~= azimuths(azels@));
    assert(zas =~= zenith_angles(azels@));
    lemma_proceeds(*gpu, azs, zas, freqs_hz@, latitude_rad, norm_to_zenith, event, step);
}

/// Whatever follows on the device for SKA stations: see [`proceeds`].
pub proof fn law_device_proceeds_for_stations<'a>(
    stations: &'a SkaInner,
    az_rad: &[Double],
    za_rad: &[Double],
    freqs_hz: &[u32],
    latitude_rad: Double,
    norm_to_zenith: bool,
    event: DeviceEvent,
    step: DeviceStep<'a>,
)
    requires
        countable(
            stations.num_stations as int,
            az_rad@.len() as int,
            freqs_hz@.len() as int,
            event,
        ),
        call_ensures(
            SkaInner::calc_jones_device_pair,
            (stations, az_rad, za_rad, freqs_hz, latitude_rad, norm_to_zenith, event),
            step,
        ),
    ensures
        proceeds(
            AnalyticTypeInner::Ska(*stations),
            az_rad@,
            za_rad@,
            freqs_hz@,
            latitude_rad,
            norm_to_zenith,
            event,
            step,
        ),
{
    let gpu = AnalyticBeamGpu { analytic_type: AnalyticTypeInner::Ska(*stations) };
    lemma_proceeds(gpu, az_rad@, za_rad@, freqs_hz@, latitude_rad, norm_to_zenith, event, step);
}

/// The launch counts what was asked for: whatever kernel, tiles and directions there are, the
/// launch has the numbers of directions and frequencies of the request that came before it, which
/// are those of what was copied.
pub proof fn law_launch_counts_what_was_requested<'a>(
    kernel: Kernel<'a>,
    tiles: usize,
    az_rad: &[Double],
    za_rad: &[Double],
    freqs_hz: &[u32],
    latitude_rad: Double,
    norm_to_zenith: bool,
    jones_bytes: usize,
    buffers: DeviceBuffers,
    first: DeviceStep<'a>,
    second: DeviceStep<'a>,
)
    requires
        countable(
            tiles as int,
            az_rad@.len() as int,
            freqs_hz@.len() as int,
            DeviceEvent::Start { jones_bytes },
        ),
        call_ensures(
            device_step,
            (
                kernel,
                tiles,
                az_rad,
                za_rad,
                freqs_hz,
                latitude_rad,
                norm_to_zenith,
                DeviceEvent::Start { jones_bytes },
            ),
            first,
        ),
        call_ensures(
            device_step,
            (
                kernel,
                tiles,
                az_rad,
                za_rad,
                freqs_hz,
                latitude_rad,
                norm_to_zenith,
                DeviceEvent::Copied(buffers),
            ),
            second,
        ),
    ensures
        first is Request,
        requests(first->Request_0, tiles as int, az_rad@, za_rad@, freqs_hz@, jones_bytes),
        second is Kernel,
        second->Kernel_0 is Done <==> az_rad@.len() == 0,
        second->Kernel_0 matches KernelStep::Launch(launch) ==> {
            &&& launch.kernel == kernel
            &&& launch.num_directions == first->Request_0.sizes.num_directions
            &&& launch.num_freqs == first->Request_0.sizes.num_freqs
            &&& launches(
                launch,
                buffers,
                az_rad@.len() as int,
                freqs_hz@.len() as int,
                latitude_rad,
                norm_to_zenith,
            )
        },
{
    let t = tiles as int;
    let freqs = freqs_hz@.len() as int;
    let directions = az_rad@.len() as int;
    assert(0 <= t * freqs * directions * jones_bytes) by (nonlinear_arith)
        requires
            0 <= t,
            0 <= freqs,
            0 <= directions,
            0 <= jones_bytes,
    ;
}

/// Nothing is launched where there are no directions; else whatever is launched is the beam's own
/// kernel, on what is given. So it is for all beams, for stations and for a launch by itself.
pub proof fn law_kernel_is_launched_on_what_is_given<'a>(
    gpu: &'a AnalyticBeamGpu,
    d_az_rad: DeviceAddress,
    d_za_rad: DeviceAddress,
    num_directions: i32,
    d_freqs_hz: DeviceAddress,
    num_freqs: i32,
    latitude_rad: Double,
    norm_to_zenith: bool,
    d_results: DeviceAddress,
    step: KernelStep<'a>,
)
    requires
        call_ensures(
            AnalyticBeamGpu::calc_jones_device_pair_inner,
            (
                gpu,
                d_az_rad,
                d_za_rad,
                num_directions,
                d_freqs_hz,
                num_freqs,
                latitude_rad,
                norm_to_zenith,
                d_results,
            ),
            step,
        ),
    ensures
        step is Done <==> num_directions == 0,
        step matches KernelStep::Launch(launch) ==> is_kernel_of(launch.kernel, gpu.analytic_type)
            && launches(
            launch,
            (DeviceBuffers { d_az_rad, d_za_rad, d_freqs_hz, d_results }),
            num_directions as int,
            num_freqs as int,
            latitude_rad,
            norm_to_zenith,
        ),
{
}

/// Nothing is launched for stations where there are no directions; else whatever is launched is
/// the kernel of stations, on these stations and on what is given.
pub proof fn law_stations_are_launched_on_what_is_given<'a>(
    stations: &'a SkaInner,
    d_az_rad: DeviceAddress,
    d_za_rad: DeviceAddress,
    num_directions: i32,
    d_freqs_hz: DeviceAddress,
    num_freqs: i32,
    latitude_rad: Double,
    norm_to_zenith: bool,
    d_results: DeviceAddress,
    step: KernelStep<'a>,
)
    requires
        call_ensures(
            SkaInner::calc_jones_device_pair_inner,
            (
                stations,
                d_az_rad,
                d_za_rad,
                num_directions,
                d_freqs_hz,
                num_freqs,
                latitude_rad,
                norm_to_zenith,
                d_results,
            ),
            step,
        ),
    ensures
        step is Done <==> num_directions == 0,
        step matches KernelStep::Launch(launch) ==> is_kernel_of(
            launch.kernel,
            AnalyticTypeInner::Ska(*stations),
        ) && launches(
            launch,
            (DeviceBuffers { d_az_rad, d_za_rad, d_freqs_hz, d_results }),
            num_directions as int,
            num_freqs as int,
            latitude_rad,
            norm_to_zenith,
        ),
{
}

/// A launch is carried out as it is, unless it has no directions; and the kernel of MWA tiles is
/// that of their beam.
pub proof fn law_launches_are_carried_out<'a>(
    launch: KernelLaunch<'a>,
    step: KernelStep<'a>,
    tiles: &'a MwaRtsInner,
    kernel: Kernel<'a>,
)
    requires
        call_ensures(kernel_step, (launch,), step),
        call_ensures(MwaRtsInner::get_kernel, (tiles,), kernel),
    ensures
        step is Done <==> launch.num_directions == 0,
        step matches KernelStep::Launch(carried) ==> carried == launch,
        is_kernel_of(kernel, AnalyticTypeInner::MwaRts(*tiles)),
{
}

/// Are `results` what the device computed, tile by tile: for an MWA tile that of its number, for a
/// station its own?
pub open spec fn brings_back(
    on: AnalyticTypeInner,
    device: Seq<Seq<Seq<Jones>>>,
    results: Seq<Seq<Seq<Jones>>>,
    t: int,
) -> bool {
    match on {
        AnalyticTypeInner::MwaRts(inner) => results[t] == device[inner.tile_map@[t] as int],
        AnalyticTypeInner::Ska(_) => results[t] == device[t],
    }
}

/// How many tiles, or stations, there are.
pub open spec fn all_tiles(on: AnalyticTypeInner) -> int {
    match on {
        AnalyticTypeInner::MwaRts(inner) => inner.tile_map@.len() as int,
        AnalyticTypeInner::Ska(inner) => inner.num_stations as int,
    }
}

/// Can an event happen where so many directions and frequencies are asked for?
pub open spec fn can_happen(
    on: AnalyticTypeInner,
    num_directions: int,
    num_freqs: int,
    event: HostEvent<'_>,
) -> bool {
    &&& computed_tiles(on) >= 0
    &&& event matches HostEvent::Device(e) ==> countable(
        computed_tiles(on),
        num_directions,
        num_freqs,
        e,
    )
}

/// Whatever follows for directions: first what the device has to do for their azimuths and zenith
/// angles; then, for each tile, what the device computed; or its failure.
pub proof fn law_directions_are_computed<'a, 'b>(
    gpu: &'a AnalyticBeamGpu,
    azels: &[Direction],
    freqs_hz: &[u32],
    latitude_rad: Double,
    norm_to_zenith: bool,
    event: HostEvent<'b>,
    step: HostStep<'a, ResponseCube>,
    t: int,
)
    requires
        can_happen(gpu.analytic_type, azels@.len() as int, freqs_hz@.len() as int, event),
        call_ensures(
            AnalyticBeamGpu::calc_jones,
            (gpu, azels, freqs_hz, latitude_rad, norm_to_zenith, event),
            step,
        ),
    ensures
        event matches HostEvent::Device(e) ==> step is Device && proceeds(
            gpu.analytic_type,
            Seq::new(azels@.len(), |i: int| azels@[i].az),
            Seq::new(azels@.len(), |i: int| azels@[i].za),
            freqs_hz@,
            latitude_rad,
            norm_to_zenith,
            e,
            step->Device_0,
        ),
        event matches HostEvent::Computed(device) ==> (step matches HostStep::Finish(Ok(results))
            && results@.len() == all_tiles(gpu.analytic_type) && results.freqs() == freqs_hz@.len()
            && results.directions() == azels@.len() && (0 <= t < all_tiles(gpu.analytic_type)
            ==> brings_back(gpu.analytic_type, device@, results@, t))),
        event matches HostEvent::Failed(e) ==> (step matches HostStep::Finish(Err(error)) && error
            == e),
{
    let azs = Seq::new(azels@.len(), |i: int| azels@[i].az);
    let zas = Seq::new(azels@.len(), |i: int| azels@[i].za);
    assert(azs =~= azimuths(azels@));
    assert(zas =~= zenith_angles(azels@));
    match event {
        HostEvent::Device(e) => {
            lemma_proceeds(
                *gpu,
                azs,
                zas,
                freqs_hz@,
                latitude_rad,
                norm_to_zenith,
                e,
                step->Device_0,
            );
        },
        _ => {},
    }
}

/// Whatever follows for azimuths and zenith angles: first what the device has to do for them; then,
/// for each tile, what the device computed; or its failure.
pub proof fn law_pairs_are_computed<'a, 'b>(
    gpu: &'a AnalyticBeamGpu,
    az_rad: &[Double],
    za_rad: &[Double],
    freqs_hz: &[u32],
    latitude_rad: Double,
    norm_to_zenith: bool,
    event: HostEvent<'b>,
    step: HostStep<'a, ResponseCube>,
    t: int,
)
    requires
        can_happen(gpu.analytic_type, az_rad@.len() as int, freqs_hz@.len() as int, event),
        call_ensures(
            AnalyticBeamGpu::calc_jones_pair,
            (gpu, az_rad, za_rad, freqs_hz, latitude_rad, norm_to_zenith, event),
            step,
        ),
    ensures
        event matches HostEvent::Device(e) ==> step is Device && proceeds(
            gpu.analytic_type,
            az_rad@,
            za_rad@,
            freqs_hz@,
            latitude_rad,
            norm_to_zenith,
            e,
            step->Device_0,
        ),
        event matches HostEvent::Computed(device) ==> (step matches HostStep::Finish(Ok(results))
            && results@.len() == all_tiles(gpu.analytic_type) && results.freqs() == freqs_hz@.len()
            && results.directions() == az_rad@.len() && (0 <= t < all_tiles(gpu.analytic_type)
            ==> brings_back(gpu.analytic_type, device@, results@, t))),
        event matches HostEvent::Failed(e) ==> (step matches HostStep::Finish(Err(error)) && error
            == e),
{
    match event {
        HostEvent::Device(e) => {
            lemma_proceeds(
                *gpu,
                az_rad@,
                za_rad@,
                freqs_hz@,
                latitude_rad,
                norm_to_zenith,
                e,
                step->Device_0,
            );
        },
        _ => {},
    }
}

/// Whatever follows where the results have a place: first what the device has to do; then, for each
/// tile that has a place, what the device computed; or its failure. The place keeps its shape, and
/// stays as it is where nothing was computed for it.
pub proof fn law_pairs_are_computed_in_place<'a, 'b>(
    gpu: &'a AnalyticBeamGpu,
    az_rad: &[Double],
    za_rad: &[Double],
    freqs_hz: &[u32],
    latitude_rad: Double,
    norm_to_zenith: bool,
    event: HostEvent<'b>,
    results: &mut ResponseCube,
    step: HostStep<'a, ()>,
    t: int,
)
    requires
        can_happen(gpu.analytic_type, az_rad@.len() as int, freqs_hz@.len() as int, event),
        call_ensures(
            AnalyticBeamGpu::calc_jones_pair_inner,
            (gpu, az_rad, za_rad, freqs_hz, latitude_rad, norm_to_zenith, event, results),
            step,
        ),
    ensures
        event matches HostEvent::Device(e) ==> step is Device && proceeds(
            gpu.analytic_type,
            az_rad@,
            za_rad@,
            freqs_hz@,
            latitude_rad,
            norm_to_zenith,
            e,
            step->Device_0,
        ),
        event is Computed ==> (step matches HostStep::Finish(Ok(_))),
        event matches HostEvent::Failed(e) ==> (step matches HostStep::Finish(Err(error)) && error
            == e),
        final(results)@.len() == old(results)@.len(),
        final(results).freqs() == old(results).freqs(),
        final(results).directions() == old(results).directions(),
        event matches HostEvent::Computed(device) ==> (0 <= t < old(results)@.len() && t < all_tiles(
            gpu.analytic_type,
        ) ==> brings_back(gpu.analytic_type, device@, final(results)@, t)),
        0 <= t < old(results)@.len() && (!(event is Computed) || t >= all_tiles(gpu.analytic_type))
            ==> final(results)@[t] == old(results)@[t],
{
    match event {
        HostEvent::Device(e) => {
            lemma_proceeds(
                *gpu,
                az_rad@,
                za_rad@,
                freqs_hz@,
                latitude_rad,
                norm_to_zenith,
                e,
                step->Device_0,
            );
        },
        _ => {},
    }
}

/// Whatever comes of what the kernel said: success is success, and else its words are reported,
/// after where they come from, with the place of the launch.
pub proof fn law_kernel_words_are_reported(
    reply: KernelReply,
    file: &'static str,
    line: u32,
    r: Result<(), AnalyticBeamError>,
)
    requires
        call_ensures(SkaInner::kernel_outcome, (reply, file, line), r),
    ensures
        reply is Success <==> r is Ok,
        !(reply is Success) ==> (r matches Err(
            AnalyticBeamError::Gpu(GpuError::Kernel { msg, file: f, line: l }),
        ) && f == file && l == line && msg@
            == "ska_analytic.h:ska_analytic_calc_jones_gpu failed with: "@ + match reply {
            KernelReply::Message(words) => words@,
            _ => "<cannot read GPU error string>"@,
        }),
{
}

/// A beam can be prepared where it is refused or its unique tiles can be counted, or where its
/// stations' coordinates and angles are known.
pub proof fn law_beams_tell_whether_they_can_be_prepared(
    beam: AnalyticBeam,
    delays: DelayTable,
    amps: RealTable,
    delay_cols: usize,
    amp_cols: usize,
    r: bool,
)
    requires
        is_sound(beam),
        call_ensures(DelayTable::num_cols, (&delays,), delay_cols),
        call_ensures(RealTable::num_cols, (&amps,), amp_cols),
        call_ensures(AnalyticBeam::is_preparable, (&beam, &delays, &amps), r),
    ensures
        ({
            let n = beam.bowties_per_row * beam.bowties_per_row;
            if beam.beam_type is MwaPb || beam.beam_type is Rts {
                r <==> delay_cols != n || (amp_cols != n && amp_cols != 2 * n) || unique_tiles(
                    tiles_of(delays@, amps@),
                ).len() <= i32::MAX
            } else {
                r <==> beam.ska_config is Some && beam.ska_config->0.feed_coordinates is Some
                    && beam.ska_config->0.feed_angles_rad is Some
            }
        }),
{
}

/// A table gives back what was put in: cell `col` of row `row` is the value that stands there when
/// the rows follow one another; and there is none where the values do not fill it.
pub proof fn law_tables_give_back_delays(
    rows: usize,
    cols: usize,
    flat: Vec<u32>,
    table: DelayTable,
    row: usize,
    cells: Vec<u32>,
    num_rows: usize,
    num_cols: usize,
    col: int,
)
    requires
        call_ensures(DelayTable::new, (rows, cols, flat), Some(table)),
        call_ensures(DelayTable::row, (&table, row), cells),
        call_ensures(DelayTable::num_rows, (&table,), num_rows),
        call_ensures(DelayTable::num_cols, (&table,), num_cols),
        row < rows,
        0 <= col < cols,
    ensures
        flat@.len() == rows * cols,
        num_rows == rows,
        num_cols == cols,
        cells@.len() == cols,
        cells@[col] == flat@[row * cols + col],
{
}

/// A table of numbers gives back what was put in, row by row and cell by cell.
pub proof fn law_tables_give_back_numbers(
    rows: usize,
    cols: usize,
    flat: Vec<Double>,
    table: RealTable,
    row: usize,
    cells: Vec<Double>,
    col: usize,
    cell: Double,
    num_rows: usize,
    num_cols: usize,
)
    requires
        call_ensures(RealTable::new, (rows, cols, flat), Some(table)),
        call_ensures(RealTable::row, (&table, row), cells),
        call_ensures(RealTable::get, (&table, row, col), cell),
        call_ensures(RealTable::num_rows, (&table,), num_rows),
        call_ensures(RealTable::num_cols, (&table,), num_cols),
        row < rows,
        col < cols,
    ensures
        flat@.len() == rows * cols,
        num_rows == rows,
        num_cols == cols,
        cells@.len() == cols,
        cells@[col as int] == flat@[row * cols + col],
        cell == flat@[row * cols + col],
{
}

/// A cube gives back what was put in: the matrix of a tile, frequency and direction is the one that
/// stands there when they follow one another; and a new cube has the same matrix everywhere.
pub proof fn law_cubes_give_back_matrices(
    tiles: usize,
    freqs: usize,
    directions: usize,
    flat: Vec<Jones>,
    cube: ResponseCube,
    same: Jones,
    new: ResponseCube,
    tile: usize,
    freq: usize,
    direction: usize,
    jones: Jones,
    new_jones: Jones,
    zero: Jones,
)
    requires
        call_ensures(ResponseCube::from_flat, (tiles, freqs, directions, flat), Some(cube)),
        call_ensures(ResponseCube::new, (tiles, freqs, directions, same), new),
        call_ensures(ResponseCube::get, (&cube, tile, freq, direction), jones),
        call_ensures(ResponseCube::get, (&new, tile, freq, direction), new_jones),
        call_ensures(Jones::default, (), zero),
        tile < tiles,
        freq < freqs,
        direction < directions,
    ensures
        flat@.len() == tiles * freqs * directions,
        jones == flat@[(tile * freqs + freq) * directions + direction],
        new_jones == same,
        zero.j00.re.bits == 0 && zero.j00.im.bits == 0,
        zero.j01 == zero.j00 && zero.j10 == zero.j00 && zero.j11 == zero.j00,
{
}

/// A table or cube is made exactly where what is put in fills it, and its size can be addressed.
pub proof fn law_shapes_are_checked(
    rows: usize,
    cols: usize,
    delays: Vec<u32>,
    delay_table: Option<DelayTable>,
    numbers: Vec<Double>,
    number_table: Option<RealTable>,
    depth: usize,
    matrices: Vec<Jones>,
    cube: Option<ResponseCube>,
)
    requires
        call_ensures(DelayTable::new, (rows, cols, delays), delay_table),
        call_ensures(RealTable::new, (rows, cols, numbers), number_table),
        call_ensures(ResponseCube::from_flat, (rows, cols, depth, matrices), cube),
        0 < rows,
        0 < cols,
        0 < depth,
    ensures
        delay_table is Some <==> delays@.len() == rows * cols && rows * cols <= isize::MAX,
        number_table is Some <==> numbers@.len() == rows * cols && rows * cols <= isize::MAX,
        cube is Some <==> matrices@.len() == rows * cols * depth && rows * cols * depth
            <= isize::MAX,
{
}

/// Copying a tile of one cube to a tile of another changes that tile alone, and not the shape.
pub proof fn law_assigning_changes_one_tile(
    cube: &mut ResponseCube,
    tile: usize,
    from: &ResponseCube,
    from_tile: usize,
    t: int,
)
    requires
        call_ensures(ResponseCube::assign_tile, (cube, tile, from, from_tile), ()),
        tile < old(cube)@.len(),
        0 <= t < old(cube)@.len(),
    ensures
        final(cube)@.len() == old(cube)@.len(),
        final(cube).freqs() == old(cube).freqs(),
        final(cube).directions() == old(cube).directions(),
        final(cube)@[t] == if t == tile {
            from@[from_tile as int]
        } else {
            old(cube)@[t]
        },
{
}

/// A cube has the shape that it was made with.
pub proof fn law_cubes_keep_their_shape(
    tiles: usize,
    freqs: usize,
    directions: usize,
    flat: Vec<Jones>,
    cube: ResponseCube,
    num_tiles: usize,
    num_freqs: usize,
    num_directions: usize,
)
    requires
        call_ensures(ResponseCube::from_flat, (tiles, freqs, directions, flat), Some(cube)),
        call_ensures(ResponseCube::num_tiles, (&cube,), num_tiles),
        call_ensures(ResponseCube::num_freqs, (&cube,), num_freqs),
        call_ensures(ResponseCube::num_directions, (&cube,), num_directions),
    ensures
        num_tiles == tiles,
        num_freqs == freqs,
        num_directions == directions,
{
}

/// A beam of MWA tiles can be prepared with any tables of no more than `i32::MAX` rows, and what is
/// prepared can bring back whatever the device computes for its unique tiles.
pub proof fn law_prepared_tiles_can_be_computed<'a>(
    beam: AnalyticBeam,
    delays: DelayTable,
    amps: RealTable,
    gpu: &'a AnalyticBeamGpu,
    azels: &[Direction],
    freqs_hz: &[u32],
    latitude_rad: Double,
    norm_to_zenith: bool,
    device: &ResponseCube,
)
    requires
        beam.beam_type is MwaPb || beam.beam_type is Rts,
        0 < beam.bowties_per_row < 16,
        delays@.len() <= i32::MAX,
        call_ensures(
            AnalyticBeam::gpu_prepare,
            (&beam, &delays, &amps),
            Ok::<AnalyticBeamGpu, AnalyticBeamError>(*gpu),
        ),
        device@.len() == gpu.analytic_type->MwaRts_0.num_unique_tiles,
        device.freqs() == freqs_hz@.len(),
        device.directions() == azels@.len(),
        0 < freqs_hz@.len(),
        0 < azels@.len(),
        0 < delays@.len(),
        delays@.len() == amps@.len(),
        delays@.len() * freqs_hz@.len() * azels@.len() * 64 <= isize::MAX,
    ensures
        call_requires(AnalyticBeam::gpu_prepare, (&beam, &delays, &amps)),
        call_requires(
            AnalyticBeamGpu::calc_jones,
            (
                gpu,
                azels,
                freqs_hz,
                latitude_rad,
                norm_to_zenith,
                HostEvent::Computed(device),
            ),
        ),
{
    let tiles = tiles_of(delays@, amps@);
    law_unique_tiles_are_the_tiles_once(tiles);
    assert(gpu.total_num_tiles() == delays@.len());
}

} // verus!
