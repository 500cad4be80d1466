//! What holds of whatever a call returns.
//!
//! In these laws `call_ensures(f, args, r)` says that `f` can return `r` where it is given `args`.
//! They speak of the fields of what comes back and of what was handed in.

use vstd::arithmetic::div_mod::lemma_fundamental_div_mod_converse;
use vstd::math::min;
use vstd::prelude::*;

use crate::amps::{fix_amps, fixed_amps, one_or_two_each};
use crate::beam::{
    at_most, below_horizon, find_below_horizon, first_below_horizon, paired, split_directions,
    zenith_angles, AnalyticBeam, AnalyticType,
};
use crate::double::{Double, FRAC_PI_2};
use crate::error::AnalyticBeamError;
use crate::laws::{
    is_nearest, law_default_heights_are_nearest, law_first_direction_below_horizon_is_reported,
};
use crate::response::{
    Direction, Element, ElementPattern, JonesTask, MwaResponse, Response, ResponseModel,
    SkaResponse,
};
use crate::rts::{
    bowties_per_side, delays_as_given, law_rts_mean_is_that_of_the_delays, lemma_rts_source,
    lemma_side, reorder_to_rts, square, total, TileDelays,
};
use crate::stations::{check_station, station_elements, station_ready, SkaConfig, FLATNESS};
use crate::table::RealTable;

verus! {

/// Are there fewer than 16 bowties in a row and, where there are tiles, at least one?
pub open spec fn is_sound(beam: AnalyticBeam) -> bool {
    &&& beam.bowties_per_row < 16
    &&& beam.beam_type is MwaPb || beam.beam_type is Rts ==> beam.bowties_per_row > 0
}

/// Is a direction with the zenith angle `za` more than a quarter turn from the zenith?
pub open spec fn sinks(za: Double) -> bool {
    !za.is_nan() && za.value() > Double { bits: FRAC_PI_2 }.value()
}

/// Is `gain` what becomes of the gains of bowtie `i`? A delay of 32 leaves none, one gain stays as
/// it is, and of two it is the one that is not above the other.
pub open spec fn is_gain(gain: Double, amps: Seq<Double>, delays: Seq<u32>, i: int) -> bool {
    let first = amps[i];
    let second = amps[i + delays.len()];
    if delays[i] == 32 {
        gain.bits == 0
    } else if amps.len() == delays.len() {
        gain == first
    } else if first.is_nan() || second.is_nan() {
        gain == if first.is_nan() {
            second
        } else {
            first
        }
    } else {
        &&& gain == first || gain == second
        &&& gain.value() <= first.value()
        &&& gain.value() <= second.value()
        &&& first.value() == second.value() ==> gain == first
    }
}

/// Does the term of the bowtie in row `row` and column `col` of a tile, with rows counted in M&C
/// order, hold the bowtie's place, delay and gain? mwa_pb counts bowties row by row, and the RTS
/// column by column from the last row.
pub open spec fn stands(
    beam: AnalyticBeam,
    response: MwaResponse,
    delays: Seq<u32>,
    amps: Seq<Double>,
    row: int,
    col: int,
) -> bool {
    let b = beam.bowties_per_row as int;
    let i = row * b + col;
    let from_last = b - 1 - row;
    if beam.beam_type is Rts {
        let term = response.dipoles@[col * b + from_last];
        &&& 0 <= col * b + from_last < response.dipoles@.len()
        &&& term.east == 2 * col - 3
        &&& term.north == 2 * from_last - 3
        &&& term.delay == delays[i]
        &&& is_gain(term.amp, amps, delays, i)
    } else {
        let term = response.dipoles@[i];
        &&& 0 <= i < response.dipoles@.len()
        &&& term.east == 2 * col - 3
        &&& term.north == 2 * row - 3
        &&& term.delay == delays[i]
        &&& is_gain(term.amp, amps, delays, i)
    }
}

/// Is this the response of a tile of `beam` with these delays and gains?
pub open spec fn answers_for_tile(
    beam: AnalyticBeam,
    response: MwaResponse,
    delays: Seq<u32>,
    amps: Seq<Double>,
    latitude_rad: Double,
    norm_to_zenith: bool,
) -> bool {
    let b = beam.bowties_per_row as int;
    &&& response.dipole_height == beam.dipole_height
    &&& response.norm_to_zenith == norm_to_zenith
    &&& response.num_bowties == b * b
    &&& response.dipoles@.len() == b * b
    &&& forall|row: int, col: int|
        0 <= row < b && 0 <= col < b ==> #[trigger] stands(beam, response, delays, amps, row, col)
    &&& beam.beam_type is MwaPb ==> {
        &&& response.pattern == ElementPattern::MwaPb
        &&& response.mean_of is None
        &&& !response.falling_phase
        &&& !response.real_only
    }
    &&& beam.beam_type is Rts ==> {
        &&& response.pattern == ElementPattern::Rts { latitude_rad }
        &&& response.mean_of is Some
        &&& response.mean_of->0 == total(delays)
        &&& response.falling_phase
        &&& response.real_only
    }
}

/// Do `elements` stand where the first two coordinates of the first rows of a table say?
pub open spec fn placed(elements: Seq<Element>, coordinates: RealTable) -> bool {
    forall|i: int|
        0 <= i < elements.len() ==> (#[trigger] elements[i]).x == coordinates@[i][0]
            && elements[i].y == coordinates@[i][1]
}

/// Is this the response of station `index`: its own elements, and their number to divide by?
pub open spec fn answers_for_station(
    config: SkaConfig,
    response: SkaResponse,
    index: int,
    lst_rad: Double,
) -> bool {
    let coordinates = config.feed_coordinates->0@[index];
    &&& response.lst_rad == lst_rad
    &&& response.site_latitude_rad == config.site_latitude_rad
    &&& response.phase_centre == config.phase_centre
    &&& response.stations@.len() == 1
    &&& response.stations@[0]@.len() == coordinates@.len()
    &&& response.divisor == coordinates@.len()
    &&& placed(response.stations@[0]@, coordinates)
}

/// Is this the mean response of all stations: of each as many elements as station `index` has, and
/// the number of stations to divide by?
pub open spec fn answers_for_all_stations(
    config: SkaConfig,
    response: SkaResponse,
    index: int,
    lst_rad: Double,
) -> bool {
    let coordinates = config.feed_coordinates->0@;
    &&& response.lst_rad == lst_rad
    &&& response.site_latitude_rad == config.site_latitude_rad
    &&& response.phase_centre == config.phase_centre
    &&& response.stations@.len() == config.number_of_stations
    &&& response.divisor == config.number_of_stations
    &&& forall|j: int|
        0 <= j < config.number_of_stations ==> (#[trigger] response.stations@[j])@.len()
            == coordinates[index]@.len() && placed(response.stations@[j]@, coordinates[j])
}

/// Is `task` what there is to compute for `directions`?
pub open spec fn answers(
    beam: AnalyticBeam,
    directions: Seq<Direction>,
    freq_hz: u32,
    delays: Seq<u32>,
    amps: Seq<Double>,
    latitude_rad: Double,
    norm_to_zenith: bool,
    tile_index: Option<usize>,
    task: JonesTask,
) -> bool {
    &&& task.directions@ == directions
    &&& task.freq_hz == freq_hz
    &&& task.response is None <==> directions.len() == 0
    &&& directions.len() > 0 ==> match beam.beam_type {
        AnalyticType::MwaPb | AnalyticType::Rts => task.response->0 is Mwa && answers_for_tile(
            beam,
            task.response->0->Mwa_0,
            delays,
            amps,
            latitude_rad,
            norm_to_zenith,
        ),
        AnalyticType::Ska => task.response->0 is Ska && answers_for_station(
            beam.ska_config->0,
            task.response->0->Ska_0,
            tile_index->0 as int,
            latitude_rad,
        ),
        AnalyticType::SkaMean => task.response->0 is Ska && answers_for_all_stations(
            beam.ska_config->0,
            task.response->0->Ska_0,
            tile_index->0 as int,
            latitude_rad,
        ),
    }
}

/// Is `refusal` the one that these numbers of delays and gains call for, if any: one delay for each
/// bowtie, and one gain or two?
pub open spec fn refused_for_lengths(
    beam: AnalyticBeam,
    num_delays: nat,
    num_amps: nat,
    refusal: Option<AnalyticBeamError>,
) -> bool {
    let n = beam.bowties_per_row * beam.bowties_per_row;
    if num_delays != n {
        refusal matches Some(AnalyticBeamError::IncorrectDelaysLength { got, expected })
            && got == num_delays && expected == n
    } else if num_amps != n && num_amps != 2 * n {
        refusal matches Some(AnalyticBeamError::IncorrectAmpsLength { got, expected1, expected2 })
            && got == num_amps && expected1 == n && expected2 == 2 * n
    } else {
        refusal is None
    }
}

/// Is `refusal` the one that a single direction calls for, if any?
pub open spec fn refused_for_one(
    beam: AnalyticBeam,
    za: Double,
    num_delays: nat,
    num_amps: nat,
    refusal: Option<AnalyticBeamError>,
) -> bool {
    if sinks(za) {
        refusal == Some(AnalyticBeamError::BelowHorizon { za })
    } else if beam.beam_type is Ska {
        refusal is None
    } else {
        refused_for_lengths(beam, num_delays, num_amps, refusal)
    }
}

/// Is `refusal` the one that many directions call for, if any? Of those below the horizon it is the
/// first that counts.
pub open spec fn refused_for_many(
    beam: AnalyticBeam,
    zas: Seq<Double>,
    num_delays: nat,
    num_amps: nat,
    refusal: Option<AnalyticBeamError>,
) -> bool {
    ||| exists|i: int|
        0 <= i < zas.len() && sinks(#[trigger] zas[i]) && refusal == Some(
            AnalyticBeamError::BelowHorizon { za: zas[i] },
        ) && forall|j: int| 0 <= j < i ==> !sinks(#[trigger] zas[j])
    ||| (forall|i: int| 0 <= i < zas.len() ==> !sinks(#[trigger] zas[i])) && match beam.beam_type {
        AnalyticType::MwaPb | AnalyticType::Rts => refused_for_lengths(
            beam,
            num_delays,
            num_amps,
            refusal,
        ),
        AnalyticType::Ska | AnalyticType::SkaMean => refusal is None,
    }
}

/// The refusal in a result, if it is one.
pub open spec fn refusal_in<T>(r: Result<T, AnalyticBeamError>) -> Option<AnalyticBeamError> {
    match r {
        Ok(_) => None,
        Err(e) => Some(e),
    }
}

proof fn lemma_gain(amps: Seq<Double>, delays: Seq<u32>, i: int)
    requires
        amps.len() == delays.len() || amps.len() == 2 * delays.len(),
        0 <= i < delays.len(),
    ensures
        is_gain(fixed_amps(amps, delays)[i], amps, delays, i),
{
}

/// Where the delay and gain of the bowtie in row `row` and column `col` come in the order of
/// counting.
pub proof fn lemma_ordered(
    beam: AnalyticBeam,
    delays: Seq<u32>,
    amps: Seq<Double>,
    row: int,
    col: int,
)
    requires
        beam.beam_type.is_mwa(),
        delays.len() == beam.bowties_per_row * beam.bowties_per_row,
        amps.len() == delays.len() || amps.len() == 2 * delays.len(),
        0 <= row < beam.bowties_per_row,
        0 <= col < beam.bowties_per_row,
    ensures
        ({
            let b = beam.bowties_per_row as int;
            let i = row * b + col;
            let k = if beam.beam_type is Rts {
                col * b + (b - 1 - row)
            } else {
                i
            };
            &&& 0 <= i < b * b
            &&& 0 <= k < b * b
            &&& beam.ordered_delays(delays).steps[k] == delays[i]
            &&& is_gain(beam.ordered_amps(delays, amps)[k], amps, delays, i)
        }),
{
    let side = beam.bowties_per_row as nat;
    let b = side as int;
    lemma_side(side);
    assert(square(side) == delays.len());
    lemma_rts_source(side, row, col);
    lemma_rts_source(side, col, b - 1 - row);
    lemma_gain(amps, delays, row * b + col);
}

/// Whatever order a tile's gains and delays are counted in, each bowtie has one gain and its own
/// delay: row by row, but for the RTS column by column from the last row and relative to the mean.
pub proof fn law_tiles_are_ordered(
    beam: AnalyticBeam,
    amps: &[Double],
    delays: &[u32],
    r: (Vec<Double>, TileDelays),
    row: int,
    col: int,
)
    requires
        beam.beam_type is MwaPb || beam.beam_type is Rts,
        delays@.len() == beam.bowties_per_row * beam.bowties_per_row,
        amps@.len() == delays@.len() || amps@.len() == 2 * delays@.len(),
        call_ensures(AnalyticBeam::ordered_tile, (&beam, amps, delays), r),
        0 <= row < beam.bowties_per_row,
        0 <= col < beam.bowties_per_row,
    ensures
        ({
            let b = beam.bowties_per_row as int;
            let i = row * b + col;
            let k = if beam.beam_type is Rts {
                col * b + (b - 1 - row)
            } else {
                i
            };
            &&& r.0@.len() == b * b
            &&& r.1.steps@.len() == b * b
            &&& r.1.steps@[k] == delays@[i]
            &&& is_gain(r.0@[k], amps@, delays@, i)
            &&& beam.beam_type is MwaPb ==> r.1.mean_of is None
            &&& beam.beam_type is Rts ==> r.1.mean_of is Some && r.1.mean_of->0 == total(delays@)
        }),
{
    lemma_ordered(beam, delays@, amps@, row, col);
    let side = beam.bowties_per_row as nat;
    lemma_side(side);
    assert(square(side) == delays@.len());
    assert(r.1@.steps == r.1.steps@);
    if beam.beam_type is Rts {
        law_rts_mean_is_that_of_the_delays(delays@);
    }
}

proof fn lemma_stands(
    beam: AnalyticBeam,
    response: MwaResponse,
    delays: Seq<u32>,
    amps: Seq<Double>,
    latitude_rad: Double,
    norm_to_zenith: bool,
    row: int,
    col: int,
)
    requires
        beam.wf(),
        beam.beam_type.is_mwa(),
        delays.len() == beam.bowties_per_row * beam.bowties_per_row,
        amps.len() == delays.len() || amps.len() == 2 * delays.len(),
        response@ == beam.tile_response(
            beam.ordered_delays(delays),
            beam.ordered_amps(delays, amps),
            latitude_rad,
            norm_to_zenith,
        ),
        0 <= row < beam.bowties_per_row,
        0 <= col < beam.bowties_per_row,
    ensures
        stands(beam, response, delays, amps, row, col),
{
    let side = beam.bowties_per_row as nat;
    let b = side as int;
    let i = row * b + col;
    lemma_side(side);
    lemma_rts_source(side, row, col);
    lemma_gain(amps, delays, i);
    assert(response.dipoles@ == response@.dipoles);
    if beam.beam_type is Rts {
        let turn = b - 1 - row;
        let k = col * b + turn;
        lemma_rts_source(side, col, turn);
        lemma_fundamental_div_mod_converse(k, b, col, turn);
        assert(k / b == col && k % b == turn);
    } else {
        lemma_fundamental_div_mod_converse(i, b, row, col);
        assert(i / b == row && i % b == col);
    }
}

proof fn lemma_answers(
    beam: AnalyticBeam,
    directions: Seq<Direction>,
    freq_hz: u32,
    delays: Seq<u32>,
    amps: Seq<Double>,
    latitude_rad: Double,
    norm_to_zenith: bool,
    tile_index: Option<usize>,
    task: JonesTask,
)
    requires
        beam.wf(),
        beam.beam_type.is_mwa() ==> delays.len() == beam.bowties_per_row * beam.bowties_per_row && (
        amps.len() == delays.len() || amps.len() == 2 * delays.len()),
        task@ == beam.task(
            directions,
            freq_hz,
            delays,
            amps,
            latitude_rad,
            norm_to_zenith,
            tile_index,
        ),
    ensures
        answers(
            beam,
            directions,
            freq_hz,
            delays,
            amps,
            latitude_rad,
            norm_to_zenith,
            tile_index,
            task,
        ),
{
    if directions.len() > 0 {
        let response = task.response->0;
        assert(task@.response == Some(response@));
        if beam.beam_type.is_mwa() {
            let mwa = response->Mwa_0;
            let model = beam.tile_response(
                beam.ordered_delays(delays),
                beam.ordered_amps(delays, amps),
                latitude_rad,
                norm_to_zenith,
            );
            assert(response@ == ResponseModel::Mwa(model));
            assert(mwa@ == model);
            lemma_side(beam.bowties_per_row as nat);
            assert(square(beam.bowties_per_row as nat) == delays.len());
            if beam.beam_type is Rts {
                law_rts_mean_is_that_of_the_delays(delays);
            }
            assert forall|row: int, col: int|
                0 <= row < beam.bowties_per_row && 0 <= col < beam.bowties_per_row implies
                #[trigger] stands(beam, mwa, delays, amps, row, col) by {
                lemma_stands(
                    beam,
                    mwa,
                    delays,
                    amps,
                    latitude_rad,
                    norm_to_zenith,
                    row,
                    col,
                );
            }
        } else {
            lemma_ska_answers(beam, response->Ska_0, latitude_rad, tile_index);
        }
    }
}

proof fn lemma_ska_answers(
    beam: AnalyticBeam,
    response: SkaResponse,
    lst_rad: Double,
    tile_index: Option<usize>,
)
    ensures
        ({
            let config = beam.ska_config->0;
            let index = tile_index->0 as int;
            &&& response@ == config.station_response(index, lst_rad) ==> answers_for_station(
                config,
                response,
                index,
                lst_rad,
            )
            &&& response@ == config.mean_response(index, lst_rad) ==> answers_for_all_stations(
                config,
                response,
                index,
                lst_rad,
            )
        }),
{
    let config = beam.ska_config->0;
    let index = tile_index->0 as int;
    let stations = Seq::new(response.stations@.len(), |j: int| response.stations@[j]@);
    assert(response@.stations =~= stations);
    if response@ == config.station_response(index, lst_rad) {
        assert(stations.len() == 1);
        assert(response@.stations[0] == response.stations@[0]@);
    }
    if response@ == config.mean_response(index, lst_rad) {
        assert(stations.len() == config.number_of_stations);
        assert forall|j: int| 0 <= j < config.number_of_stations implies (
        #[trigger] response.stations@[j])@.len() == config.feed_coordinates->0@[index]@.len()
            && placed(response.stations@[j]@, config.feed_coordinates->0@[j]) by {
            assert(response@.stations[j] == response.stations@[j]@);
        }
    }
}

proof fn lemma_refused_for_many(beam: AnalyticBeam, zas: Seq<Double>, num_delays: nat, num_amps: nat)
    requires
        beam.wf(),
        num_delays <= usize::MAX,
        num_amps <= usize::MAX,
    ensures
        refused_for_many(
            beam,
            zas,
            num_delays,
            num_amps,
            beam.array_refusal(zas, num_delays, num_amps),
        ),
{
    law_first_direction_below_horizon_is_reported(zas);
    lemma_refused_for_lengths(beam, num_delays, num_amps);
    match first_below_horizon(zas) {
        Some(za) => {
            let i = choose|i: int|
                0 <= i < zas.len() && #[trigger] zas[i] == za && below_horizon(za)
                    && (forall|j: int|
                    0 <= j < i ==> !below_horizon(#[trigger] zas[j]));
            assert(sinks(zas[i]));
            assert forall|j: int| 0 <= j < i implies !sinks(#[trigger] zas[j]) by {
                assert(!below_horizon(zas[j]));
            }
        },
        None => {
            assert forall|i: int| 0 <= i < zas.len() implies !sinks(#[trigger] zas[i]) by {
                assert(!below_horizon(zas[i]));
            }
        },
    }
}

proof fn lemma_refused_for_lengths(beam: AnalyticBeam, num_delays: nat, num_amps: nat)
    requires
        beam.wf(),
        num_delays <= usize::MAX,
        num_amps <= usize::MAX,
    ensures
        refused_for_lengths(
            beam,
            num_delays,
            num_amps,
            beam.length_refusal(num_delays, num_amps),
        ),
{
    let b = beam.bowties_per_row as int;
    assert(0 <= b * b <= 225) by (nonlinear_arith)
        requires
            0 <= b < 16,
    ;
}

/// One direction, given by its azimuth and zenith angle: whatever is returned is the refusal that
/// is called for or, where none is, the task for that direction.
pub proof fn law_a_pair_is_answered(
    beam: AnalyticBeam,
    az_rad: Double,
    za_rad: Double,
    freq_hz: u32,
    delays: &[u32],
    amps: &[Double],
    latitude_rad: Double,
    norm_to_zenith: bool,
    tile_index: Option<usize>,
    r: Result<JonesTask, AnalyticBeamError>,
)
    requires
        is_sound(beam),
        call_ensures(
            AnalyticBeam::calc_jones_pair,
            (
                &beam,
                az_rad,
                za_rad,
                freq_hz,
                delays,
                amps,
                latitude_rad,
                norm_to_zenith,
                tile_index,
            ),
            r,
        ),
    ensures
        refused_for_one(beam, za_rad, delays@.len(), amps@.len(), refusal_in(r)),
        r matches Ok(task) ==> answers(
            beam,
            seq![Direction { az: az_rad, za: za_rad }],
            freq_hz,
            delays@,
            amps@,
            latitude_rad,
            norm_to_zenith,
            tile_index,
            task,
        ),
{
    assert(delays.len() == delays@.len() && amps.len() == amps@.len());
    lemma_refused_for_lengths(beam, delays@.len(), amps@.len());
    if r is Ok {
        lemma_answers(
            beam,
            seq![Direction { az: az_rad, za: za_rad }],
            freq_hz,
            delays@,
            amps@,
            latitude_rad,
            norm_to_zenith,
            tile_index,
            r->Ok_0,
        );
    }
}

/// One direction: whatever is returned is the refusal that is called for or, where none is, the
/// task for that direction.
pub proof fn law_a_direction_is_answered(
    beam: AnalyticBeam,
    azel: Direction,
    freq_hz: u32,
    delays: &[u32],
    amps: &[Double],
    latitude_rad: Double,
    norm_to_zenith: bool,
    tile_index: Option<usize>,
    r: Result<JonesTask, AnalyticBeamError>,
)
    requires
        is_sound(beam),
        call_ensures(
            AnalyticBeam::calc_jones,
            (&beam, azel, freq_hz, delays, amps, latitude_rad, norm_to_zenith, tile_index),
            r,
        ),
    ensures
        refused_for_one(beam, azel.za, delays@.len(), amps@.len(), refusal_in(r)),
        r matches Ok(task) ==> answers(
            beam,
            seq![azel],
            freq_hz,
            delays@,
            amps@,
            latitude_rad,
            norm_to_zenith,
            tile_index,
            task,
        ),
{
    assert(delays.len() == delays@.len() && amps.len() == amps@.len());
    lemma_refused_for_lengths(beam, delays@.len(), amps@.len());
    if r is Ok {
        lemma_answers(
            beam,
            seq![azel],
            freq_hz,
            delays@,
            amps@,
            latitude_rad,
            norm_to_zenith,
            tile_index,
            r->Ok_0,
        );
    }
}

/// Many directions: whatever is returned is the refusal that is called for or, where none is, the
/// task for all of them, in order.
pub proof fn law_directions_are_answered(
    beam: AnalyticBeam,
    azels: &[Direction],
    freq_hz: u32,
    delays: &[u32],
    amps: &[Double],
    latitude_rad: Double,
    norm_to_zenith: bool,
    tile_index: Option<usize>,
    r: Result<JonesTask, AnalyticBeamError>,
)
    requires
        is_sound(beam),
        call_ensures(
            AnalyticBeam::calc_jones_array,
            (&beam, azels, freq_hz, delays, amps, latitude_rad, norm_to_zenith, tile_index),
            r,
        ),
    ensures
        refused_for_many(
            beam,
            Seq::new(azels@.len(), |i: int| azels@[i].za),
            delays@.len(),
            amps@.len(),
            refusal_in(r),
        ),
        r matches Ok(task) ==> answers(
            beam,
            azels@,
            freq_hz,
            delays@,
            amps@,
            latitude_rad,
            norm_to_zenith,
            tile_index,
            task,
        ),
{
    assert(delays.len() == delays@.len() && amps.len() == amps@.len());
    let zas = Seq::new(azels@.len(), |i: int| azels@[i].za);
    assert(zas =~= zenith_angles(azels@));
    lemma_refused_for_many(beam, zas, delays@.len(), amps@.len());
    lemma_refused_for_lengths(beam, delays@.len(), amps@.len());
    if r is Ok {
        lemma_answers(
            beam,
            azels@,
            freq_hz,
            delays@,
            amps@,
            latitude_rad,
            norm_to_zenith,
            tile_index,
            r->Ok_0,
        );
    }
}

/// Many directions, with a place for so many results: whatever is returned is the refusal that is
/// called for or, where none is, the task for the first of them, as many as there is place for.
pub proof fn law_directions_with_a_place_are_answered(
    beam: AnalyticBeam,
    azels: &[Direction],
    freq_hz: u32,
    delays: &[u32],
    amps: &[Double],
    latitude_rad: Double,
    norm_to_zenith: bool,
    num_results: usize,
    tile_index: Option<usize>,
    r: Result<JonesTask, AnalyticBeamError>,
)
    requires
        is_sound(beam),
        call_ensures(
            AnalyticBeam::calc_jones_array_inner,
            (
                &beam,
                azels,
                freq_hz,
                delays,
                amps,
                latitude_rad,
                norm_to_zenith,
                num_results,
                tile_index,
            ),
            r,
        ),
    ensures
        refused_for_many(
            beam,
            Seq::new(azels@.len(), |i: int| azels@[i].za),
            delays@.len(),
            amps@.len(),
            refusal_in(r),
        ),
        r matches Ok(task) ==> answers(
            beam,
            azels@.take(min(azels@.len() as int, num_results as int)),
            freq_hz,
            delays@,
            amps@,
            latitude_rad,
            norm_to_zenith,
            tile_index,
            task,
        ),
{
    assert(delays.len() == delays@.len() && amps.len() == amps@.len());
    let zas = Seq::new(azels@.len(), |i: int| azels@[i].za);
    assert(zas =~= zenith_angles(azels@));
    lemma_refused_for_many(beam, zas, delays@.len(), amps@.len());
    lemma_refused_for_lengths(beam, delays@.len(), amps@.len());
    let directions = azels@.take(min(azels@.len() as int, num_results as int));
    assert(directions =~= at_most(azels@, num_results as nat));
    if r is Ok {
        lemma_answers(
            beam,
            directions,
            freq_hz,
            delays@,
            amps@,
            latitude_rad,
            norm_to_zenith,
            tile_index,
            r->Ok_0,
        );
    }
}

/// Many directions, given by their azimuths and zenith angles: whatever is returned is the refusal
/// that is called for or, where none is, the task for the directions that have both.
pub proof fn law_pairs_are_answered(
    beam: AnalyticBeam,
    az_rad: &[Double],
    za_rad: &[Double],
    freq_hz: u32,
    delays: &[u32],
    amps: &[Double],
    latitude_rad: Double,
    norm_to_zenith: bool,
    tile_index: Option<usize>,
    r: Result<JonesTask, AnalyticBeamError>,
)
    requires
        is_sound(beam),
        call_ensures(
            AnalyticBeam::calc_jones_array_pair,
            (
                &beam,
                az_rad,
                za_rad,
                freq_hz,
                delays,
                amps,
                latitude_rad,
                norm_to_zenith,
                tile_index,
            ),
            r,
        ),
    ensures
        refused_for_many(beam, za_rad@, delays@.len(), amps@.len(), refusal_in(r)),
        r matches Ok(task) ==> answers(
            beam,
            Seq::new(
                min(az_rad@.len() as int, za_rad@.len() as int) as nat,
                |i: int| Direction { az: az_rad@[i], za: za_rad@[i] },
            ),
            freq_hz,
            delays@,
            amps@,
            latitude_rad,
            norm_to_zenith,
            tile_index,
            task,
        ),
{
    assert(delays.len() == delays@.len() && amps.len() == amps@.len());
    lemma_refused_for_many(beam, za_rad@, delays@.len(), amps@.len());
    lemma_refused_for_lengths(beam, delays@.len(), amps@.len());
    let directions = Seq::new(
        min(az_rad@.len() as int, za_rad@.len() as int) as nat,
        |i: int| Direction { az: az_rad@[i], za: za_rad@[i] },
    );
    assert(directions =~= paired(az_rad@, za_rad@));
    if r is Ok {
        lemma_answers(
            beam,
            directions,
            freq_hz,
            delays@,
            amps@,
            latitude_rad,
            norm_to_zenith,
            tile_index,
            r->Ok_0,
        );
    }
}

/// Many directions, given by their azimuths and zenith angles, with a place for so many results:
/// whatever is returned is the refusal that is called for or, where none is, the task for the first
/// of the directions that have both, as many as there is place for.
pub proof fn law_pairs_with_a_place_are_answered(
    beam: AnalyticBeam,
    az_rad: &[Double],
    za_rad: &[Double],
    freq_hz: u32,
    delays: &[u32],
    amps: &[Double],
    latitude_rad: Double,
    norm_to_zenith: bool,
    num_results: usize,
    tile_index: Option<usize>,
    r: Result<JonesTask, AnalyticBeamError>,
)
    requires
        is_sound(beam),
        call_ensures(
            AnalyticBeam::calc_jones_array_pair_inner,
            (
                &beam,
                az_rad,
                za_rad,
                freq_hz,
                delays,
                amps,
                latitude_rad,
                norm_to_zenith,
                num_results,
                tile_index,
            ),
            r,
        ),
    ensures
        refused_for_many(beam, za_rad@, delays@.len(), amps@.len(), refusal_in(r)),
        r matches Ok(task) ==> answers(
            beam,
            Seq::new(
                min(
                    num_results as int,
                    min(az_rad@.len() as int, za_rad@.len() as int),
                ) as nat,
                |i: int| Direction { az: az_rad@[i], za: za_rad@[i] },
            ),
            freq_hz,
            delays@,
            amps@,
            latitude_rad,
            norm_to_zenith,
            tile_index,
            task,
        ),
{
    assert(delays.len() == delays@.len() && amps.len() == amps@.len());
    lemma_refused_for_many(beam, za_rad@, delays@.len(), amps@.len());
    lemma_refused_for_lengths(beam, delays@.len(), amps@.len());
    let directions = Seq::new(
        min(
            num_results as int,
            min(az_rad@.len() as int, za_rad@.len() as int),
        ) as nat,
        |i: int| Direction { az: az_rad@[i], za: za_rad@[i] },
    );
    assert(directions =~= at_most(paired(az_rad@, za_rad@), num_results as nat));
    if r is Ok {
        lemma_answers(
            beam,
            directions,
            freq_hz,
            delays@,
            amps@,
            latitude_rad,
            norm_to_zenith,
            tile_index,
            r->Ok_0,
        );
    }
}

/// A sum is taken item by item.
pub proof fn law_total_adds_up(s: Seq<u32>, last: u32)
    ensures
        total(Seq::empty()) == 0,
        total(s.push(last)) == total(s) + last,
{
    assert(s.push(last).drop_last() =~= s);
}

/// Whatever the gains are fixed to, each bowtie has one, which is what becomes of its own.
pub proof fn law_gains_are_fixed(
    amps: &[Double],
    delays: &[u32],
    fixed: Vec<Double>,
    i: int,
    fits: bool,
)
    requires
        call_ensures(fix_amps, (amps, delays), fixed),
        call_ensures(one_or_two_each, (amps.len(), delays.len()), fits),
        0 <= i < delays@.len(),
    ensures
        fixed@.len() == delays@.len(),
        fits <==> amps@.len() == delays@.len() || amps@.len() == 2 * delays@.len(),
        fits ==> is_gain(fixed@[i], amps@, delays@, i),
{
    assert(delays.len() == delays@.len() && amps.len() == amps@.len());
    if fits {
        lemma_gain(amps@, delays@, i);
    }
}

/// Whatever RTS order the gains and delays of a tile with `side` bowties per row come in, those of
/// row `row` and column `col` come in the place of that column, counted from the last row; and the
/// mean is taken of the sum of all delays.
pub proof fn law_reordering_turns_the_tile(
    amps: &[Double],
    delays: &[u32],
    r: (Vec<Double>, TileDelays),
    side: nat,
    row: int,
    col: int,
)
    requires
        call_ensures(reorder_to_rts, (amps, delays), r),
        delays@.len() == side * side,
        amps@.len() == delays@.len(),
        0 <= row < side,
        0 <= col < side,
    ensures
        r.0@.len() == side * side,
        r.1.steps@.len() == side * side,
        r.0@[col * side + (side - 1 - row)] == amps@[row * side + col],
        r.1.steps@[col * side + (side - 1 - row)] == delays@[row * side + col],
        r.1.mean_of is Some,
        r.1.mean_of->0 == total(delays@),
{
    lemma_side(side);
    assert(square(side) == delays@.len());
    lemma_rts_source(side, col, side - 1 - row);
    law_rts_mean_is_that_of_the_delays(delays@);
    assert(r.1@.steps == r.1.steps@);
}

/// Delays taken as given are the delays, in order, and relative to no mean; a square tile has as
/// many bowties as its side times its side.
pub proof fn law_given_delays_stay(
    delays: &[u32],
    r: TileDelays,
    num_bowties: usize,
    side: usize,
)
    requires
        call_ensures(delays_as_given, (delays,), r),
        call_ensures(bowties_per_side, (num_bowties,), side),
    ensures
        r.steps@ == delays@,
        r.mean_of is None,
        side * side == num_bowties,
{
    assert(r@.steps == r.steps@);
}

/// A beam of one's own has the type, the dipole height and the number of bowties per row that were
/// chosen for it, and knows of no stations.
pub proof fn law_custom_beams_are_as_chosen(
    beam_type: AnalyticType,
    dipole_height_metres: Double,
    bowties_per_row: u8,
    beam: AnalyticBeam,
    num_bowties: usize,
)
    requires
        call_ensures(
            AnalyticBeam::new_custom,
            (beam_type, dipole_height_metres, bowties_per_row),
            beam,
        ),
        call_ensures(AnalyticBeam::get_num_bowties, (&beam,), num_bowties),
    ensures
        beam.beam_type == beam_type,
        beam.dipole_height == dipole_height_metres,
        beam.bowties_per_row == bowties_per_row,
        beam.ska_config is None,
        num_bowties == bowties_per_row * bowties_per_row,
{
}

/// The beam of SKA stations knows of the stations that it was given, and of no bowties.
pub proof fn law_ska_beams_know_their_stations(config: SkaConfig, beam: AnalyticBeam)
    requires
        call_ensures(AnalyticBeam::new_ska, (config,), beam),
    ensures
        beam.beam_type is Ska,
        beam.ska_config == Some(config),
        beam.bowties_per_row == 0,
        beam.dipole_height.value() == 0,
{
    law_default_heights_are_nearest();
}

/// The beams of normal MWA tiles have rows of 4 bowties, and the heights of 0.278 and 0.3 metres
/// that mwa_pb and the RTS take.
pub proof fn law_normal_tiles(mwa_pb: AnalyticBeam, default: AnalyticBeam, rts: AnalyticBeam)
    requires
        call_ensures(AnalyticBeam::new, (), mwa_pb),
        call_ensures(AnalyticBeam::default, (), default),
        call_ensures(AnalyticBeam::new_rts, (), rts),
    ensures
        mwa_pb.beam_type is MwaPb && default.beam_type is MwaPb && rts.beam_type is Rts,
        mwa_pb.bowties_per_row == 4 && default.bowties_per_row == 4 && rts.bowties_per_row == 4,
        is_nearest(mwa_pb.dipole_height, 278, 1000),
        default.dipole_height == mwa_pb.dipole_height,
        is_nearest(rts.dipole_height, 3, 10),
        mwa_pb.ska_config is None && default.ska_config is None && rts.ska_config is None,
{
    law_default_heights_are_nearest();
}

/// Whatever the default height of a beam type is, it is the nearest number to that of the dipoles.
pub proof fn law_default_height_is_that_of_the_type(beam_type: AnalyticType, height: Double)
    requires
        call_ensures(AnalyticType::get_default_dipole_height, (beam_type,), height),
    ensures
        match beam_type {
            AnalyticType::MwaPb => is_nearest(height, 278, 1000),
            AnalyticType::Rts => is_nearest(height, 3, 10),
            AnalyticType::Ska | AnalyticType::SkaMean => height.value() == 0,
        },
{
    law_default_heights_are_nearest();
}

/// Is an element at the height `z` on the ground, up to 1e-10 metres?
pub open spec fn on_the_ground(z: Double) -> bool {
    let limit = Double { bits: FLATNESS }.value();
    !z.is_nan() && -limit < z.value() < limit
}

/// Does a table hold the coordinates of `num` elements on the ground?
pub open spec fn holds_elements(coordinates: RealTable, num: nat) -> bool {
    &&& num <= coordinates@.len()
    &&& num > 0 ==> coordinates.cols() >= 3
    &&& forall|i: int| 0 <= i < num ==> on_the_ground((#[trigger] coordinates@[i])[2])
}

/// Are the stations described that a response takes: for one station its own, for the mean all of
/// them, each with as many elements as the one that is asked for?
pub open spec fn describes(config: SkaConfig, tile_index: Option<usize>, mean: bool) -> bool {
    &&& tile_index is Some && config.feed_angles_rad is Some && config.feed_coordinates is Some
    &&& tile_index->0 < config.feed_angles_rad->0@.len()
    &&& tile_index->0 < config.feed_coordinates->0@.len()
    &&& ({
        let coordinates = config.feed_coordinates->0@;
        let index = tile_index->0 as int;
        let num = coordinates[index]@.len();
        if mean {
            config.number_of_stations <= coordinates.len() && forall|j: int|
                0 <= j < config.number_of_stations ==> holds_elements(
                    #[trigger] coordinates[j],
                    num,
                )
        } else {
            holds_elements(coordinates[index], num)
        }
    })
}

proof fn lemma_holds_elements(coordinates: RealTable, num: nat)
    ensures
        station_ready(coordinates, num) <==> holds_elements(coordinates, num),
{
    if station_ready(coordinates, num) {
        assert forall|i: int| 0 <= i < num implies on_the_ground(
            (#[trigger] coordinates@[i])[2],
        ) by {
            assert(coordinates@[i][2].is_within(Double { bits: FLATNESS }));
        }
    }
    if holds_elements(coordinates, num) {
        assert(!(Double { bits: FLATNESS }).is_nan());
        assert forall|i: int| 0 <= i < num implies (#[trigger] coordinates@[i])[2].is_within(
            Double { bits: FLATNESS },
        ) by {
            assert(on_the_ground(coordinates@[i][2]));
        }
    }
}

proof fn lemma_describes(config: SkaConfig, tile_index: Option<usize>, mean: bool)
    ensures
        config.ready(tile_index, mean) <==> describes(config, tile_index, mean),
{
    let coordinates = config.feed_coordinates->0@;
    let index = tile_index->0 as int;
    let num = coordinates[index]@.len();
    lemma_holds_elements(coordinates[index], num);
    assert forall|j: int|
        station_ready(#[trigger] coordinates[j], num) <==> holds_elements(
            coordinates[j],
            num,
        ) by {
        lemma_holds_elements(coordinates[j], num);
    }
}

/// A station is complete where each of its elements has three coordinates and stands on the ground;
/// and its elements are where the first two say.
pub proof fn law_stations_are_checked(
    coordinates: &RealTable,
    num: usize,
    complete: bool,
    elements: Vec<Element>,
)
    requires
        call_ensures(check_station, (coordinates, num), complete),
        call_ensures(station_elements, (coordinates, num), elements),
    ensures
        complete <==> holds_elements(*coordinates, num as nat),
        elements@.len() == num,
        placed(elements@, *coordinates),
{
    lemma_holds_elements(*coordinates, num as nat);
}

/// Whatever response stations give, it is that of the one asked for or the mean of all; and they
/// are ready for it exactly where they are described.
pub proof fn law_stations_respond(
    config: SkaConfig,
    tile_index: Option<usize>,
    mean: bool,
    lst_rad: Double,
    ready: bool,
    response: SkaResponse,
)
    requires
        call_ensures(SkaConfig::is_ready, (&config, tile_index, mean), ready),
        call_ensures(SkaConfig::response, (&config, tile_index, mean, lst_rad), response),
    ensures
        ready <==> describes(config, tile_index, mean),
        !mean ==> answers_for_station(config, response, tile_index->0 as int, lst_rad),
        mean ==> answers_for_all_stations(config, response, tile_index->0 as int, lst_rad),
{
    lemma_describes(config, tile_index, mean);
    let beam = AnalyticBeam {
        dipole_height: lst_rad,
        beam_type: AnalyticType::Ska,
        bowties_per_row: 0,
        ska_config: Some(config),
    };
    lemma_ska_answers(beam, response, lst_rad, tile_index);
}

/// The response of a station is its own: how many stations there are, and what the others are, does
/// not enter it. It is divided by the number of its terms.
pub proof fn law_a_station_responds_for_itself(
    config: SkaConfig,
    other: SkaConfig,
    tile_index: usize,
    lst_rad: Double,
    response: SkaResponse,
    other_response: SkaResponse,
)
    requires
        call_ensures(SkaConfig::response, (&config, Some(tile_index), false, lst_rad), response),
        call_ensures(
            SkaConfig::response,
            (&other, Some(tile_index), false, lst_rad),
            other_response,
        ),
        config.feed_coordinates->0@[tile_index as int]
            == other.feed_coordinates->0@[tile_index as int],
    ensures
        response.divisor == response.stations@[0]@.len(),
        response.divisor == other_response.divisor,
        response.stations@.len() == other_response.stations@.len() == 1,
        response.stations@[0]@ == other_response.stations@[0]@,
{
    law_station_response(config, tile_index, lst_rad, response);
    law_station_response(other, tile_index, lst_rad, other_response);
    assert(response.stations@[0]@ =~= other_response.stations@[0]@);
}

/// The response of a station holds its own elements, one term for each row of its coordinates, and
/// is divided by their number.
pub proof fn law_station_response(
    config: SkaConfig,
    tile_index: usize,
    lst_rad: Double,
    response: SkaResponse,
)
    requires
        call_ensures(SkaConfig::response, (&config, Some(tile_index), false, lst_rad), response),
    ensures
        answers_for_station(config, response, tile_index as int, lst_rad),
        response.divisor == config.feed_coordinates->0@[tile_index as int]@.len(),
{
    let beam = AnalyticBeam {
        dipole_height: lst_rad,
        beam_type: AnalyticType::Ska,
        bowties_per_row: 0,
        ska_config: Some(config),
    };
    lemma_ska_answers(beam, response, lst_rad, Some(tile_index));
}

/// A beam is ready where it is that of MWA tiles or its stations are described. The response in a
/// direction can be calculated where it is refused, or else the gains match the delays and the beam
/// is ready.
pub proof fn law_beams_tell_what_they_can_calculate(
    beam: AnalyticBeam,
    za: Double,
    zas: &[Double],
    num_delays: usize,
    num_amps: usize,
    num_directions: usize,
    tile_index: Option<usize>,
    ready: bool,
    one: bool,
    many: bool,
)
    requires
        is_sound(beam),
        call_ensures(AnalyticBeam::is_ready, (&beam, tile_index), ready),
        call_ensures(
            AnalyticBeam::is_pair_calculable,
            (&beam, za, num_delays, num_amps, tile_index),
            one,
        ),
        call_ensures(
            AnalyticBeam::is_array_calculable,
            (&beam, zas, num_delays, num_amps, num_directions, tile_index),
            many,
        ),
    ensures
        ready <==> beam.beam_type is MwaPb || beam.beam_type is Rts || (beam.ska_config is Some
            && describes(beam.ska_config->0, tile_index, beam.beam_type is SkaMean)),
        ({
            let matching = num_amps == num_delays || num_amps == 2 * num_delays;
            &&& one <==> !refused_for_one(beam, za, num_delays as nat, num_amps as nat, None) || (
            matching && ready)
            &&& many <==> !refused_for_many(
                beam,
                zas@,
                num_delays as nat,
                num_amps as nat,
                None,
            ) || (matching && (num_directions == 0 || ready))
        }),
{
    lemma_describes(beam.ska_config->0, tile_index, beam.beam_type is SkaMean);
    lemma_refused_for_lengths(beam, num_delays as nat, num_amps as nat);
    lemma_refused_for_many(beam, zas@, num_delays as nat, num_amps as nat);
    let refusal = beam.array_refusal(zas@, num_delays as nat, num_amps as nat);
    law_first_direction_below_horizon_is_reported(zas@);
    if refusal is Some && refused_for_many(beam, zas@, num_delays as nat, num_amps as nat, None) {
        assert(forall|i: int| 0 <= i < zas@.len() ==> !sinks(#[trigger] zas@[i]));
        match first_below_horizon(zas@) {
            Some(z) => {
                let i = choose|i: int|
                    0 <= i < zas@.len() && #[trigger] zas@[i] == z && below_horizon(z);
                assert(sinks(zas@[i]));
            },
            None => {},
        }
    }
}

/// Whatever is found below the horizon is the first that is, and nothing is found only where there
/// is nothing. Directions are split into their own azimuths and zenith angles.
pub proof fn law_directions_are_searched_and_split(
    zas: &[Double],
    found: Option<Double>,
    directions: &[Direction],
    split: (Vec<Double>, Vec<Double>),
)
    requires
        call_ensures(find_below_horizon, (zas,), found),
        call_ensures(split_directions, (directions,), split),
    ensures
        found matches Some(za) ==> exists|i: int|
            0 <= i < zas@.len() && #[trigger] zas@[i] == za && sinks(za) && forall|j: int|
                0 <= j < i ==> !sinks(#[trigger] zas@[j]),
        found is None ==> forall|i: int| 0 <= i < zas@.len() ==> !sinks(#[trigger] zas@[i]),
        split.0@.len() == directions@.len(),
        split.1@.len() == directions@.len(),
        forall|i: int|
            0 <= i < directions@.len() ==> split.0@[i] == (#[trigger] directions@[i]).az
                && split.1@[i] == directions@[i].za,
{
    law_first_direction_below_horizon_is_reported(zas@);
    match found {
        Some(za) => {
            let i = choose|i: int|
                0 <= i < zas@.len() && #[trigger] zas@[i] == za && below_horizon(za)
                    && (forall|j: int|
                    0 <= j < i ==> !below_horizon(#[trigger] zas@[j]));
            assert forall|j: int| 0 <= j < i implies !sinks(#[trigger] zas@[j]) by {
                assert(!below_horizon(zas@[j]));
            }
            assert(sinks(zas@[i]));
        },
        None => {
            assert forall|i: int| 0 <= i < zas@.len() implies !sinks(#[trigger] zas@[i]) by {
                assert(!below_horizon(zas@[i]));
            }
        },
    }
}

/// Whatever the response with delays and gains in the order of counting is, bowtie `k` of it has
/// the `k`-th of them, and the response is normalised as asked. mwa_pb counts along rows that run
/// east, and the RTS along columns that run north.
pub proof fn law_ordered_bowties_respond(
    beam: AnalyticBeam,
    delays: &TileDelays,
    amps: &[Double],
    latitude_rad: Double,
    norm_to_zenith: bool,
    tile_index: Option<usize>,
    response: Response,
    row: int,
    col: int,
)
    requires
        is_sound(beam),
        beam.beam_type.is_mwa(),
        delays.steps@.len() == beam.bowties_per_row * beam.bowties_per_row,
        amps@.len() == delays.steps@.len(),
        call_ensures(
            AnalyticBeam::calc_jones_inner,
            (&beam, delays, amps, latitude_rad, norm_to_zenith, tile_index),
            response,
        ),
        0 <= row < beam.bowties_per_row,
        0 <= col < beam.bowties_per_row,
    ensures
        response is Mwa,
        ({
            let mwa = response->Mwa_0;
            let b = beam.bowties_per_row as int;
            let k = row * b + col;
            let term = mwa.dipoles@[k];
            &&& mwa.norm_to_zenith == norm_to_zenith
            &&& mwa.dipole_height == beam.dipole_height
            &&& mwa.num_bowties == b * b
            &&& mwa.dipoles@.len() == b * b
            &&& mwa.mean_of == delays.mean_of
            &&& mwa.falling_phase <==> beam.beam_type is Rts
            &&& mwa.real_only <==> beam.beam_type is Rts
            &&& beam.beam_type is MwaPb ==> mwa.pattern == ElementPattern::MwaPb
            &&& beam.beam_type is Rts ==> mwa.pattern == ElementPattern::Rts { latitude_rad }
            &&& term.delay == delays.steps@[k]
            &&& term.amp == amps@[k]
            &&& beam.beam_type is MwaPb ==> term.east == 2 * col - 3 && term.north == 2 * row - 3
            &&& beam.beam_type is Rts ==> term.east == 2 * row - 3 && term.north == 2 * col - 3
        }),
{
    let side = beam.bowties_per_row as nat;
    let b = side as int;
    let k = row * b + col;
    lemma_rts_source(side, row, col);
    lemma_fundamental_div_mod_converse(k, b, row, col);
    assert(k / b == row && k % b == col);
    let mwa = response->Mwa_0;
    assert(mwa@ == beam.tile_response(delays@, amps@, latitude_rad, norm_to_zenith));
    assert(mwa@.dipoles == mwa.dipoles@);
    assert(delays@.steps == delays.steps@);
    assert(mwa@.mean_of == delays@.mean_of);
}

/// Whether a response is normalised to the zenith is what was asked for, of every beam of MWA tiles
/// and in every direction; and nothing else of it changes with that.
pub proof fn law_normalisation_is_as_asked(
    beam: AnalyticBeam,
    azel: Direction,
    freq_hz: u32,
    delays: &[u32],
    amps: &[Double],
    latitude_rad: Double,
    tile_index: Option<usize>,
    normalised: Result<JonesTask, AnalyticBeamError>,
    plain: Result<JonesTask, AnalyticBeamError>,
)
    requires
        is_sound(beam),
        beam.beam_type is MwaPb || beam.beam_type is Rts,
        call_ensures(
            AnalyticBeam::calc_jones,
            (&beam, azel, freq_hz, delays, amps, latitude_rad, true, tile_index),
            normalised,
        ),
        call_ensures(
            AnalyticBeam::calc_jones,
            (&beam, azel, freq_hz, delays, amps, latitude_rad, false, tile_index),
            plain,
        ),
    ensures
        normalised is Ok <==> plain is Ok,
        normalised is Ok ==> ({
            let with = normalised->Ok_0.response->0->Mwa_0;
            let without = plain->Ok_0.response->0->Mwa_0;
            &&& with.norm_to_zenith
            &&& !without.norm_to_zenith
            &&& with.pattern == without.pattern
            &&& with.dipole_height == without.dipole_height
            &&& with.num_bowties == without.num_bowties
            &&& with.dipoles@ == without.dipoles@
            &&& with.mean_of == without.mean_of
            &&& with.falling_phase == without.falling_phase
            &&& with.real_only == without.real_only
        }),
{
    law_a_direction_is_answered(
        beam,
        azel,
        freq_hz,
        delays,
        amps,
        latitude_rad,
        true,
        tile_index,
        normalised,
    );
    law_a_direction_is_answered(
        beam,
        azel,
        freq_hz,
        delays,
        amps,
        latitude_rad,
        false,
        tile_index,
        plain,
    );
    if normalised is Ok {
        let with = normalised->Ok_0.response->0->Mwa_0;
        let without = plain->Ok_0.response->0->Mwa_0;
        assert(with@.dipoles =~= without@.dipoles);
    }
}

/// The ground plane's factor is divided by the number of terms of the array factor, which is the
/// number of bowties of the tile: the side times the side.
pub proof fn law_every_bowtie_is_counted_once(
    beam: AnalyticBeam,
    azel: Direction,
    freq_hz: u32,
    delays: &[u32],
    amps: &[Double],
    latitude_rad: Double,
    norm_to_zenith: bool,
    tile_index: Option<usize>,
    r: Result<JonesTask, AnalyticBeamError>,
)
    requires
        is_sound(beam),
        beam.beam_type is MwaPb || beam.beam_type is Rts,
        call_ensures(
            AnalyticBeam::calc_jones,
            (&beam, azel, freq_hz, delays, amps, latitude_rad, norm_to_zenith, tile_index),
            r,
        ),
        r is Ok,
    ensures
        ({
            let mwa = r->Ok_0.response->0->Mwa_0;
            &&& r->Ok_0.response is Some && r->Ok_0.response->0 is Mwa
            &&& mwa.num_bowties == mwa.dipoles@.len()
            &&& mwa.num_bowties == beam.bowties_per_row * beam.bowties_per_row
            &&& mwa.num_bowties == delays@.len()
        }),
{
    law_a_direction_is_answered(
        beam,
        azel,
        freq_hz,
        delays,
        amps,
        latitude_rad,
        norm_to_zenith,
        tile_index,
        r,
    );
}

/// Every tile can be asked for: of a beam of MWA tiles, any direction, delays and gains are taken,
/// to be refused or answered, one direction at a time or many.
pub proof fn law_every_tile_can_be_asked_for(
    beam: AnalyticBeam,
    azel: Direction,
    azels: &[Direction],
    az_rad: &[Double],
    za_rad: &[Double],
    freq_hz: u32,
    delays: &[u32],
    amps: &[Double],
    latitude_rad: Double,
    norm_to_zenith: bool,
    num_results: usize,
    tile_index: Option<usize>,
)
    requires
        beam.beam_type is MwaPb || beam.beam_type is Rts,
        0 < beam.bowties_per_row < 16,
    ensures
        call_requires(
            AnalyticBeam::calc_jones,
            (&beam, azel, freq_hz, delays, amps, latitude_rad, norm_to_zenith, tile_index),
        ),
        call_requires(
            AnalyticBeam::calc_jones_pair,
            (
                &beam,
                azel.az,
                azel.za,
                freq_hz,
                delays,
                amps,
                latitude_rad,
                norm_to_zenith,
                tile_index,
            ),
        ),
        call_requires(
            AnalyticBeam::calc_jones_array,
            (&beam, azels, freq_hz, delays, amps, latitude_rad, norm_to_zenith, tile_index),
        ),
        call_requires(
            AnalyticBeam::calc_jones_array_inner,
            (
                &beam,
                azels,
                freq_hz,
                delays,
                amps,
                latitude_rad,
                norm_to_zenith,
                num_results,
                tile_index,
            ),
        ),
        call_requires(
            AnalyticBeam::calc_jones_array_pair,
            (
                &beam,
                az_rad,
                za_rad,
                freq_hz,
                delays,
                amps,
                latitude_rad,
                norm_to_zenith,
                tile_index,
            ),
        ),
        call_requires(
            AnalyticBeam::calc_jones_array_pair_inner,
            (
                &beam,
                az_rad,
                za_rad,
                freq_hz,
                delays,
                amps,
                latitude_rad,
                norm_to_zenith,
                num_results,
                tile_index,
            ),
        ),
{
}

/// Every station that is described can be asked for, with one gain or two for each delay that is
/// given.
pub proof fn law_every_station_can_be_asked_for(
    beam: AnalyticBeam,
    azel: Direction,
    azels: &[Direction],
    freq_hz: u32,
    delays: &[u32],
    amps: &[Double],
    latitude_rad: Double,
    norm_to_zenith: bool,
    tile_index: Option<usize>,
)
    requires
        beam.beam_type is Ska || beam.beam_type is SkaMean,
        beam.bowties_per_row < 16,
        beam.ska_config is Some,
        describes(beam.ska_config->0, tile_index, beam.beam_type is SkaMean),
        amps@.len() == delays@.len() || amps@.len() == 2 * delays@.len(),
    ensures
        call_requires(
            AnalyticBeam::calc_jones,
            (&beam, azel, freq_hz, delays, amps, latitude_rad, norm_to_zenith, tile_index),
        ),
        call_requires(
            AnalyticBeam::calc_jones_array,
            (&beam, azels, freq_hz, delays, amps, latitude_rad, norm_to_zenith, tile_index),
        ),
{
    lemma_describes(beam.ska_config->0, tile_index, beam.beam_type is SkaMean);
}

/// A beam can be made with any height, and rows of 1 to 15 bowties; gains can be fixed where there
/// are one or two for each delay, and a square tile can be turned.
pub proof fn law_tiles_of_all_sizes_are_taken(
    beam_type: AnalyticType,
    dipole_height_metres: Double,
    bowties_per_row: u8,
    amps: &[Double],
    delays: &[u32],
    side: nat,
)
    ensures
        0 < bowties_per_row < 16 ==> call_requires(
            AnalyticBeam::new_custom,
            (beam_type, dipole_height_metres, bowties_per_row),
        ),
        amps@.len() == delays@.len() || amps@.len() == 2 * delays@.len() ==> call_requires(
            fix_amps,
            (amps, delays),
        ),
        delays@.len() == side * side && amps@.len() == side * side ==> call_requires(
            reorder_to_rts,
            (amps, delays),
        ),
{
    lemma_side(side);
}

} // verus!
