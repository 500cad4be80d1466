//! What holds of the beam as a whole.

use vstd::arithmetic::power2::{lemma2_to64, lemma2_to64_rest, lemma_pow2_adds, pow2};
use vstd::prelude::*;

use crate::amps::amps_fit;
use crate::beam::{
    below_horizon, first_below_horizon, zenith_angles, AnalyticBeam, AnalyticType,
};
use crate::double::{Double, BINADE, FRAC_PI_2};
use crate::response::{Direction, TaskModel};
use crate::rts::{
    law_rts_counts_every_bowtie_once, lemma_rts_position, lemma_rts_source, lemma_side, rts_source,
    square,
};
use crate::stations::FLATNESS;

verus! {

/// The zenith angle that is reported is that of the first direction below the horizon, and none is
/// reported only where every direction is above it.
pub proof fn law_first_direction_below_horizon_is_reported(zas: Seq<Double>)
    ensures
        match first_below_horizon(zas) {
            Some(za) => exists|i: int|
                0 <= i < zas.len() && #[trigger] zas[i] == za && below_horizon(za) && (forall|j: int|
                    0 <= j < i ==> !below_horizon(#[trigger] zas[j])),
            None => forall|i: int| 0 <= i < zas.len() ==> !below_horizon(#[trigger] zas[i]),
        },
    decreases zas.len(),
{
    if zas.len() > 0 {
        let rest = zas.drop_last();
        law_first_direction_below_horizon_is_reported(rest);
        match first_below_horizon(rest) {
            Some(za) => {
                let i = choose|i: int|
                    0 <= i < rest.len() && #[trigger] rest[i] == za && below_horizon(za) && (forall|j: int|
                        0 <= j < i ==> !below_horizon(#[trigger] rest[j]));
                assert(zas[i] == rest[i]);
                assert forall|j: int| 0 <= j < i implies !below_horizon(#[trigger] zas[j]) by {
                    assert(zas[j] == rest[j]);
                }
            },
            None => {
                assert forall|j: int| 0 <= j < rest.len() implies !below_horizon(
                    #[trigger] zas[j],
                ) by {
                    assert(zas[j] == rest[j]);
                }
                let last = zas.len() - 1;
                assert(zas[last] == zas.last());
            },
        }
    }
}

/// Asking for many directions at once is asking for each of them: where they are not refused, none
/// of them is refused alone, and each has the response that it has alone. (The mean of the SKA
/// stations is the one beam that takes any number of delays and gains for many directions, but not
/// for one.)
pub proof fn law_many_directions_are_each_of_them(
    beam: AnalyticBeam,
    directions: Seq<Direction>,
    i: int,
    freq_hz: u32,
    delays: Seq<u32>,
    amps: Seq<Double>,
    latitude_rad: Double,
    norm_to_zenith: bool,
    tile_index: Option<usize>,
)
    requires
        beam.beam_type is SkaMean ==> beam.length_refusal(delays.len(), amps.len()) is None,
        0 <= i < directions.len(),
        beam.array_refusal(zenith_angles(directions), delays.len(), amps.len()) is None,
    ensures
        beam.pair_refusal(directions[i].za, delays.len(), amps.len()) is None,
        ({
            let many = beam.task(
                directions,
                freq_hz,
                delays,
                amps,
                latitude_rad,
                norm_to_zenith,
                tile_index,
            );
            let one = beam.task(
                seq![directions[i]],
                freq_hz,
                delays,
                amps,
                latitude_rad,
                norm_to_zenith,
                tile_index,
            );
            &&& one == (TaskModel { directions: seq![many.directions[i]], ..many })
            &&& one.response is Some
        }),
{
    let zas = zenith_angles(directions);
    law_first_direction_below_horizon_is_reported(zas);
    assert(!below_horizon(zas[i]));
}

/// Many directions are refused only where one of them is refused alone, for the same reason.
pub proof fn law_many_directions_are_refused_for_one(
    beam: AnalyticBeam,
    directions: Seq<Direction>,
    num_delays: nat,
    num_amps: nat,
)
    requires
        directions.len() > 0,
        beam.array_refusal(zenith_angles(directions), num_delays, num_amps) is Some,
    ensures
        exists|i: int|
            0 <= i < directions.len() && beam.pair_refusal(
                (#[trigger] directions[i]).za,
                num_delays,
                num_amps,
            ) == beam.array_refusal(zenith_angles(directions), num_delays, num_amps),
{
    let zas = zenith_angles(directions);
    law_first_direction_below_horizon_is_reported(zas);
    match first_below_horizon(zas) {
        Some(za) => {
            let i = choose|i: int|
                0 <= i < zas.len() && #[trigger] zas[i] == za && below_horizon(za) && (forall|j: int|
                    0 <= j < i ==> !below_horizon(#[trigger] zas[j]));
            assert(directions[i].za == za);
        },
        None => {
            assert(!below_horizon(zas[0]));
            assert(directions[0].za == zas[0]);
        },
    }
}

/// The SKA beams take neither delays nor gains, nor are they normalised to the zenith.
pub proof fn law_ska_responses_take_no_delays_or_gains(
    beam: AnalyticBeam,
    directions: Seq<Direction>,
    freq_hz: u32,
    delays: Seq<u32>,
    amps: Seq<Double>,
    other_delays: Seq<u32>,
    other_amps: Seq<Double>,
    latitude_rad: Double,
    norm_to_zenith: bool,
    other_norm_to_zenith: bool,
    tile_index: Option<usize>,
)
    requires
        !beam.beam_type.is_mwa(),
    ensures
        beam.task(directions, freq_hz, delays, amps, latitude_rad, norm_to_zenith, tile_index)
            == beam.task(
            directions,
            freq_hz,
            other_delays,
            other_amps,
            latitude_rad,
            other_norm_to_zenith,
            tile_index,
        ),
{
}

/// The beams of MWA tiles take no tile index: with any other one, or with none, the response is the
/// same, and it can be calculated just as well.
pub proof fn law_mwa_responses_take_no_tile_index(
    beam: AnalyticBeam,
    directions: Seq<Direction>,
    freq_hz: u32,
    delays: Seq<u32>,
    amps: Seq<Double>,
    latitude_rad: Double,
    norm_to_zenith: bool,
    tile_index: Option<usize>,
    other_tile_index: Option<usize>,
)
    requires
        beam.beam_type.is_mwa(),
    ensures
        beam.ready(tile_index),
        beam.ready(other_tile_index),
        beam.task(directions, freq_hz, delays, amps, latitude_rad, norm_to_zenith, tile_index)
            == beam.task(
            directions,
            freq_hz,
            delays,
            amps,
            latitude_rad,
            norm_to_zenith,
            other_tile_index,
        ),
{
}

/// The beam of mwa_pb takes no latitude either: at any other one the response is the same.
pub proof fn law_mwa_pb_responses_take_no_latitude(
    beam: AnalyticBeam,
    directions: Seq<Direction>,
    freq_hz: u32,
    delays: Seq<u32>,
    amps: Seq<Double>,
    latitude_rad: Double,
    other_latitude_rad: Double,
    norm_to_zenith: bool,
    tile_index: Option<usize>,
    other_tile_index: Option<usize>,
)
    requires
        beam.beam_type is MwaPb,
    ensures
        beam.task(directions, freq_hz, delays, amps, latitude_rad, norm_to_zenith, tile_index)
            == beam.task(
            directions,
            freq_hz,
            delays,
            amps,
            other_latitude_rad,
            norm_to_zenith,
            other_tile_index,
        ),
{
}

/// The number of bowties of a tile fits in a byte.
pub proof fn law_bowties_fit_in_a_byte(beam: AnalyticBeam)
    requires
        beam.wf(),
    ensures
        beam.num_bowties() <= u8::MAX,
{
    let side = beam.bowties_per_row as int;
    assert(side * side <= 225) by (nonlinear_arith)
        requires
            0 <= side < 16,
    ;
}

/// No two bowties of a tile stand at the same place.
pub proof fn law_bowties_stand_apart(
    beam: AnalyticBeam,
    delays: Seq<u32>,
    amps: Seq<Double>,
    latitude_rad: Double,
    norm_to_zenith: bool,
    i: int,
    k: int,
)
    requires
        beam.wf(),
        beam.beam_type.is_mwa(),
        delays.len() == beam.num_bowties(),
        amps_fit(amps.len(), delays.len()),
        0 <= i < delays.len(),
        0 <= k < delays.len(),
        i != k,
    ensures
        ({
            let dipoles = beam.tile_response(
                beam.ordered_delays(delays),
                beam.ordered_amps(delays, amps),
                latitude_rad,
                norm_to_zenith,
            ).dipoles;
            &&& dipoles.len() == beam.num_bowties()
            &&& dipoles[i].east != dipoles[k].east || dipoles[i].north != dipoles[k].north
        }),
{
    let side = beam.bowties_per_row as nat;
    lemma_side(side);
    lemma_rts_position(side, i);
    lemma_rts_position(side, k);
}

/// Two beams that differ in their type alone, one of mwa_pb and one of the RTS, see the same tile:
/// what the RTS counts as bowtie `k` has the delay, the gain and the distance east that mwa_pb
/// gives it. Its distance north is mirrored, about the centre of the tile where a row has four
/// bowties.
pub proof fn law_both_mwa_beams_see_the_same_tile(
    mwa_pb: AnalyticBeam,
    rts: AnalyticBeam,
    delays: Seq<u32>,
    amps: Seq<Double>,
    latitude_rad: Double,
    norm_to_zenith: bool,
    k: int,
)
    requires
        mwa_pb.wf(),
        rts.wf(),
        mwa_pb.beam_type is MwaPb,
        rts.beam_type is Rts,
        mwa_pb.bowties_per_row == rts.bowties_per_row,
        delays.len() == mwa_pb.num_bowties(),
        amps_fit(amps.len(), delays.len()),
        0 <= k < delays.len(),
    ensures
        ({
            let side = mwa_pb.bowties_per_row as nat;
            let here = rts.tile_response(
                rts.ordered_delays(delays),
                rts.ordered_amps(delays, amps),
                latitude_rad,
                norm_to_zenith,
            ).dipoles[k];
            let there = mwa_pb.tile_response(
                mwa_pb.ordered_delays(delays),
                mwa_pb.ordered_amps(delays, amps),
                latitude_rad,
                norm_to_zenith,
            ).dipoles[rts_source(side, k)];
            &&& 0 <= rts_source(side, k) < delays.len()
            &&& here.delay == there.delay
            &&& here.amp == there.amp
            &&& here.east == there.east
            &&& here.north + there.north == 2 * (side - 4)
        }),
{
    let side = mwa_pb.bowties_per_row as nat;
    let b = side as int;
    lemma_side(side);
    law_rts_counts_every_bowtie_once(side, k);
    lemma_rts_position(side, k);
    let col = k / b;
    let turn = k % b;
    lemma_rts_source(side, col, turn);
    let i = rts_source(side, k);
    vstd::arithmetic::div_mod::lemma_fundamental_div_mod_converse(i, b, b - 1 - turn, col);
    assert(i / b == b - 1 - turn && i % b == col);
}

/// Is no number nearer to the fraction `num / den` than `d`? (Both are taken `den` times, in units
/// of the smallest positive number. `d` is no power of two, so that the numbers next to it are a
/// `spacing` away on either side.)
pub open spec fn is_nearest(d: Double, num: nat, den: nat) -> bool {
    let exponent = d.magnitude() / (BINADE as nat);
    let spacing = pow2((exponent - 1) as nat);
    let apart = d.value() * den - num * pow2(1074);
    &&& !d.is_nan()
    &&& exponent > 0
    &&& d.magnitude() % (BINADE as nat) > 0
    &&& -(den * spacing) <= 2 * apart <= den * spacing
}

/// The default dipole heights are the numbers nearest to 0.278 and 0.3 metres.
pub proof fn law_default_heights_are_nearest()
    ensures
        is_nearest((AnalyticType::MwaPb).default_dipole_height(), 278, 1000),
        is_nearest((AnalyticType::Rts).default_dipole_height(), 3, 10),
        (AnalyticType::Ska).default_dipole_height().value() == 0,
        (AnalyticType::SkaMean).default_dipole_height().value() == 0,
{
    lemma_pow2_adds(1020, 54);
    lemma2_to64_rest();
    let p = pow2(1020) as int;
    let mwa_pb = (AnalyticType::MwaPb).default_dipole_height();
    let rts = (AnalyticType::Rts).default_dipole_height();
    assert(mwa_pb.value() == 0x11_cac0_8312_6e98 * p);
    assert(rts.value() == 0x13_3333_3333_3333 * p);
    assert(pow2(1074) == p * 0x40_0000_0000_0000);
    assert((0x11_cac0_8312_6e98 * p) * 1000 - 278 * (p * 0x40_0000_0000_0000) == (
    0x11_cac0_8312_6e98 * 1000 - 278 * 0x40_0000_0000_0000) * p) by (nonlinear_arith);
    assert((0x13_3333_3333_3333 * p) * 10 - 3 * (p * 0x40_0000_0000_0000) == (0x13_3333_3333_3333
        * 10 - 3 * 0x40_0000_0000_0000) * p) by (nonlinear_arith);
}

/// An element may be off the ground by less than the number nearest to 1e-10 metres.
pub proof fn law_flatness_is_nearest()
    ensures
        is_nearest(Double { bits: FLATNESS }, 1, 10_000_000_000),
{
    lemma_pow2_adds(988, 86);
    lemma_pow2_adds(64, 22);
    lemma2_to64();
    lemma2_to64_rest();
    let p = pow2(988) as int;
    let limit = Double { bits: FLATNESS };
    assert(limit.value() == 0x1b_7cdf_d9d7_bdbb * p);
    assert(pow2(1074) == p * 0x40_0000_0000_0000_0000_0000);
    assert((0x1b_7cdf_d9d7_bdbb * p) * 10_000_000_000 - p * 0x40_0000_0000_0000_0000_0000 == (
    0x1b_7cdf_d9d7_bdbb * 10_000_000_000 - 0x40_0000_0000_0000_0000_0000) * p) by (nonlinear_arith);
}

/// The zenith angle of the horizon is the number nearest to half of pi (here by its first digits).
pub proof fn law_horizon_is_nearest_to_half_of_pi()
    ensures
        is_nearest(
            Double { bits: FRAC_PI_2 },
            157_079_632_679_489_661_923_132_169_163_975,
            100_000_000_000_000_000_000_000_000_000_000,
        ),
{
    lemma_pow2_adds(1022, 52);
    lemma2_to64();
    lemma2_to64_rest();
    let p = pow2(1022) as int;
    let horizon = Double { bits: FRAC_PI_2 };
    let num: int = 157_079_632_679_489_661_923_132_169_163_975;
    let den: int = 100_000_000_000_000_000_000_000_000_000_000;
    assert(horizon.value() == 0x19_21fb_5444_2d18 * p);
    assert(pow2(1074) == p * 0x10_0000_0000_0000);
    assert((0x19_21fb_5444_2d18 * p) * den - num * (p * 0x10_0000_0000_0000) == (
    0x19_21fb_5444_2d18 * den - num * 0x10_0000_0000_0000) * p) by (nonlinear_arith);
}

} // verus!
