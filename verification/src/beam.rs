//! The analytic beam: what it is made of, what it refuses and what it asks to be computed.

use vstd::prelude::*;

use crate::amps::{amps_fit, fix_amps, fixed_amps, one_or_two_each};
use crate::double::{Double, FRAC_PI_2};
use crate::error::AnalyticBeamError;
use crate::response::{
    Dipole, Direction, ElementPattern, JonesTask, MwaModel, MwaResponse, Response, ResponseModel,
    TaskModel,
};
use crate::rts::{
    delays_as_given, given_delays, is_square, lemma_side, reorder_to_rts, rts_delays, rts_order,
    side_of, square, DelayModel, TileDelays,
};
use crate::stations::SkaConfig;

verus! {

/// The pattern of the binary64 number nearest to 0.278: the height of MWA dipoles, in metres.
pub const MWA_DPL_HGT: u64 = 0x3fd1_cac0_8312_6e98;

/// The pattern of the binary64 number nearest to 0.3: the height of MWA dipoles that the RTS
/// takes, in metres.
pub const MWA_DPL_HGT_RTS: u64 = 0x3fd3_3333_3333_3333;

/// Which analytic beam is emulated?
#[derive(Clone, Copy, Debug, PartialEq, Eq, Structural)]
pub enum AnalyticType {
    /// The beam of mwa_pb.
    MwaPb,
    /// The beam of the RTS.
    Rts,
    /// The array factor beam of an SKA-Low station.
    Ska,
    /// The mean of the array factor beams of all SKA-Low stations.
    SkaMean,
}

impl AnalyticType {
    /// Is this a beam of MWA tiles?
    pub open spec fn is_mwa(self) -> bool {
        self is MwaPb || self is Rts
    }

    /// The default dipole height of a beam type, in metres. The SKA's array factor needs none.
    pub open spec fn default_dipole_height(self) -> Double {
        match self {
            AnalyticType::MwaPb => Double { bits: MWA_DPL_HGT },
            AnalyticType::Rts => Double { bits: MWA_DPL_HGT_RTS },
            AnalyticType::Ska | AnalyticType::SkaMean => Double { bits: 0 },
        }
    }

    /// The default dipole height of a beam type, in metres.
    pub fn get_default_dipole_height(self) -> (height: Double)
        ensures
            height == self.default_dipole_height(),
    {
        match self {
            AnalyticType::MwaPb => Double { bits: MWA_DPL_HGT },
            AnalyticType::Rts => Double { bits: MWA_DPL_HGT_RTS },
            AnalyticType::Ska => Double { bits: 0 },
            AnalyticType::SkaMean => Double { bits: 0 },
        }
    }
}

/// An analytic beam.
pub struct AnalyticBeam {
    /// The height of the MWA dipoles, in metres.
    pub dipole_height: Double,
    /// Which analytic beam is emulated.
    pub beam_type: AnalyticType,
    /// The number of bowties in a row of an MWA tile: 4, or 8 for the CRAM.
    pub bowties_per_row: u8,
    /// What the SKA beams need to know.
    pub ska_config: Option<SkaConfig>,
}

/// The zenith angle of the first direction below the horizon, if there is one.
pub open spec fn first_below_horizon(zas: Seq<Double>) -> Option<Double>
    decreases zas.len(),
{
    if zas.len() == 0 {
        None
    } else {
        match first_below_horizon(zas.drop_last()) {
            Some(za) => Some(za),
            None => if below_horizon(zas.last()) {
                Some(zas.last())
            } else {
                None
            },
        }
    }
}

/// Is a zenith angle below the horizon?
pub open spec fn below_horizon(za: Double) -> bool {
    za.exceeds(Double { bits: FRAC_PI_2 })
}

/// The term of bowtie `k` of a tile with `side` bowties per row.
pub open spec fn dipole_at(
    pattern: ElementPattern,
    side: nat,
    k: int,
    delay: u32,
    amp: Double,
) -> Dipole {
    let across = 2 * (k % (side as int)) - 3;
    let along = 2 * (k / (side as int)) - 3;
    match pattern {
        ElementPattern::MwaPb => Dipole { east: across as i32, north: along as i32, delay, amp },
        ElementPattern::Rts { .. } => Dipole { east: along as i32, north: across as i32, delay, amp },
    }
}

/// The azimuths of `directions`.
pub open spec fn azimuths(directions: Seq<Direction>) -> Seq<Double> {
    directions.map_values(|d: Direction| d.az)
}

/// The zenith angles of `directions`.
pub open spec fn zenith_angles(directions: Seq<Direction>) -> Seq<Double> {
    directions.map_values(|d: Direction| d.za)
}

/// Directions by their azimuths and zenith angles, as many as there are of both.
pub open spec fn paired(azs: Seq<Double>, zas: Seq<Double>) -> Seq<Direction> {
    Seq::new(
        if azs.len() <= zas.len() {
            azs.len()
        } else {
            zas.len()
        },
        |i: int| Direction { az: azs[i], za: zas[i] },
    )
}

/// The first of `directions`, at most `limit` of them.
pub open spec fn at_most(directions: Seq<Direction>, limit: nat) -> Seq<Direction> {
    if directions.len() <= limit {
        directions
    } else {
        directions.take(limit as int)
    }
}

impl AnalyticBeam {
    /// Fewer than 16 bowties make a row, so that the number of bowties fits in a byte; a row of
    /// an MWA tile has at least one.
    pub open spec fn wf(&self) -> bool {
        &&& self.bowties_per_row < 16
        &&& self.beam_type.is_mwa() ==> self.bowties_per_row > 0
    }

    /// The number of bowties of a tile.
    pub open spec fn num_bowties(&self) -> nat {
        square(self.bowties_per_row as nat)
    }

    /// Why these numbers of delays and gains are refused, if they are.
    pub open spec fn length_refusal(
        &self,
        num_delays: nat,
        num_amps: nat,
    ) -> Option<AnalyticBeamError> {
        let n = self.num_bowties();
        if num_delays != n {
            Some(
                AnalyticBeamError::IncorrectDelaysLength {
                    got: num_delays as usize,
                    expected: n as usize,
                },
            )
        } else if !amps_fit(num_amps, n) {
            Some(
                AnalyticBeamError::IncorrectAmpsLength {
                    got: num_amps as usize,
                    expected1: n as usize,
                    expected2: (n * 2) as usize,
                },
            )
        } else {
            None
        }
    }

    /// Why a single direction is refused, if it is. The SKA beam of a station takes any delays
    /// and gains.
    pub open spec fn pair_refusal(
        &self,
        za: Double,
        num_delays: nat,
        num_amps: nat,
    ) -> Option<AnalyticBeamError> {
        if below_horizon(za) {
            Some(AnalyticBeamError::BelowHorizon { za })
        } else if self.beam_type is Ska {
            None
        } else {
            self.length_refusal(num_delays, num_amps)
        }
    }

    /// Why many directions are refused, if they are. Both SKA beams take any delays and gains.
    pub open spec fn array_refusal(
        &self,
        zas: Seq<Double>,
        num_delays: nat,
        num_amps: nat,
    ) -> Option<AnalyticBeamError> {
        match first_below_horizon(zas) {
            Some(za) => Some(AnalyticBeamError::BelowHorizon { za }),
            None => if self.beam_type.is_mwa() {
                self.length_refusal(num_delays, num_amps)
            } else {
                None
            },
        }
    }

    /// Is everything there that a response takes?
    pub open spec fn ready(&self, tile_index: Option<usize>) -> bool {
        self.beam_type.is_mwa() || match self.ska_config {
            Some(config) => config.ready(tile_index, self.beam_type is SkaMean),
            None => false,
        }
    }

    /// Can the response in a direction be calculated, if it is not refused?
    pub open spec fn pair_calculable(
        &self,
        za: Double,
        num_delays: nat,
        num_amps: nat,
        tile_index: Option<usize>,
    ) -> bool {
        self.pair_refusal(za, num_delays, num_amps) is None ==> amps_fit(num_amps, num_delays)
            && self.ready(tile_index)
    }

    /// Can the responses in many directions, `num_directions` of them, be calculated, if they are
    /// not refused?
    pub open spec fn array_calculable(
        &self,
        zas: Seq<Double>,
        num_delays: nat,
        num_amps: nat,
        num_directions: nat,
        tile_index: Option<usize>,
    ) -> bool {
        self.array_refusal(zas, num_delays, num_amps) is None ==> amps_fit(num_amps, num_delays) && (
        num_directions > 0 ==> self.ready(tile_index))
    }

    /// Which element pattern the tiles take. That of mwa_pb takes no latitude.
    pub open spec fn pattern(&self, latitude_rad: Double) -> ElementPattern {
        if self.beam_type is Rts {
            ElementPattern::Rts { latitude_rad }
        } else {
            ElementPattern::MwaPb
        }
    }

    /// The gains of a tile's bowties in the order in which they are counted.
    pub open spec fn ordered_amps(&self, delays: Seq<u32>, amps: Seq<Double>) -> Seq<Double> {
        let fixed = fixed_amps(amps, delays);
        if self.beam_type is Rts {
            rts_order(fixed, side_of(delays.len()))
        } else {
            fixed
        }
    }

    /// The delays of a tile's bowties in the order in which they are counted.
    pub open spec fn ordered_delays(&self, delays: Seq<u32>) -> DelayModel {
        if self.beam_type is Rts {
            rts_delays(delays)
        } else {
            given_delays(delays)
        }
    }

    /// The response of an MWA tile with these delays and gains, counted in order.
    pub open spec fn tile_response(
        &self,
        delays: DelayModel,
        amps: Seq<Double>,
        latitude_rad: Double,
        norm_to_zenith: bool,
    ) -> MwaModel {
        MwaModel {
            pattern: self.pattern(latitude_rad),
            dipole_height: self.dipole_height,
            num_bowties: self.num_bowties(),
            dipoles: Seq::new(
                delays.steps.len(),
                |k: int|
                    dipole_at(
                        self.pattern(latitude_rad),
                        self.bowties_per_row as nat,
                        k,
                        delays.steps[k],
                        amps[k],
                    ),
            ),
            mean_of: delays.mean_of,
            falling_phase: self.beam_type is Rts,
            real_only: self.beam_type is Rts,
            norm_to_zenith,
        }
    }

    /// The response with these delays and gains, counted in order. The SKA beams take neither, and
    /// take the latitude for the local sidereal time; only they take the tile index.
    pub open spec fn inner_response(
        &self,
        delays: DelayModel,
        amps: Seq<Double>,
        latitude_rad: Double,
        norm_to_zenith: bool,
        tile_index: Option<usize>,
    ) -> ResponseModel {
        let config = self.ska_config->0;
        let index = tile_index->0 as int;
        match self.beam_type {
            AnalyticType::MwaPb | AnalyticType::Rts => ResponseModel::Mwa(
                self.tile_response(delays, amps, latitude_rad, norm_to_zenith),
            ),
            AnalyticType::Ska => ResponseModel::Ska(config.station_response(index, latitude_rad)),
            AnalyticType::SkaMean => ResponseModel::Ska(config.mean_response(index, latitude_rad)),
        }
    }

    /// What there is to compute for `directions`.
    pub open spec fn task(
        &self,
        directions: Seq<Direction>,
        freq_hz: u32,
        delays: Seq<u32>,
        amps: Seq<Double>,
        latitude_rad: Double,
        norm_to_zenith: bool,
        tile_index: Option<usize>,
    ) -> TaskModel {
        TaskModel {
            directions,
            freq_hz,
            response: if directions.len() == 0 {
                None
            } else {
                Some(
                    self.inner_response(
                        self.ordered_delays(delays),
                        self.ordered_amps(delays, amps),
                        latitude_rad,
                        norm_to_zenith,
                        tile_index,
                    ),
                )
            },
        }
    }

    /// The mwa_pb beam of a normal MWA tile.
    pub fn new() -> (beam: AnalyticBeam)
        ensures
            beam.wf(),
            beam.dipole_height == (AnalyticType::MwaPb).default_dipole_height(),
            beam.beam_type == AnalyticType::MwaPb,
            beam.bowties_per_row == 4,
            beam.ska_config is None,
    {
        AnalyticBeam::default()
    }

    /// The RTS beam of a normal MWA tile.
    pub fn new_rts() -> (beam: AnalyticBeam)
        ensures
            beam.wf(),
            beam.dipole_height == (AnalyticType::Rts).default_dipole_height(),
            beam.beam_type == AnalyticType::Rts,
            beam.bowties_per_row == 4,
            beam.ska_config is None,
    {
        let beam_type = AnalyticType::Rts;
        AnalyticBeam {
            dipole_height: beam_type.get_default_dipole_height(),
            beam_type,
            bowties_per_row: 4,
            ska_config: None,
        }
    }

    /// The array factor beam of the SKA stations that `ska_config` describes.
    pub fn new_ska(ska_config: SkaConfig) -> (beam: AnalyticBeam)
        ensures
            beam.wf(),
            beam.dipole_height == (AnalyticType::Ska).default_dipole_height(),
            beam.beam_type == AnalyticType::Ska,
            beam.bowties_per_row == 0,
            beam.ska_config == Some(ska_config),
    {
        let beam_type = AnalyticType::Ska;
        AnalyticBeam {
            dipole_height: beam_type.get_default_dipole_height(),
            beam_type,
            bowties_per_row: 0,
            ska_config: Some(ska_config),
        }
    }

    /// A beam with a dipole height and a number of bowties per row of one's own (4 for normal MWA
    /// tiles, 8 for the CRAM).
    pub fn new_custom(
        beam_type: AnalyticType,
        dipole_height_metres: Double,
        bowties_per_row: u8,
    ) -> (beam: AnalyticBeam)
        requires
            0 < bowties_per_row < 16,
        ensures
            beam.wf(),
            beam.dipole_height == dipole_height_metres,
            beam.beam_type == beam_type,
            beam.bowties_per_row == bowties_per_row,
            beam.ska_config is None,
    {
        AnalyticBeam {
            dipole_height: dipole_height_metres,
            beam_type,
            bowties_per_row,
            ska_config: None,
        }
    }

    /// The number of bowties of a tile.
    pub fn get_num_bowties(&self) -> (n: usize)
        requires
            self.wf(),
        ensures
            n == self.num_bowties(),
            n <= 225,
    {
        let side = self.bowties_per_row;
        assert(side * side <= 225) by (nonlinear_arith)
            requires
                side < 16,
        ;
        (side * side) as usize
    }

    /// Is everything there that a response takes?
    pub fn is_ready(&self, tile_index: Option<usize>) -> (r: bool)
        ensures
            r == self.ready(tile_index),
    {
        match self.beam_type {
            AnalyticType::MwaPb | AnalyticType::Rts => true,
            AnalyticType::Ska | AnalyticType::SkaMean => match &self.ska_config {
                Some(config) => config.is_ready(
                    tile_index,
                    matches!(self.beam_type, AnalyticType::SkaMean),
                ),
                None => false,
            },
        }
    }

    /// Can the response in a direction be calculated, if it is not refused?
    pub fn is_pair_calculable(
        &self,
        za: Double,
        num_delays: usize,
        num_amps: usize,
        tile_index: Option<usize>,
    ) -> (r: bool)
        requires
            self.wf(),
        ensures
            r == self.pair_calculable(za, num_delays as nat, num_amps as nat, tile_index),
    {
        let refused = za.gt(Double { bits: FRAC_PI_2 }) || (!matches!(self.beam_type, AnalyticType::Ska)
            && self.check_lengths(num_delays, num_amps).is_err());
        refused || (one_or_two_each(num_amps, num_delays) && self.is_ready(tile_index))
    }

    /// Can the responses in many directions, `num_directions` of them, be calculated, if they are
    /// not refused?
    pub fn is_array_calculable(
        &self,
        zas: &[Double],
        num_delays: usize,
        num_amps: usize,
        num_directions: usize,
        tile_index: Option<usize>,
    ) -> (r: bool)
        requires
            self.wf(),
        ensures
            r == self.array_calculable(
                zas@,
                num_delays as nat,
                num_amps as nat,
                num_directions as nat,
                tile_index,
            ),
    {
        self.check_array(zas, num_delays, num_amps).is_err() || (one_or_two_each(
            num_amps,
            num_delays,
        ) && (num_directions == 0 || self.is_ready(tile_index)))
    }

    /// Refuse delays and gains that do not match the number of bowties.
    fn check_lengths(
        &self,
        num_delays: usize,
        num_amps: usize,
    ) -> (r: Result<(), AnalyticBeamError>)
        requires
            self.wf(),
        ensures
            self.length_refusal(num_delays as nat, num_amps as nat) is None ==> r == Ok::<(), AnalyticBeamError>(()),
            self.length_refusal(num_delays as nat, num_amps as nat) matches Some(e) ==> r == Err::<(), AnalyticBeamError>(e),
    {
        let num_bowties = self.get_num_bowties();
        if num_delays != num_bowties {
            return Err(
                AnalyticBeamError::IncorrectDelaysLength { got: num_delays, expected: num_bowties },
            );
        }
        if num_amps != num_bowties && num_amps != num_bowties * 2 {
            return Err(
                AnalyticBeamError::IncorrectAmpsLength {
                    got: num_amps,
                    expected1: num_bowties,
                    expected2: num_bowties * 2,
                },
            );
        }
        Ok(())
    }

    /// The response with these delays and gains, counted in order.
    pub fn calc_jones_inner(
        &self,
        delays: &TileDelays,
        amps: &[Double],
        latitude_rad: Double,
        norm_to_zenith: bool,
        tile_index: Option<usize>,
    ) -> (response: Response)
        requires
            self.wf(),
            self.ready(tile_index),
            self.beam_type.is_mwa() ==> delays@.steps.len() == self.num_bowties() && amps@.len()
                == self.num_bowties(),
        ensures
            response@ == self.inner_response(
                delays@,
                amps@,
                latitude_rad,
                norm_to_zenith,
                tile_index,
            ),
    {
        match self.beam_type {
            AnalyticType::MwaPb | AnalyticType::Rts => {
                let rts = matches!(self.beam_type, AnalyticType::Rts);
                let pattern = if rts {
                    ElementPattern::Rts { latitude_rad }
                } else {
                    ElementPattern::MwaPb
                };
                let num_bowties = self.get_num_bowties();
                let dipoles = tile_dipoles(pattern, self.bowties_per_row, &delays.steps, amps);
                let mwa = MwaResponse {
                    pattern,
                    dipole_height: self.dipole_height,
                    num_bowties,
                    dipoles,
                    mean_of: delays.mean_of,
                    falling_phase: rts,
                    real_only: rts,
                    norm_to_zenith,
                };
                assert(mwa@.dipoles =~= self.tile_response(
                    delays@,
                    amps@,
                    latitude_rad,
                    norm_to_zenith,
                ).dipoles);
                Response::Mwa(mwa)
            },
            AnalyticType::Ska | AnalyticType::SkaMean => {
                let mean = matches!(self.beam_type, AnalyticType::SkaMean);
                let config = self.ska_config.as_ref().unwrap();
                Response::Ska(config.response(tile_index, mean, latitude_rad))
            },
        }
    }

    /// What there is to compute for directions that are not refused.
    fn accepted_task(
        &self,
        directions: Vec<Direction>,
        freq_hz: u32,
        delays: &[u32],
        amps: &[Double],
        latitude_rad: Double,
        norm_to_zenith: bool,
        tile_index: Option<usize>,
    ) -> (task: JonesTask)
        requires
            self.wf(),
            amps_fit(amps@.len(), delays@.len()),
            self.beam_type.is_mwa() ==> delays@.len() == self.num_bowties(),
            directions@.len() > 0 ==> self.ready(tile_index),
        ensures
            task@ == self.task(
                directions@,
                freq_hz,
                delays@,
                amps@,
                latitude_rad,
                norm_to_zenith,
                tile_index,
            ),
    {
        let response = if directions.len() == 0 {
            None
        } else {
            proof {
                lemma_side(self.bowties_per_row as nat);
            }
            let (amps, delays) = self.ordered_tile(amps, delays);
            Some(self.calc_jones_inner(&delays, &amps, latitude_rad, norm_to_zenith, tile_index))
        };
        JonesTask { directions, freq_hz, response }
    }

    /// The gains and delays of a tile's bowties in the order in which they are counted.
    pub fn ordered_tile(&self, amps: &[Double], delays: &[u32]) -> (r: (Vec<Double>, TileDelays))
        requires
            amps_fit(amps@.len(), delays@.len()),
            self.beam_type is Rts ==> is_square(delays@.len()),
        ensures
            r.0@ == self.ordered_amps(delays@, amps@),
            r.1@ == self.ordered_delays(delays@),
    {
        let fixed = fix_amps(amps, delays);
        match self.beam_type {
            AnalyticType::Rts => reorder_to_rts(&fixed, delays),
            _ => (fixed, delays_as_given(delays)),
        }
    }

    /// The response in one direction.
    ///
    /// `delays` and `amps` apply to the bowties of a tile in M&C order. There must be as many
    /// delays as bowties, and one gain or two for each; of two gains the smaller is used.
    pub fn calc_jones(
        &self,
        azel: Direction,
        freq_hz: u32,
        delays: &[u32],
        amps: &[Double],
        latitude_rad: Double,
        norm_to_zenith: bool,
        tile_index: Option<usize>,
    ) -> (r: Result<JonesTask, AnalyticBeamError>)
        requires
            self.wf(),
            self.pair_calculable(azel.za, delays@.len(), amps@.len(), tile_index),
        ensures
            self.pair_refusal(azel.za, delays@.len(), amps@.len()) matches Some(e) ==> r == Err::<
                JonesTask,
                AnalyticBeamError,
            >(e),
            self.pair_refusal(azel.za, delays@.len(), amps@.len()) is None ==> r is Ok && r->Ok_0@
                == self.task(
                seq![azel],
                freq_hz,
                delays@,
                amps@,
                latitude_rad,
                norm_to_zenith,
                tile_index,
            ),
    {
        self.calc_jones_pair(
            azel.az,
            azel.za,
            freq_hz,
            delays,
            amps,
            latitude_rad,
            norm_to_zenith,
            tile_index,
        )
    }

    /// The response in one direction, given by its azimuth and zenith angle. See
    /// [`AnalyticBeam::calc_jones`].
    pub fn calc_jones_pair(
        &self,
        az_rad: Double,
        za_rad: Double,
        freq_hz: u32,
        delays: &[u32],
        amps: &[Double],
        latitude_rad: Double,
        norm_to_zenith: bool,
        tile_index: Option<usize>,
    ) -> (r: Result<JonesTask, AnalyticBeamError>)
        requires
            self.wf(),
            self.pair_calculable(za_rad, delays@.len(), amps@.len(), tile_index),
        ensures
            self.pair_refusal(za_rad, delays@.len(), amps@.len()) matches Some(e) ==> r == Err::<
                JonesTask,
                AnalyticBeamError,
            >(e),
            self.pair_refusal(za_rad, delays@.len(), amps@.len()) is None ==> r is Ok && r->Ok_0@
                == self.task(
                seq![Direction { az: az_rad, za: za_rad }],
                freq_hz,
                delays@,
                amps@,
                latitude_rad,
                norm_to_zenith,
                tile_index,
            ),
    {
        if za_rad.gt(Double { bits: FRAC_PI_2 }) {
            return Err(AnalyticBeamError::BelowHorizon { za: za_rad });
        }
        if !matches!(self.beam_type, AnalyticType::Ska) {
            match self.check_lengths(delays.len(), amps.len()) {
                Ok(_) => {},
                Err(e) => {
                    return Err(e);
                },
            }
        }
        let mut directions: Vec<Direction> = Vec::with_capacity(1);
        directions.push(Direction { az: az_rad, za: za_rad });
        assert(directions@ =~= seq![Direction { az: az_rad, za: za_rad }]);
        Ok(
            self.accepted_task(
                directions,
                freq_hz,
                delays,
                amps,
                latitude_rad,
                norm_to_zenith,
                tile_index,
            ),
        )
    }

    /// Refuse directions below the horizon, and delays and gains that do not match the number of
    /// bowties.
    fn check_array(
        &self,
        zas: &[Double],
        num_delays: usize,
        num_amps: usize,
    ) -> (r: Result<(), AnalyticBeamError>)
        requires
            self.wf(),
        ensures
            self.array_refusal(zas@, num_delays as nat, num_amps as nat) is None ==> r == Ok::<(), AnalyticBeamError>(()),
            self.array_refusal(zas@, num_delays as nat, num_amps as nat) matches Some(e) ==> r == Err::<(), AnalyticBeamError>(e),
    {
        match find_below_horizon(zas) {
            Some(za) => {
                return Err(AnalyticBeamError::BelowHorizon { za });
            },
            None => {},
        }
        match self.beam_type {
            AnalyticType::MwaPb | AnalyticType::Rts => self.check_lengths(num_delays, num_amps),
            AnalyticType::Ska | AnalyticType::SkaMean => Ok(()),
        }
    }

    /// The responses in many directions. See [`AnalyticBeam::calc_jones`].
    pub fn calc_jones_array(
        &self,
        azels: &[Direction],
        freq_hz: u32,
        delays: &[u32],
        amps: &[Double],
        latitude_rad: Double,
        norm_to_zenith: bool,
        tile_index: Option<usize>,
    ) -> (r: Result<JonesTask, AnalyticBeamError>)
        requires
            self.wf(),
            self.array_calculable(
                zenith_angles(azels@),
                delays@.len(),
                amps@.len(),
                azels@.len(),
                tile_index,
            ),
        ensures
            self.array_refusal(zenith_angles(azels@), delays@.len(), amps@.len()) matches Some(e) ==> r == Err::<
                JonesTask,
                AnalyticBeamError,
            >(e),
            self.array_refusal(zenith_angles(azels@), delays@.len(), amps@.len()) is None ==> r is Ok
                && r->Ok_0@ == self.task(
                azels@,
                freq_hz,
                delays@,
                amps@,
                latitude_rad,
                norm_to_zenith,
                tile_index,
            ),
    {
        self.calc_jones_array_inner(
            azels,
            freq_hz,
            delays,
            amps,
            latitude_rad,
            norm_to_zenith,
            azels.len(),
            tile_index,
        )
    }

    /// The responses in many directions, for a place that holds `num_results` of them. Directions
    /// beyond those get no response, but are refused as the others are.
    pub fn calc_jones_array_inner(
        &self,
        azels: &[Direction],
        freq_hz: u32,
        delays: &[u32],
        amps: &[Double],
        latitude_rad: Double,
        norm_to_zenith: bool,
        num_results: usize,
        tile_index: Option<usize>,
    ) -> (r: Result<JonesTask, AnalyticBeamError>)
        requires
            self.wf(),
            self.array_calculable(
                zenith_angles(azels@),
                delays@.len(),
                amps@.len(),
                at_most(azels@, num_results as nat).len(),
                tile_index,
            ),
        ensures
            self.array_refusal(zenith_angles(azels@), delays@.len(), amps@.len()) matches Some(e) ==> r == Err::<
                JonesTask,
                AnalyticBeamError,
            >(e),
            self.array_refusal(zenith_angles(azels@), delays@.len(), amps@.len()) is None ==> r is Ok
                && r->Ok_0@ == self.task(
                at_most(azels@, num_results as nat),
                freq_hz,
                delays@,
                amps@,
                latitude_rad,
                norm_to_zenith,
                tile_index,
            ),
    {
        let (azs, zas) = split_directions(azels);
        match self.check_array(&zas, delays.len(), amps.len()) {
            Ok(_) => {},
            Err(e) => {
                return Err(e);
            },
        }
        let directions = join_directions(&azs, &zas, num_results);
        assert(directions@ =~= at_most(azels@, num_results as nat));
        Ok(
            self.accepted_task(
                directions,
                freq_hz,
                delays,
                amps,
                latitude_rad,
                norm_to_zenith,
                tile_index,
            ),
        )
    }

    /// The responses in many directions, given by their azimuths and zenith angles. See
    /// [`AnalyticBeam::calc_jones`].
    pub fn calc_jones_array_pair(
        &self,
        az_rad: &[Double],
        za_rad: &[Double],
        freq_hz: u32,
        delays: &[u32],
        amps: &[Double],
        latitude_rad: Double,
        norm_to_zenith: bool,
        tile_index: Option<usize>,
    ) -> (r: Result<JonesTask, AnalyticBeamError>)
        requires
            self.wf(),
            self.array_calculable(
                za_rad@,
                delays@.len(),
                amps@.len(),
                paired(az_rad@, za_rad@).len(),
                tile_index,
            ),
        ensures
            self.array_refusal(za_rad@, delays@.len(), amps@.len()) matches Some(e) ==> r == Err::<
                JonesTask,
                AnalyticBeamError,
            >(e),
            self.array_refusal(za_rad@, delays@.len(), amps@.len()) is None ==> r is Ok
                && r->Ok_0@ == self.task(
                paired(az_rad@, za_rad@),
                freq_hz,
                delays@,
                amps@,
                latitude_rad,
                norm_to_zenith,
                tile_index,
            ),
    {
        self.calc_jones_array_pair_inner(
            az_rad,
            za_rad,
            freq_hz,
            delays,
            amps,
            latitude_rad,
            norm_to_zenith,
            az_rad.len(),
            tile_index,
        )
    }

    /// The responses in many directions, given by their azimuths and zenith angles, for a place
    /// that holds `num_results` of them. See [`AnalyticBeam::calc_jones_array_inner`].
    pub fn calc_jones_array_pair_inner(
        &self,
        az_rad: &[Double],
        za_rad: &[Double],
        freq_hz: u32,
        delays: &[u32],
        amps: &[Double],
        latitude_rad: Double,
        norm_to_zenith: bool,
        num_results: usize,
        tile_index: Option<usize>,
    ) -> (r: Result<JonesTask, AnalyticBeamError>)
        requires
            self.wf(),
            self.array_calculable(
                za_rad@,
                delays@.len(),
                amps@.len(),
                at_most(paired(az_rad@, za_rad@), num_results as nat).len(),
                tile_index,
            ),
        ensures
            self.array_refusal(za_rad@, delays@.len(), amps@.len()) matches Some(e) ==> r == Err::<
                JonesTask,
                AnalyticBeamError,
            >(e),
            self.array_refusal(za_rad@, delays@.len(), amps@.len()) is None ==> r is Ok
                && r->Ok_0@ == self.task(
                at_most(paired(az_rad@, za_rad@), num_results as nat),
                freq_hz,
                delays@,
                amps@,
                latitude_rad,
                norm_to_zenith,
                tile_index,
            ),
    {
        match self.check_array(za_rad, delays.len(), amps.len()) {
            Ok(_) => {},
            Err(e) => {
                return Err(e);
            },
        }
        let directions = join_directions(az_rad, za_rad, num_results);
        Ok(
            self.accepted_task(
                directions,
                freq_hz,
                delays,
                amps,
                latitude_rad,
                norm_to_zenith,
                tile_index,
            ),
        )
    }
}

/// The zenith angle of the first direction below the horizon, if there is one.
pub fn find_below_horizon(zas: &[Double]) -> (r: Option<Double>)
    ensures
        r == first_below_horizon(zas@),
{
    let num = zas.len();
    let mut i: usize = 0;
    while i < num
        invariant
            i <= num,
            num == zas@.len(),
            first_below_horizon(zas@.take(i as int)) is None,
        decreases num - i,
    {
        assert(zas@.take(i + 1).drop_last() =~= zas@.take(i as int));
        if zas[i].gt(Double { bits: FRAC_PI_2 }) {
            proof {
                lemma_first_below_horizon_stays(zas@, i + 1);
            }
            return Some(zas[i]);
        }
        i = i + 1;
    }
    assert(zas@.take(num as int) =~= zas@);
    None
}

proof fn lemma_first_below_horizon_stays(zas: Seq<Double>, i: int)
    requires
        0 <= i <= zas.len(),
        first_below_horizon(zas.take(i)) is Some,
    ensures
        first_below_horizon(zas) == first_below_horizon(zas.take(i)),
    decreases zas.len(),
{
    if i == zas.len() {
        assert(zas.take(i) =~= zas);
    } else {
        assert(zas.drop_last().take(i) =~= zas.take(i));
        lemma_first_below_horizon_stays(zas.drop_last(), i);
    }
}

/// The azimuths and the zenith angles of `directions`.
pub fn split_directions(directions: &[Direction]) -> (r: (Vec<Double>, Vec<Double>))
    ensures
        r.0@ == azimuths(directions@),
        r.1@ == zenith_angles(directions@),
{
    let num = directions.len();
    let mut azs: Vec<Double> = Vec::with_capacity(num);
    let mut zas: Vec<Double> = Vec::with_capacity(num);
    let mut i: usize = 0;
    while i < num
        invariant
            i <= num,
            num == directions@.len(),
            azs@ =~= azimuths(directions@).take(i as int),
            zas@ =~= zenith_angles(directions@).take(i as int),
        decreases num - i,
    {
        azs.push(directions[i].az);
        zas.push(directions[i].za);
        i = i + 1;
    }
    (azs, zas)
}

/// Directions by their azimuths and zenith angles, at most `limit` of them.
fn join_directions(azs: &[Double], zas: &[Double], limit: usize) -> (directions: Vec<Direction>)
    ensures
        directions@ == at_most(paired(azs@, zas@), limit as nat),
{
    let num_azs = azs.len();
    let num_zas = zas.len();
    let num_pairs = if num_azs <= num_zas {
        num_azs
    } else {
        num_zas
    };
    let num = if num_pairs <= limit {
        num_pairs
    } else {
        limit
    };
    let mut directions: Vec<Direction> = Vec::with_capacity(num);
    let mut i: usize = 0;
    while i < num
        invariant
            i <= num <= azs@.len(),
            num <= zas@.len(),
            directions@ =~= paired(azs@, zas@).take(i as int),
        decreases num - i,
    {
        directions.push(Direction { az: azs[i], za: zas[i] });
        i = i + 1;
    }
    directions
}

/// The terms of an MWA tile's bowties.
fn tile_dipoles(
    pattern: ElementPattern,
    bowties_per_row: u8,
    steps: &Vec<u32>,
    amps: &[Double],
) -> (dipoles: Vec<Dipole>)
    requires
        0 < bowties_per_row < 16,
        steps@.len() == square(bowties_per_row as nat),
        amps@.len() == steps@.len(),
    ensures
        dipoles@ == Seq::new(
            steps@.len(),
            |k: int| dipole_at(pattern, bowties_per_row as nat, k, steps@[k], amps@[k]),
        ),
{
    let side = bowties_per_row as usize;
    let mut dipoles: Vec<Dipole> = Vec::with_capacity(steps.len());
    let mut k: usize = 0;
    assert(side * side <= 225) by (nonlinear_arith)
        requires
            side < 16,
    ;
    while k < steps.len()
        invariant
            0 < side,
            side == bowties_per_row,
            k <= steps@.len() <= 225,
            amps@.len() == steps@.len(),
            dipoles@.len() == k,
            forall|q: int|
                0 <= q < k ==> dipoles@[q] == dipole_at(
                    pattern,
                    bowties_per_row as nat,
                    q,
                    steps@[q],
                    amps@[q],
                ),
        decreases steps@.len() - k,
    {
        let col = k % side;
        let row = k / side;
        assert(0 <= row <= k) by (nonlinear_arith)
            requires
                row == k / side,
                side > 0,
        ;
        assert(0 <= col <= k) by (nonlinear_arith)
            requires
                col == k % side,
                side > 0,
        ;
        let across: i32 = 2 * (col as i32) - 3;
        let along: i32 = 2 * (row as i32) - 3;
        let dipole = match pattern {
            ElementPattern::MwaPb => Dipole {
                east: across,
                north: along,
                delay: steps[k],
                amp: amps[k],
            },
            ElementPattern::Rts { .. } => Dipole {
                east: along,
                north: across,
                delay: steps[k],
                amp: amps[k],
            },
        };
        dipoles.push(dipole);
        k = k + 1;
    }
    dipoles
}

impl Default for AnalyticBeam {
    /// The mwa_pb beam of a normal MWA tile.
    fn default() -> (beam: Self)
        ensures
            beam.wf(),
            beam.dipole_height == (AnalyticType::MwaPb).default_dipole_height(),
            beam.beam_type == AnalyticType::MwaPb,
            beam.bowties_per_row == 4,
            beam.ska_config is None,
    {
        let beam_type = AnalyticType::MwaPb;
        AnalyticBeam {
            dipole_height: beam_type.get_default_dipole_height(),
            beam_type,
            bowties_per_row: 4,
            ska_config: None,
        }
    }
}

} // verus!
