//! What is left to compute once everything about a beam response has been decided.
//!
//! A [`JonesTask`] holds the terms of the sums, in order, and the numbers that enter the formulas.
//! Working it out takes floating-point arithmetic, and nothing else.

use vstd::prelude::*;

use crate::double::Double;

verus! {

/// A direction: azimuth and zenith angle, in radians.
#[derive(Clone, Copy, Debug, PartialEq, Eq, Structural)]
pub struct Direction {
    pub az: Double,
    pub za: Double,
}

/// A right ascension and declination, in radians.
#[derive(Clone, Copy, Debug, PartialEq, Eq, Structural)]
pub struct RADec {
    pub ra: Double,
    pub dec: Double,
}

/// Which element pattern a dipole array takes.
#[derive(Clone, Copy, Debug, PartialEq, Eq, Structural)]
pub enum ElementPattern {
    /// Dipoles along the azimuth and zenith angle.
    MwaPb,
    /// Dipoles along the hour angle and declination, which take the latitude, in radians.
    Rts {
        latitude_rad: Double,
    },
}

/// A bowtie's term of the array factor of an MWA tile.
#[derive(Clone, Copy, Debug, PartialEq, Eq, Structural)]
pub struct Dipole {
    /// How far east of the tile's reference point the bowtie is, in halves of the separation of
    /// bowties.
    pub east: i32,
    /// How far north, likewise.
    pub north: i32,
    /// The delay, in delay steps.
    pub delay: u32,
    /// The gain.
    pub amp: Double,
}

/// An element's term of the array factor of an SKA station: its coordinates, in metres.
#[derive(Clone, Copy, Debug, PartialEq, Eq, Structural)]
pub struct Element {
    pub x: Double,
    pub y: Double,
}

/// The response of an MWA tile.
pub struct MwaResponse {
    pub pattern: ElementPattern,
    /// The height of the dipoles above the ground plane, in metres.
    pub dipole_height: Double,
    /// What the ground plane's factor is divided by.
    pub num_bowties: usize,
    /// The terms of the array factor.
    pub dipoles: Vec<Dipole>,
    /// The sum of the delays, where they count relative to their mean.
    pub mean_of: Option<u128>,
    /// Does a bowtie's phase fall, rather than rise, with its distance towards the direction?
    pub falling_phase: bool,
    /// Are imaginary parts dropped?
    pub real_only: bool,
    /// Is the ground plane's factor divided by what it is at the zenith?
    pub norm_to_zenith: bool,
}

/// The response of an SKA station, or the mean of the responses of all stations.
pub struct SkaResponse {
    /// The local sidereal time, in radians.
    pub lst_rad: Double,
    pub site_latitude_rad: Double,
    pub phase_centre: RADec,
    /// The terms of the array factor, station by station.
    pub stations: Vec<Vec<Element>>,
    /// What the sum of all terms is divided by.
    pub divisor: usize,
}

/// A response, apart from its direction and frequency.
pub enum Response {
    Mwa(MwaResponse),
    Ska(SkaResponse),
}

/// The Jones matrices to compute: one for each direction, in order.
pub struct JonesTask {
    pub directions: Vec<Direction>,
    pub freq_hz: u32,
    /// The response in each of the directions. There is none where there is no direction.
    pub response: Option<Response>,
}

/// What [`MwaResponse`] stands for.
#[verifier::ext_equal]
pub struct MwaModel {
    pub pattern: ElementPattern,
    pub dipole_height: Double,
    pub num_bowties: nat,
    pub dipoles: Seq<Dipole>,
    pub mean_of: Option<nat>,
    pub falling_phase: bool,
    pub real_only: bool,
    pub norm_to_zenith: bool,
}

/// What [`SkaResponse`] stands for.
#[verifier::ext_equal]
pub struct SkaModel {
    pub lst_rad: Double,
    pub site_latitude_rad: Double,
    pub phase_centre: RADec,
    pub stations: Seq<Seq<Element>>,
    pub divisor: nat,
}

/// What [`Response`] stands for.
#[verifier::ext_equal]
pub enum ResponseModel {
    Mwa(MwaModel),
    Ska(SkaModel),
}

/// What [`JonesTask`] stands for.
#[verifier::ext_equal]
pub struct TaskModel {
    pub directions: Seq<Direction>,
    pub freq_hz: u32,
    pub response: Option<ResponseModel>,
}

impl View for MwaResponse {
    type V = MwaModel;

    open spec fn view(&self) -> MwaModel {
        MwaModel {
            pattern: self.pattern,
            dipole_height: self.dipole_height,
            num_bowties: self.num_bowties as nat,
            dipoles: self.dipoles@,
            mean_of: match self.mean_of {
                Some(total) => Some(total as nat),
                None => None,
            },
            falling_phase: self.falling_phase,
            real_only: self.real_only,
            norm_to_zenith: self.norm_to_zenith,
        }
    }
}

impl View for SkaResponse {
    type V = SkaModel;

    open spec fn view(&self) -> SkaModel {
        SkaModel {
            lst_rad: self.lst_rad,
            site_latitude_rad: self.site_latitude_rad,
            phase_centre: self.phase_centre,
            stations: self.stations@.map_values(|elements: Vec<Element>| elements@),
            divisor: self.divisor as nat,
        }
    }
}

impl View for Response {
    type V = ResponseModel;

    open spec fn view(&self) -> ResponseModel {
        match self {
            Response::Mwa(mwa) => ResponseModel::Mwa(mwa@),
            Response::Ska(ska) => ResponseModel::Ska(ska@),
        }
    }
}

impl View for JonesTask {
    type V = TaskModel;

    open spec fn view(&self) -> TaskModel {
        TaskModel {
            directions: self.directions@,
            freq_hz: self.freq_hz,
            response: match self.response {
                Some(response) => Some(response@),
                None => None,
            },
        }
    }
}

} // verus!
