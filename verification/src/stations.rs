//! The stations of the SKA-Low array.

use vstd::prelude::*;

use crate::double::Double;
use crate::response::{Element, RADec, SkaModel, SkaResponse};
use crate::table::RealTable;

verus! {

/// The pattern of the binary64 number nearest to 1e-10: how far from the ground an element may be,
/// in metres.
pub const FLATNESS: u64 = 0x3ddb_7cdf_d9d7_bdbb;

/// What the SKA beam needs to know.
pub struct SkaConfig {
    /// The number of stations in the array.
    pub number_of_stations: usize,
    /// The rotation angles of the feeds of each station, in radians.
    pub feed_angles_rad: Option<Vec<Vec<Double>>>,
    /// The coordinates of the feeds of each station, in metres: a row for each feed.
    pub feed_coordinates: Option<Vec<RealTable>>,
    pub phase_centre: RADec,
    pub site_latitude_rad: Double,
}

/// Does a table of coordinates hold `num` elements on the ground?
pub open spec fn station_ready(coordinates: RealTable, num: nat) -> bool {
    &&& num <= coordinates@.len()
    &&& num > 0 ==> coordinates.cols() >= 3
    &&& forall|i: int| 0 <= i < num ==> (#[trigger] coordinates@[i])[2].is_within(Double { bits: FLATNESS })
}

/// The first `num` elements of a station.
pub open spec fn elements_of(coordinates: Seq<Seq<Double>>, num: nat) -> Seq<Element> {
    Seq::new(num, |i: int| Element { x: coordinates[i][0], y: coordinates[i][1] })
}

/// Does [`station_ready`] hold?
pub fn check_station(coordinates: &RealTable, num: usize) -> (r: bool)
    ensures
        r == station_ready(*coordinates, num as nat),
{
    if num > coordinates.num_rows() {
        return false;
    }
    if num > 0 && coordinates.num_cols() < 3 {
        return false;
    }
    let mut i: usize = 0;
    while i < num
        invariant
            i <= num,
            num <= coordinates@.len(),
            num > 0 ==> coordinates.cols() >= 3,
            forall|k: int|
                0 <= k < i ==> (#[trigger] coordinates@[k])[2].is_within(Double { bits: FLATNESS }),
        decreases num - i,
    {
        if !coordinates.get(i, 2).within(Double { bits: FLATNESS }) {
            return false;
        }
        i = i + 1;
    }
    true
}

/// The first `num` elements of a station.
pub fn station_elements(coordinates: &RealTable, num: usize) -> (elements: Vec<Element>)
    requires
        station_ready(*coordinates, num as nat),
    ensures
        elements@ == elements_of(coordinates@, num as nat),
{
    let mut elements: Vec<Element> = Vec::with_capacity(num);
    let mut i: usize = 0;
    while i < num
        invariant
            i <= num,
            station_ready(*coordinates, num as nat),
            elements@ =~= elements_of(coordinates@, i as nat),
        decreases num - i,
    {
        elements.push(Element { x: coordinates.get(i, 0), y: coordinates.get(i, 1) });
        i = i + 1;
    }
    elements
}

impl SkaConfig {
    /// Is everything there that the response of station `tile_index` takes? For the mean of all
    /// stations, each has to have as many elements as that station.
    pub open spec fn ready(&self, tile_index: Option<usize>, mean: bool) -> bool {
        match (tile_index, self.feed_angles_rad, self.feed_coordinates) {
            (Some(index), Some(angles), Some(coordinates)) => {
                &&& index < angles@.len()
                &&& index < coordinates@.len()
                &&& if mean {
                    &&& self.number_of_stations <= coordinates@.len()
                    &&& forall|j: int|
                        0 <= j < self.number_of_stations ==> station_ready(
                            #[trigger] coordinates@[j],
                            coordinates@[index as int]@.len(),
                        )
                } else {
                    station_ready(
                        coordinates@[index as int],
                        coordinates@[index as int]@.len(),
                    )
                }
            },
            _ => false,
        }
    }

    /// The response of station `index`.
    pub open spec fn station_response(&self, index: int, lst_rad: Double) -> SkaModel {
        let coordinates = self.feed_coordinates->0@[index]@;
        SkaModel {
            lst_rad,
            site_latitude_rad: self.site_latitude_rad,
            phase_centre: self.phase_centre,
            stations: seq![elements_of(coordinates, coordinates.len())],
            divisor: coordinates.len(),
        }
    }

    /// The mean response of all stations, each with as many elements as station `index`.
    pub open spec fn mean_response(&self, index: int, lst_rad: Double) -> SkaModel {
        let coordinates = self.feed_coordinates->0@;
        SkaModel {
            lst_rad,
            site_latitude_rad: self.site_latitude_rad,
            phase_centre: self.phase_centre,
            stations: Seq::new(
                self.number_of_stations as nat,
                |j: int| elements_of(coordinates[j]@, coordinates[index]@.len()),
            ),
            divisor: self.number_of_stations as nat,
        }
    }

    /// Does [`SkaConfig::ready`] hold?
    pub fn is_ready(&self, tile_index: Option<usize>, mean: bool) -> (r: bool)
        ensures
            r == self.ready(tile_index, mean),
    {
        match (tile_index, &self.feed_angles_rad, &self.feed_coordinates) {
            (Some(index), Some(angles), Some(coordinates)) => {
                if index >= angles.len() || index >= coordinates.len() {
                    return false;
                }
                let num = coordinates[index].num_rows();
                if !mean {
                    return check_station(&coordinates[index], num);
                }
                if self.number_of_stations > coordinates.len() {
                    return false;
                }
                let mut j: usize = 0;
                #[verifier::loop_isolation(false)]
                while j < self.number_of_stations
                    invariant
                        j <= self.number_of_stations,
                        forall|k: int|
                            0 <= k < j ==> station_ready(#[trigger] coordinates@[k], num as nat),
                    decreases self.number_of_stations - j,
                {
                    if !check_station(&coordinates[j], num) {
                        return false;
                    }
                    j = j + 1;
                }
                true
            },
            _ => false,
        }
    }

    /// The response of station `tile_index`, or the mean of the responses of all stations.
    pub fn response(
        &self,
        tile_index: Option<usize>,
        mean: bool,
        lst_rad: Double,
    ) -> (r: SkaResponse)
        requires
            self.ready(tile_index, mean),
        ensures
            !mean ==> r@ == self.station_response(tile_index->0 as int, lst_rad),
            mean ==> r@ == self.mean_response(tile_index->0 as int, lst_rad),
    {
        let mut stations: Vec<Vec<Element>> = Vec::new();
        let index = tile_index.unwrap();
        let coordinates = self.feed_coordinates.as_ref().unwrap();
        let num = coordinates[index].num_rows();
        let divisor: usize = if mean {
            self.number_of_stations
        } else {
            num
        };
        if mean {
            let mut j: usize = 0;
            while j < self.number_of_stations
                invariant
                    j <= self.number_of_stations <= coordinates@.len(),
                    forall|k: int|
                        0 <= k < self.number_of_stations ==> station_ready(
                            #[trigger] coordinates@[k],
                            num as nat,
                        ),
                    stations@.len() == j,
                    forall|k: int|
                        0 <= k < j ==> (#[trigger] stations@[k])@ == elements_of(
                            coordinates@[k]@,
                            num as nat,
                        ),
                decreases self.number_of_stations - j,
            {
                stations.push(station_elements(&coordinates[j], num));
                j = j + 1;
            }
        } else {
            stations.push(station_elements(&coordinates[index], num));
        }
        let r = SkaResponse {
            lst_rad,
            site_latitude_rad: self.site_latitude_rad,
            phase_centre: self.phase_centre,
            stations,
            divisor,
        };
        proof {
            let index = index as int;
            if mean {
                assert(r@.stations =~= self.mean_response(index, lst_rad).stations);
            } else {
                assert(r@.stations =~= self.station_response(index, lst_rad).stations);
            }
        }
        r
    }
}

} // verus!
