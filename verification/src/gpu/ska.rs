//! SKA stations on the GPU.

use vstd::prelude::*;

use crate::beam::AnalyticBeam;
use crate::double::Double;
use crate::error::{AnalyticBeamError, GpuError};
use crate::gpu::launch::{
    device_fits, device_step, follows, kernel_step, DeviceAddress, DeviceEvent, DeviceStep, Kernel,
    KernelLaunch, KernelStep,
};
use crate::lists::append_copy;
use crate::response::RADec;
use crate::stations::SkaConfig;
use crate::table::RealTable;

verus! {

/// What the device is given for SKA stations.
pub struct SkaInner {
    pub num_stations: i32,
    /// The coordinates of the elements, station by station and row by row, in metres.
    pub feed_coordinates: Vec<Double>,
    /// The rotation angles of the feeds, station by station, in radians.
    pub feed_angles: Vec<Double>,
    pub num_elems_per_station: Vec<i32>,
    pub phase_centre: RADec,
    pub site_latitude_rad: Double,
}

/// What the device's kernel said.
pub enum KernelReply {
    /// That all is well.
    Success,
    /// That something is wrong, and what.
    Message(String),
    /// That something is wrong, in words that cannot be read.
    Unreadable,
}

/// The words in front of what a kernel said.
pub open spec fn failure_prefix() -> Seq<char> {
    "ska_analytic.h:ska_analytic_calc_jones_gpu failed with: "@
}

/// What is reported of a kernel's words.
pub open spec fn failure_message(reply: KernelReply) -> Seq<char> {
    match reply {
        KernelReply::Success => Seq::empty(),
        KernelReply::Message(words) => failure_prefix() + words@,
        KernelReply::Unreadable => failure_prefix() + "<cannot read GPU error string>"@,
    }
}

/// The cells of tables, table by table and row by row.
pub open spec fn flat_tables(tables: Seq<RealTable>) -> Seq<Double> {
    tables.map_values(|table: RealTable| table@.flatten()).flatten()
}

/// The numbers of `lists`, list by list.
pub open spec fn flat_lists(lists: Seq<Vec<Double>>) -> Seq<Double> {
    lists.map_values(|list: Vec<Double>| list@).flatten()
}

impl SkaInner {
    /// Is this what the device is given for the stations of `config`?
    pub open spec fn prepares(&self, config: SkaConfig) -> bool {
        let tables = config.feed_coordinates->0@;
        &&& self.num_stations == config.number_of_stations as i32
        &&& self.feed_coordinates@ == flat_tables(tables)
        &&& self.feed_angles@ == flat_lists(config.feed_angles_rad->0@)
        &&& self.num_elems_per_station@ == tables.map_values(
            |table: RealTable| table@.len() as i32,
        )
        &&& self.phase_centre == config.phase_centre
        &&& self.site_latitude_rad == config.site_latitude_rad
    }

    /// Lay out the stations for the device.
    pub fn new(beam: &AnalyticBeam) -> (r: SkaInner)
        requires
            beam.ska_config matches Some(config) && config.feed_coordinates is Some
                && config.feed_angles_rad is Some,
        ensures
            r.prepares(beam.ska_config->0),
    {
        let config = beam.ska_config.as_ref().unwrap();
        let tables = config.feed_coordinates.as_ref().unwrap();
        let lists = config.feed_angles_rad.as_ref().unwrap();
        let mut feed_coordinates: Vec<Double> = Vec::new();
        let mut num_elems_per_station: Vec<i32> = Vec::with_capacity(tables.len());
        let ghost rows = |table: RealTable| table@.flatten();
        let ghost count = |table: RealTable| table@.len() as i32;
        assert(tables@.take(0).map_values(rows) =~= Seq::<Seq<Double>>::empty());
        let mut j: usize = 0;
        while j < tables.len()
            invariant
                j <= tables@.len(),
                rows == (|table: RealTable| table@.flatten()),
                count == (|table: RealTable| table@.len() as i32),
                feed_coordinates@ == tables@.take(j as int).map_values(rows).flatten(),
                num_elems_per_station@ =~= tables@.take(j as int).map_values(count),
            decreases tables@.len() - j,
        {
            push_table(&mut feed_coordinates, &tables[j]);
            num_elems_per_station.push(#[verifier::truncate] (tables[j].num_rows() as i32));
            proof {
                let done = tables@.take(j as int).map_values(rows);
                assert(tables@.take(j + 1).map_values(rows) =~= done.push(rows(tables@[j as int])));
                done.lemma_flatten_push(rows(tables@[j as int]));
            }
            j = j + 1;
        }
        assert(tables@.take(j as int) =~= tables@);
        let mut feed_angles: Vec<Double> = Vec::new();
        let ghost content = |list: Vec<Double>| list@;
        assert(lists@.take(0).map_values(content) =~= Seq::<Seq<Double>>::empty());
        let mut k: usize = 0;
        while k < lists.len()
            invariant
                k <= lists@.len(),
                content == (|list: Vec<Double>| list@),
                feed_angles@ == lists@.take(k as int).map_values(content).flatten(),
            decreases lists@.len() - k,
        {
            append_copy(&mut feed_angles, &lists[k]);
            proof {
                let done = lists@.take(k as int).map_values(content);
                assert(lists@.take(k + 1).map_values(content) =~= done.push(lists@[k as int]@));
                done.lemma_flatten_push(lists@[k as int]@);
            }
            k = k + 1;
        }
        assert(lists@.take(k as int) =~= lists@);
        SkaInner {
            num_stations: #[verifier::truncate] (config.number_of_stations as i32),
            feed_coordinates,
            feed_angles,
            num_elems_per_station,
            phase_centre: config.phase_centre,
            site_latitude_rad: config.site_latitude_rad,
        }
    }

    /// What `event` calls for: at the start a request for the directions and frequencies to be
    /// copied to the device and for a buffer with a Jones matrix for each station, frequency and
    /// direction, and then the launch of the kernel on them.
    pub fn calc_jones_device_pair(
        &self,
        az_rad: &[Double],
        za_rad: &[Double],
        freqs_hz: &[u32],
        latitude_rad: Double,
        norm_to_zenith: bool,
        event: DeviceEvent,
    ) -> (step: DeviceStep<'_>)
        requires
            device_fits(
                (self.num_stations as usize) as nat,
                az_rad@.len(),
                freqs_hz@.len(),
                event,
            ),
        ensures
            follows(
                Kernel::Ska(self),
                (self.num_stations as usize) as nat,
                az_rad@,
                za_rad@,
                freqs_hz@,
                latitude_rad,
                norm_to_zenith,
                event,
                step,
            ),
    {
        let stations = #[verifier::truncate] (self.num_stations as usize);
        device_step(
            Kernel::Ska(self),
            stations,
            az_rad,
            za_rad,
            freqs_hz,
            latitude_rad,
            norm_to_zenith,
            event,
        )
    }

    /// What there is to do on the device: nothing, if there are no directions, else to launch the
    /// kernel of SKA stations on these stations and on what is given.
    pub fn calc_jones_device_pair_inner(
        &self,
        d_az_rad: DeviceAddress,
        d_za_rad: DeviceAddress,
        num_directions: i32,
        d_freqs_hz: DeviceAddress,
        num_freqs: i32,
        latitude_rad: Double,
        norm_to_zenith: bool,
        d_results: DeviceAddress,
    ) -> (step: KernelStep<'_>)
        ensures
            num_directions == 0 ==> step == KernelStep::Done,
            num_directions != 0 ==> step == KernelStep::Launch(
                (KernelLaunch {
                    kernel: Kernel::Ska(self),
                    d_az_rad,
                    d_za_rad,
                    num_directions,
                    d_freqs_hz,
                    num_freqs,
                    latitude_rad,
                    norm_to_zenith,
                    d_results,
                }),
            ),
    {
        kernel_step(
            KernelLaunch {
                kernel: Kernel::Ska(self),
                d_az_rad,
                d_za_rad,
                num_directions,
                d_freqs_hz,
                num_freqs,
                latitude_rad,
                norm_to_zenith,
                d_results,
            },
        )
    }

    /// What comes of what the kernel said, and of where it was launched.
    pub fn kernel_outcome(
        reply: KernelReply,
        file: &'static str,
        line: u32,
    ) -> (r: Result<(), AnalyticBeamError>)
        ensures
            r is Ok <==> reply is Success,
            r is Err ==> (r->Err_0 matches AnalyticBeamError::Gpu(GpuError::Kernel { msg, file: f, line: l })
                && msg@ == failure_message(reply) && f == file && l == line),
    {
        let mut msg: String = "ska_analytic.h:ska_analytic_calc_jones_gpu failed with: ".to_owned();
        match reply {
            KernelReply::Success => {
                return Ok(());
            },
            KernelReply::Message(words) => {
                msg.append(words.as_str());
            },
            KernelReply::Unreadable => {
                msg.append("<cannot read GPU error string>");
            },
        }
        Err(AnalyticBeamError::Gpu(GpuError::Kernel { msg, file, line }))
    }
}

/// Append the cells of `table` to `to`, row by row.
fn push_table(to: &mut Vec<Double>, table: &RealTable)
    ensures
        final(to)@ == old(to)@ + table@.flatten(),
{
    let ghost before = to@;
    let num_rows = table.num_rows();
    let mut i: usize = 0;
    assert(table@.take(0) =~= Seq::<Seq<Double>>::empty());
    while i < num_rows
        invariant
            i <= num_rows == table@.len(),
            to@ =~= before + table@.take(i as int).flatten(),
        decreases num_rows - i,
    {
        let row = table.row(i);
        append_copy(to, &row);
        proof {
            let done = table@.take(i as int);
            assert(table@.take(i + 1) =~= done.push(row@));
            done.lemma_flatten_push(row@);
        }
        i = i + 1;
    }
    assert(table@.take(i as int) =~= table@);
}

} // verus!
