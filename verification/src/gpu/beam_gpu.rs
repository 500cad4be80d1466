//! The GPU beam: what the device is given, and what becomes of what it computes.

use vstd::prelude::*;

use crate::amps::one_or_two_each;
use crate::beam::{azimuths, split_directions, zenith_angles, AnalyticBeam, AnalyticType};
use crate::double::Double;
use crate::error::AnalyticBeamError;
use crate::gpu::cube::{cube_fits, Jones, ResponseCube};
use crate::gpu::launch::{
    device_fits, device_step, follows, kernel_step, DeviceAddress, DeviceEvent, DeviceStep, Kernel,
    KernelLaunch, KernelStep,
};
use crate::gpu::mwa_rts::{table_refusal, tiles_of, unique_tiles, unique_tiles_fit, MwaRtsInner};
use crate::gpu::ska::SkaInner;
use crate::response::Direction;
use crate::table::{DelayTable, RealTable};

verus! {

/// What the device is given.
pub enum AnalyticTypeInner {
    MwaRts(MwaRtsInner),
    Ska(SkaInner),
}

/// A beam that is ready for the GPU.
pub struct AnalyticBeamGpu {
    pub analytic_type: AnalyticTypeInner,
}

/// What happened on the way to the results.
pub enum HostEvent<'a> {
    /// Something before the device can compute.
    Device(DeviceEvent),
    /// The device computed these responses.
    Computed(&'a ResponseCube),
    /// The device failed.
    Failed(AnalyticBeamError),
}

/// What is to be done on the way to the results.
pub enum HostStep<'a, T> {
    /// Something on the device.
    Device(DeviceStep<'a>),
    /// Nothing: this is how it ends.
    Finish(Result<T, AnalyticBeamError>),
}

/// Can a beam be prepared for the GPU? An MWA beam has no more unique tiles than can be counted,
/// an SKA beam has its stations' coordinates and feed angles.
pub open spec fn preparable(beam: AnalyticBeam, delays: DelayTable, amps: RealTable) -> bool {
    if beam.beam_type.is_mwa() {
        table_refusal(beam, delays@.len(), delays.cols(), amps.cols()) is None ==> unique_tiles(
            tiles_of(delays@, amps@),
        ).len() <= i32::MAX
    } else {
        beam.ska_config matches Some(config) && config.feed_coordinates is Some
            && config.feed_angles_rad is Some
    }
}

/// Why a beam is refused, if it is.
pub open spec fn gpu_refusal(
    beam: AnalyticBeam,
    delays: DelayTable,
    amps: RealTable,
) -> Option<AnalyticBeamError> {
    if beam.beam_type.is_mwa() {
        table_refusal(beam, delays@.len(), delays.cols(), amps.cols())
    } else {
        None
    }
}

impl AnalyticBeamGpu {
    /// Every tile is one of those that the device computes.
    pub open spec fn wf(&self) -> bool {
        self.analytic_type matches AnalyticTypeInner::MwaRts(inner) ==> inner.wf()
    }

    /// Is this what `beam` makes of these tables?
    pub open spec fn prepares(
        &self,
        beam: AnalyticBeam,
        delays: DelayTable,
        amps: RealTable,
    ) -> bool {
        match self.analytic_type {
            AnalyticTypeInner::MwaRts(inner) => beam.beam_type.is_mwa() && inner.prepares(
                beam,
                tiles_of(delays@, amps@),
            ),
            AnalyticTypeInner::Ska(inner) => !beam.beam_type.is_mwa() && inner.prepares(
                beam.ska_config->0,
            ),
        }
    }

    /// The number of tiles, or stations.
    pub open spec fn total_num_tiles(&self) -> nat {
        match self.analytic_type {
            AnalyticTypeInner::MwaRts(inner) => inner.tile_map@.len(),
            AnalyticTypeInner::Ska(inner) => (inner.num_stations as usize) as nat,
        }
    }

    /// The number of tiles, or stations, that the device computes.
    pub open spec fn device_num_tiles(&self) -> nat {
        match self.analytic_type {
            AnalyticTypeInner::MwaRts(inner) => (inner.num_unique_tiles as usize) as nat,
            AnalyticTypeInner::Ska(inner) => (inner.num_stations as usize) as nat,
        }
    }

    /// Which of the tiles that the device computes tile `t` is.
    pub open spec fn device_tile(&self, t: int) -> int {
        match self.analytic_type {
            AnalyticTypeInner::MwaRts(inner) => inner.tile_map@[t] as int,
            AnalyticTypeInner::Ska(_) => t,
        }
    }

    /// What the device computed, tile by tile.
    pub open spec fn expanded(&self, device: Seq<Seq<Seq<Jones>>>) -> Seq<Seq<Seq<Jones>>> {
        Seq::new(self.total_num_tiles(), |t: int| device[self.device_tile(t)])
    }

    /// Which kernel computes the responses.
    pub open spec fn kernel(&self) -> Kernel<'_> {
        match &self.analytic_type {
            AnalyticTypeInner::MwaRts(inner) => inner.kernel(),
            AnalyticTypeInner::Ska(inner) => Kernel::Ska(inner),
        }
    }

    /// Is `step` what `event` calls for on the device, for these directions, frequencies, latitude
    /// and normalisation?
    pub open spec fn asks(
        &self,
        az_rad: Seq<Double>,
        za_rad: Seq<Double>,
        freqs_hz: Seq<u32>,
        latitude_rad: Double,
        norm_to_zenith: bool,
        event: DeviceEvent,
        step: DeviceStep<'_>,
    ) -> bool {
        follows(
            self.kernel(),
            self.device_num_tiles(),
            az_rad,
            za_rad,
            freqs_hz,
            latitude_rad,
            norm_to_zenith,
            event,
            step,
        )
    }

    /// Can this happen where so many directions and frequencies are asked for? The device can count
    /// them, and computes a response for each.
    pub open spec fn expects(
        &self,
        num_directions: nat,
        num_freqs: nat,
        event: HostEvent<'_>,
    ) -> bool {
        match event {
            HostEvent::Device(e) => device_fits(
                self.device_num_tiles(),
                num_directions,
                num_freqs,
                e,
            ),
            HostEvent::Computed(device) => device@.len() == self.device_num_tiles()
                && device.freqs() == num_freqs && device.directions() == num_directions,
            HostEvent::Failed(_) => true,
        }
    }

    /// Get a beam ready for the GPU.
    pub fn new(
        analytic_beam: &AnalyticBeam,
        delays_array: &DelayTable,
        amps_array: &RealTable,
    ) -> (r: Result<AnalyticBeamGpu, AnalyticBeamError>)
        requires
            analytic_beam.wf(),
            preparable(*analytic_beam, *delays_array, *amps_array),
        ensures
            gpu_refusal(*analytic_beam, *delays_array, *amps_array) matches Some(e) ==> r == Err::<
                AnalyticBeamGpu,
                AnalyticBeamError,
            >(e),
            gpu_refusal(*analytic_beam, *delays_array, *amps_array) is None ==> r is Ok
                && r->Ok_0.wf() && r->Ok_0.prepares(*analytic_beam, *delays_array, *amps_array),
    {
        let analytic_type = match analytic_beam.beam_type {
            AnalyticType::MwaPb | AnalyticType::Rts => match MwaRtsInner::new(
                analytic_beam,
                delays_array,
                amps_array,
            ) {
                Ok(inner) => AnalyticTypeInner::MwaRts(inner),
                Err(e) => {
                    return Err(e);
                },
            },
            AnalyticType::Ska | AnalyticType::SkaMean => AnalyticTypeInner::Ska(
                SkaInner::new(analytic_beam),
            ),
        };
        Ok(AnalyticBeamGpu { analytic_type })
    }

    /// The number of tiles.
    pub fn get_total_num_tiles(&self) -> (n: usize)
        ensures
            n == self.total_num_tiles(),
    {
        match &self.analytic_type {
            AnalyticTypeInner::MwaRts(inner) => inner.tile_map.len(),
            AnalyticTypeInner::Ska(inner) => #[verifier::truncate] (inner.num_stations as usize),
        }
    }

    /// Which of the unique tiles each tile is. Only MWA tiles have such a map.
    pub fn get_tile_map(&self) -> (map: &Vec<i32>)
        requires
            self.analytic_type is MwaRts,
        ensures
            *map == self.analytic_type->MwaRts_0.tile_map,
    {
        match &self.analytic_type {
            AnalyticTypeInner::MwaRts(inner) => &inner.tile_map,
            AnalyticTypeInner::Ska(_) => vstd::pervasive::unreached(),
        }
    }

    /// The number of unique tiles. Only MWA tiles are de-duplicated.
    pub fn get_num_unique_tiles(&self) -> (n: i32)
        requires
            self.analytic_type is MwaRts,
        ensures
            n == self.analytic_type->MwaRts_0.num_unique_tiles,
    {
        match &self.analytic_type {
            AnalyticTypeInner::MwaRts(inner) => inner.num_unique_tiles,
            AnalyticTypeInner::Ska(_) => vstd::pervasive::unreached(),
        }
    }

    /// The number of tiles, or stations, that the device computes.
    pub fn get_device_num_tiles(&self) -> (n: usize)
        ensures
            n == self.device_num_tiles(),
    {
        match &self.analytic_type {
            AnalyticTypeInner::MwaRts(inner) => #[verifier::truncate] (inner.num_unique_tiles as usize),
            AnalyticTypeInner::Ska(inner) => #[verifier::truncate] (inner.num_stations as usize),
        }
    }

    /// What `event` calls for, where the device keeps the responses of MWA tiles: at the start a
    /// request for the directions and frequencies to be copied to the device and for a buffer with
    /// a Jones matrix for each unique tile, frequency and direction, and then the launch of the
    /// kernel on them. For SKA stations see [`SkaInner::calc_jones_device_pair`].
    pub fn calc_jones_device(
        &self,
        azels: &[Direction],
        freqs_hz: &[u32],
        latitude_rad: Double,
        norm_to_zenith: bool,
        event: DeviceEvent,
    ) -> (step: DeviceStep<'_>)
        requires
            self.analytic_type is MwaRts,
            device_fits(self.device_num_tiles(), azels@.len(), freqs_hz@.len(), event),
        ensures
            self.asks(
                azimuths(azels@),
                zenith_angles(azels@),
                freqs_hz@,
                latitude_rad,
                norm_to_zenith,
                event,
                step,
            ),
    {
        let (azs, zas) = split_directions(azels);
        self.ask(&azs, &zas, freqs_hz, latitude_rad, norm_to_zenith, event)
    }

    /// What there is to do on the device: nothing, if there are no directions, else to launch the
    /// kernel of this beam on its tiles or stations and on what is given. `d_results` should have
    /// room for a Jones matrix for each unique tile, or station, frequency and direction.
    pub fn calc_jones_device_pair_inner(
        &self,
        d_az_rad: DeviceAddress,
        d_za_rad: DeviceAddress,
        num_directions: i32,
        d_freqs_hz: DeviceAddress,
        num_freqs: i32,
        latitude_rad: Double,
        norm_to_zenith: bool,
        d_results: DeviceAddress,
    ) -> (step: KernelStep<'_>)
        ensures
            num_directions == 0 ==> step == KernelStep::Done,
            num_directions != 0 ==> step == KernelStep::Launch(
                (KernelLaunch {
                    kernel: self.kernel(),
                    d_az_rad,
                    d_za_rad,
                    num_directions,
                    d_freqs_hz,
                    num_freqs,
                    latitude_rad,
                    norm_to_zenith,
                    d_results,
                }),
            ),
    {
        match &self.analytic_type {
            AnalyticTypeInner::MwaRts(inner) => kernel_step(
                KernelLaunch {
                    kernel: inner.get_kernel(),
                    d_az_rad,
                    d_za_rad,
                    num_directions,
                    d_freqs_hz,
                    num_freqs,
                    latitude_rad,
                    norm_to_zenith,
                    d_results,
                },
            ),
            AnalyticTypeInner::Ska(inner) => inner.calc_jones_device_pair_inner(
                d_az_rad,
                d_za_rad,
                num_directions,
                d_freqs_hz,
                num_freqs,
                latitude_rad,
                norm_to_zenith,
                d_results,
            ),
        }
    }

    /// What `event` calls for on the device.
    fn ask(
        &self,
        az_rad: &[Double],
        za_rad: &[Double],
        freqs_hz: &[u32],
        latitude_rad: Double,
        norm_to_zenith: bool,
        event: DeviceEvent,
    ) -> (step: DeviceStep<'_>)
        requires
            device_fits(self.device_num_tiles(), az_rad@.len(), freqs_hz@.len(), event),
        ensures
            self.asks(az_rad@, za_rad@, freqs_hz@, latitude_rad, norm_to_zenith, event, step),
    {
        match &self.analytic_type {
            AnalyticTypeInner::MwaRts(inner) => device_step(
                inner.get_kernel(),
                self.get_device_num_tiles(),
                az_rad,
                za_rad,
                freqs_hz,
                latitude_rad,
                norm_to_zenith,
                event,
            ),
            AnalyticTypeInner::Ska(inner) => inner.calc_jones_device_pair(
                az_rad,
                za_rad,
                freqs_hz,
                latitude_rad,
                norm_to_zenith,
                event,
            ),
        }
    }

    /// The responses in many directions, tile by tile. What `event` calls for is first what
    /// [`AnalyticBeamGpu::asks`] says, for the azimuths and zenith angles of the directions; when
    /// the device has computed its responses, the results are those, with its de-duplication
    /// undone; when it failed, its failure.
    pub fn calc_jones(
        &self,
        azels: &[Direction],
        freqs_hz: &[u32],
        latitude_rad: Double,
        norm_to_zenith: bool,
        event: HostEvent<'_>,
    ) -> (step: HostStep<'_, ResponseCube>)
        requires
            self.wf(),
            cube_fits(self.total_num_tiles(), freqs_hz@.len(), azels@.len()),
            self.expects(azels@.len(), freqs_hz@.len(), event),
        ensures
            event matches HostEvent::Device(e) ==> step is Device && self.asks(
                azimuths(azels@),
                zenith_angles(azels@),
                freqs_hz@,
                latitude_rad,
                norm_to_zenith,
                e,
                step->Device_0,
            ),
            event matches HostEvent::Computed(device) ==> (step matches HostStep::Finish(Ok(results))
                && results@ == self.expanded(device@) && results.freqs() == freqs_hz@.len()
                && results.directions() == azels@.len()),
            event matches HostEvent::Failed(e) ==> step == HostStep::<ResponseCube>::Finish(Err(e)),
    {
        let (azs, zas) = split_directions(azels);
        self.calc_jones_pair(&azs, &zas, freqs_hz, latitude_rad, norm_to_zenith, event)
    }

    /// The responses in many directions, given by their azimuths and zenith angles. See
    /// [`AnalyticBeamGpu::calc_jones`].
    pub fn calc_jones_pair(
        &self,
        az_rad: &[Double],
        za_rad: &[Double],
        freqs_hz: &[u32],
        latitude_rad: Double,
        norm_to_zenith: bool,
        event: HostEvent<'_>,
    ) -> (step: HostStep<'_, ResponseCube>)
        requires
            self.wf(),
            cube_fits(self.total_num_tiles(), freqs_hz@.len(), az_rad@.len()),
            self.expects(az_rad@.len(), freqs_hz@.len(), event),
        ensures
            event matches HostEvent::Device(e) ==> step is Device && self.asks(
                az_rad@,
                za_rad@,
                freqs_hz@,
                latitude_rad,
                norm_to_zenith,
                e,
                step->Device_0,
            ),
            event matches HostEvent::Computed(device) ==> (step matches HostStep::Finish(Ok(results))
                && results@ == self.expanded(device@) && results.freqs() == freqs_hz@.len()
                && results.directions() == az_rad@.len()),
            event matches HostEvent::Failed(e) ==> step == HostStep::<ResponseCube>::Finish(Err(e)),
    {
        match event {
            HostEvent::Device(e) => HostStep::Device(
                self.ask(az_rad, za_rad, freqs_hz, latitude_rad, norm_to_zenith, e),
            ),
            HostEvent::Computed(device) => {
                let mut results = ResponseCube::new(
                    self.get_total_num_tiles(),
                    freqs_hz.len(),
                    az_rad.len(),
                    Jones::default(),
                );
                self.expand(device, &mut results);
                assert(results@ =~= self.expanded(device@));
                HostStep::Finish(Ok(results))
            },
            HostEvent::Failed(e) => HostStep::Finish(Err(e)),
        }
    }

    /// The responses in many directions, written over the tiles of `results` when the device has
    /// computed them. Of MWA tiles, those that the beam does not have stay as they are; of SKA
    /// stations there must be no more than the device computes. See
    /// [`AnalyticBeamGpu::calc_jones`].
    pub fn calc_jones_pair_inner(
        &self,
        az_rad: &[Double],
        za_rad: &[Double],
        freqs_hz: &[u32],
        latitude_rad: Double,
        norm_to_zenith: bool,
        event: HostEvent<'_>,
        results: &mut ResponseCube,
    ) -> (step: HostStep<'_, ()>)
        requires
            self.wf(),
            old(results).freqs() == freqs_hz@.len(),
            old(results).directions() == az_rad@.len(),
            self.analytic_type is Ska ==> old(results)@.len() <= self.device_num_tiles(),
            self.expects(az_rad@.len(), freqs_hz@.len(), event),
        ensures
            event matches HostEvent::Device(e) ==> step is Device && self.asks(
                az_rad@,
                za_rad@,
                freqs_hz@,
                latitude_rad,
                norm_to_zenith,
                e,
                step->Device_0,
            ),
            event is Computed ==> step == HostStep::<()>::Finish(Ok(())),
            event matches HostEvent::Failed(e) ==> step == HostStep::<()>::Finish(Err(e)),
            final(results)@.len() == old(results)@.len(),
            final(results).freqs() == old(results).freqs(),
            final(results).directions() == old(results).directions(),
            event matches HostEvent::Computed(device) ==> forall|t: int|
                0 <= t < old(results)@.len() ==> #[trigger] final(results)@[t] == if t
                    < self.total_num_tiles() {
                    device@[self.device_tile(t)]
                } else {
                    old(results)@[t]
                },
            !(event is Computed) ==> final(results)@ == old(results)@,
    {
        match event {
            HostEvent::Device(e) => HostStep::Device(
                self.ask(az_rad, za_rad, freqs_hz, latitude_rad, norm_to_zenith, e),
            ),
            HostEvent::Computed(device) => {
                self.expand(device, results);
                HostStep::Finish(Ok(()))
            },
            HostEvent::Failed(e) => HostStep::Finish(Err(e)),
        }
    }

    /// Write what the device computed over the tiles of `results`.
    fn expand(&self, device: &ResponseCube, results: &mut ResponseCube)
        requires
            self.wf(),
            device@.len() == self.device_num_tiles(),
            old(results).freqs() == device.freqs(),
            old(results).directions() == device.directions(),
            self.analytic_type is Ska ==> old(results)@.len() <= device@.len(),
        ensures
            final(results)@.len() == old(results)@.len(),
            final(results).freqs() == old(results).freqs(),
            final(results).directions() == old(results).directions(),
            forall|t: int|
                0 <= t < old(results)@.len() ==> #[trigger] final(results)@[t] == if t
                    < self.total_num_tiles() {
                    device@[self.device_tile(t)]
                } else {
                    old(results)@[t]
                },
    {
        let num_tiles = self.get_total_num_tiles();
        let num_results = results.num_tiles();
        let num = if num_tiles <= num_results {
            num_tiles
        } else {
            num_results
        };
        let mut t: usize = 0;
        while t < num
            invariant
                self.wf(),
                t <= num <= num_results,
                num <= self.total_num_tiles(),
                device@.len() == self.device_num_tiles(),
                results@.len() == num_results == old(results)@.len(),
                results.freqs() == device.freqs() == old(results).freqs(),
                results.directions() == device.directions() == old(results).directions(),
                self.analytic_type is Ska ==> num_results <= device@.len(),
                forall|s: int|
                    0 <= s < num_results ==> #[trigger] results@[s] == if s < t {
                        device@[self.device_tile(s)]
                    } else {
                        old(results)@[s]
                    },
            decreases num - t,
        {
            let from: usize = match &self.analytic_type {
                AnalyticTypeInner::MwaRts(inner) => {
                    assert(0 <= inner.tile_map@[t as int] < inner.num_unique_tiles);
                    inner.tile_map[t] as usize
                },
                AnalyticTypeInner::Ska(_) => t,
            };
            results.assign_tile(t, device, from);
            t = t + 1;
        }
    }
}

impl AnalyticBeam {
    /// Can this beam be prepared for the GPU, if it is not refused?
    pub fn is_preparable(&self, delays: &DelayTable, amps: &RealTable) -> (r: bool)
        requires
            self.wf(),
        ensures
            r == preparable(*self, *delays, *amps),
    {
        match self.beam_type {
            AnalyticType::MwaPb | AnalyticType::Rts => {
                let num_bowties = self.get_num_bowties();
                delays.num_cols() != num_bowties || !one_or_two_each(amps.num_cols(), num_bowties)
                    || unique_tiles_fit(delays, amps)
            },
            AnalyticType::Ska | AnalyticType::SkaMean => match &self.ska_config {
                Some(config) => config.feed_coordinates.is_some()
                    && config.feed_angles_rad.is_some(),
                None => false,
            },
        }
    }

    /// Get this beam ready for the GPU. The rows of the tables are the delays and gains of the
    /// tiles; tiles with the same delays and gains are computed once.
    pub fn gpu_prepare(
        &self,
        delays: &DelayTable,
        amps: &RealTable,
    ) -> (r: Result<AnalyticBeamGpu, AnalyticBeamError>)
        requires
            self.wf(),
            preparable(*self, *delays, *amps),
        ensures
            gpu_refusal(*self, *delays, *amps) matches Some(e) ==> r == Err::<
                AnalyticBeamGpu,
                AnalyticBeamError,
            >(e),
            gpu_refusal(*self, *delays, *amps) is None ==> r is Ok && r->Ok_0.wf()
                && r->Ok_0.prepares(*self, *delays, *amps),
    {
        AnalyticBeamGpu::new(self, delays, amps)
    }
}

} // verus!
