//! What is asked of the device.
//!
//! The host does not wait for the device: it is told what happened, and says what to do next. First
//! it asks for copies of the directions and frequencies and for a buffer that the results fit in;
//! once they are there, it says which kernel to launch on them.

use vstd::prelude::*;

use crate::double::Double;
use crate::gpu::mwa_rts::MwaRtsInner;
use crate::gpu::ska::SkaInner;
use crate::lists::copy_of;

verus! {

/// Where something is on the device.
#[derive(Clone, Copy, Debug, PartialEq, Eq, Structural)]
pub struct DeviceAddress {
    pub address: usize,
}

/// The size of the device's buffer for the results, and the numbers of directions and frequencies
/// as the device counts them.
#[derive(Clone, Copy, Debug, PartialEq, Eq, Structural)]
pub struct DeviceSizes {
    pub bytes: usize,
    pub num_directions: i32,
    pub num_freqs: i32,
}

/// What is to be copied to the device, and how large a buffer it is to set aside for the results.
pub struct DeviceRequest {
    pub az_rad: Vec<Double>,
    pub za_rad: Vec<Double>,
    pub freqs_hz: Vec<u32>,
    pub sizes: DeviceSizes,
}

/// Where on the device the things are that a [`DeviceRequest`] asks for.
#[derive(Clone, Copy, Debug, PartialEq, Eq, Structural)]
pub struct DeviceBuffers {
    pub d_az_rad: DeviceAddress,
    pub d_za_rad: DeviceAddress,
    pub d_freqs_hz: DeviceAddress,
    pub d_results: DeviceAddress,
}

/// Which kernel computes the responses, and of which tiles or stations.
pub enum Kernel<'a> {
    /// That of mwa_pb.
    MwaPb(&'a MwaRtsInner),
    /// That of the RTS.
    Rts(&'a MwaRtsInner),
    /// That of SKA stations.
    Ska(&'a SkaInner),
}

/// A kernel, and what it is launched on.
pub struct KernelLaunch<'a> {
    pub kernel: Kernel<'a>,
    pub d_az_rad: DeviceAddress,
    pub d_za_rad: DeviceAddress,
    pub num_directions: i32,
    pub d_freqs_hz: DeviceAddress,
    pub num_freqs: i32,
    /// The latitude or, for SKA stations, the local sidereal time, in radians.
    pub latitude_rad: Double,
    pub norm_to_zenith: bool,
    pub d_results: DeviceAddress,
}

/// What there is to do on the device.
pub enum KernelStep<'a> {
    /// Nothing.
    Done,
    /// Launch a kernel.
    Launch(KernelLaunch<'a>),
}

/// What happened before the device can compute.
#[derive(Clone, Copy, Debug, PartialEq, Eq, Structural)]
pub enum DeviceEvent {
    /// Nothing yet. A Jones matrix takes `jones_bytes` bytes on the device.
    Start {
        jones_bytes: usize,
    },
    /// What was asked for is on the device.
    Copied(DeviceBuffers),
}

/// What is to be done before the results can be fetched.
pub enum DeviceStep<'a> {
    /// Copy to the device, and set a buffer aside.
    Request(DeviceRequest),
    /// Compute.
    Kernel(KernelStep<'a>),
}

/// What [`DeviceRequest`] stands for.
#[verifier::ext_equal]
pub struct RequestModel {
    pub az_rad: Seq<Double>,
    pub za_rad: Seq<Double>,
    pub freqs_hz: Seq<u32>,
    pub sizes: DeviceSizes,
}

impl View for DeviceRequest {
    type V = RequestModel;

    open spec fn view(&self) -> RequestModel {
        RequestModel {
            az_rad: self.az_rad@,
            za_rad: self.za_rad@,
            freqs_hz: self.freqs_hz@,
            sizes: self.sizes,
        }
    }
}

/// Can the device count these directions and frequencies and, at the start, can the size of its
/// buffer be told?
pub open spec fn device_fits(
    tiles: nat,
    num_directions: nat,
    num_freqs: nat,
    event: DeviceEvent,
) -> bool {
    &&& num_directions <= i32::MAX
    &&& num_freqs <= i32::MAX
    &&& event matches DeviceEvent::Start { jones_bytes } ==> {
        &&& tiles * num_freqs <= usize::MAX
        &&& tiles * num_freqs * num_directions <= usize::MAX
        &&& tiles * num_freqs * num_directions * jones_bytes <= usize::MAX
    }
}

/// What the device is asked for: the directions and frequencies as they are, and a Jones matrix of
/// `jones_bytes` bytes for each tile, frequency and direction.
pub open spec fn device_request(
    tiles: nat,
    az_rad: Seq<Double>,
    za_rad: Seq<Double>,
    freqs_hz: Seq<u32>,
    jones_bytes: nat,
) -> RequestModel {
    RequestModel {
        az_rad,
        za_rad,
        freqs_hz,
        sizes: DeviceSizes {
            bytes: (tiles * freqs_hz.len() * az_rad.len() * jones_bytes) as usize,
            num_directions: az_rad.len() as i32,
            num_freqs: freqs_hz.len() as i32,
        },
    }
}

/// What there is to do on the device: nothing, if there are no directions.
pub open spec fn step_of<'a>(launch: KernelLaunch<'a>) -> KernelStep<'a> {
    if launch.num_directions == 0 {
        KernelStep::Done
    } else {
        KernelStep::Launch(launch)
    }
}

/// Is `step` what `event` calls for, where `kernel` computes the responses of so many tiles? At the
/// start it is the request, and then the launch of that kernel on what was asked for.
pub open spec fn follows<'a>(
    kernel: Kernel<'a>,
    tiles: nat,
    az_rad: Seq<Double>,
    za_rad: Seq<Double>,
    freqs_hz: Seq<u32>,
    latitude_rad: Double,
    norm_to_zenith: bool,
    event: DeviceEvent,
    step: DeviceStep<'a>,
) -> bool {
    match event {
        DeviceEvent::Start { jones_bytes } => step matches DeviceStep::Request(request)
            && request@ == device_request(tiles, az_rad, za_rad, freqs_hz, jones_bytes as nat),
        DeviceEvent::Copied(buffers) => step == DeviceStep::Kernel(
            step_of(
                KernelLaunch {
                    kernel,
                    d_az_rad: buffers.d_az_rad,
                    d_za_rad: buffers.d_za_rad,
                    num_directions: az_rad.len() as i32,
                    d_freqs_hz: buffers.d_freqs_hz,
                    num_freqs: freqs_hz.len() as i32,
                    latitude_rad,
                    norm_to_zenith,
                    d_results: buffers.d_results,
                },
            ),
        ),
    }
}

/// What there is to do on the device: nothing, if there are no directions.
pub fn kernel_step<'a>(launch: KernelLaunch<'a>) -> (step: KernelStep<'a>)
    ensures
        step == step_of(launch),
{
    if launch.num_directions == 0 {
        KernelStep::Done
    } else {
        KernelStep::Launch(launch)
    }
}

/// What `event` calls for, where `kernel` computes the responses of so many tiles.
pub fn device_step<'a>(
    kernel: Kernel<'a>,
    tiles: usize,
    az_rad: &[Double],
    za_rad: &[Double],
    freqs_hz: &[u32],
    latitude_rad: Double,
    norm_to_zenith: bool,
    event: DeviceEvent,
) -> (step: DeviceStep<'a>)
    requires
        device_fits(tiles as nat, az_rad@.len(), freqs_hz@.len(), event),
    ensures
        follows(
            kernel,
            tiles as nat,
            az_rad@,
            za_rad@,
            freqs_hz@,
            latitude_rad,
            norm_to_zenith,
            event,
            step,
        ),
{
    let num_directions = az_rad.len();
    let num_freqs = freqs_hz.len();
    match event {
        DeviceEvent::Start { jones_bytes } => DeviceStep::Request(
            DeviceRequest {
                az_rad: copy_of(az_rad),
                za_rad: copy_of(za_rad),
                freqs_hz: copy_of(freqs_hz),
                sizes: DeviceSizes {
                    bytes: tiles * num_freqs * num_directions * jones_bytes,
                    num_directions: num_directions as i32,
                    num_freqs: num_freqs as i32,
                },
            },
        ),
        DeviceEvent::Copied(buffers) => DeviceStep::Kernel(
            kernel_step(
                KernelLaunch {
                    kernel,
                    d_az_rad: buffers.d_az_rad,
                    d_za_rad: buffers.d_za_rad,
                    num_directions: num_directions as i32,
                    d_freqs_hz: buffers.d_freqs_hz,
                    num_freqs: num_freqs as i32,
                    latitude_rad,
                    norm_to_zenith,
                    d_results: buffers.d_results,
                },
            ),
        ),
    }
}

} // verus!
