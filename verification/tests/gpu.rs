use analytic_beam::beam::{AnalyticBeam, AnalyticType};
use analytic_beam::double::Double;
use analytic_beam::error::{AnalyticBeamError, GpuError};
use analytic_beam::gpu::cube::{Complex, Jones, ResponseCube};
use analytic_beam::gpu::launch::{
    DeviceAddress, DeviceBuffers, DeviceEvent, DeviceRequest, DeviceSizes, DeviceStep, Kernel,
    KernelLaunch, KernelStep,
};
use analytic_beam::gpu::ska::{KernelReply, SkaInner};
use analytic_beam::gpu::{AnalyticBeamGpu, AnalyticTypeInner, HostEvent, HostStep};
use analytic_beam::response::{Direction, RADec, Response};
use analytic_beam::stations::SkaConfig;
use analytic_beam::table::{DelayTable, RealTable};

fn d(x: f64) -> Double {
    Double { bits: x.to_bits() }
}

fn jones(x: u64) -> Jones {
    let c = Complex { re: Double { bits: x }, im: Double { bits: x + 1 } };
    Jones { j00: c, j01: c, j10: c, j11: c }
}

fn delays(rows: &[[u32; 4]]) -> DelayTable {
    DelayTable::new(rows.len(), 4, rows.iter().flatten().copied().collect()).unwrap()
}

fn amps(rows: &[[f64; 4]]) -> RealTable {
    RealTable::new(rows.len(), 4, rows.iter().flatten().map(|&x| d(x)).collect()).unwrap()
}

fn small(beam_type: AnalyticType) -> AnalyticBeam {
    AnalyticBeam::new_custom(beam_type, d(0.25), 2)
}

fn ska_config() -> SkaConfig {
    let one = RealTable::new(1, 3, vec![d(1.0), d(2.0), d(0.0)]).unwrap();
    let two = RealTable::new(2, 3, vec![d(3.0), d(4.0), d(0.0), d(5.0), d(6.0), d(0.5)]).unwrap();
    SkaConfig {
        number_of_stations: 2,
        feed_angles_rad: Some(vec![vec![d(0.1), d(0.2)], vec![d(0.3), d(0.4)]]),
        feed_coordinates: Some(vec![one, two]),
        phase_centre: RADec { ra: d(0.5), dec: d(-0.4) },
        site_latitude_rad: d(-0.47),
    }
}

fn buffers() -> DeviceBuffers {
    let at = |address| DeviceAddress { address };
    DeviceBuffers { d_az_rad: at(16), d_za_rad: at(32), d_freqs_hz: at(48), d_results: at(64) }
}

fn on_device<T>(step: HostStep<T>) -> DeviceStep {
    match step {
        HostStep::Device(step) => step,
        HostStep::Finish(_) => panic!("already finished"),
    }
}

fn finished<T>(step: HostStep<T>) -> T {
    match step {
        HostStep::Finish(Ok(results)) => results,
        _ => panic!("not finished"),
    }
}

fn requested(step: DeviceStep) -> DeviceRequest {
    match step {
        DeviceStep::Request(request) => request,
        DeviceStep::Kernel(_) => panic!("no request"),
    }
}

fn launched(step: DeviceStep) -> KernelLaunch {
    match step {
        DeviceStep::Kernel(KernelStep::Launch(launch)) => launch,
        _ => panic!("no launch"),
    }
}

fn assert_launched_on(
    launch: &KernelLaunch,
    num_directions: i32,
    num_freqs: i32,
    latitude_rad: Double,
    norm_to_zenith: bool,
) {
    let b = buffers();
    assert_eq!(launch.d_az_rad, b.d_az_rad);
    assert_eq!(launch.d_za_rad, b.d_za_rad);
    assert_eq!(launch.d_freqs_hz, b.d_freqs_hz);
    assert_eq!(launch.d_results, b.d_results);
    assert_eq!((launch.num_directions, launch.num_freqs), (num_directions, num_freqs));
    assert_eq!(launch.latitude_rad, latitude_rad);
    assert_eq!(launch.norm_to_zenith, norm_to_zenith);
}

#[test]
fn tables_hold_rows() {
    let t = DelayTable::new(2, 3, vec![1, 2, 3, 4, 5, 6]).unwrap();
    assert_eq!(t.num_rows(), 2);
    assert_eq!(t.num_cols(), 3);
    assert_eq!(t.row(0), vec![1, 2, 3]);
    assert_eq!(t.row(1), vec![4, 5, 6]);
    assert!(DelayTable::new(2, 3, vec![1, 2, 3, 4, 5]).is_none());
    assert!(DelayTable::new(2, 3, vec![1, 2, 3, 4, 5, 6, 7]).is_none());
    assert!(DelayTable::new(usize::MAX, 0, vec![]).is_none());
    let empty = DelayTable::new(0, 16, vec![]).unwrap();
    assert_eq!(empty.num_rows(), 0);
    assert_eq!(empty.num_cols(), 16);
    let r = RealTable::new(3, 2, (0..6).map(|i| d(i as f64)).collect()).unwrap();
    assert_eq!(r.num_rows(), 3);
    assert_eq!(r.num_cols(), 2);
    assert_eq!(r.get(1, 0), d(2.0));
    assert_eq!(r.row(2), vec![d(4.0), d(5.0)]);
    assert!(RealTable::new(3, 2, vec![]).is_none());
}

#[test]
fn cubes_hold_matrices_in_order() {
    let cube = ResponseCube::from_flat(2, 3, 4, (0..24).map(jones).collect()).unwrap();
    assert_eq!((cube.num_tiles(), cube.num_freqs(), cube.num_directions()), (2, 3, 4));
    assert_eq!(cube.get(0, 0, 0), jones(0));
    assert_eq!(cube.get(0, 0, 3), jones(3));
    assert_eq!(cube.get(0, 2, 1), jones(9));
    assert_eq!(cube.get(1, 1, 2), jones(18));
    assert!(ResponseCube::from_flat(2, 3, 4, vec![]).is_none());
    let mut zeros = ResponseCube::new(2, 3, 4, Jones::default());
    assert_eq!(zeros.get(1, 2, 3), Jones::default());
    zeros.assign_tile(1, &cube, 0);
    assert_eq!(zeros.get(1, 2, 3), jones(11));
    assert_eq!(zeros.get(0, 2, 3), Jones::default());
}

#[test]
fn tiles_are_deduplicated() {
    let d4 = [1, 2, 3, 4];
    let a4 = [1.0; 4];
    let gpu = small(AnalyticType::MwaPb)
        .gpu_prepare(
            &delays(&[d4, [0; 4], d4, d4, [0; 4]]),
            &amps(&[a4, a4, a4, [0.5; 4], a4]),
        )
        .unwrap();
    assert_eq!(gpu.get_total_num_tiles(), 5);
    assert_eq!(gpu.get_num_unique_tiles(), 3);
    assert_eq!(gpu.get_tile_map(), &vec![0, 1, 0, 2, 1]);
    match &gpu.analytic_type {
        AnalyticTypeInner::MwaRts(inner) => {
            assert_eq!(inner.dipole_height, d(0.25));
            assert_eq!(inner.bowties_per_row, 2);
            assert_eq!(inner.delays, vec![1, 2, 3, 4, 0, 0, 0, 0, 1, 2, 3, 4]);
            assert_eq!(inner.means_of, vec![None, None, None]);
            let mut expected = vec![d(1.0); 8];
            expected.extend([d(0.5); 4]);
            assert_eq!(inner.amps, expected);
        }
        AnalyticTypeInner::Ska(_) => panic!("not MWA tiles"),
    }
}

#[test]
fn rts_tiles_are_reordered() {
    let gpu = small(AnalyticType::Rts)
        .gpu_prepare(&delays(&[[1, 2, 3, 4], [1, 32, 3, 4]]), &amps(&[[0.1, 0.2, 0.3, 0.4]; 2]))
        .unwrap();
    match &gpu.analytic_type {
        AnalyticTypeInner::MwaRts(inner) => {
            assert_eq!(inner.delays, vec![3, 1, 4, 2, 3, 1, 4, 32]);
            assert_eq!(inner.means_of, vec![Some(10), Some(40)]);
            let expected: Vec<Double> =
                [0.3, 0.1, 0.4, 0.2, 0.3, 0.1, 0.4, 0.0].iter().map(|&x| d(x)).collect();
            assert_eq!(inner.amps, expected);
            assert_eq!(inner.tile_map, vec![0, 1]);
        }
        AnalyticTypeInner::Ska(_) => panic!("not MWA tiles"),
    }
}

#[test]
fn gains_are_told_apart_by_their_bits() {
    let gpu = small(AnalyticType::MwaPb)
        .gpu_prepare(&delays(&[[0; 4]; 3]), &amps(&[[0.0; 4], [-0.0; 4], [0.0; 4]]))
        .unwrap();
    assert_eq!(gpu.get_tile_map(), &vec![0, 1, 0]);
}

#[test]
fn unmatched_rows_are_no_tiles() {
    let gpu = small(AnalyticType::MwaPb)
        .gpu_prepare(&delays(&[[0; 4]; 3]), &amps(&[[1.0; 4]; 2]))
        .unwrap();
    assert_eq!(gpu.get_tile_map(), &vec![0, 0]);
    let none = small(AnalyticType::MwaPb).gpu_prepare(&delays(&[]), &amps(&[])).unwrap();
    assert_eq!(none.get_total_num_tiles(), 0);
    assert_eq!(none.get_num_unique_tiles(), 0);
}

#[test]
fn tables_of_the_wrong_width_are_refused() {
    let beam = AnalyticBeam::new();
    match beam.gpu_prepare(&delays(&[[0; 4]; 3]), &amps(&[[1.0; 4]; 3])) {
        Err(AnalyticBeamError::IncorrectDelaysArrayColLength { rows, num_delays, expected }) => {
            assert_eq!((rows, num_delays, expected), (3, 4, 16));
        }
        _ => panic!("not refused"),
    }
    let narrow = RealTable::new(1, 3, vec![d(1.0); 3]).unwrap();
    match small(AnalyticType::MwaPb).gpu_prepare(&delays(&[[0; 4]]), &narrow) {
        Err(AnalyticBeamError::IncorrectAmpsLength { got, expected1, expected2 }) => {
            assert_eq!((got, expected1, expected2), (3, 4, 8));
        }
        _ => panic!("not refused"),
    }
    let wide = RealTable::new(1, 8, (0..8).map(|i| d(8.0 - i as f64)).collect()).unwrap();
    let gpu = small(AnalyticType::MwaPb).gpu_prepare(&delays(&[[0, 32, 0, 0]]), &wide).unwrap();
    match &gpu.analytic_type {
        AnalyticTypeInner::MwaRts(inner) => {
            assert_eq!(inner.amps, vec![d(4.0), d(0.0), d(2.0), d(1.0)]);
        }
        AnalyticTypeInner::Ska(_) => panic!("not MWA tiles"),
    }
}

#[test]
fn deduplication_is_undone() {
    let gpu = small(AnalyticType::MwaPb)
        .gpu_prepare(&delays(&[[1; 4], [2; 4], [1; 4], [3; 4]]), &amps(&[[1.0; 4]; 4]))
        .unwrap();
    let device = ResponseCube::from_flat(3, 2, 1, (0..6).map(jones).collect()).unwrap();
    let computed = || HostEvent::Computed(&device);
    let direction = Direction { az: d(0.0), za: d(0.0) };
    let results = finished(gpu.calc_jones(&[direction], &[150, 160], d(0.0), true, computed()));
    assert_eq!((results.num_tiles(), results.num_freqs(), results.num_directions()), (4, 2, 1));
    for (tile, unique) in [(0, 0), (1, 1), (2, 0), (3, 2)] {
        for freq in 0..2 {
            assert_eq!(results.get(tile, freq, 0), device.get(unique, freq, 0));
        }
    }
    let zero = [d(0.0)];
    let pairs =
        finished(gpu.calc_jones_pair(&zero, &zero, &[150, 160], d(0.0), true, computed()));
    assert_eq!(pairs.get(3, 1, 0), jones(5));
    let fill = |results: &mut ResponseCube| {
        finished(gpu.calc_jones_pair_inner(
            &zero,
            &zero,
            &[150, 160],
            d(0.0),
            true,
            computed(),
            results,
        ))
    };
    let mut more = ResponseCube::new(5, 2, 1, jones(100));
    fill(&mut more);
    assert_eq!(more.get(2, 1, 0), jones(1));
    assert_eq!(more.get(4, 0, 0), jones(100));
    let mut fewer = ResponseCube::new(2, 2, 1, jones(100));
    fill(&mut fewer);
    assert_eq!(fewer.get(1, 0, 0), jones(2));
}

#[test]
fn device_failures_are_handed_on() {
    let gpu = small(AnalyticType::MwaPb)
        .gpu_prepare(&delays(&[[1; 4]]), &amps(&[[1.0; 4]]))
        .unwrap();
    let failed = || {
        HostEvent::Failed(AnalyticBeamError::Gpu(GpuError::Kernel {
            msg: "broken".to_string(),
            file: "here",
            line: 7,
        }))
    };
    let zero = [d(0.0)];
    let mut results = ResponseCube::new(1, 1, 1, jones(100));
    let step =
        gpu.calc_jones_pair_inner(&zero, &zero, &[150], d(0.0), true, failed(), &mut results);
    match step {
        HostStep::Finish(Err(AnalyticBeamError::Gpu(GpuError::Kernel { msg, file, line }))) => {
            assert_eq!((msg.as_str(), file, line), ("broken", "here", 7));
        }
        _ => panic!("no failure"),
    }
    assert_eq!(results.get(0, 0, 0), jones(100));
    let azels = [Direction { az: d(0.0), za: d(0.0) }];
    assert!(matches!(
        gpu.calc_jones(&azels, &[150], d(0.0), true, failed()),
        HostStep::Finish(Err(_))
    ));
    assert!(matches!(
        gpu.calc_jones_pair(&zero, &zero, &[150], d(0.0), true, failed()),
        HostStep::Finish(Err(_))
    ));
}

#[test]
fn ska_stations_are_laid_out() {
    let beam = AnalyticBeam::new_ska(ska_config());
    let gpu = beam.gpu_prepare(&delays(&[]), &amps(&[])).unwrap();
    assert_eq!(gpu.get_total_num_tiles(), 2);
    match &gpu.analytic_type {
        AnalyticTypeInner::Ska(inner) => {
            assert_eq!(inner.num_stations, 2);
            let expected: Vec<Double> = [1.0, 2.0, 0.0, 3.0, 4.0, 0.0, 5.0, 6.0, 0.5]
                .iter()
                .map(|&x| d(x))
                .collect();
            assert_eq!(inner.feed_coordinates, expected);
            assert_eq!(inner.feed_angles, vec![d(0.1), d(0.2), d(0.3), d(0.4)]);
            assert_eq!(inner.num_elems_per_station, vec![1, 2]);
            assert_eq!(inner.phase_centre, RADec { ra: d(0.5), dec: d(-0.4) });
            assert_eq!(inner.site_latitude_rad, d(-0.47));
            let azs = [d(0.1), d(0.2), d(0.3)];
            let zas = [d(0.4), d(0.5), d(0.6)];
            let freqs = [150, 160];
            let request = requested(inner.calc_jones_device_pair(
                &azs,
                &zas,
                &freqs,
                d(1.5),
                false,
                DeviceEvent::Start { jones_bytes: 64 },
            ));
            assert_eq!(request.az_rad, azs);
            assert_eq!(request.za_rad, zas);
            assert_eq!(request.freqs_hz, freqs);
            assert_eq!(
                request.sizes,
                DeviceSizes { bytes: 768, num_directions: 3, num_freqs: 2 }
            );
            let launch = launched(inner.calc_jones_device_pair(
                &azs,
                &zas,
                &freqs,
                d(1.5),
                false,
                DeviceEvent::Copied(buffers()),
            ));
            assert!(matches!(launch.kernel, Kernel::Ska(on) if std::ptr::eq(on, inner)));
            assert_launched_on(&launch, 3, 2, d(1.5), false);
            let b = buffers();
            let inner_step = |num_directions| {
                inner.calc_jones_device_pair_inner(
                    b.d_az_rad,
                    b.d_za_rad,
                    num_directions,
                    b.d_freqs_hz,
                    2,
                    d(1.5),
                    true,
                    b.d_results,
                )
            };
            assert!(matches!(inner_step(0), KernelStep::Done));
            let launch = launched(DeviceStep::Kernel(inner_step(5)));
            assert!(matches!(launch.kernel, Kernel::Ska(on) if std::ptr::eq(on, inner)));
            assert_launched_on(&launch, 5, 2, d(1.5), true);
        }
        AnalyticTypeInner::MwaRts(_) => panic!("not SKA stations"),
    }
    let device = ResponseCube::from_flat(2, 1, 2, (0..4).map(jones).collect()).unwrap();
    let angles = [d(0.0), d(0.1)];
    let computed = HostEvent::Computed(&device);
    let results =
        finished(gpu.calc_jones_pair(&angles, &angles, &[150], d(0.0), true, computed));
    for (tile, direction) in [(0, 0), (0, 1), (1, 0), (1, 1)] {
        assert_eq!(results.get(tile, 0, direction), device.get(tile, 0, direction));
    }
}

#[test]
fn device_is_asked_for_the_directions() {
    for beam_type in [AnalyticType::MwaPb, AnalyticType::Rts] {
        let gpu: AnalyticBeamGpu = small(beam_type)
            .gpu_prepare(&delays(&[[1; 4], [2; 4], [1; 4]]), &amps(&[[1.0; 4]; 3]))
            .unwrap();
        assert_eq!(gpu.get_device_num_tiles(), 2);
        let azs = [d(0.1), d(0.2), d(0.3)];
        let zas = [d(0.4), d(0.5), d(0.6)];
        let azels = [0, 1, 2].map(|i| Direction { az: azs[i], za: zas[i] });
        let freqs = [150, 160];
        let start = DeviceEvent::Start { jones_bytes: 32 };
        let mut none = ResponseCube::new(3, 2, 3, jones(100));
        let host = HostEvent::Device;
        let lat = d(-0.47);
        let requests = [
            requested(gpu.calc_jones_device(&azels, &freqs, lat, true, start)),
            requested(on_device(gpu.calc_jones(&azels, &freqs, lat, true, host(start)))),
            requested(on_device(gpu.calc_jones_pair(&azs, &zas, &freqs, lat, true, host(start)))),
            requested(on_device(gpu.calc_jones_pair_inner(
                &azs,
                &zas,
                &freqs,
                lat,
                true,
                host(start),
                &mut none,
            ))),
        ];
        for request in requests {
            assert_eq!(request.az_rad, azs);
            assert_eq!(request.za_rad, zas);
            assert_eq!(request.freqs_hz, freqs);
            assert_eq!(
                request.sizes,
                DeviceSizes { bytes: 384, num_directions: 3, num_freqs: 2 }
            );
        }
        let copied = DeviceEvent::Copied(buffers());
        let launches = [
            launched(gpu.calc_jones_device(&azels, &freqs, lat, true, copied)),
            launched(on_device(gpu.calc_jones(&azels, &freqs, lat, true, host(copied)))),
            launched(on_device(gpu.calc_jones_pair(&azs, &zas, &freqs, lat, true, host(copied)))),
            launched(on_device(gpu.calc_jones_pair_inner(
                &azs,
                &zas,
                &freqs,
                lat,
                true,
                host(copied),
                &mut none,
            ))),
        ];
        let rts = matches!(beam_type, AnalyticType::Rts);
        for launch in &launches {
            assert_launched_on(launch, 3, 2, lat, true);
            match launch.kernel {
                Kernel::MwaPb(tiles) => assert!(!rts && tiles.num_unique_tiles == 2),
                Kernel::Rts(tiles) => assert!(rts && tiles.num_unique_tiles == 2),
                Kernel::Ska(_) => panic!("not MWA tiles"),
            }
        }
        assert_eq!(none.get(2, 1, 2), jones(100));
    }
}

#[test]
fn nothing_is_launched_without_directions() {
    let mwa = small(AnalyticType::MwaPb)
        .gpu_prepare(&delays(&[[1; 4]]), &amps(&[[1.0; 4]]))
        .unwrap();
    let ska = AnalyticBeam::new_ska(ska_config())
        .gpu_prepare(&delays(&[]), &amps(&[]))
        .unwrap();
    let b = buffers();
    for gpu in [mwa, ska] {
        let step = |num_directions| {
            gpu.calc_jones_device_pair_inner(
                b.d_az_rad,
                b.d_za_rad,
                num_directions,
                b.d_freqs_hz,
                2,
                d(0.5),
                false,
                b.d_results,
            )
        };
        assert!(matches!(step(0), KernelStep::Done));
        let launch = launched(DeviceStep::Kernel(step(4)));
        assert_launched_on(&launch, 4, 2, d(0.5), false);
        let copied = HostEvent::Device(DeviceEvent::Copied(b));
        assert!(matches!(
            on_device(gpu.calc_jones(&[], &[150], d(0.0), true, copied)),
            DeviceStep::Kernel(KernelStep::Done)
        ));
    }
}

#[test]
fn beams_that_can_be_prepared() {
    let table = (delays(&[[1; 4]]), amps(&[[1.0; 4]]));
    assert!(small(AnalyticType::MwaPb).is_preparable(&table.0, &table.1));
    assert!(AnalyticBeam::new().is_preparable(&table.0, &table.1));
    assert!(!small(AnalyticType::Ska).is_preparable(&table.0, &table.1));
    assert!(AnalyticBeam::new_ska(ska_config()).is_preparable(&table.0, &table.1));
    let partial = SkaConfig { feed_angles_rad: None, ..ska_config() };
    assert!(!AnalyticBeam::new_ska(partial).is_preparable(&table.0, &table.1));
    let partial = SkaConfig { feed_coordinates: None, ..ska_config() };
    assert!(!AnalyticBeam::new_ska(partial).is_preparable(&table.0, &table.1));
}

#[test]
fn kernel_failures_are_reported() {
    assert!(SkaInner::kernel_outcome(KernelReply::Success, "here", 7).is_ok());
    let said = |reply| match SkaInner::kernel_outcome(reply, "here", 7) {
        Err(AnalyticBeamError::Gpu(GpuError::Kernel { msg, file, line })) => {
            assert_eq!((file, line), ("here", 7));
            msg
        }
        _ => panic!("no failure"),
    };
    assert_eq!(
        said(KernelReply::Message("out of memory".to_string())),
        "ska_analytic.h:ska_analytic_calc_jones_gpu failed with: out of memory"
    );
    assert_eq!(
        said(KernelReply::Unreadable),
        "ska_analytic.h:ska_analytic_calc_jones_gpu failed with: <cannot read GPU error string>"
    );
}

#[test]
fn device_holds_what_enters_the_response() {
    for beam_type in [AnalyticType::MwaPb, AnalyticType::Rts] {
        let beam = small(beam_type);
        let rows = [[1, 2, 3, 4], [5, 32, 7, 8], [1, 2, 3, 4]];
        let gains = [[0.1, 0.2, 0.3, 0.4], [0.5, 0.6, 0.7, 0.8], [0.1, 0.2, 0.3, 0.4]];
        let gpu = beam.gpu_prepare(&delays(&rows), &amps(&gains)).unwrap();
        let inner = match &gpu.analytic_type {
            AnalyticTypeInner::MwaRts(inner) => inner,
            AnalyticTypeInner::Ska(_) => panic!("not MWA tiles"),
        };
        assert_eq!(inner.num_unique_tiles, 2);
        for t in 0..3 {
            let tile_amps: Vec<Double> = gains[t].iter().map(|&x| d(x)).collect();
            let direction = Direction { az: d(0.0), za: d(0.0) };
            let task = beam
                .calc_jones(direction, 1, &rows[t], &tile_amps, d(0.0), true, None)
                .unwrap();
            let response = match task.response.unwrap() {
                Response::Mwa(response) => response,
                Response::Ska(_) => panic!("not an MWA response"),
            };
            let u = inner.tile_map[t] as usize;
            assert_eq!(inner.means_of[u], response.mean_of);
            for k in 0..4 {
                assert_eq!(inner.delays[u * 4 + k], response.dipoles[k].delay);
                assert_eq!(inner.amps[u * 4 + k], response.dipoles[k].amp);
            }
        }
    }
}
