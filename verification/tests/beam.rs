use analytic_beam::beam::{find_below_horizon, split_directions, AnalyticBeam, AnalyticType};
use analytic_beam::double::Double;
use analytic_beam::error::AnalyticBeamError;
use analytic_beam::response::{
    Dipole, Direction, Element, ElementPattern, JonesTask, MwaResponse, RADec, Response, SkaResponse,
};
use analytic_beam::stations::{check_station, SkaConfig};
use analytic_beam::table::RealTable;

fn d(x: f64) -> Double {
    Double { bits: x.to_bits() }
}

fn dir(az: f64, za: f64) -> Direction {
    Direction { az: d(az), za: d(za) }
}

const HORIZON: f64 = std::f64::consts::FRAC_PI_2;

fn below() -> f64 {
    f64::from_bits(HORIZON.to_bits() + 1)
}

fn mwa(task: &JonesTask) -> &MwaResponse {
    match task.response.as_ref().unwrap() {
        Response::Mwa(r) => r,
        Response::Ska(_) => panic!("not an MWA response"),
    }
}

fn ska(task: &JonesTask) -> &SkaResponse {
    match task.response.as_ref().unwrap() {
        Response::Ska(r) => r,
        Response::Mwa(_) => panic!("not an SKA response"),
    }
}

fn table(rows: &[[f64; 3]]) -> RealTable {
    let flat = rows.iter().flat_map(|r| r.iter().map(|&x| d(x))).collect();
    RealTable::new(rows.len(), 3, flat).unwrap()
}

fn config() -> SkaConfig {
    SkaConfig {
        number_of_stations: 2,
        feed_angles_rad: Some(vec![vec![d(0.0), d(1.5)], vec![d(0.1), d(1.6)]]),
        feed_coordinates: Some(vec![
            table(&[[1.0, 2.0, 0.0], [3.0, 4.0, -1e-11]]),
            table(&[[5.0, 6.0, 0.0], [7.0, 8.0, 0.0], [9.0, 10.0, 0.0]]),
        ]),
        phase_centre: RADec { ra: d(0.5), dec: d(-0.4) },
        site_latitude_rad: d(-0.47),
    }
}

#[test]
fn default_heights() {
    assert_eq!(AnalyticType::MwaPb.get_default_dipole_height(), d(0.278));
    assert_eq!(AnalyticType::Rts.get_default_dipole_height(), d(0.30));
    assert_eq!(AnalyticType::Ska.get_default_dipole_height(), d(0.0));
    assert_eq!(AnalyticType::SkaMean.get_default_dipole_height(), d(0.0));
}

#[test]
fn constructors() {
    for beam in [AnalyticBeam::new(), AnalyticBeam::default()] {
        assert_eq!(beam.beam_type, AnalyticType::MwaPb);
        assert_eq!(beam.dipole_height, d(0.278));
        assert_eq!(beam.bowties_per_row, 4);
        assert_eq!(beam.get_num_bowties(), 16);
        assert!(beam.ska_config.is_none());
    }
    let rts = AnalyticBeam::new_rts();
    assert_eq!(rts.beam_type, AnalyticType::Rts);
    assert_eq!(rts.dipole_height, d(0.30));
    assert_eq!(rts.bowties_per_row, 4);
    assert!(rts.ska_config.is_none());
    let cram = AnalyticBeam::new_custom(AnalyticType::Rts, d(0.29), 8);
    assert_eq!(cram.beam_type, AnalyticType::Rts);
    assert_eq!(cram.dipole_height, d(0.29));
    assert_eq!(cram.get_num_bowties(), 64);
    assert_eq!(AnalyticBeam::new_custom(AnalyticType::MwaPb, d(0.3), 15).get_num_bowties(), 225);
    let ska = AnalyticBeam::new_ska(config());
    assert_eq!(ska.beam_type, AnalyticType::Ska);
    assert_eq!(ska.dipole_height, d(0.0));
    assert_eq!(ska.bowties_per_row, 0);
    assert_eq!(ska.ska_config.as_ref().unwrap().number_of_stations, 2);
}

#[test]
fn directions_below_the_horizon_are_refused() {
    let beam = AnalyticBeam::new();
    let amps = vec![d(1.0); 16];
    let r = beam.calc_jones_pair(d(0.1), d(below()), 1, &[0; 16], &amps, d(0.0), true, None);
    match r {
        Err(AnalyticBeamError::BelowHorizon { za }) => assert_eq!(za, d(below())),
        _ => panic!("not refused"),
    }
    assert!(beam.calc_jones(dir(0.1, HORIZON), 1, &[0; 16], &amps, d(0.0), true, None).is_ok());
    assert!(beam.calc_jones(dir(0.1, f64::NAN), 1, &[0; 16], &amps, d(0.0), true, None).is_ok());
    // The horizon comes before the numbers of delays and gains.
    let r = beam.calc_jones(dir(0.1, 3.0), 1, &[0; 3], &amps, d(0.0), true, None);
    assert!(matches!(r, Err(AnalyticBeamError::BelowHorizon { .. })));
}

#[test]
fn wrong_numbers_of_delays_and_gains_are_refused() {
    let beam = AnalyticBeam::new();
    let r = beam.calc_jones(dir(0.1, 0.1), 1, &[0; 15], &vec![d(1.0); 15], d(0.0), true, None);
    assert!(matches!(r, Err(AnalyticBeamError::IncorrectDelaysLength { got: 15, expected: 16 })));
    let r = beam.calc_jones(dir(0.1, 0.1), 1, &[0; 16], &vec![d(1.0); 17], d(0.0), true, None);
    assert!(matches!(
        r,
        Err(AnalyticBeamError::IncorrectAmpsLength { got: 17, expected1: 16, expected2: 32 })
    ));
    let cram = AnalyticBeam::new_custom(AnalyticType::MwaPb, d(0.278), 8);
    let r = cram.calc_jones_array(&[dir(0.1, 0.1)], 1, &[0; 16], &vec![d(1.0); 16], d(0.0), true, None);
    assert!(matches!(r, Err(AnalyticBeamError::IncorrectDelaysLength { got: 16, expected: 64 })));
    let r = cram.calc_jones_array_pair(&[d(0.1)], &[d(0.1)], 1, &[0; 64], &vec![d(1.0); 32], d(0.0), true, None);
    assert!(matches!(
        r,
        Err(AnalyticBeamError::IncorrectAmpsLength { got: 32, expected1: 64, expected2: 128 })
    ));
    let r = cram.calc_jones_array_pair_inner(&[d(0.1)], &[d(0.1)], 1, &[], &[], d(0.0), true, 1, None);
    assert!(matches!(r, Err(AnalyticBeamError::IncorrectDelaysLength { got: 0, expected: 64 })));
    assert!(cram.is_pair_calculable(d(0.1), 3, 5, None));
}

#[test]
fn mwa_pb_response() {
    let beam = AnalyticBeam::new();
    let delays: Vec<u32> = (0..16).collect();
    let amps: Vec<Double> = (0..16).map(|i| d(1.0 + i as f64)).collect();
    let task = beam
        .calc_jones(dir(0.7, 0.4), 180_000_000, &delays, &amps, d(-0.47), true, None)
        .unwrap();
    assert_eq!(task.directions, vec![dir(0.7, 0.4)]);
    assert_eq!(task.freq_hz, 180_000_000);
    let r = mwa(&task);
    assert_eq!(r.pattern, ElementPattern::MwaPb);
    assert_eq!(r.dipole_height, d(0.278));
    assert_eq!(r.num_bowties, 16);
    assert_eq!(r.mean_of, None);
    assert!(!r.falling_phase);
    assert!(!r.real_only);
    assert!(r.norm_to_zenith);
    assert_eq!(r.dipoles.len(), 16);
    assert_eq!(r.dipoles[0], Dipole { east: -3, north: -3, delay: 0, amp: d(1.0) });
    assert_eq!(r.dipoles[6], Dipole { east: 1, north: -1, delay: 6, amp: d(7.0) });
    assert_eq!(r.dipoles[15], Dipole { east: 3, north: 3, delay: 15, amp: d(16.0) });
}

#[test]
fn rts_response() {
    let beam = AnalyticBeam::new_rts();
    let delays: Vec<u32> = (0..16).collect();
    let amps: Vec<Double> = (0..16).map(|i| d(1.0 + i as f64)).collect();
    let task = beam
        .calc_jones(dir(0.7, 0.4), 180_000_000, &delays, &amps, d(-0.47), false, None)
        .unwrap();
    let r = mwa(&task);
    assert_eq!(r.pattern, ElementPattern::Rts { latitude_rad: d(-0.47) });
    assert_eq!(r.dipole_height, d(0.30));
    assert_eq!(r.num_bowties, 16);
    assert_eq!(r.mean_of, Some(120));
    assert!(r.falling_phase);
    assert!(r.real_only);
    assert!(!r.norm_to_zenith);
    assert_eq!(r.dipoles[0], Dipole { east: -3, north: -3, delay: 12, amp: d(13.0) });
    assert_eq!(r.dipoles[6], Dipole { east: -1, north: 1, delay: 5, amp: d(6.0) });
    assert_eq!(r.dipoles[15], Dipole { east: 3, north: 3, delay: 3, amp: d(4.0) });
}

#[test]
fn both_mwa_beams_see_the_same_tile() {
    let delays: Vec<u32> = (0..16).collect();
    let amps: Vec<Double> = (0..32).map(|i| d(1.0 + (i * 7 % 5) as f64)).collect();
    let one = AnalyticBeam::new()
        .calc_jones(dir(0.7, 0.4), 1, &delays, &amps, d(0.0), false, None)
        .unwrap();
    let two = AnalyticBeam::new_rts()
        .calc_jones(dir(0.7, 0.4), 1, &delays, &amps, d(0.0), false, None)
        .unwrap();
    for a in &mwa(&two).dipoles {
        let b = mwa(&one).dipoles[a.delay as usize];
        assert_eq!(a.amp, b.amp);
        assert_eq!(a.east, b.east);
        assert_eq!(a.north, -b.north);
    }
}

#[test]
fn mwa_responses_take_no_tile_index_and_mwa_pb_no_latitude() {
    let delays: Vec<u32> = (0..16).collect();
    let amps: Vec<Double> = (0..16).map(|i| d(1.0 + i as f64)).collect();
    for beam in [AnalyticBeam::new(), AnalyticBeam::new_rts()] {
        let ask = |latitude: f64, tile_index| {
            beam.calc_jones(dir(0.7, 0.4), 1, &delays, &amps, d(latitude), true, tile_index)
                .unwrap()
        };
        let one = ask(-0.47, None);
        for tile_index in [Some(0), Some(7), Some(usize::MAX)] {
            let other = ask(-0.47, tile_index);
            assert_eq!(mwa(&one).pattern, mwa(&other).pattern);
            assert_eq!(mwa(&one).dipoles, mwa(&other).dipoles);
            assert_eq!(mwa(&one).mean_of, mwa(&other).mean_of);
            assert_eq!(mwa(&one).dipole_height, mwa(&other).dipole_height);
        }
        let elsewhere = ask(0.3, None);
        assert_eq!(mwa(&one).dipoles, mwa(&elsewhere).dipoles);
        assert_eq!(
            mwa(&one).pattern == mwa(&elsewhere).pattern,
            matches!(beam.beam_type, AnalyticType::MwaPb)
        );
    }
}

#[test]
fn dead_dipoles_have_no_gain_in_the_response() {
    let mut delays = [0; 16];
    delays[3] = 32;
    let task = AnalyticBeam::new()
        .calc_jones(dir(0.0, 0.0), 1, &delays, &vec![d(1.0); 16], d(0.0), false, None)
        .unwrap();
    for (k, dipole) in mwa(&task).dipoles.iter().enumerate() {
        assert_eq!(dipole.amp, d(if k == 3 { 0.0 } else { 1.0 }));
    }
}

#[test]
fn many_directions_are_each_of_them() {
    let beam = AnalyticBeam::new_rts();
    let delays: Vec<u32> = (0..16).rev().collect();
    let amps = vec![d(0.5); 16];
    let azels = [dir(0.1, 0.2), dir(0.3, 0.4), dir(0.5, 0.6)];
    let many = beam.calc_jones_array(&azels, 7, &delays, &amps, d(-0.4), true, None).unwrap();
    assert_eq!(many.directions, azels.to_vec());
    for azel in azels {
        let one = beam.calc_jones(azel, 7, &delays, &amps, d(-0.4), true, None).unwrap();
        assert_eq!(one.directions, vec![azel]);
        assert_eq!(one.freq_hz, many.freq_hz);
        assert_eq!(mwa(&one).pattern, mwa(&many).pattern);
        assert_eq!(mwa(&one).dipoles, mwa(&many).dipoles);
        assert_eq!(mwa(&one).mean_of, mwa(&many).mean_of);
    }
    let (azs, zas) = split_directions(&azels);
    let pairs = beam
        .calc_jones_array_pair(&azs, &zas, 7, &delays, &amps, d(-0.4), true, None)
        .unwrap();
    assert_eq!(pairs.directions, many.directions);
    assert_eq!(mwa(&pairs).dipoles, mwa(&many).dipoles);
}

#[test]
fn first_direction_below_the_horizon_is_reported() {
    let zas = [d(0.1), d(2.0), d(0.2), d(3.0)];
    assert_eq!(find_below_horizon(&zas), Some(d(2.0)));
    assert_eq!(find_below_horizon(&zas[..1]), None);
    assert_eq!(find_below_horizon(&[]), None);
    let beam = AnalyticBeam::new();
    let azels = [dir(0.0, 0.1), dir(0.0, 2.0), dir(0.0, 3.0)];
    match beam.calc_jones_array(&azels, 1, &[0; 2], &[], d(0.0), true, None) {
        Err(AnalyticBeamError::BelowHorizon { za }) => assert_eq!(za, d(2.0)),
        _ => panic!("not refused"),
    }
    // Directions for which there is no place are refused all the same.
    let r = beam.calc_jones_array_inner(&azels, 1, &[0; 16], &vec![d(1.0); 16], d(0.0), true, 1, None);
    assert!(matches!(r, Err(AnalyticBeamError::BelowHorizon { .. })));
    let r = beam.calc_jones_array_pair(&[], &[d(2.0)], 1, &[0; 16], &vec![d(1.0); 16], d(0.0), true, None);
    assert!(matches!(r, Err(AnalyticBeamError::BelowHorizon { .. })));
}

#[test]
fn only_as_many_directions_as_there_is_place_for() {
    let beam = AnalyticBeam::new();
    let amps = vec![d(1.0); 16];
    let azels = [dir(0.1, 0.2), dir(0.3, 0.4), dir(0.5, 0.6)];
    let task = beam
        .calc_jones_array_inner(&azels, 1, &[0; 16], &amps, d(0.0), true, 2, None)
        .unwrap();
    assert_eq!(task.directions, azels[..2].to_vec());
    let task = beam
        .calc_jones_array_pair(&[d(0.1), d(0.3), d(0.5)], &[d(0.2)], 1, &[0; 16], &amps, d(0.0), true, None)
        .unwrap();
    assert_eq!(task.directions, azels[..1].to_vec());
    let task = beam
        .calc_jones_array_pair_inner(&[d(0.1), d(0.3)], &[d(0.2), d(0.4)], 1, &[0; 16], &amps, d(0.0), true, 0, None)
        .unwrap();
    assert!(task.directions.is_empty());
    assert!(task.response.is_none());
}

#[test]
fn ska_station_response() {
    let beam = AnalyticBeam::new_ska(config());
    assert!(beam.is_ready(Some(0)));
    assert!(beam.is_ready(Some(1)));
    assert!(!beam.is_ready(Some(2)));
    assert!(!beam.is_ready(None));
    let task = beam
        .calc_jones(dir(0.1, 0.2), 5, &[], &[], d(1.25), true, Some(0))
        .unwrap();
    let r = ska(&task);
    assert_eq!(r.lst_rad, d(1.25));
    assert_eq!(r.site_latitude_rad, d(-0.47));
    assert_eq!(r.phase_centre, RADec { ra: d(0.5), dec: d(-0.4) });
    assert_eq!(
        r.stations,
        vec![vec![Element { x: d(1.0), y: d(2.0) }, Element { x: d(3.0), y: d(4.0) }]]
    );
    assert_eq!(r.divisor, 2);
    // Delays and gains make no difference.
    let other = beam
        .calc_jones_array(&[dir(0.1, 0.2)], 5, &[1, 2, 3], &vec![d(1.0); 6], d(1.25), false, Some(0))
        .unwrap();
    assert_eq!(ska(&other).stations, r.stations);
}

#[test]
fn ska_mean_response() {
    let mut beam = AnalyticBeam::new_custom(AnalyticType::SkaMean, d(0.0), 1);
    assert!(!beam.is_ready(Some(0)));
    beam.ska_config = Some(config());
    assert!(beam.is_ready(Some(0)));
    // The first station has fewer elements than the second.
    assert!(!beam.is_ready(Some(1)));
    let task = beam
        .calc_jones(dir(0.1, 0.2), 5, &[0], &[d(1.0)], d(1.25), true, Some(0))
        .unwrap();
    let r = ska(&task);
    assert_eq!(r.divisor, 2);
    assert_eq!(
        r.stations,
        vec![
            vec![Element { x: d(1.0), y: d(2.0) }, Element { x: d(3.0), y: d(4.0) }],
            vec![Element { x: d(5.0), y: d(6.0) }, Element { x: d(7.0), y: d(8.0) }],
        ]
    );
    // One direction is held to the number of bowties, many are not.
    let r = beam.calc_jones(dir(0.1, 0.2), 5, &[], &[], d(1.25), true, Some(0));
    assert!(matches!(r, Err(AnalyticBeamError::IncorrectDelaysLength { got: 0, expected: 1 })));
    assert!(beam.calc_jones_array(&[dir(0.1, 0.2)], 5, &[], &[], d(1.25), true, Some(0)).is_ok());
}

#[test]
fn stations_have_to_be_flat_and_complete() {
    assert!(check_station(&table(&[[0.0, 0.0, 9.9e-11]]), 1));
    assert!(!check_station(&table(&[[0.0, 0.0, 1e-10]]), 1));
    assert!(!check_station(&table(&[[0.0, 0.0, -0.5]]), 1));
    assert!(!check_station(&table(&[[0.0, 0.0, f64::NAN]]), 1));
    assert!(check_station(&table(&[[0.0, 0.0, 0.0], [0.0, 0.0, 1.0]]), 1));
    assert!(!check_station(&table(&[[0.0, 0.0, 0.0]]), 2));
    let narrow = RealTable::new(1, 2, vec![d(0.0); 2]).unwrap();
    assert!(!check_station(&narrow, 1));
    assert!(check_station(&narrow, 0));
    let mut beam = AnalyticBeam::new_ska(config());
    beam.ska_config.as_mut().unwrap().feed_angles_rad = None;
    assert!(!beam.is_ready(Some(0)));
    assert!(!beam.is_pair_calculable(d(0.1), 0, 0, Some(0)));
    assert!(beam.is_pair_calculable(d(3.0), 0, 0, Some(0)));
    assert!(beam.is_array_calculable(&[], 0, 0, 0, Some(0)));
    assert!(!beam.is_array_calculable(&[d(0.1)], 0, 0, 1, Some(0)));
    assert!(!beam.is_array_calculable(&[], 1, 3, 0, Some(0)));
}
