use analytic_beam::amps::{fix_amps, one_or_two_each, UNUSED};
use analytic_beam::double::Double;
use analytic_beam::rts::{bowties_per_side, delays_as_given, reorder_to_rts};

fn d(x: f64) -> Double {
    Double { bits: x.to_bits() }
}

fn ds(xs: &[f64]) -> Vec<Double> {
    xs.iter().map(|&x| d(x)).collect()
}

#[test]
fn unused_delay_is_32() {
    assert_eq!(UNUSED, 32);
}

#[test]
fn one_gain_for_each_bowtie_is_kept() {
    let amps = ds(&[1.0, 0.5, 0.25, 0.75]);
    assert_eq!(fix_amps(&amps, &[0, 1, 2, 3]), amps);
}

#[test]
fn unused_bowties_have_no_gain() {
    let amps = ds(&[1.0, 1.0, 1.0, 1.0]);
    assert_eq!(fix_amps(&amps, &[0, 32, 31, 32]), ds(&[1.0, 0.0, 1.0, 0.0]));
}

#[test]
fn smaller_of_two_gains_is_used() {
    let amps = ds(&[1.0, 0.2, 1.0, f64::NAN, 0.9, 0.4, 0.0, 0.5]);
    assert_eq!(fix_amps(&amps, &[0, 0, 0, 0]), ds(&[0.9, 0.2, 0.0, 0.5]));
}

#[test]
fn unused_bowties_have_no_gain_among_two() {
    let amps = ds(&[1.0, 1.0, 1.0, 1.0, -1.0, 1.0, 0.5, 1.0]);
    assert_eq!(fix_amps(&amps, &[32, 32, 0, 0]), ds(&[0.0, 0.0, 0.5, 1.0]));
}

#[test]
fn equal_dipoles_count_as_one() {
    let amps = ds(&[1.0, 0.2, -0.0, 0.5]);
    let mut doubled = amps.clone();
    doubled.extend(amps.iter().copied());
    let delays = [3, 32, 1, 0];
    assert_eq!(fix_amps(&doubled, &delays), fix_amps(&amps, &delays));
}

#[test]
fn no_bowties_have_no_gains() {
    assert!(fix_amps(&[], &[]).is_empty());
}

#[test]
fn gains_come_once_or_twice() {
    assert!(one_or_two_each(16, 16));
    assert!(one_or_two_each(32, 16));
    assert!(!one_or_two_each(17, 16));
    assert!(!one_or_two_each(33, 16));
    assert!(!one_or_two_each(8, 16));
    assert!(one_or_two_each(0, 0));
}

#[test]
fn sides_of_square_tiles() {
    for side in 0..=15usize {
        assert_eq!(bowties_per_side(side * side), side);
    }
}

#[test]
fn rts_order_of_a_normal_tile() {
    let delays: Vec<u32> = (0..16).collect();
    let amps: Vec<Double> = (0..16).map(|i| d(i as f64)).collect();
    let (rts_amps, rts_delays) = reorder_to_rts(&amps, &delays);
    let expected = vec![12, 8, 4, 0, 13, 9, 5, 1, 14, 10, 6, 2, 15, 11, 7, 3];
    assert_eq!(rts_delays.steps, expected);
    assert_eq!(rts_amps, expected.iter().map(|&i| d(i as f64)).collect::<Vec<_>>());
    assert_eq!(rts_delays.mean_of, Some(120));
}

#[test]
fn rts_order_of_small_tiles() {
    let one = ds(&[1.0]);
    let (amps, delays) = reorder_to_rts(&one, &[7]);
    assert_eq!(amps, one);
    assert_eq!(delays.steps, vec![7]);
    assert_eq!(delays.mean_of, Some(7));
    let (amps, delays) = reorder_to_rts(&ds(&[1.0, 2.0, 3.0, 4.0]), &[1, 2, 3, 4]);
    assert_eq!(amps, ds(&[3.0, 1.0, 4.0, 2.0]));
    assert_eq!(delays.steps, vec![3, 1, 4, 2]);
    let (amps, delays) = reorder_to_rts(&[], &[]);
    assert!(amps.is_empty());
    assert!(delays.steps.is_empty());
    assert_eq!(delays.mean_of, Some(0));
}

#[test]
fn four_quarter_turns_are_none() {
    let given: Vec<u32> = (0..64).map(|i| i * 3 + 1).collect();
    let amps = vec![d(1.0); 64];
    let mut delays = given.clone();
    for turn in 1..=4 {
        delays = reorder_to_rts(&amps, &delays).1.steps;
        if turn == 2 {
            let mut backwards = given.clone();
            backwards.reverse();
            assert_eq!(delays, backwards);
        }
    }
    assert_eq!(delays, given);
}

#[test]
fn rts_order_keeps_the_values_and_their_mean() {
    let delays: Vec<u32> = vec![5, 32, 0, 1, 1, 1, 7, 9, 4];
    let (_, rts) = reorder_to_rts(&vec![d(1.0); 9], &delays);
    let mut a = delays.clone();
    let mut b = rts.steps.clone();
    a.sort();
    b.sort();
    assert_eq!(a, b);
    assert_eq!(rts.mean_of, Some(60));
    let offset: i64 = rts.steps.iter().map(|&s| 9 * i64::from(s) - 60).sum();
    assert_eq!(offset, 0);
}

#[test]
fn large_delays_do_not_overflow() {
    let (_, rts) = reorder_to_rts(&vec![d(1.0); 4], &[u32::MAX; 4]);
    assert_eq!(rts.mean_of, Some(4 * u128::from(u32::MAX)));
}

#[test]
fn given_delays_are_kept() {
    let delays = delays_as_given(&[3, 1, 2]);
    assert_eq!(delays.steps, vec![3, 1, 2]);
    assert_eq!(delays.mean_of, None);
}
