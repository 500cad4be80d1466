//! The gains of a tile's bowties.

use vstd::prelude::*;

use crate::double::Double;

verus! {

/// The delay that marks a bowtie as unused.
pub const UNUSED: u32 = 32;

/// Is this number of gains one, or two, for each of `num_delays` bowties?
pub open spec fn amps_fit(num_amps: nat, num_delays: nat) -> bool {
    num_amps == num_delays || num_amps == num_delays * 2
}

/// Is this number of gains one, or two, for each of `num_delays` bowties?
pub fn one_or_two_each(num_amps: usize, num_delays: usize) -> (r: bool)
    ensures
        r == amps_fit(num_amps as nat, num_delays as nat),
{
    num_amps == num_delays || (num_amps % 2 == 0 && num_amps / 2 == num_delays)
}

/// The gain of bowtie `i`: none where the bowtie is unused, the smaller of its two dipoles' gains
/// where there are two for each bowtie, else the gain as given.
pub open spec fn fixed_amp(amps: Seq<Double>, delays: Seq<u32>, i: int) -> Double {
    if delays[i] == UNUSED {
        Double { bits: 0 }
    } else if amps.len() == delays.len() {
        amps[i]
    } else {
        amps[i].smaller(amps[i + delays.len()])
    }
}

/// The gains of all bowties of a tile.
pub open spec fn fixed_amps(amps: Seq<Double>, delays: Seq<u32>) -> Seq<Double> {
    Seq::new(delays.len(), |i: int| fixed_amp(amps, delays, i))
}

/// One gain for each bowtie: any delay of 32 has a gain of 0, and of two gains given for a bowtie
/// the smaller is used.
pub fn fix_amps(amps: &[Double], delays: &[u32]) -> (fixed: Vec<Double>)
    requires
        amps_fit(amps@.len(), delays@.len()),
    ensures
        fixed@ == fixed_amps(amps@, delays@),
{
    let num_amps = amps.len();
    let num_bowties = delays.len();
    let mut fixed: Vec<Double> = Vec::with_capacity(num_bowties);
    let mut i: usize = 0;
    while i < num_bowties
        invariant
            i <= num_bowties,
            num_bowties == delays@.len(),
            amps_fit(amps@.len(), delays@.len()),
            num_amps == amps@.len(),
            fixed@ =~= fixed_amps(amps@, delays@).take(i as int),
        decreases num_bowties - i,
    {
        let amp = if delays[i] == UNUSED {
            Double { bits: 0 }
        } else if num_amps == num_bowties {
            amps[i]
        } else {
            amps[i].min(amps[i + num_bowties])
        };
        fixed.push(amp);
        i = i + 1;
    }
    fixed
}

/// An unused bowtie has no gain, whatever gains come with it.
pub proof fn law_unused_bowties_have_no_gain(amps: Seq<Double>, delays: Seq<u32>, i: int)
    requires
        amps_fit(amps.len(), delays.len()),
        0 <= i < delays.len(),
        delays[i] == UNUSED,
    ensures
        fixed_amps(amps, delays)[i].bits == 0,
        fixed_amps(amps, delays)[i].value() == 0,
{
    assert(crate::double::magnitude_value(0) == 0);
}

/// Giving the same gain to both dipoles of every bowtie is giving it to the bowtie.
pub proof fn law_equal_dipoles_count_as_one(amps: Seq<Double>, delays: Seq<u32>)
    requires
        amps.len() == delays.len(),
    ensures
        fixed_amps(amps + amps, delays) == fixed_amps(amps, delays),
{
    assert(fixed_amps(amps + amps, delays) =~= fixed_amps(amps, delays));
}

/// A bowtie in use has the gain of one of its two dipoles, and neither dipole's gain is below it.
pub proof fn law_smallest_gain_is_used(amps: Seq<Double>, delays: Seq<u32>, i: int)
    requires
        amps.len() == delays.len() * 2,
        0 <= i < delays.len(),
        delays[i] != UNUSED,
    ensures
        ({
            let gain = fixed_amps(amps, delays)[i];
            let other = amps[i + delays.len()];
            &&& gain == amps[i] || gain == other
            &&& !gain.exceeds(amps[i])
            &&& !gain.exceeds(other)
            &&& gain.is_nan() ==> amps[i].is_nan() && other.is_nan()
        }),
{
}

} // verus!
