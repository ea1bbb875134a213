//! Publication point between the sampling context and the display loop.
//!
//! The sampling context is the sole writer, the display loop the sole
//! reader; on the device both run their access inside one critical
//! section, so each call here sees the pair at rest. The pair is
//! replaced as a whole and read as a whole: a snapshot can be one cycle
//! stale, but its two halves always come from the same publication.

use vstd::prelude::*;

verus! {

/// The latest pair of converted readings, in tenths of a degree.
pub struct SharedTemperatureState {
    celsius_tenths: i16,
    fahrenheit_tenths: i16,
}

impl View for SharedTemperatureState {
    type V = (i16, i16);

    closed spec fn view(&self) -> (i16, i16) {
        (self.celsius_tenths, self.fahrenheit_tenths)
    }
}

impl SharedTemperatureState {
    /// State before the first sampling cycle completes: both readings
    /// zero.
    pub fn new() -> (r: Self)
        ensures
            r@ == (0i16, 0i16),
    {
        SharedTemperatureState { celsius_tenths: 0, fahrenheit_tenths: 0 }
    }

    /// Writer side: installs the complete pair of one sampling cycle.
    pub fn publish(&mut self, celsius_tenths: i16, fahrenheit_tenths: i16)
        ensures
            final(self)@ == (celsius_tenths, fahrenheit_tenths),
    {
        self.celsius_tenths = celsius_tenths;
        self.fahrenheit_tenths = fahrenheit_tenths;
    }

    /// Reader side: returns the latest complete pair.
    pub fn snapshot(&self) -> (r: (i16, i16))
        ensures
            r == self@,
    {
        (self.celsius_tenths, self.fahrenheit_tenths)
    }
}

/// The pair a reader sees after a sequence of publications: each
/// publication replaces the whole pair, as `publish` ensures.
pub open spec fn publish_seq(init: (i16, i16), pairs: Seq<(i16, i16)>) -> (i16, i16)
    decreases pairs.len(),
{
    if pairs.len() == 0 {
        init
    } else {
        publish_seq(pairs.first(), pairs.drop_first())
    }
}

/// No tearing: after any sequence of publications a snapshot is exactly
/// the latest published pair (or the initial pair when none was
/// published) — its Celsius and Fahrenheit halves never come from two
/// different publications.
pub proof fn lemma_snapshot_untorn(init: (i16, i16), pairs: Seq<(i16, i16)>)
    ensures
        pairs.len() == 0 ==> publish_seq(init, pairs) == init,
        pairs.len() > 0 ==> publish_seq(init, pairs) == pairs.last(),
        pairs.len() > 0 ==> pairs.contains(publish_seq(init, pairs)),
    decreases pairs.len(),
{
    if pairs.len() > 0 {
        lemma_snapshot_untorn(pairs.first(), pairs.drop_first());
        if pairs.len() == 1 {
            assert(pairs[0] == pairs.first());
        } else {
            assert(pairs.drop_first().last() == pairs.last());
            assert(pairs.drop_first().len() > 0);
            let p = publish_seq(init, pairs);
            assert(pairs.drop_first().contains(p));
            let i = choose|i: int| 0 <= i < pairs.drop_first().len() && pairs.drop_first()[i] == p;
            assert(pairs[i + 1] == p);
        }
    }
}

} // verus!
