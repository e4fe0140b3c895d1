use vstd::prelude::*;

verus! {

/// Channel fault parameters: two probabilities, each a ratio
/// `numerator / denominator`, drawn independently and freshly on every send.
pub struct FaultConfig {
    pub corrupt_num: u32,
    pub corrupt_den: u32,
    pub drop_num: u32,
    pub drop_den: u32,
}

impl FaultConfig {
    /// Both ratios describe probabilities: denominators positive, each
    /// numerator at most its denominator.
    pub open spec fn wf(&self) -> bool {
        &&& 1 <= self.corrupt_den
        &&& self.corrupt_num <= self.corrupt_den
        &&& 1 <= self.drop_den
        &&& self.drop_num <= self.drop_den
    }
}

/// Relies on rand's `Bernoulli::from_ratio`, `Distribution::sample` and
/// `thread_rng`: one fresh draw that is true with probability
/// `numerator / denominator`. The documentation pins only the endpoints:
/// a zero numerator never fires, a full ratio always does.
#[verifier::external_body]
fn bernoulli_draw(numerator: u32, denominator: u32) -> (r: bool)
    requires
        1 <= denominator,
        numerator <= denominator,
    ensures
        numerator == 0 ==> !r,
        numerator == denominator ==> r,
{
    let d = rand::distributions::Bernoulli::from_ratio(numerator, denominator).unwrap();
    rand::distributions::Distribution::sample(&d, &mut rand::thread_rng())
}

/// A buffer long enough for the channel to reach its integrity marker byte:
/// the byte right after the payload the header byte measures. Every encoded
/// frame is of this shape.
pub open spec fn spec_corruptible(s: Seq<u8>) -> bool {
    &&& 1 <= s.len()
    &&& ((s[0] & 0x3f) as int) + 1 < s.len()
}

/// The bytes a corrupted frame turns into: its integrity marker byte, the
/// one right after the payload the header byte measures, is overwritten
/// with a failing value.
pub open spec fn spec_corrupt(s: Seq<u8>) -> Seq<u8> {
    s.update(((s[0] & 0x3f) as int) + 1, 1u8)
}

/// Overwrite the frame's integrity marker byte with a failing value,
/// simulating a bit error the receiver will detect.
fn corrupt(buf: &mut Vec<u8>)
    requires
        spec_corruptible(old(buf)@),
    ensures
        final(buf)@ == spec_corrupt(old(buf)@),
{
    let h = buf[0];
    assert(h & 0x3f <= 63) by (bit_vector);
    let idx = (h & 0x3f) as usize + 1;
    buf[idx] = 1;
}

/// One pass through the unreliable channel: the frame is first possibly
/// corrupted, then possibly dropped, by two independent fresh draws. `None`
/// means the frame was lost and the peer observes nothing; `Some` holds the
/// bytes that reach the underlying transport, corrupted or intact.
pub fn send(config: &FaultConfig, frame: Vec<u8>) -> (r: Option<Vec<u8>>)
    requires
        config.wf(),
        spec_corruptible(frame@),
    ensures
        r matches Some(b) ==> (b@ == frame@ || b@ == spec_corrupt(frame@)),
        config.corrupt_num == 0 ==> (r is None || (r matches Some(b) && b@ == frame@)),
        config.corrupt_num == config.corrupt_den ==> (r is None || (r matches Some(b) && b@
            == spec_corrupt(frame@))),
        config.drop_num == 0 ==> r is Some,
        config.drop_num == config.drop_den ==> r is None,
{
    let mut buf = frame;
    if bernoulli_draw(config.corrupt_num, config.corrupt_den) {
        corrupt(&mut buf);
    }
    if bernoulli_draw(config.drop_num, config.drop_den) {
        None
    } else {
        Some(buf)
    }
}

} // verus!
