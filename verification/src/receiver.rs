use crate::rdt::{spec_compute, spec_encode, Checksum, FrameView, Number, RDT};
use vstd::prelude::*;

verus! {

/// What one inbound frame causes at the receiver: at most one payload for
/// the application and at most one encoded acknowledgment for the channel.
pub struct Delivery {
    pub payload: Option<Vec<u8>>,
    pub reply: Option<Vec<u8>>,
}

/// The receiving side of the stop-and-wait protocol. It delivers each data
/// unit to the application exactly once and acknowledges every structurally
/// sound data unit, duplicates included. A data unit whose integrity marker
/// fails is dropped silently, leaving recovery to the sender's timer.
pub struct Receiver {
    pub expected: Number,
}

/// The acknowledgment answering a data unit that carried `number`.
pub open spec fn spec_ack(number: Number) -> FrameView {
    FrameView::Ack { number, checksum: Checksum::Valid }
}

impl Receiver {
    /// The step one frame causes: the next expected bit, the payload
    /// delivered to the application, and the bytes of the reply, if any.
    pub open spec fn spec_step(expected: Number, f: FrameView) -> (
        Number,
        Option<Seq<u8>>,
        Option<Seq<u8>>,
    ) {
        match f {
            FrameView::Message { number, payload, checksum } => {
                if checksum != spec_compute(payload) {
                    (expected, None, None)
                } else if number == expected {
                    (
                        expected.spec_toggle(),
                        Some(payload),
                        Some(spec_encode(spec_ack(number))),
                    )
                } else {
                    (expected, None, Some(spec_encode(spec_ack(number))))
                }
            },
            FrameView::Ack { .. } => (expected, None, None),
        }
    }

    /// A fresh logical stream: the first data unit is expected under Zero.
    pub fn new() -> (r: Receiver)
        ensures
            r.expected == Number::Zero,
    {
        Receiver { expected: Number::Zero }
    }

    /// React to an inbound frame: deliver a new data unit exactly once and
    /// acknowledge it, re-acknowledge a duplicate without delivering it,
    /// and ignore anything else.
    pub fn on_frame(&mut self, frame: &RDT) -> (r: Delivery)
        ensures
            ({
                let (e2, deliver, reply) = Receiver::spec_step(old(self).expected, frame@);
                &&& final(self).expected == e2
                &&& (r.payload is Some <==> deliver is Some)
                &&& (deliver matches Some(p) ==> (r.payload matches Some(v) && v@ == p))
                &&& (r.reply is Some <==> reply is Some)
                &&& (reply matches Some(p) ==> (r.reply matches Some(v) && v@ == p))
            }),
    {
        match frame {
            RDT::Message { number, payload, checksum } => {
                let sound = crate::rdt::verify(payload.as_slice(), *checksum);
                if !sound {
                    Delivery { payload: None, reply: None }
                } else {
                    let ack = RDT::Ack { number: *number, checksum: Checksum::Valid };
                    let reply = match ack.encode() {
                        Ok(b) => b,
                        Err(_) => {
                            proof {
                                assert(false);
                            }
                            Vec::new()
                        },
                    };
                    if *number == self.expected {
                        let delivered = clone_bytes(payload);
                        self.expected = self.expected.toggle();
                        Delivery { payload: Some(delivered), reply: Some(reply) }
                    } else {
                        Delivery { payload: None, reply: Some(reply) }
                    }
                }
            },
            RDT::Ack { .. } => Delivery { payload: None, reply: None },
        }
    }
}

fn clone_bytes(v: &Vec<u8>) -> (r: Vec<u8>)
    ensures
        r@ == v@,
{
    let mut r: Vec<u8> = Vec::new();
    let mut i: usize = 0;
    while i < v.len()
        invariant
            i <= v@.len(),
            r@ == v@.take(i as int),
        decreases v@.len() - i,
    {
        r.push(v[i]);
        assert(v@.take(i + 1 as int) =~= v@.take(i as int).push(v@[i as int]));
        i += 1;
    }
    proof {
        assert(v@.take(v@.len() as int) =~= v@);
    }
    r
}

/// Law (receiver idempotence): a sequence-matched, integrity-valid data unit
/// presented twice is delivered to the application exactly once, and both
/// presentations are acknowledged with the same acknowledgment.
pub proof fn lemma_receiver_idempotent(e: Number, f: FrameView)
    requires
        f is Message,
        f.checksum() == spec_compute(f.payload()),
        f.number() == e,
    ensures
        ({
            let (e1, d1, a1) = Receiver::spec_step(e, f);
            let (e2, d2, a2) = Receiver::spec_step(e1, f);
            &&& d1 == Some(f.payload())
            &&& a1 == Some(spec_encode(spec_ack(e)))
            &&& e1 == e.spec_toggle()
            &&& d2 is None
            &&& a2 == a1
            &&& e2 == e1
        }),
{
    assert(e.spec_toggle() != e) by {
        match e {
            Number::Zero => {},
            Number::One => {},
        }
    }
}

} // verus!
