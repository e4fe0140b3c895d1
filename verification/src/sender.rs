use crate::rdt::{compute, spec_compute, spec_encode, CodecError, FrameView, Number, RDT};
use vstd::prelude::*;

verus! {

/// What the sender is doing: waiting for work, or holding the one
/// unacknowledged frame the stop-and-wait window allows.
pub enum SenderState {
    Idle,
    AwaitingAck { frame: RDT },
}

/// The sending side of the stop-and-wait protocol. It frames one payload at
/// a time and holds it until a matching, integrity-valid acknowledgment
/// arrives; timeouts retransmit the identical frame. The caller owns the
/// timer and the retry policy: it decides when to ask for a retransmission
/// and may stop asking at any time, which gives it both a retry bound and
/// a cancellation point.
pub struct Sender {
    pub number: Number,
    pub state: SenderState,
}

impl Sender {
    /// Internal invariant: the outstanding frame, if any, is a well-formed
    /// data unit carrying the sender's current sequence bit.
    pub open spec fn wf(&self) -> bool {
        match self.state {
            SenderState::Idle => true,
            SenderState::AwaitingAck { frame } => {
                &&& frame@ is Message
                &&& frame@.wf()
                &&& frame@.number() == self.number
            },
        }
    }

    /// An acknowledgment the sender accepts: it must be waiting, and the
    /// frame must be an acknowledgment that carries its current sequence
    /// bit and an integrity marker that verifies.
    pub open spec fn spec_accepts(self, f: FrameView) -> bool {
        &&& self.state is AwaitingAck
        &&& f is Ack
        &&& f.number() == self.number
        &&& f.checksum() == spec_compute(spec_encode(f))
    }

    /// The step an inbound frame causes: acceptance toggles the bit and
    /// frees the window, anything else leaves the sender untouched.
    pub open spec fn spec_on_frame(self, f: FrameView) -> (Sender, bool) {
        if self.spec_accepts(f) {
            (Sender { number: self.number.spec_toggle(), state: SenderState::Idle }, true)
        } else {
            (self, false)
        }
    }

    /// A fresh logical stream: idle, sequence bit starting at Zero.
    pub fn new() -> (r: Sender)
        ensures
            r.wf(),
            r.number == Number::Zero,
            r.state is Idle,
    {
        Sender { number: Number::Zero, state: SenderState::Idle }
    }

    /// Accept one payload, valid only while idle: frame it under the current
    /// sequence bit and hand back the bytes to put on the channel, holding
    /// the frame for retransmission. A payload too long for the wire format
    /// is refused and the sender stays idle.
    pub fn submit(&mut self, payload: Vec<u8>) -> (r: Result<Vec<u8>, CodecError>)
        requires
            old(self).wf(),
            old(self).state is Idle,
        ensures
            final(self).wf(),
            final(self).number == old(self).number,
            payload@.len() <= crate::rdt::MAX_PAYLOAD ==> (r matches Ok(b) && {
                let sent = FrameView::Message {
                    number: old(self).number,
                    payload: payload@,
                    checksum: spec_compute(payload@),
                };
                &&& b@ == spec_encode(sent)
                &&& (final(self).state matches SenderState::AwaitingAck { frame } && frame@
                    == sent)
            }),
            payload@.len() > crate::rdt::MAX_PAYLOAD ==> (r matches Err(e) && e
                == CodecError::PayloadTooLong && *final(self) == *old(self)),
    {
        let checksum = compute(payload.as_slice());
        let frame = RDT::Message { number: self.number, payload, checksum };
        match frame.encode() {
            Ok(b) => {
                self.state = SenderState::AwaitingAck { frame };
                Ok(b)
            },
            Err(e) => Err(e),
        }
    }

    /// The retransmission the timer asks for: while waiting, the identical
    /// stored frame, byte for byte; while idle, nothing.
    pub fn on_timeout(&self) -> (r: Option<Vec<u8>>)
        requires
            self.wf(),
        ensures
            (self.state matches SenderState::AwaitingAck { frame } ==> (r matches Some(b) && b@
                == spec_encode(frame@))),
            self.state is Idle ==> r is None,
    {
        match &self.state {
            SenderState::AwaitingAck { frame } => match frame.encode() {
                Ok(b) => Some(b),
                Err(_) => {
                    proof {
                        assert(false);
                    }
                    None
                },
            },
            SenderState::Idle => None,
        }
    }

    /// React to an inbound frame. Only a sequence-matched, integrity-valid
    /// acknowledgment is accepted: it toggles the sequence bit and frees the
    /// window. Anything else is ignored and the timer is relied on.
    pub fn on_frame(&mut self, frame: &RDT) -> (accepted: bool)
        requires
            old(self).wf(),
        ensures
            final(self).wf(),
            (*final(self), accepted) == old(self).spec_on_frame(frame@),
    {
        let accepted = match (&self.state, frame) {
            (SenderState::AwaitingAck { .. }, RDT::Ack { number, checksum }) => {
                *number == self.number && *checksum == crate::rdt::Checksum::Valid
            },
            _ => false,
        };
        if accepted {
            self.number = self.number.toggle();
            self.state = SenderState::Idle;
        }
        accepted
    }
}

/// Law (sender safety): a step on an inbound frame changes the sequence bit
/// only by accepting a sequence-matched, integrity-valid acknowledgment, and
/// then only to the toggled bit.
pub proof fn lemma_sender_safety(s: Sender, f: FrameView)
    ensures
        ({
            let (s2, accepted) = s.spec_on_frame(f);
            s2.number != s.number ==> accepted && s.spec_accepts(f) && s2.number
                == s.number.spec_toggle()
        }),
{
}

} // verus!
