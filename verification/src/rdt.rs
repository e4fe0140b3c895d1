use vstd::prelude::*;

verus! {

/// Longest payload a data frame can carry: its length must fit in the
/// six low bits of the header byte.
pub const MAX_PAYLOAD: usize = 63;

/// The alternating sequence bit carried by every frame.
#[derive(Clone, Copy, Debug, PartialEq, Eq, Structural)]
pub enum Number {
    Zero,
    One,
}

/// The integrity marker carried by every frame: a pass/fail status byte
/// computed at encode time and checked on receipt. The wire scheme keeps
/// one marker byte; a corrupted frame is one whose marker byte no longer
/// reads as `Valid`.
#[derive(Clone, Copy, Debug, PartialEq, Eq, Structural)]
pub enum Checksum {
    Valid,
    Invalid,
}

/// Errors of the frame codec.
#[derive(Clone, Copy, Debug, PartialEq, Eq, Structural)]
pub enum CodecError {
    /// A data frame was given a payload longer than `MAX_PAYLOAD` bytes.
    PayloadTooLong,
    /// The buffer is shorter than the length its header byte implies.
    FrameTruncated,
}

/// A protocol frame: either an acknowledgment or a data unit.
#[derive(Debug)]
pub enum RDT {
    Ack { number: Number, checksum: Checksum },
    Message { number: Number, payload: Vec<u8>, checksum: Checksum },
}

/// The mathematical model of a frame: payloads are byte sequences.
#[verifier::ext_equal]
pub enum FrameView {
    Ack { number: Number, checksum: Checksum },
    Message { number: Number, payload: Seq<u8>, checksum: Checksum },
}

impl View for RDT {
    type V = FrameView;

    open spec fn view(&self) -> FrameView {
        match self {
            RDT::Ack { number, checksum } => FrameView::Ack {
                number: *number,
                checksum: *checksum,
            },
            RDT::Message { number, payload, checksum } => FrameView::Message {
                number: *number,
                payload: payload@,
                checksum: *checksum,
            },
        }
    }
}

impl Number {
    /// The other sequence bit: Zero and One alternate.
    pub open spec fn spec_toggle(self) -> Number {
        match self {
            Number::Zero => Number::One,
            Number::One => Number::Zero,
        }
    }

    /// Flip the sequence bit.
    pub fn toggle(&self) -> (r: Number)
        ensures
            r == self.spec_toggle(),
    {
        match self {
            Number::Zero => Number::One,
            Number::One => Number::Zero,
        }
    }

    /// The bit this sequence number occupies inside a header byte.
    pub open spec fn spec_byte(self) -> u8 {
        match self {
            Number::Zero => 0,
            Number::One => 0x40,
        }
    }

    /// The sequence bit read out of a header byte.
    pub open spec fn spec_of_byte(b: u8) -> Number {
        if b & 0x40 == 0 {
            Number::Zero
        } else {
            Number::One
        }
    }

    pub fn to_byte(&self) -> (r: u8)
        ensures
            r == self.spec_byte(),
    {
        match self {
            Number::Zero => 0,
            Number::One => 0x40,
        }
    }

    pub fn from_byte(b: u8) -> (r: Number)
        ensures
            r == Number::spec_of_byte(b),
    {
        if b & 0x40 == 0 {
            Number::Zero
        } else {
            Number::One
        }
    }
}

impl Checksum {
    /// The byte that stands for this marker on the wire.
    pub open spec fn spec_byte(self) -> u8 {
        match self {
            Checksum::Valid => 0,
            Checksum::Invalid => 1,
        }
    }

    /// The marker read out of a wire byte: only zero passes.
    pub open spec fn spec_of_byte(b: u8) -> Checksum {
        if b == 0 {
            Checksum::Valid
        } else {
            Checksum::Invalid
        }
    }

    pub fn to_byte(&self) -> (r: u8)
        ensures
            r == self.spec_byte(),
    {
        match self {
            Checksum::Valid => 0,
            Checksum::Invalid => 1,
        }
    }

    pub fn from_byte(b: u8) -> (r: Checksum)
        ensures
            r == Checksum::spec_of_byte(b),
    {
        if b == 0 {
            Checksum::Valid
        } else {
            Checksum::Invalid
        }
    }
}

/// The marker that honest encoding stamps on any content. The wire scheme
/// is a status byte, so every content computes to `Valid`; a failing marker
/// only ever arises from channel corruption.
pub open spec fn spec_compute(content: Seq<u8>) -> Checksum {
    Checksum::Valid
}

/// Compute the integrity marker for some frame content.
#[allow(unused_variables)]
pub fn compute(content: &[u8]) -> (r: Checksum)
    ensures
        r == spec_compute(content@),
{
    Checksum::Valid
}

/// Check a carried marker against the one the content computes to.
#[allow(unused_variables)]
pub fn verify(content: &[u8], marker: Checksum) -> (r: bool)
    ensures
        r == (marker == spec_compute(content@)),
{
    match marker {
        Checksum::Valid => true,
        Checksum::Invalid => false,
    }
}

impl FrameView {
    /// A frame fit for the wire: a data payload fits the six-bit length field.
    pub open spec fn wf(self) -> bool {
        match self {
            FrameView::Ack { .. } => true,
            FrameView::Message { payload, .. } => payload.len() <= MAX_PAYLOAD,
        }
    }

    /// The sequence bit of either frame kind.
    pub open spec fn number(self) -> Number {
        match self {
            FrameView::Ack { number, .. } => number,
            FrameView::Message { number, .. } => number,
        }
    }

    /// The payload bytes of a data frame; an acknowledgment carries none.
    pub open spec fn payload(self) -> Seq<u8> {
        match self {
            FrameView::Ack { .. } => Seq::empty(),
            FrameView::Message { payload, .. } => payload,
        }
    }

    /// The integrity marker of either frame kind.
    pub open spec fn checksum(self) -> Checksum {
        match self {
            FrameView::Ack { checksum, .. } => checksum,
            FrameView::Message { checksum, .. } => checksum,
        }
    }
}

/// The bytes a well-formed frame takes on the wire. An acknowledgment is a
/// header byte and a marker byte; a data unit is a header byte (discriminator
/// bit, sequence bit, six-bit length), the payload, and a marker byte.
pub open spec fn spec_encode(f: FrameView) -> Seq<u8> {
    match f {
        FrameView::Ack { number, checksum } => seq![number.spec_byte(), checksum.spec_byte()],
        FrameView::Message { number, payload, checksum } => seq![
            0x80u8 | number.spec_byte() | (payload.len() as u8),
        ] + payload + seq![checksum.spec_byte()],
    }
}

/// The frame a byte buffer holds, or the truncation error when the buffer
/// is shorter than its header byte implies. Bytes past the frame are ignored.
pub open spec fn spec_decode(s: Seq<u8>) -> Result<FrameView, CodecError> {
    if s.len() < 1 {
        Err(CodecError::FrameTruncated)
    } else if s[0] & 0x80 == 0 {
        if s.len() < 2 {
            Err(CodecError::FrameTruncated)
        } else {
            Ok(FrameView::Ack {
                number: Number::spec_of_byte(s[0]),
                checksum: Checksum::spec_of_byte(s[1]),
            })
        }
    } else {
        let n = (s[0] & 0x3f) as int;
        if s.len() < n + 2 {
            Err(CodecError::FrameTruncated)
        } else {
            Ok(FrameView::Message {
                number: Number::spec_of_byte(s[0]),
                payload: s.subrange(1, n + 1),
                checksum: Checksum::spec_of_byte(s[n + 1]),
            })
        }
    }
}

impl RDT {
    /// Whether this frame is fit for the wire.
    pub open spec fn wf(&self) -> bool {
        self@.wf()
    }

    /// Serialize the frame. A payload longer than `MAX_PAYLOAD` bytes cannot
    /// be framed and is refused rather than truncated.
    pub fn encode(&self) -> (r: Result<Vec<u8>, CodecError>)
        ensures
            self@.wf() ==> (r matches Ok(b) && b@ == spec_encode(self@)),
            !self@.wf() ==> (r matches Err(e) && e == CodecError::PayloadTooLong),
    {
        match self {
            RDT::Ack { number, checksum } => {
                let b = vec![number.to_byte(), checksum.to_byte()];
                assert(b@ =~= spec_encode(self@));
                Ok(b)
            }
            RDT::Message { number, payload, checksum } => {
                if payload.len() > MAX_PAYLOAD {
                    return Err(CodecError::PayloadTooLong);
                }
                let header: u8 = 0x80u8 | number.to_byte() | (payload.len() as u8);
                let mut b: Vec<u8> = Vec::new();
                b.push(header);
                let mut i: usize = 0;
                while i < payload.len()
                    invariant
                        i <= payload.len(),
                        b@ == seq![header] + payload@.take(i as int),
                    decreases payload.len() - i,
                {
                    b.push(payload[i]);
                    assert(payload@.take(i + 1 as int) =~= payload@.take(i as int).push(
                        payload@[i as int],
                    ));
                    i += 1;
                }
                b.push(checksum.to_byte());
                assert(b@ =~= spec_encode(self@));
                Ok(b)
            }
        }
    }

    /// Deserialize a frame from the front of a byte buffer. Never panics:
    /// a buffer shorter than its header implies yields `FrameTruncated`.
    pub fn decode(buf: &[u8]) -> (r: Result<RDT, CodecError>)
        ensures
            spec_decode(buf@) matches Ok(f) ==> (r matches Ok(frame) && frame@ == f),
            spec_decode(buf@) matches Err(e) ==> (r matches Err(e2) && e2 == e),
    {
        if buf.len() < 1 {
            return Err(CodecError::FrameTruncated);
        }
        let h = buf[0];
        if h & 0x80 == 0 {
            if buf.len() < 2 {
                return Err(CodecError::FrameTruncated);
            }
            Ok(RDT::Ack { number: Number::from_byte(h), checksum: Checksum::from_byte(buf[1]) })
        } else {
            assert(h & 0x3f <= 63) by (bit_vector);
            let n = (h & 0x3f) as usize;
            if buf.len() < n + 2 {
                return Err(CodecError::FrameTruncated);
            }
            let mut payload: Vec<u8> = Vec::new();
            let mut i: usize = 0;
            while i < n
                invariant
                    i <= n,
                    n + 2 <= buf@.len(),
                    payload@ == buf@.subrange(1, 1 + i as int),
                decreases n - i,
            {
                payload.push(buf[1 + i]);
                assert(buf@.subrange(1, 1 + (i + 1) as int) =~= buf@.subrange(1, 1 + i as int)
                    .push(buf@[1 + i as int]));
                i += 1;
            }
            let checksum = Checksum::from_byte(buf[n + 1]);
            let frame = RDT::Message { number: Number::from_byte(h), payload, checksum };
            assert(n as int == (buf@[0] & 0x3f) as int);
            Ok(frame)
        }
    }
}

/// Law: the codec round-trips. Decoding the encoding of any well-formed
/// frame yields exactly that frame.
pub proof fn lemma_round_trip(f: FrameView)
    requires
        f.wf(),
    ensures
        spec_decode(spec_encode(f)) == Ok::<FrameView, CodecError>(f),
{
    match f {
        FrameView::Ack { number, checksum } => {
            let nb = number.spec_byte();
            let cb = checksum.spec_byte();
            let s = spec_encode(f);
            assert(s.len() == 2);
            assert(s[0] == nb && s[1] == cb);
            assert(nb == 0 || nb == 0x40);
            assert(nb & 0x80 == 0 && nb & 0x40 == nb) by (bit_vector)
                requires
                    nb == 0 || nb == 0x40,
            ;
            assert(Number::spec_of_byte(nb) == number);
            assert(Checksum::spec_of_byte(cb) == checksum);
        }
        FrameView::Message { number, payload, checksum } => {
            let nb = number.spec_byte();
            let cb = checksum.spec_byte();
            let len8 = payload.len() as u8;
            let h = 0x80u8 | nb | len8;
            let s = spec_encode(f);
            assert(payload.len() <= 63);
            assert(len8 as int == payload.len() as int);
            assert(s.len() == payload.len() + 2);
            assert(s[0] == h);
            assert(nb == 0 || nb == 0x40);
            assert(h & 0x80 != 0 && h & 0x40 == nb && h & 0x3f == len8) by (bit_vector)
                requires
                    h == 0x80u8 | nb | len8,
                    nb == 0 || nb == 0x40,
                    len8 <= 63,
            ;
            let n = (h & 0x3f) as int;
            assert(n == payload.len());
            assert(s.subrange(1, n + 1) =~= payload);
            assert(s[n + 1] == cb);
            assert(Number::spec_of_byte(h) == number);
            assert(Checksum::spec_of_byte(cb) == checksum);
        }
    }
}

fn bytes_eq(a: &Vec<u8>, b: &Vec<u8>) -> (r: bool)
    ensures
        r == (a@ == b@),
{
    if a.len() != b.len() {
        return false;
    }
    let mut i: usize = 0;
    while i < a.len()
        invariant
            i <= a@.len(),
            a@.len() == b@.len(),
            forall|j: int| 0 <= j < i ==> a@[j] == b@[j],
        decreases a@.len() - i,
    {
        if a[i] != b[i] {
            return false;
        }
        i += 1;
    }
    proof {
        assert(a@ =~= b@);
    }
    true
}

impl PartialEq for RDT {
    /// Frames are equal when their models are: same kind, same fields,
    /// same payload bytes.
    fn eq(&self, other: &RDT) -> (r: bool) {
        match (self, other) {
            (
                RDT::Ack { number: n1, checksum: c1 },
                RDT::Ack { number: n2, checksum: c2 },
            ) => *n1 == *n2 && *c1 == *c2,
            (
                RDT::Message { number: n1, payload: p1, checksum: c1 },
                RDT::Message { number: n2, payload: p2, checksum: c2 },
            ) => *n1 == *n2 && *c1 == *c2 && bytes_eq(p1, p2),
            _ => false,
        }
    }
}

impl vstd::std_specs::cmp::PartialEqSpecImpl for RDT {
    open spec fn obeys_eq_spec() -> bool {
        true
    }

    open spec fn eq_spec(&self, other: &RDT) -> bool {
        self@ == other@
    }
}

} // verus!

