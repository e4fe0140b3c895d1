use vstd::prelude::*;

verus! {

/// Whether a message is a query or a reply: the top bit of the flags word.
#[derive(Clone, Copy, Debug, PartialEq, Eq, Structural)]
pub enum QueryReply {
    Query,
    Reply,
}

impl QueryReply {
    /// The bit this kind occupies inside the flags word.
    pub open spec fn spec_flags(self) -> u16 {
        match self {
            QueryReply::Query => 0,
            QueryReply::Reply => 0x8000,
        }
    }

    /// The kind read out of a flags word.
    pub open spec fn spec_of_flags(flags: u16) -> QueryReply {
        if flags & 0x8000 == 0 {
            QueryReply::Query
        } else {
            QueryReply::Reply
        }
    }

    pub fn to_flags(&self) -> (r: u16)
        ensures
            r == self.spec_flags(),
    {
        match self {
            QueryReply::Query => 0,
            QueryReply::Reply => 0x8000,
        }
    }

    pub fn from_flags(flags: u16) -> (r: QueryReply)
        ensures
            r == QueryReply::spec_of_flags(flags),
    {
        if flags & 0x8000 == 0 {
            QueryReply::Query
        } else {
            QueryReply::Reply
        }
    }
}

/// The operation a message asks for, a four-bit field of the flags word.
#[non_exhaustive]
#[derive(Clone, Copy, Debug, PartialEq, Eq, Structural)]
pub enum OpCode {
    Query,
    InverseQuery,
    Status,
    Notify,
    Update,
    DSO,
}

impl OpCode {
    /// The code of this operation, in place inside the flags word.
    pub open spec fn spec_flags(self) -> u16 {
        (match self {
            OpCode::Query => 0u16,
            OpCode::InverseQuery => 1,
            OpCode::Status => 2,
            OpCode::Notify => 4,
            OpCode::Update => 5,
            OpCode::DSO => 6,
        }) << 11
    }

    /// The operation a flags word names, if its code is one this codec
    /// knows; codes 3 and 7 are unassigned here.
    pub open spec fn spec_of_flags(flags: u16) -> Option<OpCode> {
        match (flags & 0x7800) >> 11 {
            0u16 => Some(OpCode::Query),
            1u16 => Some(OpCode::InverseQuery),
            2u16 => Some(OpCode::Status),
            4u16 => Some(OpCode::Notify),
            5u16 => Some(OpCode::Update),
            6u16 => Some(OpCode::DSO),
            _ => None,
        }
    }

    pub fn to_flags(&self) -> (r: u16)
        ensures
            r == self.spec_flags(),
    {
        let code: u16 = match self {
            OpCode::Query => 0,
            OpCode::InverseQuery => 1,
            OpCode::Status => 2,
            OpCode::Notify => 4,
            OpCode::Update => 5,
            OpCode::DSO => 6,
        };
        code << 11u16
    }

    pub fn from_flags(flags: u16) -> (r: Option<OpCode>)
        ensures
            r == OpCode::spec_of_flags(flags),
    {
        match (flags & 0x7800) >> 11u16 {
            0 => Some(OpCode::Query),
            1 => Some(OpCode::InverseQuery),
            2 => Some(OpCode::Status),
            4 => Some(OpCode::Notify),
            5 => Some(OpCode::Update),
            6 => Some(OpCode::DSO),
            _ => None,
        }
    }
}

/// The status a reply reports, the low four bits of the flags word.
#[non_exhaustive]
#[derive(Clone, Copy, Debug, PartialEq, Eq, Structural)]
pub enum ResponseCode {
    NoError,
    FormErr,
    ServFail,
    NXDomain,
    NotImp,
    Refused,
}

impl ResponseCode {
    /// The code of this status inside the flags word.
    pub open spec fn spec_code(self) -> u16 {
        match self {
            ResponseCode::NoError => 0,
            ResponseCode::FormErr => 1,
            ResponseCode::ServFail => 2,
            ResponseCode::NXDomain => 3,
            ResponseCode::NotImp => 4,
            ResponseCode::Refused => 5,
        }
    }

    /// The status a flags word carries; an unknown code is read as a
    /// server failure.
    pub open spec fn spec_of_code(value: u16) -> ResponseCode {
        match value & 0x000f {
            0u16 => ResponseCode::NoError,
            1u16 => ResponseCode::FormErr,
            2u16 => ResponseCode::ServFail,
            3u16 => ResponseCode::NXDomain,
            4u16 => ResponseCode::NotImp,
            5u16 => ResponseCode::Refused,
            _ => ResponseCode::ServFail,
        }
    }

    pub fn to_code(&self) -> (r: u16)
        ensures
            r == self.spec_code(),
    {
        match self {
            ResponseCode::NoError => 0,
            ResponseCode::FormErr => 1,
            ResponseCode::ServFail => 2,
            ResponseCode::NXDomain => 3,
            ResponseCode::NotImp => 4,
            ResponseCode::Refused => 5,
        }
    }

    pub fn from_code(value: u16) -> (r: ResponseCode)
        ensures
            r == ResponseCode::spec_of_code(value),
    {
        match value & 0x000f {
            0 => ResponseCode::NoError,
            1 => ResponseCode::FormErr,
            2 => ResponseCode::ServFail,
            3 => ResponseCode::NXDomain,
            4 => ResponseCode::NotImp,
            5 => ResponseCode::Refused,
            _ => ResponseCode::ServFail,
        }
    }
}

/// The record types this codec names.
#[non_exhaustive]
#[derive(Clone, Copy, Debug, PartialEq, Eq, Structural)]
pub enum DNSRecordType {
    A,
    NS,
    CNAME,
    MX,
    TXT,
    AAAA,
    ALL,
}

impl DNSRecordType {
    /// The wire code of this record type.
    pub open spec fn spec_code(self) -> u16 {
        match self {
            DNSRecordType::A => 1,
            DNSRecordType::NS => 2,
            DNSRecordType::CNAME => 5,
            DNSRecordType::MX => 15,
            DNSRecordType::TXT => 16,
            DNSRecordType::AAAA => 28,
            DNSRecordType::ALL => 255,
        }
    }

    /// The record type a wire code names; this best-effort codec reads an
    /// unknown code as an address record.
    pub open spec fn spec_of_code(value: u16) -> DNSRecordType {
        match value {
            1u16 => DNSRecordType::A,
            2u16 => DNSRecordType::NS,
            5u16 => DNSRecordType::CNAME,
            15u16 => DNSRecordType::MX,
            16u16 => DNSRecordType::TXT,
            28u16 => DNSRecordType::AAAA,
            _ => DNSRecordType::A,
        }
    }

    pub fn to_code(&self) -> (r: u16)
        ensures
            r == self.spec_code(),
    {
        match self {
            DNSRecordType::A => 1,
            DNSRecordType::NS => 2,
            DNSRecordType::CNAME => 5,
            DNSRecordType::MX => 15,
            DNSRecordType::TXT => 16,
            DNSRecordType::AAAA => 28,
            DNSRecordType::ALL => 255,
        }
    }

    pub fn from_code(value: u16) -> (r: DNSRecordType)
        ensures
            r == DNSRecordType::spec_of_code(value),
    {
        match value {
            1 => DNSRecordType::A,
            2 => DNSRecordType::NS,
            5 => DNSRecordType::CNAME,
            15 => DNSRecordType::MX,
            16 => DNSRecordType::TXT,
            28 => DNSRecordType::AAAA,
            _ => DNSRecordType::A,
        }
    }
}

/// One question of a query: a domain name as its label segments, a record
/// type, and a class code.
pub struct Question {
    pub name: Vec<Vec<u8>>,
    pub dns_type: DNSRecordType,
    pub class_code: u16,
}

/// One answer of a reply.
pub struct ResourceRecord {
    pub name: Vec<Vec<u8>>,
    pub dns_record_type: DNSRecordType,
    pub class_code: u16,
    pub ttl: u32,
    pub rd_length: u16,
    pub r_data: Vec<u8>,
}

/// A whole message: the header fields and the four record sections.
pub struct DNSMessage {
    pub identification: u16,
    pub query_reply: QueryReply,
    pub opcode: OpCode,
    pub authoritative_answer: bool,
    pub truncation: bool,
    pub recursion_desired: bool,
    pub recursion_available: bool,
    pub response_code: ResponseCode,
    pub questions: Vec<Question>,
    pub answers: Vec<ResourceRecord>,
    pub authority_rrs: Vec<ResourceRecord>,
    pub additional_rrs: Vec<ResourceRecord>,
}

/// A domain name as a mathematical value: the sequence of its label bytes.
pub open spec fn labels_view(v: Seq<Vec<u8>>) -> Seq<Seq<u8>> {
    v.map_values(|x: Vec<u8>| x@)
}

/// A question section as a mathematical value.
pub open spec fn questions_view(v: Seq<Question>) -> Seq<QuestionView> {
    v.map_values(|q: Question| q@)
}

/// A record section as a mathematical value.
pub open spec fn records_view(v: Seq<ResourceRecord>) -> Seq<ResourceRecordView> {
    v.map_values(|r: ResourceRecord| r@)
}

/// The model of a question.
pub struct QuestionView {
    pub name: Seq<Seq<u8>>,
    pub dns_type: DNSRecordType,
    pub class_code: u16,
}

/// The model of an answer.
pub struct ResourceRecordView {
    pub name: Seq<Seq<u8>>,
    pub dns_record_type: DNSRecordType,
    pub class_code: u16,
    pub ttl: u32,
    pub rd_length: u16,
    pub r_data: Seq<u8>,
}

/// The model of a whole message.
pub struct DNSMessageView {
    pub identification: u16,
    pub query_reply: QueryReply,
    pub opcode: OpCode,
    pub authoritative_answer: bool,
    pub truncation: bool,
    pub recursion_desired: bool,
    pub recursion_available: bool,
    pub response_code: ResponseCode,
    pub questions: Seq<QuestionView>,
    pub answers: Seq<ResourceRecordView>,
    pub authority_rrs: Seq<ResourceRecordView>,
    pub additional_rrs: Seq<ResourceRecordView>,
}

impl View for Question {
    type V = QuestionView;

    open spec fn view(&self) -> QuestionView {
        QuestionView {
            name: labels_view(self.name@),
            dns_type: self.dns_type,
            class_code: self.class_code,
        }
    }
}

impl View for ResourceRecord {
    type V = ResourceRecordView;

    open spec fn view(&self) -> ResourceRecordView {
        ResourceRecordView {
            name: labels_view(self.name@),
            dns_record_type: self.dns_record_type,
            class_code: self.class_code,
            ttl: self.ttl,
            rd_length: self.rd_length,
            r_data: self.r_data@,
        }
    }
}

impl View for DNSMessage {
    type V = DNSMessageView;

    open spec fn view(&self) -> DNSMessageView {
        DNSMessageView {
            identification: self.identification,
            query_reply: self.query_reply,
            opcode: self.opcode,
            authoritative_answer: self.authoritative_answer,
            truncation: self.truncation,
            recursion_desired: self.recursion_desired,
            recursion_available: self.recursion_available,
            response_code: self.response_code,
            questions: questions_view(self.questions@),
            answers: records_view(self.answers@),
            authority_rrs: records_view(self.authority_rrs@),
            additional_rrs: records_view(self.additional_rrs@),
        }
    }
}

impl ResourceRecordView {
    /// Every label of the name fits the one-byte length that precedes it
    /// on the wire.
    pub open spec fn wf(self) -> bool {
        forall|i: int| 0 <= i < self.name.len() ==> (#[trigger] self.name[i]).len() <= 255
    }
}

impl DNSMessageView {
    /// A message the emitter can put on the wire: every section count fits
    /// its two-byte header field, and every emitted label fits its one-byte
    /// length. Only answers are emitted, so only their labels are bounded.
    pub open spec fn wf(self) -> bool {
        &&& self.questions.len() <= 0xffff
        &&& self.answers.len() <= 0xffff
        &&& self.authority_rrs.len() <= 0xffff
        &&& self.additional_rrs.len() <= 0xffff
        &&& forall|i: int| 0 <= i < self.answers.len() ==> (#[trigger] self.answers[i]).wf()
    }
}

/// The two big-endian bytes of a 16-bit field.
pub open spec fn spec_be16(x: u16) -> Seq<u8> {
    seq![(x / 256) as u8, (x % 256) as u8]
}

/// The four big-endian bytes of a 32-bit field.
pub open spec fn spec_be32(x: u32) -> Seq<u8> {
    seq![
        (x / 0x1000000) as u8,
        ((x / 0x10000) % 256) as u8,
        ((x / 256) % 256) as u8,
        (x % 256) as u8,
    ]
}

/// The 16-bit value two big-endian bytes hold.
pub open spec fn spec_read_be16(s: Seq<u8>, i: int) -> u16 {
    (s[i] * 256 + s[i + 1]) as u16
}

/// The flags word a message's header fields pack into.
pub open spec fn spec_flags_word(m: DNSMessageView) -> u16 {
    m.query_reply.spec_flags() | m.opcode.spec_flags() | (if m.authoritative_answer {
        0x0400u16
    } else {
        0
    }) | (if m.truncation {
        0x0200u16
    } else {
        0
    }) | (if m.recursion_desired {
        0x0100u16
    } else {
        0
    }) | (if m.recursion_available {
        0x0080u16
    } else {
        0
    }) | m.response_code.spec_code()
}

/// The bytes a name's labels take in an emitted answer: each label after
/// its one-byte length. This best-effort emitter writes no terminator.
pub open spec fn spec_encode_name(name: Seq<Seq<u8>>) -> Seq<u8>
    decreases name.len(),
{
    if name.len() == 0 {
        Seq::empty()
    } else {
        seq![name[0].len() as u8] + name[0] + spec_encode_name(name.skip(1))
    }
}

/// The bytes one emitted answer takes: the name labels, the low byte of the
/// record type's code, and the fixed fields, followed by the record data.
pub open spec fn spec_encode_rr(r: ResourceRecordView) -> Seq<u8> {
    spec_encode_name(r.name) + seq![(r.dns_record_type.spec_code() % 256) as u8] + spec_be16(
        r.class_code,
    ) + spec_be32(r.ttl) + spec_be16(r.rd_length) + r.r_data
}

/// The bytes a run of answers takes, in order.
pub open spec fn spec_encode_rrs(rs: Seq<ResourceRecordView>) -> Seq<u8>
    decreases rs.len(),
{
    if rs.len() == 0 {
        Seq::empty()
    } else {
        spec_encode_rr(rs[0]) + spec_encode_rrs(rs.skip(1))
    }
}

/// The whole wire image of a message: the twelve header bytes, then the
/// answers. This emitter writes replies, so the question section stays
/// empty on the wire, as do the authority and additional sections.
pub open spec fn spec_dns_encode(m: DNSMessageView) -> Seq<u8> {
    spec_be16(m.identification) + spec_be16(spec_flags_word(m)) + spec_be16(
        m.questions.len() as u16,
    ) + spec_be16(m.answers.len() as u16) + spec_be16(m.authority_rrs.len() as u16) + spec_be16(
        m.additional_rrs.len() as u16,
    ) + spec_encode_rrs(m.answers)
}

proof fn lemma_encode_name_append(a: Seq<Seq<u8>>, b: Seq<Seq<u8>>)
    ensures
        spec_encode_name(a + b) == spec_encode_name(a) + spec_encode_name(b),
    decreases a.len(),
{
    if a.len() == 0 {
        assert(a + b =~= b);
        assert(spec_encode_name(a) + spec_encode_name(b) =~= spec_encode_name(b));
    } else {
        assert((a + b).skip(1) =~= a.skip(1) + b);
        lemma_encode_name_append(a.skip(1), b);
        assert(spec_encode_name(a + b) =~= spec_encode_name(a) + spec_encode_name(b));
    }
}

proof fn lemma_encode_rrs_append(a: Seq<ResourceRecordView>, b: Seq<ResourceRecordView>)
    ensures
        spec_encode_rrs(a + b) == spec_encode_rrs(a) + spec_encode_rrs(b),
    decreases a.len(),
{
    if a.len() == 0 {
        assert(a + b =~= b);
        assert(spec_encode_rrs(a) + spec_encode_rrs(b) =~= spec_encode_rrs(b));
    } else {
        assert((a + b).skip(1) =~= a.skip(1) + b);
        lemma_encode_rrs_append(a.skip(1), b);
        assert(spec_encode_rrs(a + b) =~= spec_encode_rrs(a) + spec_encode_rrs(b));
    }
}

fn push_bytes(out: &mut Vec<u8>, bytes: &Vec<u8>)
    ensures
        final(out)@ == old(out)@ + bytes@,
{
    let mut i: usize = 0;
    while i < bytes.len()
        invariant
            i <= bytes@.len(),
            out@ == old(out)@ + bytes@.take(i as int),
        decreases bytes@.len() - i,
    {
        out.push(bytes[i]);
        assert(bytes@.take(i + 1 as int) =~= bytes@.take(i as int).push(bytes@[i as int]));
        i += 1;
    }
    proof {
        assert(old(out)@ + bytes@.take(bytes@.len() as int) =~= old(out)@ + bytes@);
    }
}

fn push_be16(out: &mut Vec<u8>, x: u16)
    ensures
        final(out)@ == old(out)@ + spec_be16(x),
{
    out.push((x / 256) as u8);
    out.push((x % 256) as u8);
    assert(final(out)@ =~= old(out)@ + spec_be16(x));
}

fn push_be32(out: &mut Vec<u8>, x: u32)
    ensures
        final(out)@ == old(out)@ + spec_be32(x),
{
    out.push((x / 0x1000000) as u8);
    out.push(((x / 0x10000) % 256) as u8);
    out.push(((x / 256) % 256) as u8);
    out.push((x % 256) as u8);
    assert(final(out)@ =~= old(out)@ + spec_be32(x));
}

fn encode_rr_into(out: &mut Vec<u8>, r: &ResourceRecord)
    requires
        r@.wf(),
    ensures
        final(out)@ == old(out)@ + spec_encode_rr(r@),
{
    let ghost start = out@;
    let mut i: usize = 0;
    while i < r.name.len()
        invariant
            i <= r.name@.len(),
            r@.wf(),
            out@ == start + spec_encode_name(r@.name.take(i as int)),
        decreases r.name@.len() - i,
    {
        let label = &r.name[i];
        assert(label@ == r@.name[i as int]);
        out.push(label.len() as u8);
        push_bytes(out, label);
        proof {
            let nv = r@.name;
            let single = seq![nv[i as int]];
            assert(nv.take(i + 1 as int) =~= nv.take(i as int) + single);
            lemma_encode_name_append(nv.take(i as int), single);
            assert(single.skip(1) =~= Seq::<Seq<u8>>::empty());
            assert(spec_encode_name(Seq::<Seq<u8>>::empty()) == Seq::<u8>::empty());
            assert(spec_encode_name(single) =~= seq![nv[i as int].len() as u8] + nv[i as int]);
            assert(out@ =~= start + spec_encode_name(nv.take(i + 1 as int)));
        }
        i += 1;
    }
    proof {
        assert(r@.name.take(r.name@.len() as int) =~= r@.name);
    }
    let code = r.dns_record_type.to_code();
    out.push((code % 256) as u8);
    push_be16(out, r.class_code);
    push_be32(out, r.ttl);
    push_be16(out, r.rd_length);
    push_bytes(out, &r.r_data);
    assert(final(out)@ =~= old(out)@ + spec_encode_rr(r@));
}

impl DNSMessage {
    /// Whether this message fits the bounded fields of the wire image, so
    /// that it can be emitted without truncating anything.
    pub fn check_wf(&self) -> (r: bool)
        ensures
            r == self@.wf(),
    {
        if self.questions.len() > 0xffff || self.answers.len() > 0xffff
            || self.authority_rrs.len() > 0xffff || self.additional_rrs.len() > 0xffff {
            return false;
        }
        let mut i: usize = 0;
        while i < self.answers.len()
            invariant
                i <= self.answers@.len(),
                forall|k: int| 0 <= k < i ==> (#[trigger] self@.answers[k]).wf(),
            decreases self.answers@.len() - i,
        {
            let rec = &self.answers[i];
            assert(rec@ == self@.answers[i as int]);
            let mut j: usize = 0;
            while j < rec.name.len()
                invariant
                    j <= rec.name@.len(),
                    i < self.answers@.len(),
                    rec@ == self@.answers[i as int],
                    forall|k: int| 0 <= k < j ==> (#[trigger] rec@.name[k]).len() <= 255,
                decreases rec.name@.len() - j,
            {
                if rec.name[j].len() > 255 {
                    assert(rec@.name[j as int] == rec.name@[j as int]@);
                    assert(!self@.answers[i as int].wf());
                    return false;
                }
                j += 1;
            }
            assert(forall|k: int| 0 <= k < rec@.name.len() ==> (#[trigger] rec@.name[k]).len()
                <= 255);
            assert(self@.answers[i as int].wf());
            i += 1;
        }
        true
    }

    /// Serialize the message into its wire image.
    pub fn encode(&self) -> (r: Vec<u8>)
        requires
            self@.wf(),
        ensures
            r@ == spec_dns_encode(self@),
    {
        let flags: u16 = self.query_reply.to_flags() | self.opcode.to_flags() | (
        if self.authoritative_answer {
            0x0400
        } else {
            0
        }) | (if self.truncation {
            0x0200
        } else {
            0
        }) | (if self.recursion_desired {
            0x0100
        } else {
            0
        }) | (if self.recursion_available {
            0x0080
        } else {
            0
        }) | self.response_code.to_code();
        assert(flags == spec_flags_word(self@));
        let mut out: Vec<u8> = Vec::new();
        push_be16(&mut out, self.identification);
        push_be16(&mut out, flags);
        push_be16(&mut out, self.questions.len() as u16);
        push_be16(&mut out, self.answers.len() as u16);
        push_be16(&mut out, self.authority_rrs.len() as u16);
        push_be16(&mut out, self.additional_rrs.len() as u16);
        let ghost header = out@;
        let mut i: usize = 0;
        while i < self.answers.len()
            invariant
                i <= self.answers@.len(),
                self@.wf(),
                out@ == header + spec_encode_rrs(self@.answers.take(i as int)),
            decreases self.answers@.len() - i,
        {
            let rec = &self.answers[i];
            assert(rec@ == self@.answers[i as int]);
            encode_rr_into(&mut out, rec);
            proof {
                let av = self@.answers;
                let single = seq![av[i as int]];
                assert(av.take(i + 1 as int) =~= av.take(i as int) + single);
                lemma_encode_rrs_append(av.take(i as int), single);
                assert(single.skip(1) =~= Seq::<ResourceRecordView>::empty());
                assert(spec_encode_rrs(Seq::<ResourceRecordView>::empty()) == Seq::<u8>::empty());
                assert(spec_encode_rrs(single) =~= spec_encode_rr(av[i as int]));
                assert(out@ =~= header + spec_encode_rrs(av.take(i + 1 as int)));
            }
            i += 1;
        }
        proof {
            assert(self@.answers.take(self.answers@.len() as int) =~= self@.answers);
            assert(out@ =~= spec_dns_encode(self@));
        }
        out
    }
}

/// Errors of the message decoder.
#[derive(Clone, Copy, Debug, PartialEq, Eq, Structural)]
pub enum DnsError {
    /// The buffer ends before the fields its counts and lengths imply.
    Truncated,
    /// The flags word names an operation this codec has no name for.
    UnsupportedOpCode,
}

/// The labels of one name, read from position `i`: each label after its
/// one-byte length, ended by a zero length byte; the position after the
/// terminator comes back with them. A name running past the buffer fails.
pub open spec fn spec_parse_name(s: Seq<u8>, i: int) -> Option<(Seq<Seq<u8>>, int)>
    decreases s.len() - i,
{
    if i < 0 || i >= s.len() {
        None
    } else if s[i] == 0 {
        Some((Seq::empty(), i + 1))
    } else if i + 1 + s[i] > s.len() {
        None
    } else {
        match spec_parse_name(s, i + 1 + s[i]) {
            Some((rest, j)) => Some((seq![s.subrange(i + 1, i + 1 + s[i])] + rest, j)),
            None => None,
        }
    }
}

/// A run of `n` questions read from position `i`: each a name followed by
/// a two-byte type code and a two-byte class code.
pub open spec fn spec_parse_questions(s: Seq<u8>, i: int, n: nat) -> Option<
    (Seq<QuestionView>, int),
>
    decreases n,
{
    if n == 0 {
        Some((Seq::empty(), i))
    } else {
        match spec_parse_name(s, i) {
            None => None,
            Some((name, j)) => {
                if j + 4 > s.len() {
                    None
                } else {
                    let q = QuestionView {
                        name,
                        dns_type: DNSRecordType::spec_of_code(spec_read_be16(s, j)),
                        class_code: spec_read_be16(s, j + 2),
                    };
                    match spec_parse_questions(s, j + 4, (n - 1) as nat) {
                        Some((rest, k)) => Some((seq![q] + rest, k)),
                        None => None,
                    }
                }
            },
        }
    }
}

/// The message a query buffer holds: the twelve header bytes and as many
/// questions as the count field names. The record sections a query does not
/// carry parse as empty. A buffer that ends early is truncated; a flags
/// word whose operation this codec has no name for is refused.
pub open spec fn spec_dns_parse(s: Seq<u8>) -> Result<DNSMessageView, DnsError> {
    if s.len() < 12 {
        Err(DnsError::Truncated)
    } else {
        let flags = spec_read_be16(s, 2);
        match OpCode::spec_of_flags(flags) {
            None => Err(DnsError::UnsupportedOpCode),
            Some(op) => match spec_parse_questions(s, 12, spec_read_be16(s, 4) as nat) {
                None => Err(DnsError::Truncated),
                Some((qs, _)) => Ok(
                    DNSMessageView {
                        identification: spec_read_be16(s, 0),
                        query_reply: QueryReply::spec_of_flags(flags),
                        opcode: op,
                        authoritative_answer: flags & 0x0400 != 0,
                        truncation: flags & 0x0200 != 0,
                        recursion_desired: flags & 0x0100 != 0,
                        recursion_available: flags & 0x0080 != 0,
                        response_code: ResponseCode::spec_of_code(flags),
                        questions: qs,
                        answers: Seq::empty(),
                        authority_rrs: Seq::empty(),
                        additional_rrs: Seq::empty(),
                    },
                ),
            },
        }
    }
}

fn read_be16(buf: &[u8], i: usize) -> (r: u16)
    requires
        i + 2 <= buf@.len(),
    ensures
        r == spec_read_be16(buf@, i as int),
{
    (buf[i] as u16) * 256 + (buf[i + 1] as u16)
}

fn copy_range(buf: &[u8], from: usize, to: usize) -> (r: Vec<u8>)
    requires
        from <= to,
        to <= buf@.len(),
    ensures
        r@ == buf@.subrange(from as int, to as int),
{
    let mut r: Vec<u8> = Vec::new();
    let mut i: usize = from;
    while i < to
        invariant
            from <= i <= to,
            to <= buf@.len(),
            r@ == buf@.subrange(from as int, i as int),
        decreases to - i,
    {
        r.push(buf[i]);
        assert(buf@.subrange(from as int, i + 1 as int) =~= buf@.subrange(from as int, i as int)
            .push(buf@[i as int]));
        i += 1;
    }
    r
}

spec fn spec_name_cont(pre: Seq<Seq<u8>>, r: Option<(Seq<Seq<u8>>, int)>) -> Option<
    (Seq<Seq<u8>>, int),
> {
    match r {
        Some((rest, j)) => Some((pre + rest, j)),
        None => None,
    }
}

fn parse_name(buf: &[u8], start: usize) -> (r: Option<(Vec<Vec<u8>>, usize)>)
    ensures
        r matches Some(p) ==> (spec_parse_name(buf@, start as int) matches Some(sp)
            && labels_view(p.0@) == sp.0 && p.1 as int == sp.1 && p.1 <= buf@.len()),
        r is None ==> spec_parse_name(buf@, start as int) is None,
{
    let mut acc: Vec<Vec<u8>> = Vec::new();
    let mut i: usize = start;
    loop
        invariant
            spec_parse_name(buf@, start as int) == spec_name_cont(
                labels_view(acc@),
                spec_parse_name(buf@, i as int),
            ),
        decreases buf@.len() - i,
    {
        if i >= buf.len() {
            return None;
        }
        let len = buf[i];
        if len == 0 {
            proof {
                assert(labels_view(acc@) + Seq::<Seq<u8>>::empty() =~= labels_view(acc@));
            }
            return Some((acc, i + 1));
        }
        let lenu = len as usize;
        if lenu > buf.len() - (i + 1) {
            return None;
        }
        let label = copy_range(buf, i + 1, i + 1 + lenu);
        proof {
            let s = buf@;
            let a = labels_view(acc@);
            let lab = s.subrange(i as int + 1, i as int + 1 + s[i as int]);
            assert(labels_view(acc@.push(label)) =~= a.push(label@));
            assert(a.push(lab) =~= a + seq![lab]);
            match spec_parse_name(s, i as int + 1 + s[i as int]) {
                Some((rest, j)) => {
                    assert(a + (seq![lab] + rest) =~= (a + seq![lab]) + rest);
                },
                None => {},
            }
        }
        acc.push(label);
        i = i + 1 + lenu;
    }
}

spec fn spec_q_cont(pre: Seq<QuestionView>, r: Option<(Seq<QuestionView>, int)>) -> Option<
    (Seq<QuestionView>, int),
> {
    match r {
        Some((rest, j)) => Some((pre + rest, j)),
        None => None,
    }
}

impl DNSMessage {
    /// Parse a query buffer. Never panics: a buffer that ends early yields
    /// `Truncated`, an operation code this codec has no name for yields
    /// `UnsupportedOpCode`.
    pub fn decode(buf: &[u8]) -> (r: Result<DNSMessage, DnsError>)
        ensures
            spec_dns_parse(buf@) matches Ok(m) ==> (r matches Ok(msg) && msg@ == m),
            spec_dns_parse(buf@) matches Err(e) ==> (r matches Err(e2) && e2 == e),
    {
        if buf.len() < 12 {
            return Err(DnsError::Truncated);
        }
        let identification = read_be16(buf, 0);
        let flags = read_be16(buf, 2);
        let nq = read_be16(buf, 4);
        let opcode = match OpCode::from_flags(flags) {
            Some(op) => op,
            None => {
                return Err(DnsError::UnsupportedOpCode);
            },
        };
        let mut questions: Vec<Question> = Vec::new();
        let mut i: usize = 12;
        let mut t: u16 = 0;
        while t < nq
            invariant
                t <= nq,
                i <= buf@.len(),
                buf@.len() >= 12,
                flags == spec_read_be16(buf@, 2),
                nq == spec_read_be16(buf@, 4),
                OpCode::spec_of_flags(flags) == Some(opcode),
                spec_parse_questions(buf@, 12, nq as nat) == spec_q_cont(
                    questions_view(questions@),
                    spec_parse_questions(buf@, i as int, (nq - t) as nat),
                ),
            decreases nq - t,
        {
            let (name, j) = match parse_name(buf, i) {
                Some(p) => p,
                None => {
                    return Err(DnsError::Truncated);
                },
            };
            if buf.len() - j < 4 {
                return Err(DnsError::Truncated);
            }
            let dns_type = DNSRecordType::from_code(read_be16(buf, j));
            let class_code = read_be16(buf, j + 2);
            let question = Question { name, dns_type, class_code };
            proof {
                let s = buf@;
                let qv = questions_view(questions@);
                let (sname, sj) = spec_parse_name(s, i as int).unwrap();
                let sq = QuestionView {
                    name: sname,
                    dns_type: DNSRecordType::spec_of_code(spec_read_be16(s, sj)),
                    class_code: spec_read_be16(s, sj + 2),
                };
                assert(question@ == sq);
                assert(questions_view(questions@.push(question)) =~= qv.push(sq));
                assert(qv.push(sq) =~= qv + seq![sq]);
                match spec_parse_questions(s, sj + 4, (nq - t - 1) as nat) {
                    Some((rest, k)) => {
                        assert(qv + (seq![sq] + rest) =~= (qv + seq![sq]) + rest);
                    },
                    None => {},
                }
            }
            questions.push(question);
            i = j + 4;
            t += 1;
        }
        proof {
            assert(questions_view(questions@) + Seq::<QuestionView>::empty() =~= questions_view(
                questions@,
            ));
        }
        let msg = DNSMessage {
            identification,
            query_reply: QueryReply::from_flags(flags),
            opcode,
            authoritative_answer: flags & 0x0400 != 0,
            truncation: flags & 0x0200 != 0,
            recursion_desired: flags & 0x0100 != 0,
            recursion_available: flags & 0x0080 != 0,
            response_code: ResponseCode::from_code(flags),
            questions,
            answers: Vec::new(),
            authority_rrs: Vec::new(),
            additional_rrs: Vec::new(),
        };
        proof {
            assert(records_view(Seq::<ResourceRecord>::empty()) =~= Seq::<
                ResourceRecordView,
            >::empty());
        }
        Ok(msg)
    }
}

impl Default for DNSMessage {
    /// An empty query: every header field at its zero value, no records.
    fn default() -> (d: DNSMessage)
        ensures
            d@.identification == 0,
            d@.query_reply == QueryReply::Query,
            d@.opcode == OpCode::Query,
            !d@.authoritative_answer,
            !d@.truncation,
            !d@.recursion_desired,
            !d@.recursion_available,
            d@.response_code == ResponseCode::NoError,
            d@.questions == Seq::<QuestionView>::empty(),
            d@.answers == Seq::<ResourceRecordView>::empty(),
            d@.authority_rrs == Seq::<ResourceRecordView>::empty(),
            d@.additional_rrs == Seq::<ResourceRecordView>::empty(),
    {
        proof {
            assert(questions_view(Seq::<Question>::empty()) =~= Seq::<QuestionView>::empty());
            assert(records_view(Seq::<ResourceRecord>::empty()) =~= Seq::<
                ResourceRecordView,
            >::empty());
        }
        DNSMessage {
            identification: 0,
            query_reply: QueryReply::Query,
            opcode: OpCode::Query,
            authoritative_answer: false,
            truncation: false,
            recursion_desired: false,
            recursion_available: false,
            response_code: ResponseCode::NoError,
            questions: Vec::new(),
            answers: Vec::new(),
            authority_rrs: Vec::new(),
            additional_rrs: Vec::new(),
        }
    }
}

fn clone_labels(v: &Vec<Vec<u8>>) -> (r: Vec<Vec<u8>>)
    ensures
        labels_view(r@) == labels_view(v@),
{
    let mut r: Vec<Vec<u8>> = Vec::new();
    let mut i: usize = 0;
    while i < v.len()
        invariant
            i <= v@.len(),
            labels_view(r@) == labels_view(v@).take(i as int),
        decreases v@.len() - i,
    {
        let label = &v[i];
        let c = copy_range(label.as_slice(), 0, label.len());
        proof {
            assert(c@ =~= label@);
            assert(labels_view(r@.push(c)) =~= labels_view(r@).push(c@));
            assert(labels_view(v@).take(i + 1 as int) =~= labels_view(v@).take(i as int).push(
                labels_view(v@)[i as int],
            ));
        }
        r.push(c);
        i += 1;
    }
    proof {
        assert(labels_view(v@).take(v@.len() as int) =~= labels_view(v@));
    }
    r
}

/// The hardcoded address-record reply this responder gives a query: the
/// query's identification answered with one fixed address record under the
/// first question's name. A query that asks nothing gets no reply.
pub fn a_record_reply(query: &DNSMessage) -> (r: Option<DNSMessage>)
    ensures
        query@.questions.len() == 0 ==> r is None,
        query@.questions.len() > 0 ==> (r matches Some(m) && {
            &&& m@.identification == query@.identification
            &&& m@.query_reply == QueryReply::Reply
            &&& m@.opcode == OpCode::Query
            &&& !m@.authoritative_answer
            &&& !m@.truncation
            &&& !m@.recursion_desired
            &&& !m@.recursion_available
            &&& m@.response_code == ResponseCode::NoError
            &&& m@.questions.len() == 0
            &&& m@.answers == seq![
                ResourceRecordView {
                    name: query@.questions[0].name,
                    dns_record_type: DNSRecordType::A,
                    class_code: query@.questions[0].class_code,
                    ttl: 300,
                    rd_length: 4,
                    r_data: seq![0u8, 0, 10, 8, 123, 5],
                },
            ]
            &&& m@.authority_rrs.len() == 0
            &&& m@.additional_rrs.len() == 0
        }),
{
    if query.questions.len() == 0 {
        return None;
    }
    let q = &query.questions[0];
    let name = clone_labels(&q.name);
    let answer = ResourceRecord {
        name,
        dns_record_type: DNSRecordType::A,
        class_code: q.class_code,
        ttl: 300,
        rd_length: 4,
        r_data: vec![0, 0, 10, 8, 123, 5],
    };
    let mut answers: Vec<ResourceRecord> = Vec::new();
    proof {
        assert(q@ == query@.questions[0]);
        assert(answer.r_data@ =~= seq![0u8, 0, 10, 8, 123, 5]);
    }
    answers.push(answer);
    let m = DNSMessage {
        identification: query.identification,
        query_reply: QueryReply::Reply,
        opcode: OpCode::Query,
        authoritative_answer: false,
        truncation: false,
        recursion_desired: false,
        recursion_available: false,
        response_code: ResponseCode::NoError,
        questions: Vec::new(),
        answers,
        authority_rrs: Vec::new(),
        additional_rrs: Vec::new(),
    };
    proof {
        assert(questions_view(Seq::<Question>::empty()) =~= Seq::<QuestionView>::empty());
        assert(records_view(Seq::<ResourceRecord>::empty()) =~= Seq::<
            ResourceRecordView,
        >::empty());
        assert(records_view(m.answers@) =~= seq![
            ResourceRecordView {
                name: query@.questions[0].name,
                dns_record_type: DNSRecordType::A,
                class_code: query@.questions[0].class_code,
                ttl: 300,
                rd_length: 4,
                r_data: seq![0u8, 0, 10, 8, 123, 5],
            },
        ]);
    }
    Some(m)
}

} // verus!
