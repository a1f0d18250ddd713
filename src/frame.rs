use vstd::prelude::*;
use vstd::std_specs::iter::IteratorSpec;

verus! {

/// Largest payload carried by one DATA frame.
pub const MAX_DATA_SIZE: usize = 60;

/// Smallest well-formed frame: length byte, tag and one id byte.
pub const MIN_PACKET_SIZE: usize = 3;

/// Largest frame, counting its length byte.
pub const MAX_PACKET_SIZE: usize = 64;

/// Tag byte of an acknowledgement frame (`'A'`).
pub const TAG_ACK: u8 = 0x41;

/// Tag byte of a data frame (`'D'`).
pub const TAG_DATA: u8 = 0x44;

/// Tag byte of a combined acknowledgement and data frame (`'X'`).
pub const TAG_BOTH: u8 = 0x58;

/// The buffer a frame is assembled in and received into.
pub type PacketBuffer = [u8; MAX_PACKET_SIZE];

/// One numbered payload, held in a fixed buffer of which the first
/// `data_len` bytes are meaningful.
#[derive(Clone, Copy, Debug)]
pub struct PacketData {
    pub id: u8,
    pub data_len: u8,
    pub data: [u8; MAX_DATA_SIZE],
}

/// A frame as it is seen on the wire.
#[derive(Clone, Copy, Debug)]
pub enum Packet {
    Ack(u8),
    Data(PacketData),
    Both(u8, PacketData),
}

/// The mathematical content of a frame: kinds, ids and payload bytes.
pub enum Frame {
    Ack(u8),
    Data(u8, Seq<u8>),
    Both(u8, u8, Seq<u8>),
}

impl PacketData {
    /// The length field stays within the buffer.
    pub open spec fn wf(&self) -> bool {
        self.data_len as usize <= MAX_DATA_SIZE
    }

    /// The bytes this payload carries.
    pub open spec fn payload(&self) -> Seq<u8> {
        self.data@.subrange(0, self.data_len as int)
    }
}

impl Packet {
    pub open spec fn wf(&self) -> bool {
        match *self {
            Packet::Ack(_) => true,
            Packet::Data(pd) => pd.wf(),
            Packet::Both(_, pd) => pd.wf(),
        }
    }

    pub open spec fn view(&self) -> Frame {
        match *self {
            Packet::Ack(a) => Frame::Ack(a),
            Packet::Data(pd) => Frame::Data(pd.id, pd.payload()),
            Packet::Both(a, pd) => Frame::Both(a, pd.id, pd.payload()),
        }
    }
}

impl Frame {
    /// The payload fits in one frame.
    pub open spec fn fits(self) -> bool {
        match self {
            Frame::Ack(_) => true,
            Frame::Data(_, p) => p.len() <= MAX_DATA_SIZE,
            Frame::Both(_, _, p) => p.len() <= MAX_DATA_SIZE,
        }
    }
}

/// The bytes of a frame on the wire, its length byte first.
pub open spec fn frame_bytes(f: Frame) -> Seq<u8> {
    match f {
        Frame::Ack(a) => seq![3u8, TAG_ACK, a],
        Frame::Data(id, p) => seq![(p.len() + 3) as u8, TAG_DATA, id] + p,
        Frame::Both(a, id, p) => seq![(p.len() + 4) as u8, TAG_BOTH, a, id] + p,
    }
}

/// What a received buffer decodes to. The first byte gives the frame's
/// length, which must lie in `[MIN_PACKET_SIZE, MAX_PACKET_SIZE]` and within
/// the buffer; the second byte is the tag. Bytes past the length are ignored.
pub open spec fn parse_frame(b: Seq<u8>) -> Option<Frame> {
    if b.len() == 0 {
        None
    } else {
        let len = b[0] as int;
        if len < MIN_PACKET_SIZE || len > MAX_PACKET_SIZE || b.len() < len {
            None
        } else if b[1] == TAG_ACK {
            Some(Frame::Ack(b[2]))
        } else if b[1] == TAG_DATA {
            if len - 3 > MAX_DATA_SIZE {
                None
            } else {
                Some(Frame::Data(b[2], b.subrange(3, len)))
            }
        } else if b[1] == TAG_BOTH {
            if len < 4 {
                None
            } else {
                Some(Frame::Both(b[2], b[3], b.subrange(4, len)))
            }
        } else {
            None
        }
    }
}

impl PacketData {
    /// Copies `len` bytes of `source`, starting at `start`, into a payload.
    fn from_slice(id: u8, source: &[u8], start: usize, len: usize) -> (r: PacketData)
        requires
            len <= MAX_DATA_SIZE,
            start + len <= source@.len(),
        ensures
            r.wf(),
            r.id == id,
            r.payload() == source@.subrange(start as int, start + len),
    {
        let mut data = [0u8; MAX_DATA_SIZE];
        let n = source.len();
        let mut i: usize = 0;
        while i < len
            invariant
                n == source@.len(),
                i <= len,
                len <= MAX_DATA_SIZE,
                start + len <= source@.len(),
                data@.len() == MAX_DATA_SIZE,
                data@.subrange(0, i as int) =~= source@.subrange(start as int, start + i),
            decreases len - i,
        {
            data[i] = source[start + i];
            i = i + 1;
            assert(data@.subrange(0, i as int) =~= source@.subrange(start as int, start + i));
        }
        PacketData { id, data_len: len as u8, data }
    }
}

impl PacketData {
    /// The payload's bytes, in order.
    pub fn iter(&self) -> (r: core::slice::Iter<'_, u8>)
        requires
            self.wf(),
        ensures
            r.remaining() == self.payload().as_ref(),
    {
        let all: &[u8] = self.data.as_slice();
        let used = vstd::slice::slice_subrange(all, 0, self.data_len as usize);
        used.iter()
    }
}

impl Packet {
    /// Decodes a received buffer; `None` for a malformed or truncated frame.
    pub fn read(source: &[u8]) -> (r: Option<Packet>)
        ensures
            match r {
                Some(p) => p.wf() && parse_frame(source@) == Some(p@),
                None => parse_frame(source@) is None,
            },
    {
        if source.len() == 0 {
            return None;
        }
        let len = source[0] as usize;
        if len < MIN_PACKET_SIZE || len > MAX_PACKET_SIZE || source.len() < len {
            return None;
        }
        let tag = source[1];
        if tag == TAG_ACK {
            Some(Packet::Ack(source[2]))
        } else if tag == TAG_DATA {
            if len - 3 > MAX_DATA_SIZE {
                None
            } else {
                Some(Packet::Data(PacketData::from_slice(source[2], source, 3, len - 3)))
            }
        } else if tag == TAG_BOTH {
            if len < 4 {
                None
            } else {
                Some(Packet::Both(source[2], PacketData::from_slice(source[3], source, 4, len - 4)))
            }
        } else {
            None
        }
    }

    /// Encodes the frame at the start of `target`, leaving the rest as it was.
    pub fn write(&self, target: &mut [u8])
        requires
            self.wf(),
            old(target)@.len() >= frame_bytes(self@).len(),
        ensures
            final(target)@ == frame_bytes(self@) + old(target)@.subrange(
                frame_bytes(self@).len() as int,
                old(target)@.len() as int,
            ),
    {
        let ghost t0 = target@;
        let (pd, start) = match *self {
            Packet::Ack(ack) => {
                target[0] = 3;
                target[1] = TAG_ACK;
                target[2] = ack;
                assert(target@ =~= frame_bytes(self@) + t0.subrange(3, t0.len() as int));
                return;
            },
            Packet::Data(pd) => {
                target[0] = pd.data_len + 3;
                target[1] = TAG_DATA;
                target[2] = pd.id;
                (pd, 3usize)
            },
            Packet::Both(ack, pd) => {
                target[0] = pd.data_len + 4;
                target[1] = TAG_BOTH;
                target[2] = ack;
                target[3] = pd.id;
                (pd, 4usize)
            },
        };
        let ghost head = target@.subrange(0, start as int);
        assert(head + pd.payload() =~= frame_bytes(self@));
        let len = pd.data_len as usize;
        let n = target.len();
        let mut i: usize = 0;
        while i < len
            invariant
                n == t0.len(),
                i <= len,
                len == pd.data_len,
                pd.wf(),
                start + len <= t0.len(),
                target@.len() == t0.len(),
                target@.subrange(0, start as int) == head,
                target@.subrange(start as int, start + i) =~= pd.payload().subrange(0, i as int),
                target@.subrange(start + len, t0.len() as int) == t0.subrange(
                    start + len,
                    t0.len() as int,
                ),
            decreases len - i,
        {
            target[start + i] = pd.data[i];
            i = i + 1;
            assert(target@.subrange(0, start as int) =~= head);
            assert(target@.subrange(start as int, start + i) =~= pd.payload().subrange(0, i as int));
            assert(target@.subrange(start + len, t0.len() as int) =~= t0.subrange(
                start + len,
                t0.len() as int,
            ));
        }
        assert(target@ =~= target@.subrange(0, start as int) + target@.subrange(start as int, start + len) + target@.subrange(start + len, t0.len() as int));
        assert(pd.payload().subrange(0, len as int) =~= pd.payload());
    }
}

/// A buffer that holds exactly one frame, in the one way it is encoded.
pub open spec fn well_formed_frame(b: Seq<u8>) -> bool {
    &&& parse_frame(b) is Some
    &&& b.len() == b[0] as int
    &&& b[1] == TAG_ACK ==> b[0] == 3
}

/// Decoding an encoded frame gives the frame back.
pub proof fn lemma_decode_encode(f: Frame)
    requires
        f.fits(),
    ensures
        parse_frame(frame_bytes(f)) == Some(f),
{
    match f {
        Frame::Ack(a) => {},
        Frame::Data(id, p) => {
            let b = frame_bytes(f);
            assert(b.subrange(3, b.len() as int) =~= p);
        },
        Frame::Both(a, id, p) => {
            let b = frame_bytes(f);
            assert(b.subrange(4, b.len() as int) =~= p);
        },
    }
}

/// Encoding what a well-formed buffer decodes to gives the buffer back.
pub proof fn lemma_encode_decode(b: Seq<u8>)
    requires
        well_formed_frame(b),
    ensures
        parse_frame(b) matches Some(f) && f.fits() && frame_bytes(f) == b,
{
    let f = parse_frame(b).unwrap();
    match f {
        Frame::Ack(a) => {
            assert(frame_bytes(f) =~= b);
        },
        Frame::Data(id, p) => {
            assert(frame_bytes(f) =~= b);
        },
        Frame::Both(a, id, p) => {
            assert(frame_bytes(f) =~= b);
        },
    }
}

} // verus!
