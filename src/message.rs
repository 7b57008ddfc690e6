use crate::packet::SYNC_BYTE;
use crate::protocol_id::ProtocolID;
use byteorder::ByteOrder;
use vstd::prelude::*;

verus! {

/// Largest payload (command id, control byte and parameters) of one frame.
pub const MAX_PAYLOAD_SIZE: u8 = SYNC_BYTE - 1;

/// Capacity of a parameter block: the largest payload minus id and control byte.
pub const PARAMS_SIZE: usize = (MAX_PAYLOAD_SIZE - 2) as usize;

/// Little-endian value of the first eight bytes of `b`.
pub open spec fn le_u64(b: Seq<u8>) -> int {
    b[0] as int + 0x100 * b[1] as int + 0x1_0000 * b[2] as int + 0x100_0000 * b[3] as int
        + 0x1_0000_0000 * b[4] as int + 0x100_0000_0000 * b[5] as int + 0x1_0000_0000_0000
        * b[6] as int + 0x100_0000_0000_0000 * b[7] as int
}

/// Relies on byteorder's `LittleEndian::read_u64`: the first eight bytes of
/// `buf`, least significant first (it panics on fewer than eight).
#[verifier::external_body]
fn read_u64_le(buf: &[u8]) -> (r: u64)
    requires
        buf@.len() >= 8,
    ensures
        r as int == le_u64(buf@),
{
    byteorder::LittleEndian::read_u64(buf)
}

/// `n` zero bytes.
pub open spec fn zeros(n: nat) -> Seq<u8> {
    Seq::new(n, |i: int| 0u8)
}

/// A value that can be written as the parameter block of a message.
pub trait ToParams {
    /// The meaningful parameter bytes of this value.
    spec fn params_spec(&self) -> Seq<u8>;

    /// The whole parameter block that this value writes, padding included.
    spec fn params_block(&self) -> Seq<u8>;

    fn to_params(&self) -> (r: (usize, [u8; PARAMS_SIZE]))
        ensures
            r.0 <= PARAMS_SIZE,
            r.0 == self.params_spec().len(),
            r.1@.take(r.0 as int) == self.params_spec(),
            r.1@ == self.params_block(),
    ;
}

/// A field that writes its own bytes at the front of a buffer.
pub trait ToParamable {
    spec fn param_bytes(&self) -> Seq<u8>;

    /// A field is at most eight bytes wide.
    proof fn lemma_param_bytes_fit(&self)
        ensures
            self.param_bytes().len() <= 8,
    ;

    /// Writes the field's bytes at the start of `buf` and returns how many.
    fn to_params(&self, buf: &mut [u8]) -> (r: usize)
        requires
            old(buf)@.len() >= self.param_bytes().len(),
        ensures
            r == self.param_bytes().len(),
            final(buf)@ == self.param_bytes() + old(buf)@.skip(r as int),
    ;
}

impl ToParamable for u8 {
    open spec fn param_bytes(&self) -> Seq<u8> {
        seq![*self]
    }

    proof fn lemma_param_bytes_fit(&self) {
    }

    fn to_params(&self, buf: &mut [u8]) -> (r: usize) {
        buf[0] = *self;
        assert(buf@ =~= self.param_bytes() + old(buf)@.skip(1));
        1
    }
}

impl ToParamable for bool {
    open spec fn param_bytes(&self) -> Seq<u8> {
        seq![if *self { 1u8 } else { 0u8 }]
    }

    proof fn lemma_param_bytes_fit(&self) {
    }

    fn to_params(&self, buf: &mut [u8]) -> (r: usize) {
        buf[0] = if *self { 1 } else { 0 };
        assert(buf@ =~= self.param_bytes() + old(buf)@.skip(1));
        1
    }
}

impl<T: ToParamable> ToParams for T {
    open spec fn params_spec(&self) -> Seq<u8> {
        self.param_bytes()
    }

    /// The field's bytes, then zeros.
    open spec fn params_block(&self) -> Seq<u8> {
        self.param_bytes() + zeros((PARAMS_SIZE - self.param_bytes().len()) as nat)
    }

    fn to_params(&self) -> (r: (usize, [u8; PARAMS_SIZE])) {
        let mut b = [0u8; PARAMS_SIZE];
        proof {
            self.lemma_param_bytes_fit();
        }
        let ghost before = b@;
        assert(before =~= zeros(PARAMS_SIZE as nat));
        let size = ToParamable::to_params(self, &mut b);
        assert(b@.take(size as int) =~= self.param_bytes());
        assert(before.skip(size as int) =~= zeros((PARAMS_SIZE - size) as nat));
        assert(b@ =~= self.params_block());
        (size, b)
    }
}

/// A parameter block given as its bytes, for values encoded elsewhere.
#[derive(Clone, Copy, Debug)]
pub struct ParamBytes {
    len: usize,
    bytes: [u8; PARAMS_SIZE],
}

impl ParamBytes {
    /// The block holding `bytes`, or `None` when they do not fit.
    pub fn from_slice(bytes: &[u8]) -> (r: Option<Self>)
        ensures
            r is Some <==> bytes@.len() <= PARAMS_SIZE,
            r matches Some(p) ==> p.params_spec() == bytes@ && p.params_block() == bytes@ + zeros(
                (PARAMS_SIZE - bytes@.len()) as nat,
            ),
    {
        if bytes.len() > PARAMS_SIZE {
            return None;
        }
        let mut b = [0u8; PARAMS_SIZE];
        let mut i: usize = 0;
        while i < bytes.len()
            invariant
                bytes@.len() <= PARAMS_SIZE,
                i <= bytes@.len(),
                forall|j: int| 0 <= j < i ==> b@[j] == bytes@[j],
                forall|j: int| i <= j < PARAMS_SIZE ==> b@[j] == 0,
            decreases bytes@.len() - i,
        {
            b[i] = bytes[i];
            i += 1;
        }
        let r = ParamBytes { len: bytes.len(), bytes: b };
        assert(r.params_spec() =~= bytes@);
        assert(r.params_block() =~= bytes@ + zeros((PARAMS_SIZE - bytes@.len()) as nat));
        Some(r)
    }
}

impl ToParams for ParamBytes {
    closed spec fn params_spec(&self) -> Seq<u8> {
        self.bytes@.take(
            if self.len <= PARAMS_SIZE {
                self.len as int
            } else {
                PARAMS_SIZE as int
            },
        )
    }

    closed spec fn params_block(&self) -> Seq<u8> {
        self.bytes@
    }

    fn to_params(&self) -> (r: (usize, [u8; PARAMS_SIZE])) {
        let n = if self.len <= PARAMS_SIZE {
            self.len
        } else {
            PARAMS_SIZE
        };
        (n, self.bytes)
    }
}

/// A value read back from the parameter block of a reply.
pub trait FromParams: Sized {
    spec fn from_params_spec(size: usize, params: Seq<u8>) -> Self;

    fn from_params(size: usize, params: [u8; PARAMS_SIZE]) -> (r: Self)
        ensures
            r == Self::from_params_spec(size, params@),
    ;
}

impl FromParams for u64 {
    open spec fn from_params_spec(size: usize, params: Seq<u8>) -> u64 {
        le_u64(params) as u64
    }

    fn from_params(size: usize, params: [u8; PARAMS_SIZE]) -> (r: u64) {
        read_u64_le(params.as_slice())
    }
}

/// A protocol-level request or reply: only the first `params_len` bytes of
/// `params` are meaningful.
#[derive(Clone, Copy, Debug)]
pub struct Message {
    pub id: u8,
    pub rw: u8,
    pub is_queued: u8,
    pub params_len: u8,
    pub params: [u8; PARAMS_SIZE],
}

/// What a message means: its header fields and its meaningful parameter bytes.
pub struct MessageView {
    pub id: u8,
    pub rw: u8,
    pub is_queued: u8,
    pub params: Seq<u8>,
}

impl View for Message {
    type V = MessageView;

    open spec fn view(&self) -> MessageView {
        MessageView {
            id: self.id,
            rw: self.rw,
            is_queued: self.is_queued,
            params: self.params@.take(self.params_len as int),
        }
    }
}

/// Direction of a command: read a value from the device or write one to it.
#[derive(Clone, Copy, Debug, PartialEq, Eq, Structural)]
pub enum ReadWrite {
    Read,
    Write,
}

impl From<ReadWrite> for u8 {
    fn from(rw: ReadWrite) -> (r: u8) {
        match rw {
            ReadWrite::Read => 0,
            ReadWrite::Write => 1,
        }
    }
}

impl vstd::std_specs::convert::FromSpecImpl<ReadWrite> for u8 {
    open spec fn obeys_from_spec() -> bool {
        true
    }

    open spec fn from_spec(rw: ReadWrite) -> u8 {
        match rw {
            ReadWrite::Read => 0,
            ReadWrite::Write => 1,
        }
    }
}

impl Message {
    /// A message is well formed when its flags are single bits and its
    /// meaningful parameters fit the parameter block.
    pub open spec fn wf(&self) -> bool {
        &&& self.rw <= 1
        &&& self.is_queued <= 1
        &&& self.params_len as usize <= PARAMS_SIZE
    }

    /// A message for command `protocol_id` whose parameters are the bytes of
    /// `params_value`, none when it is `None`.
    pub fn new<T: ToParams>(
        protocol_id: ProtocolID,
        rw: ReadWrite,
        is_queued: bool,
        params_value: &Option<T>,
    ) -> (r: Self)
        ensures
            r.wf(),
            r.id == protocol_id.spec_code(),
            r.rw == <u8 as vstd::std_specs::convert::FromSpec<ReadWrite>>::from_spec(rw),
            r.is_queued == (if is_queued { 1u8 } else { 0u8 }),
            r.params_len == r@.params.len(),
            r@.params == match params_value {
                Some(p) => p.params_spec(),
                None => Seq::<u8>::empty(),
            },
            r.params@ == match params_value {
                Some(p) => p.params_block(),
                None => zeros(PARAMS_SIZE as nat),
            },
    {
        let (size, params) = match params_value {
            Some(p) => p.to_params(),
            None => (0usize, [0u8; PARAMS_SIZE]),
        };
        proof {
            if params_value is None {
                assert(params@.take(0) =~= Seq::<u8>::empty());
                assert(params@ =~= zeros(PARAMS_SIZE as nat));
            }
        }
        Self {
            id: protocol_id.code(),
            rw: u8::from(rw),
            is_queued: if is_queued { 1u8 } else { 0u8 },
            params_len: size as u8,
            params,
        }
    }

    /// The request that asks the device how much room its command queue has left.
    pub fn new_get_left_space() -> (r: Self)
        ensures
            r.wf(),
            r.id == ProtocolID::ProtocolQueuedCmdLeftSpace.spec_code(),
            r.rw == 0,
            r.is_queued == 0,
            r.params_len == 0,
            r.params@ == zeros(PARAMS_SIZE as nat),
    {
        let params = [0u8; PARAMS_SIZE];
        assert(params@ =~= zeros(PARAMS_SIZE as nat));
        Self {
            id: ProtocolID::ProtocolQueuedCmdLeftSpace.code(),
            rw: 0,
            is_queued: 0,
            params_len: 0,
            params,
        }
    }
}

} // verus!
