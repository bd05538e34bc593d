//! The steps of the certificate exchange that opens a private connection.
//!
//! Each side sends its certificate behind a two-byte length and reads the
//! other side's in the same form, eight bytes at a time and then one byte at a
//! time. What is read is dropped. The functions here say what to write and how
//! much to read next; the caller owns the socket.

use vstd::prelude::*;
use crate::bytes::copy_range;
use crate::scale::le_bytes;

verus! {

/// The most bytes that are read at once while a certificate is drained.
pub const DRAIN_CHUNK: usize = 8;

/// A certificate, or the anchor that certificates are checked against.
#[derive(Clone, PartialEq, Eq, Debug)]
pub struct CA(pub Vec<u8>);

impl CA {
    /// A certificate of the bytes `data`.
    pub fn new(data: Vec<u8>) -> (ca: CA)
        ensures
            ca.0@ == data@,
    {
        CA(data)
    }
}

/// What failed in an exchange.
#[derive(Clone, Copy, PartialEq, Eq, Debug, Structural)]
pub enum CaExchangeError {
    /// The handshake did not run to its end.
    HandshakeError,
    /// The connection failed after the handshake.
    IoError,
}

/// Where an exchange stands.
#[derive(Clone, Copy, PartialEq, Eq, Debug, Structural)]
pub enum HandshakeState {
    /// The length of the own certificate is to be written.
    SendLength,
    /// The own certificate is to be written.
    SendCert,
    /// The length of the other side's certificate is to be read.
    ReadLength,
    /// So many bytes of the other side's certificate are still to be read.
    Drain { remaining: usize },
    /// The exchange is over.
    Done,
}

/// What the caller does next on the socket.
#[derive(Clone, PartialEq, Eq, Debug)]
pub enum HandshakeAction {
    /// Write all of these bytes.
    Write(Vec<u8>),
    /// Read exactly so many bytes.
    Read(usize),
    /// Hand the socket on.
    Finish,
}

/// The two certificates of this side.
#[derive(Clone, Debug)]
pub struct CaExchangeConfig {
    anchor: CA,
    cert: CA,
}

/// The number that the two bytes of a length field write, lowest first.
pub open spec fn spec_decode_length(field: Seq<u8>) -> nat {
    (field[0] as nat) + 256 * (field[1] as nat)
}

/// The number of bytes to read next when `remaining` are left: eight while
/// more than eight are left, then one.
pub open spec fn spec_drain_step(remaining: nat) -> nat {
    if remaining > DRAIN_CHUNK {
        DRAIN_CHUNK as nat
    } else if remaining > 0 {
        1
    } else {
        0
    }
}

/// The state that follows when `remaining` bytes are left to read.
pub open spec fn spec_drain_state(remaining: usize) -> HandshakeState {
    if remaining == 0 {
        HandshakeState::Done
    } else {
        HandshakeState::Drain { remaining }
    }
}

/// The number of bytes that the reads of a drain take in all.
pub open spec fn drained_in_all(remaining: nat) -> nat
    decreases remaining,
{
    if remaining == 0 {
        0
    } else {
        spec_drain_step(remaining) + drained_in_all((remaining - spec_drain_step(remaining)) as nat)
    }
}

/// The number of reads that a drain takes.
pub open spec fn drain_reads(remaining: nat) -> nat
    decreases remaining,
{
    if remaining == 0 {
        0
    } else {
        1 + drain_reads((remaining - spec_drain_step(remaining)) as nat)
    }
}

/// The length field of a certificate of `len` bytes: the low sixteen bits of
/// `len`, lowest byte first.
pub fn length_field(len: usize) -> (field: [u8; 2])
    ensures
        field@ == le_bytes((len % 0x1_0000) as nat, 2),
        len < 0x1_0000 ==> spec_decode_length(field@) == len,
{
    let low: usize = len % 0x1_0000;
    let field = [(low % 256) as u8, (low / 256) as u8];
    proof {
        reveal_with_fuel(le_bytes, 3);
        assert(field@ =~= le_bytes(low as nat, 2));
    }
    field
}

/// The number that a length field writes.
pub fn decode_length(field: &[u8; 2]) -> (len: usize)
    ensures
        len == spec_decode_length(field@),
        len < 0x1_0000,
{
    field[0] as usize + 256 * (field[1] as usize)
}

/// The number of bytes to read next when `remaining` are left.
pub fn drain_step(remaining: usize) -> (count: usize)
    ensures
        count == spec_drain_step(remaining as nat),
        count <= remaining,
        remaining > 0 ==> count > 0,
{
    if remaining > DRAIN_CHUNK {
        DRAIN_CHUNK
    } else if remaining > 0 {
        1
    } else {
        0
    }
}

impl CaExchangeConfig {
    /// The configuration of a side with the given anchor and certificate.
    pub fn new(anchor: CA, cert: CA) -> (config: CaExchangeConfig)
        ensures
            config.spec_anchor() == anchor.0@,
            config.spec_cert() == cert.0@,
    {
        CaExchangeConfig { anchor, cert }
    }

    /// The bytes of the anchor.
    pub closed spec fn spec_anchor(&self) -> Seq<u8> {
        self.anchor.0@
    }

    /// The bytes of the certificate.
    pub closed spec fn spec_cert(&self) -> Seq<u8> {
        self.cert.0@
    }

    /// What is done on the socket in `state`.
    pub open spec fn spec_action(&self, state: HandshakeState) -> HandshakeActionView {
        match state {
            HandshakeState::SendLength => HandshakeActionView::Write(
                le_bytes((self.spec_cert().len() % 0x1_0000) as nat, 2),
            ),
            HandshakeState::SendCert => HandshakeActionView::Write(self.spec_cert()),
            HandshakeState::ReadLength => HandshakeActionView::Read(2),
            HandshakeState::Drain { remaining } => HandshakeActionView::Read(
                spec_drain_step(remaining as nat),
            ),
            HandshakeState::Done => HandshakeActionView::Finish,
        }
    }

    /// The state in which an exchange starts.
    pub fn start(&self) -> (state: HandshakeState)
        ensures
            state == HandshakeState::SendLength,
    {
        HandshakeState::SendLength
    }

    /// What the caller does on the socket in `state`.
    pub fn action(&self, state: HandshakeState) -> (action: HandshakeAction)
        ensures
            action@ == self.spec_action(state),
    {
        match state {
            HandshakeState::SendLength => {
                let field = length_field(self.cert.0.len());
                assert(field@.subrange(0, 2) =~= field@);
                HandshakeAction::Write(copy_range(field.as_slice(), 0, 2))
            },
            HandshakeState::SendCert => {
                assert(self.cert.0@.subrange(0, self.cert.0@.len() as int) =~= self.cert.0@);
                HandshakeAction::Write(copy_range(self.cert.0.as_slice(), 0, self.cert.0.len()))
            },
            HandshakeState::ReadLength => HandshakeAction::Read(2),
            HandshakeState::Drain { remaining } => HandshakeAction::Read(drain_step(remaining)),
            HandshakeState::Done => HandshakeAction::Finish,
        }
    }
}

/// What a `HandshakeAction` is in contracts.
pub enum HandshakeActionView {
    Write(Seq<u8>),
    Read(nat),
    Finish,
}

impl View for HandshakeAction {
    type V = HandshakeActionView;

    open spec fn view(&self) -> HandshakeActionView {
        match self {
            HandshakeAction::Write(bytes) => HandshakeActionView::Write(bytes@),
            HandshakeAction::Read(count) => HandshakeActionView::Read(*count as nat),
            HandshakeAction::Finish => HandshakeActionView::Finish,
        }
    }
}

/// The state that follows `state` once its action is done, where `received`
/// holds the bytes that were read, if any were. A read that brought another
/// number of bytes than was asked for ends the exchange with an error.
pub open spec fn spec_advance(state: HandshakeState, received: Seq<u8>) -> Result<
    HandshakeState,
    CaExchangeError,
> {
    match state {
        HandshakeState::SendLength => Ok(HandshakeState::SendCert),
        HandshakeState::SendCert => Ok(HandshakeState::ReadLength),
        HandshakeState::ReadLength => if received.len() == 2 {
            Ok(spec_drain_state(spec_decode_length(received) as usize))
        } else {
            Err(CaExchangeError::HandshakeError)
        },
        HandshakeState::Drain { remaining } => if received.len() == spec_drain_step(
            remaining as nat,
        ) {
            Ok(spec_drain_state((remaining - received.len()) as usize))
        } else {
            Err(CaExchangeError::HandshakeError)
        },
        HandshakeState::Done => Ok(HandshakeState::Done),
    }
}

/// The state that follows `state` once its action is done.
pub fn advance(state: HandshakeState, received: &[u8]) -> (next: Result<
    HandshakeState,
    CaExchangeError,
>)
    ensures
        next == spec_advance(state, received@),
{
    match state {
        HandshakeState::SendLength => Ok(HandshakeState::SendCert),
        HandshakeState::SendCert => Ok(HandshakeState::ReadLength),
        HandshakeState::ReadLength => {
            if received.len() != 2 {
                return Err(CaExchangeError::HandshakeError);
            }
            let remaining = decode_length(&[received[0], received[1]]);
            Ok(drain_state(remaining))
        },
        HandshakeState::Drain { remaining } => {
            if received.len() != drain_step(remaining) {
                return Err(CaExchangeError::HandshakeError);
            }
            Ok(drain_state(remaining - received.len()))
        },
        HandshakeState::Done => Ok(HandshakeState::Done),
    }
}

/// The state in which `remaining` bytes are left to read.
pub fn drain_state(remaining: usize) -> (state: HandshakeState)
    ensures
        state == spec_drain_state(remaining),
{
    if remaining == 0 {
        HandshakeState::Done
    } else {
        HandshakeState::Drain { remaining }
    }
}

/// The reads of a drain take exactly the bytes that the length field
/// announced.
pub proof fn lemma_drain_reads_all(remaining: nat)
    ensures
        drained_in_all(remaining) == remaining,
    decreases remaining,
{
    if remaining > 0 {
        lemma_drain_reads_all((remaining - spec_drain_step(remaining)) as nat);
    }
}

/// A drain of more than eight bytes takes one read of eight and then the
/// reads of the rest; a drain of up to eight bytes takes one read for each.
pub proof fn lemma_drain_read_count(remaining: nat)
    ensures
        remaining <= DRAIN_CHUNK ==> drain_reads(remaining) == remaining,
        remaining > DRAIN_CHUNK ==> drain_reads(remaining) == 1 + drain_reads(
            (remaining - DRAIN_CHUNK) as nat,
        ),
    decreases remaining,
{
    if remaining > 0 && remaining <= DRAIN_CHUNK {
        lemma_drain_read_count((remaining - 1) as nat);
    }
}

} // verus!
