//! Carrying bytes between two connections: the relay to the masking domain, and the way from
//! the plain side back to the client's record stream.

use vstd::prelude::*;
use vstd::string::StringExecFns;

#[allow(unused_imports)]
use crate::records::{
    delivered, driven, law_driven_reader_undoes_wrap, law_reader_delivers_plain_bytes,
    law_wrapped_data_comes_out, plain_of, wrap_tls_record, wrapped, UnwrapActionView, UnwrapState,
};

verus! {

/// Seconds that the connection to the masking domain may take to open.
pub const CONNECT_TIMEOUT_SECS: u64 = 10;

/// What a pump does to the bytes it carries.
#[derive(Clone, Copy, Debug, PartialEq, Eq, Structural)]
pub enum Pump {
    /// Carries them as they are, as the masking relay does in either direction, and shuts the
    /// write side down at the end.
    Masking,
    /// Frames them as records for the client.
    Framing,
}

impl Pump {
    /// The most bytes that one read of the pump takes.
    pub open spec fn spec_buffer_len(self) -> usize {
        match self {
            Pump::Masking => 16384,
            Pump::Framing => 65536,
        }
    }

    /// What the pump writes for a chunk that it read.
    pub open spec fn carried(self, chunk: Seq<u8>) -> Seq<u8> {
        match self {
            Pump::Masking => chunk,
            Pump::Framing => wrapped(chunk),
        }
    }

    /// The most bytes that one read of the pump takes.
    #[verifier::when_used_as_spec(spec_buffer_len)]
    pub fn buffer_len(self) -> (len: usize)
        ensures
            len == self.spec_buffer_len(),
    {
        match self {
            Pump::Masking => 16384,
            Pump::Framing => 65536,
        }
    }
}

/// What happened since the last action of a pump.
#[derive(Debug)]
pub enum PumpEvent {
    /// The pump was started.
    Started,
    /// A read gave these bytes; none at the end of the stream.
    Read(Vec<u8>),
    /// The read failed.
    ReadFailed,
    /// All the bytes were written.
    Written,
    /// The write failed.
    WriteFailed,
}

/// What a pump wants done next.
#[derive(Debug)]
pub enum PumpAction {
    /// Read up to this many bytes.
    Read(usize),
    /// Write these bytes.
    Write(Vec<u8>),
    /// Shut the write side down and stop.
    Shutdown,
    /// Stop.
    Stop,
}

/// [`PumpEvent`] over byte sequences.
pub enum PumpEventView {
    Started,
    Read(Seq<u8>),
    ReadFailed,
    Written,
    WriteFailed,
}

/// [`PumpAction`] over byte sequences.
pub enum PumpActionView {
    Read(nat),
    Write(Seq<u8>),
    Shutdown,
    Stop,
}

impl View for PumpEvent {
    type V = PumpEventView;

    open spec fn view(&self) -> PumpEventView {
        match self {
            PumpEvent::Started => PumpEventView::Started,
            PumpEvent::Read(bytes) => PumpEventView::Read(bytes@),
            PumpEvent::ReadFailed => PumpEventView::ReadFailed,
            PumpEvent::Written => PumpEventView::Written,
            PumpEvent::WriteFailed => PumpEventView::WriteFailed,
        }
    }
}

impl View for PumpAction {
    type V = PumpActionView;

    open spec fn view(&self) -> PumpActionView {
        match self {
            PumpAction::Read(len) => PumpActionView::Read(*len as nat),
            PumpAction::Write(bytes) => PumpActionView::Write(bytes@),
            PumpAction::Shutdown => PumpActionView::Shutdown,
            PumpAction::Stop => PumpActionView::Stop,
        }
    }
}

/// How a pump ends.
pub open spec fn pump_end(pump: Pump) -> PumpActionView {
    match pump {
        Pump::Masking => PumpActionView::Shutdown,
        Pump::Framing => PumpActionView::Stop,
    }
}

/// A pump's next action: it reads, writes what it read, and reads again, until a read gives
/// nothing or either side fails.
pub open spec fn pump_next(pump: Pump, event: PumpEventView) -> PumpActionView {
    match event {
        PumpEventView::Started | PumpEventView::Written => {
            PumpActionView::Read(pump.buffer_len() as nat)
        },
        PumpEventView::Read(chunk) if chunk.len() > 0 => PumpActionView::Write(pump.carried(chunk)),
        _ => pump_end(pump),
    }
}

/// One step of a pump.
pub fn pump_step(pump: Pump, event: PumpEvent) -> (action: PumpAction)
    ensures
        action@ == pump_next(pump, event@),
        event is Started || event is Written ==> action is Read && action->Read_0 > 0,
        event matches PumpEvent::Read(chunk) ==> (action is Write <==> chunk@.len() > 0),
{
    match event {
        PumpEvent::Started | PumpEvent::Written => PumpAction::Read(pump.buffer_len()),
        PumpEvent::Read(chunk) => {
            if chunk.len() > 0 {
                match pump {
                    Pump::Masking => PumpAction::Write(chunk),
                    Pump::Framing => PumpAction::Write(wrap_tls_record(chunk.as_slice())),
                }
            } else {
                match pump {
                    Pump::Masking => PumpAction::Shutdown,
                    Pump::Framing => PumpAction::Stop,
                }
            }
        },
        _ => match pump {
            Pump::Masking => PumpAction::Shutdown,
            Pump::Framing => PumpAction::Stop,
        },
    }
}

/// All that a pump writes when its reads give `chunks` one after the other and no write fails.
pub open spec fn pumped(pump: Pump, chunks: Seq<Seq<u8>>) -> Seq<u8>
    decreases chunks.len(),
{
    if chunks.len() == 0 {
        Seq::empty()
    } else {
        match pump_next(pump, PumpEventView::Read(chunks.first())) {
            PumpActionView::Write(bytes) => bytes + pumped(pump, chunks.drop_first()),
            _ => Seq::empty(),
        }
    }
}

/// The stream that a run of reads gives, which ends at the first read that gives nothing.
pub open spec fn joined(chunks: Seq<Seq<u8>>) -> Seq<u8>
    decreases chunks.len(),
{
    if chunks.len() == 0 || chunks.first().len() == 0 {
        Seq::empty()
    } else {
        chunks.first() + joined(chunks.drop_first())
    }
}

/// The masking relay changes nothing: what it writes is what it read, however the stream was
/// cut into chunks.
pub proof fn law_masking_is_transparent(chunks: Seq<Seq<u8>>)
    ensures
        pumped(Pump::Masking, chunks) == joined(chunks),
    decreases chunks.len(),
{
    if chunks.len() > 0 {
        law_masking_is_transparent(chunks.drop_first());
    }
}

proof fn lemma_framed_chunks_come_out(chunks: Seq<Seq<u8>>)
    ensures
        plain_of(pumped(Pump::Framing, chunks)) == joined(chunks),
    decreases chunks.len(),
{
    if chunks.len() > 0 {
        lemma_framed_chunks_come_out(chunks.drop_first());
        law_wrapped_data_comes_out(
            chunks.first(),
            pumped(Pump::Framing, chunks.drop_first()),
        );
    }
}

/// What the framing pump writes, a record reader delivers again as one stream: the bytes that
/// the pump read, in order, however they were cut into chunks.
pub proof fn law_framed_stream_comes_out(chunks: Seq<Seq<u8>>)
    ensures
        delivered(UnwrapState::Header, pumped(Pump::Framing, chunks)) == joined(chunks),
{
    lemma_framed_chunks_come_out(chunks);
    law_reader_delivers_plain_bytes(pumped(Pump::Framing, chunks));
}

/// What the masking of a connection waits for.
#[derive(Clone, Copy, Debug, PartialEq, Eq, Structural)]
pub enum MaskState {
    /// The connection to the masking domain.
    Connecting,
    /// The masked connection to be counted.
    Counting,
    /// The client's first bytes to be passed on.
    Forwarding,
    /// Nothing: the relay runs, or there is none.
    Finished,
}

/// What happened since the last action of the masking.
#[derive(Clone, Copy, Debug, PartialEq, Eq, Structural)]
pub enum MaskEvent {
    /// The connection is open.
    Connected,
    /// The connection could not be opened in time.
    ConnectFailed,
    /// The masked connection was counted.
    Counted,
    /// The bytes were written.
    Written,
    /// The bytes could not be written.
    WriteFailed,
}

/// What the masking wants done next.
#[derive(Debug)]
pub enum MaskAction {
    /// Connect to this address, within [`CONNECT_TIMEOUT_SECS`].
    Connect(String),
    /// Count one more masked connection.
    Count,
    /// Write these bytes to the masking domain.
    Write(Vec<u8>),
    /// Run a masking pump in either direction.
    Relay,
    /// Drop the connection.
    Stop,
}

/// [`MaskAction`] over sequences.
pub enum MaskActionView {
    Connect(Seq<char>),
    Count,
    Write(Seq<u8>),
    Relay,
    Stop,
}

impl View for MaskAction {
    type V = MaskActionView;

    open spec fn view(&self) -> MaskActionView {
        match self {
            MaskAction::Connect(address) => MaskActionView::Connect(address@),
            MaskAction::Count => MaskActionView::Count,
            MaskAction::Write(bytes) => MaskActionView::Write(bytes@),
            MaskAction::Relay => MaskActionView::Relay,
            MaskAction::Stop => MaskActionView::Stop,
        }
    }
}

/// The masking's first state and action: with no domain there is nothing to do, otherwise the
/// domain's HTTPS port is dialled.
pub open spec fn mask_first(domain: Seq<char>) -> (MaskState, MaskActionView) {
    if domain.len() == 0 {
        (MaskState::Finished, MaskActionView::Stop)
    } else {
        (MaskState::Connecting, MaskActionView::Connect(domain + ":443"@))
    }
}

/// The masking's next state and action, where `initial` is what the client sent so far: an
/// open connection is counted, gets those bytes if there are any, and is then relayed.
pub open spec fn mask_next(state: MaskState, event: MaskEvent, initial: Seq<u8>) -> (
    MaskState,
    MaskActionView,
) {
    match (state, event) {
        (MaskState::Connecting, MaskEvent::Connected) => (
            MaskState::Counting,
            MaskActionView::Count,
        ),
        (MaskState::Counting, MaskEvent::Counted) if initial.len() > 0 => (
            MaskState::Forwarding,
            MaskActionView::Write(initial),
        ),
        (MaskState::Counting, MaskEvent::Counted) => (MaskState::Finished, MaskActionView::Relay),
        (MaskState::Forwarding, MaskEvent::Written) => (
            MaskState::Finished,
            MaskActionView::Relay,
        ),
        _ => (MaskState::Finished, MaskActionView::Stop),
    }
}

/// The address of a domain's HTTPS port.
fn https_address(domain: &str) -> (address: String)
    ensures
        address@ == domain@ + ":443"@,
{
    let mut address = domain.to_string();
    address.append(":443");
    address
}

/// Starts the masking of a connection behind `domain`.
pub fn mask_start(domain: &str) -> (next: (MaskState, MaskAction))
    ensures
        (next.0, next.1@) == mask_first(domain@),
        next.1 is Stop <==> domain@.len() == 0,
        domain@.len() > 0 ==> next.0 is Connecting && (
        next.1 matches MaskAction::Connect(address) && address@ == domain@ + ":443"@),
{
    if domain.is_empty() {
        (MaskState::Finished, MaskAction::Stop)
    } else {
        (MaskState::Connecting, MaskAction::Connect(https_address(domain)))
    }
}

/// One step of the masking of a connection whose client sent `initial` so far.
pub fn mask_step(state: MaskState, event: MaskEvent, initial: &[u8]) -> (next: (
    MaskState,
    MaskAction,
))
    ensures
        (next.0, next.1@) == mask_next(state, event, initial@),
{
    match (state, event) {
        (MaskState::Connecting, MaskEvent::Connected) => (MaskState::Counting, MaskAction::Count),
        (MaskState::Counting, MaskEvent::Counted) => {
            if initial.len() > 0 {
                (
                    MaskState::Forwarding,
                    MaskAction::Write(vstd::slice::slice_to_vec(initial)),
                )
            } else {
                (MaskState::Finished, MaskAction::Relay)
            }
        },
        (MaskState::Forwarding, MaskEvent::Written) => (MaskState::Finished, MaskAction::Relay),
        _ => (MaskState::Finished, MaskAction::Stop),
    }
}

/// Every masked connection is counted once, between its opening and its first byte: the count
/// follows the opening and nothing else, and only what was counted is written to or relayed.
pub proof fn law_masked_connections_are_counted(
    state: MaskState,
    event: MaskEvent,
    initial: Seq<u8>,
)
    ensures
        mask_next(state, event, initial).1 is Count <==> state is Connecting && event is Connected,
        mask_next(state, event, initial).0 is Counting <==> state is Connecting
            && event is Connected,
        mask_next(state, event, initial).1 is Write ==> state is Counting,
        mask_next(state, event, initial).1 is Relay ==> state is Counting || state is Forwarding,
        mask_next(state, event, initial).0 is Forwarding ==> state is Counting,
{
}

/// Without failures the masking domain sees the client's first bytes and then everything that
/// the client sends, with nothing in between.
pub proof fn law_masking_domain_sees_the_client(initial: Seq<u8>, chunks: Seq<Seq<u8>>)
    ensures
        ({
            let opened = mask_next(MaskState::Connecting, MaskEvent::Connected, initial);
            let counted = mask_next(opened.0, MaskEvent::Counted, initial);
            &&& counted.1 is Write || counted.1 is Relay
            &&& counted.1 is Write ==> mask_next(counted.0, MaskEvent::Written, initial).1 is Relay
            &&& (match counted.1 {
                MaskActionView::Write(bytes) => bytes,
                _ => Seq::empty(),
            }) + pumped(Pump::Masking, chunks) == initial + joined(chunks)
        }),
{
    law_masking_is_transparent(chunks);
    assert(initial.len() == 0 ==> initial =~= Seq::empty());
}

/// All that a pump writes when its own actions are performed: a read gives the next chunk, if
/// there is one and it is no longer than the action allows, and every write succeeds.
pub open spec fn pump_run(pump: Pump, action: PumpActionView, chunks: Seq<Seq<u8>>) -> Seq<u8>
    decreases chunks.len(), if action is Write { 1nat } else { 0nat },
{
    match action {
        PumpActionView::Read(most) => if chunks.len() == 0 || chunks.first().len() > most {
            Seq::empty()
        } else {
            pump_run(
                pump,
                pump_next(pump, PumpEventView::Read(chunks.first())),
                chunks.drop_first(),
            )
        },
        PumpActionView::Write(bytes) => {
            let next = pump_next(pump, PumpEventView::Written);
            if next is Write {
                bytes
            } else {
                bytes + pump_run(pump, next, chunks)
            }
        },
        _ => Seq::empty(),
    }
}

/// Performing its actions from the start, the masking pump writes all that its reads give, as
/// it is and in order, however many reads there are and however long each is.
pub proof fn law_masking_run_writes_what_it_read(chunks: Seq<Seq<u8>>)
    requires
        forall|i: int| 0 <= i < chunks.len() ==> 0 < (#[trigger] chunks[i]).len() <= 16384,
    ensures
        pump_run(Pump::Masking, pump_next(Pump::Masking, PumpEventView::Started), chunks)
            == chunks.flatten(),
    decreases chunks.len(),
{
    reveal_with_fuel(pump_run, 3);
    if chunks.len() > 0 {
        let rest = chunks.drop_first();
        assert(0 < chunks[0].len() <= 16384);
        assert forall|i: int| 0 <= i < rest.len() implies 0 < (#[trigger] rest[i]).len()
            <= 16384 by {
            assert(rest[i] == chunks[i + 1]);
        }
        law_masking_run_writes_what_it_read(rest);
    }
}

/// Performing its actions from the start, the framing pump writes records from which the
/// reader's own actions deliver all that the pump's reads gave, in order, however many reads
/// there are and however long each is.
pub proof fn law_framing_run_is_read_back(chunks: Seq<Seq<u8>>)
    requires
        forall|i: int| 0 <= i < chunks.len() ==> 0 < (#[trigger] chunks[i]).len() <= 65536,
    ensures
        driven(
            UnwrapState::Header,
            UnwrapActionView::Read(5),
            pump_run(Pump::Framing, pump_next(Pump::Framing, PumpEventView::Started), chunks),
        ) == chunks.flatten(),
    decreases chunks.len(),
{
    reveal_with_fuel(pump_run, 3);
    if chunks.len() > 0 {
        let rest = chunks.drop_first();
        assert(0 < chunks[0].len() <= 65536);
        assert forall|i: int| 0 <= i < rest.len() implies 0 < (#[trigger] rest[i]).len()
            <= 65536 by {
            assert(rest[i] == chunks[i + 1]);
        }
        law_framing_run_is_read_back(rest);
        law_driven_reader_undoes_wrap(
            chunks[0],
            pump_run(Pump::Framing, pump_next(Pump::Framing, PumpEventView::Started), rest),
        );
    }
}

/// Either pump reads when it starts and after each write: at most 16384 bytes where it masks, at
/// most 65536 where it frames. It writes exactly after a read that gave something, and what the
/// masking pump writes is what it read, what the framing pump writes is that in records. After a read that gave nothing and after a failure the
/// masking pump shuts the write side down, and the framing pump stops.
pub proof fn law_pump_reads_writes_and_ends(pump: Pump, event: PumpEventView)
    ensures
        event is Started || event is Written ==> pump_next(pump, event) == PumpActionView::Read(
            if pump is Masking {
                16384
            } else {
                65536
            },
        ),
        event matches PumpEventView::Read(chunk) ==> (pump_next(pump, event) is Write
            <==> chunk.len() > 0),
        event matches PumpEventView::Read(chunk) ==> pump is Masking && chunk.len() > 0
            ==> pump_next(pump, event) == PumpActionView::Write(chunk),
        event matches PumpEventView::Read(chunk) ==> pump is Framing && chunk.len() > 0
            ==> pump_next(pump, event) == PumpActionView::Write(wrapped(chunk)),
        event is ReadFailed || event is WriteFailed || (event matches PumpEventView::Read(chunk)
            && chunk.len() == 0) ==> pump_next(pump, event) == (if pump is Masking {
            PumpActionView::Shutdown
        } else {
            PumpActionView::Stop
        }),
{
}

/// Every domain that is not empty is dialled at port 443, as it is spelt; with an empty one
/// there is nothing to do.
pub proof fn law_every_domain_is_dialled(domain: Seq<char>)
    ensures
        domain.len() > 0 ==> mask_first(domain) == (
            MaskState::Connecting,
            MaskActionView::Connect(domain + seq![':', '4', '4', '3']),
        ),
        domain.len() == 0 ==> mask_first(domain) == (MaskState::Finished, MaskActionView::Stop),
{
    reveal_strlit(":443");
    assert(":443"@ =~= seq![':', '4', '4', '3']);
}

/// A masked connection takes its course: opened, it is counted; counted, it gets the client's
/// first bytes as they are, and where there are none or once they are written it is relayed.
/// Anything else that happens, in any state, drops it.
pub proof fn law_masking_takes_its_course(state: MaskState, event: MaskEvent, initial: Seq<u8>)
    ensures
        mask_next(MaskState::Connecting, MaskEvent::Connected, initial) == (
            MaskState::Counting,
            MaskActionView::Count,
        ),
        initial.len() > 0 ==> mask_next(MaskState::Counting, MaskEvent::Counted, initial) == (
            MaskState::Forwarding,
            MaskActionView::Write(initial),
        ),
        initial.len() == 0 ==> mask_next(MaskState::Counting, MaskEvent::Counted, initial) == (
            MaskState::Finished,
            MaskActionView::Relay,
        ),
        mask_next(MaskState::Forwarding, MaskEvent::Written, initial) == (
            MaskState::Finished,
            MaskActionView::Relay,
        ),
        !(state is Connecting && event is Connected) && !(state is Counting && event is Counted)
            && !(state is Forwarding && event is Written) ==> mask_next(state, event, initial) == (
            MaskState::Finished,
            MaskActionView::Stop,
        ),
{
}

/// The views of events and actions hold their bytes, lengths and texts unchanged.
pub proof fn law_relay_views_are_faithful(bytes: Vec<u8>, len: usize, address: String)
    ensures
        PumpEvent::Started@ is Started,
        PumpEvent::Read(bytes)@ == PumpEventView::Read(bytes@),
        PumpEvent::ReadFailed@ is ReadFailed,
        PumpEvent::Written@ is Written,
        PumpEvent::WriteFailed@ is WriteFailed,
        PumpAction::Read(len)@ == PumpActionView::Read(len as nat),
        PumpAction::Write(bytes)@ == PumpActionView::Write(bytes@),
        PumpAction::Shutdown@ is Shutdown,
        PumpAction::Stop@ is Stop,
        MaskAction::Connect(address)@ == MaskActionView::Connect(address@),
        MaskAction::Count@ is Count,
        MaskAction::Write(bytes)@ == MaskActionView::Write(bytes@),
        MaskAction::Relay@ is Relay,
        MaskAction::Stop@ is Stop,
{
}

/// The connection to the masking domain gets ten seconds to open.
pub proof fn law_masking_gets_ten_seconds()
    ensures
        CONNECT_TIMEOUT_SECS == 10,
{
}

} // verus!
