//! TLS record framing: putting plain bytes into application-data records and taking them out.

use vstd::prelude::*;

use crate::bytes::append;

verus! {

/// Record type of a handshake message.
pub const TLS_RECORD_HANDSHAKE: u8 = 0x16;

/// Record type of a change-cipher-spec message.
pub const TLS_RECORD_CCS: u8 = 0x14;

/// Record type of application data.
pub const TLS_RECORD_APPDATA: u8 = 0x17;

/// The most payload bytes that one outgoing application-data record carries.
pub const TLS_APPDATA_MAX: usize = 16384;

/// Bytes of a record header: type, two version bytes, two length bytes.
pub const RECORD_HEADER_LEN: usize = 5;

/// A record of the given type: header, then `body`.
pub open spec fn record(kind: u8, body: Seq<u8>) -> Seq<u8> {
    seq![kind, 0x03, 0x03, (body.len() / 256) as u8, (body.len() % 256) as u8] + body
}

/// The length that a record header announces.
pub open spec fn announced_len(header: Seq<u8>) -> nat {
    (header[3] * 256 + header[4]) as nat
}

/// `data` as application-data records: full ones first, then one with what is left over.
pub open spec fn wrapped(data: Seq<u8>) -> Seq<u8>
    decreases data.len(),
{
    if data.len() == 0 {
        Seq::empty()
    } else if data.len() <= TLS_APPDATA_MAX {
        record(TLS_RECORD_APPDATA, data)
    } else {
        record(TLS_RECORD_APPDATA, data.take(TLS_APPDATA_MAX as int)) + wrapped(
            data.skip(TLS_APPDATA_MAX as int),
        )
    }
}

/// Appends a record header to `out`.
pub(crate) fn push_header(out: &mut Vec<u8>, kind: u8, body_len: usize)
    requires
        body_len <= 0xffff,
    ensures
        final(out)@ == old(out)@ + seq![
            kind,
            0x03u8,
            0x03u8,
            (body_len as nat / 256) as u8,
            (body_len as nat % 256) as u8,
        ],
{
    out.push(kind);
    out.push(0x03);
    out.push(0x03);
    out.push((body_len / 256) as u8);
    out.push((body_len % 256) as u8);
    assert(out@ =~= old(out)@ + seq![
        kind,
        0x03u8,
        0x03u8,
        (body_len as nat / 256) as u8,
        (body_len as nat % 256) as u8,
    ]);
}

/// Frames `data` as application-data records of at most [`TLS_APPDATA_MAX`] payload bytes each.
/// No data makes no record.
pub fn wrap_tls_record(data: &[u8]) -> (out: Vec<u8>)
    ensures
        out@ == wrapped(data@),
{
    let mut out: Vec<u8> = Vec::with_capacity(data.len());
    let mut offset: usize = 0;
    assert(data@.skip(0) =~= data@);
    assert(out@ + wrapped(data@) =~= wrapped(data@));
    while offset < data.len()
        invariant
            offset <= data@.len(),
            out@ + wrapped(data@.skip(offset as int)) == wrapped(data@),
        decreases data@.len() - offset,
    {
        let end: usize = if data.len() - offset > TLS_APPDATA_MAX {
            offset + TLS_APPDATA_MAX
        } else {
            data.len()
        };
        let chunk = vstd::slice::slice_subrange(data, offset, end);
        let ghost before = out@;
        let ghost rest = data@.skip(offset as int);
        push_header(&mut out, TLS_RECORD_APPDATA, chunk.len());
        append(&mut out, chunk);
        proof {
            assert(chunk@ =~= rest.take(chunk@.len() as int));
            assert(rest.take(rest.len() as int) =~= rest);
            assert(rest.skip(chunk@.len() as int) =~= data@.skip(end as int));
            assert(out@ =~= before + record(TLS_RECORD_APPDATA, chunk@));
            assert(wrapped(rest) =~= record(TLS_RECORD_APPDATA, chunk@) + wrapped(
                data@.skip(end as int),
            ));
            assert(out@ + wrapped(data@.skip(end as int)) =~= before + wrapped(rest));
        }
        offset = end;
    }
    assert(data@.skip(offset as int) =~= Seq::<u8>::empty());
    assert(out@ + wrapped(data@.skip(offset as int)) =~= out@);
    out
}


/// What the reader of a record stream waits for.
#[derive(Clone, Copy, Debug, PartialEq, Eq, Structural)]
pub enum UnwrapState {
    /// The header of the next record.
    Header,
    /// This many bytes, which are thrown away.
    Skip(usize),
    /// This many bytes of application data.
    Payload(usize),
    /// The plain side to take the payload that was handed to it.
    Delivering,
    /// Nothing: the stream is over.
    Closed,
}

/// What happened since the last action of the reader.
#[derive(Debug)]
pub enum UnwrapEvent {
    /// The bytes that were asked for have been read.
    Read(Vec<u8>),
    /// The plain side took the payload.
    Delivered,
    /// The read or the delivery failed.
    Failed,
}

/// What the reader wants done next.
#[derive(Debug)]
pub enum UnwrapAction {
    /// Read exactly this many bytes.
    Read(usize),
    /// Hand these bytes to the plain side.
    Deliver(Vec<u8>),
    /// Stop.
    Close,
}

/// [`UnwrapEvent`] over byte sequences.
pub enum UnwrapEventView {
    Read(Seq<u8>),
    Delivered,
    Failed,
}

/// [`UnwrapAction`] over byte sequences.
pub enum UnwrapActionView {
    Read(nat),
    Deliver(Seq<u8>),
    Close,
}

impl View for UnwrapEvent {
    type V = UnwrapEventView;

    open spec fn view(&self) -> UnwrapEventView {
        match self {
            UnwrapEvent::Read(bytes) => UnwrapEventView::Read(bytes@),
            UnwrapEvent::Delivered => UnwrapEventView::Delivered,
            UnwrapEvent::Failed => UnwrapEventView::Failed,
        }
    }
}

impl View for UnwrapAction {
    type V = UnwrapActionView;

    open spec fn view(&self) -> UnwrapActionView {
        match self {
            UnwrapAction::Read(len) => UnwrapActionView::Read(*len as nat),
            UnwrapAction::Deliver(bytes) => UnwrapActionView::Deliver(bytes@),
            UnwrapAction::Close => UnwrapActionView::Close,
        }
    }
}

/// Where the reader stands when it waits for a record header.
pub open spec fn at_header() -> (UnwrapState, UnwrapActionView) {
    (UnwrapState::Header, UnwrapActionView::Read(RECORD_HEADER_LEN as nat))
}

/// Where the reader stands when the stream is over.
pub open spec fn at_end() -> (UnwrapState, UnwrapActionView) {
    (UnwrapState::Closed, UnwrapActionView::Close)
}

/// What a record header leads to: change-cipher-spec bodies are skipped, application data is
/// read, empty records of either type lead straight to the next header, and any other record
/// type ends the stream. A header can announce at most 65535 bytes, so no length is too long.
pub open spec fn after_header(header: Seq<u8>) -> (UnwrapState, UnwrapActionView) {
    let len = announced_len(header);
    if header[0] != TLS_RECORD_CCS && header[0] != TLS_RECORD_APPDATA {
        at_end()
    } else if len == 0 {
        at_header()
    } else if header[0] == TLS_RECORD_CCS {
        (UnwrapState::Skip(len as usize), UnwrapActionView::Read(len))
    } else {
        (UnwrapState::Payload(len as usize), UnwrapActionView::Read(len))
    }
}

/// The reader's next state and action. A read of another length than was asked for, and an
/// event that the state does not wait for, count as failures.
pub open spec fn unwrap_next(state: UnwrapState, event: UnwrapEventView) -> (
    UnwrapState,
    UnwrapActionView,
) {
    match (state, event) {
        (UnwrapState::Header, UnwrapEventView::Read(bytes)) if bytes.len() == RECORD_HEADER_LEN => {
            after_header(bytes)
        },
        (UnwrapState::Skip(len), UnwrapEventView::Read(bytes)) if bytes.len() == len => {
            at_header()
        },
        (UnwrapState::Payload(len), UnwrapEventView::Read(bytes)) if bytes.len() == len => {
            (UnwrapState::Delivering, UnwrapActionView::Deliver(bytes))
        },
        (UnwrapState::Delivering, UnwrapEventView::Delivered) => at_header(),
        _ => at_end(),
    }
}

/// The reader's first state and action: it asks for a record header.
pub fn unwrap_start() -> (next: (UnwrapState, UnwrapAction))
    ensures
        (next.0, next.1@) == at_header(),
        next.0 is Header,
        next.1 matches UnwrapAction::Read(len) && len == 5,
{
    (UnwrapState::Header, UnwrapAction::Read(RECORD_HEADER_LEN))
}

/// Decides what a complete record header leads to.
fn decide_header(header: &Vec<u8>) -> (next: (UnwrapState, UnwrapAction))
    requires
        header@.len() == RECORD_HEADER_LEN,
    ensures
        (next.0, next.1@) == after_header(header@),
{
    let kind: u8 = header[0];
    let len: usize = header[3] as usize * 256 + header[4] as usize;
    if kind != TLS_RECORD_CCS && kind != TLS_RECORD_APPDATA {
        (UnwrapState::Closed, UnwrapAction::Close)
    } else if len == 0 {
        (UnwrapState::Header, UnwrapAction::Read(RECORD_HEADER_LEN))
    } else if kind == TLS_RECORD_CCS {
        (UnwrapState::Skip(len), UnwrapAction::Read(len))
    } else {
        (UnwrapState::Payload(len), UnwrapAction::Read(len))
    }
}

/// One step of the reader that takes a record stream apart.
pub fn unwrap_step(state: UnwrapState, event: UnwrapEvent) -> (next: (UnwrapState, UnwrapAction))
    ensures
        (next.0, next.1@) == unwrap_next(state, event@),
{
    match (state, event) {
        (UnwrapState::Header, UnwrapEvent::Read(bytes)) => {
            if bytes.len() == RECORD_HEADER_LEN {
                decide_header(&bytes)
            } else {
                (UnwrapState::Closed, UnwrapAction::Close)
            }
        },
        (UnwrapState::Skip(len), UnwrapEvent::Read(bytes)) => {
            if bytes.len() == len {
                (UnwrapState::Header, UnwrapAction::Read(RECORD_HEADER_LEN))
            } else {
                (UnwrapState::Closed, UnwrapAction::Close)
            }
        },
        (UnwrapState::Payload(len), UnwrapEvent::Read(bytes)) => {
            if bytes.len() == len {
                (UnwrapState::Delivering, UnwrapAction::Deliver(bytes))
            } else {
                (UnwrapState::Closed, UnwrapAction::Close)
            }
        },
        (UnwrapState::Delivering, UnwrapEvent::Delivered) => {
            (UnwrapState::Header, UnwrapAction::Read(RECORD_HEADER_LEN))
        },
        _ => (UnwrapState::Closed, UnwrapAction::Close),
    }
}

/// The plain bytes in a record stream: the bodies of its application-data records, up to the
/// first record that is cut short or of a type that ends the stream.
pub open spec fn plain_of(stream: Seq<u8>) -> Seq<u8>
    decreases stream.len(),
{
    if stream.len() < RECORD_HEADER_LEN || stream.len() < RECORD_HEADER_LEN + announced_len(stream)
        || (stream[0] != TLS_RECORD_CCS && stream[0] != TLS_RECORD_APPDATA) {
        Seq::empty()
    } else {
        let end = RECORD_HEADER_LEN + announced_len(stream);
        let body = stream.subrange(RECORD_HEADER_LEN as int, end as int);
        let rest = plain_of(stream.skip(end as int));
        if stream[0] == TLS_RECORD_CCS {
            rest
        } else {
            body + rest
        }
    }
}

/// How many bytes of the stream a state waits for.
pub open spec fn awaited(state: UnwrapState) -> nat {
    match state {
        UnwrapState::Header => RECORD_HEADER_LEN as nat,
        UnwrapState::Skip(len) => len as nat,
        UnwrapState::Payload(len) => len as nat,
        _ => 0,
    }
}

/// All that the reader delivers when it is driven from `state` over `stream`: each read takes
/// the bytes that the state waits for, a read past the end of the stream fails, and every
/// delivery succeeds.
pub open spec fn delivered(state: UnwrapState, stream: Seq<u8>) -> Seq<u8>
    decreases stream.len(), if state is Delivering { 1nat } else { 0nat },
{
    if state is Delivering {
        delivered(UnwrapState::Header, stream)
    } else if awaited(state) == 0 || stream.len() < awaited(state) {
        Seq::empty()
    } else {
        let n = awaited(state) as int;
        let (after, action) = unwrap_next(state, UnwrapEventView::Read(stream.take(n)));
        let now = match action {
            UnwrapActionView::Deliver(bytes) => bytes,
            _ => Seq::empty(),
        };
        now + delivered(after, stream.skip(n))
    }
}

/// Driven over any record stream, the reader delivers exactly the plain bytes in it.
pub proof fn law_reader_delivers_plain_bytes(stream: Seq<u8>)
    ensures
        delivered(UnwrapState::Header, stream) == plain_of(stream),
    decreases stream.len(),
{
    reveal_with_fuel(delivered, 4);
    if stream.len() >= RECORD_HEADER_LEN {
        let header = stream.take(RECORD_HEADER_LEN as int);
        let tail = stream.skip(RECORD_HEADER_LEN as int);
        let len = announced_len(stream);
        assert(announced_len(header) == len);
        let (after, action) = unwrap_next(UnwrapState::Header, UnwrapEventView::Read(header));
        assert(delivered(UnwrapState::Header, stream) =~= delivered(after, tail));
        if after is Header {
            law_reader_delivers_plain_bytes(tail);
            assert(stream.subrange(RECORD_HEADER_LEN as int, RECORD_HEADER_LEN as int) + plain_of(
                tail,
            ) =~= plain_of(tail));
        } else if !(after is Closed) && tail.len() >= len {
            law_reader_delivers_plain_bytes(tail.skip(len as int));
            assert(tail.skip(len as int) =~= stream.skip(RECORD_HEADER_LEN + len));
            assert(tail.take(len as int) =~= stream.subrange(
                RECORD_HEADER_LEN as int,
                RECORD_HEADER_LEN + len,
            ));
            assert(delivered(after, tail) =~= plain_of(stream));
        }
    }
}

/// An application-data record at the front of a stream contributes its body.
proof fn lemma_leading_record(body: Seq<u8>, stream: Seq<u8>)
    requires
        body.len() <= 0xffff,
    ensures
        plain_of(record(TLS_RECORD_APPDATA, body) + stream) == body + plain_of(stream),
{
    let whole = record(TLS_RECORD_APPDATA, body) + stream;
    let end = RECORD_HEADER_LEN + body.len();
    assert(announced_len(whole) == body.len());
    assert(whole.subrange(RECORD_HEADER_LEN as int, end as int) =~= body);
    assert(whole.skip(end as int) =~= stream);
}

/// Framed data at the front of a stream comes out of it unchanged, ahead of what the rest of
/// the stream holds.
pub proof fn law_wrapped_data_comes_out(data: Seq<u8>, stream: Seq<u8>)
    ensures
        plain_of(wrapped(data) + stream) == data + plain_of(stream),
    decreases data.len(),
{
    if data.len() == 0 {
        assert(wrapped(data) + stream =~= stream);
        assert(data + plain_of(stream) =~= plain_of(stream));
    } else if data.len() <= TLS_APPDATA_MAX {
        lemma_leading_record(data, stream);
    } else {
        let first = data.take(TLS_APPDATA_MAX as int);
        let rest = data.skip(TLS_APPDATA_MAX as int);
        law_wrapped_data_comes_out(rest, stream);
        lemma_leading_record(first, wrapped(rest) + stream);
        assert(wrapped(data) + stream =~= record(TLS_RECORD_APPDATA, first) + (wrapped(rest)
            + stream));
        assert(first + (rest + plain_of(stream)) =~= data + plain_of(stream));
    }
}

/// Reading back what [`wrap_tls_record`] wrote gives the data back, whatever its length.
pub proof fn law_unwrap_undoes_wrap(data: Seq<u8>)
    ensures
        delivered(UnwrapState::Header, wrapped(data)) == data,
{
    law_reader_delivers_plain_bytes(wrapped(data));
    law_wrapped_data_comes_out(data, Seq::empty());
    assert(wrapped(data) + Seq::<u8>::empty() =~= wrapped(data));
    assert(data + plain_of(Seq::empty()) =~= data);
}

/// Whether `stream` is whole records, one behind the other, of whatever types and versions, so
/// that it ends at a record boundary.
pub open spec fn is_whole_records(stream: Seq<u8>) -> bool
    decreases stream.len(),
{
    stream.len() == 0 || {
        &&& stream.len() >= RECORD_HEADER_LEN
        &&& stream.len() >= RECORD_HEADER_LEN + announced_len(stream)
        &&& is_whole_records(stream.skip(RECORD_HEADER_LEN + announced_len(stream)))
    }
}

/// Whether `bytes` is one record that carries no plain bytes: a change-cipher-spec record with
/// any body, or application data without one. The version bytes do not matter.
pub open spec fn is_silent_record(bytes: Seq<u8>) -> bool {
    &&& bytes.len() >= RECORD_HEADER_LEN
    &&& bytes.len() == RECORD_HEADER_LEN + announced_len(bytes)
    &&& bytes[0] == TLS_RECORD_CCS || (bytes[0] == TLS_RECORD_APPDATA && announced_len(bytes) == 0)
}

/// A record without plain bytes, put into a stream at any record boundary, leaves what is
/// delivered as it was.
pub proof fn law_silent_record_changes_nothing(
    before: Seq<u8>,
    silent: Seq<u8>,
    after: Seq<u8>,
)
    requires
        is_whole_records(before),
        is_silent_record(silent),
    ensures
        plain_of(before + silent + after) == plain_of(before + after),
        delivered(UnwrapState::Header, before + silent + after) == delivered(
            UnwrapState::Header,
            before + after,
        ),
    decreases before.len(),
{
    let with = before + silent + after;
    let without = before + after;
    if before.len() == 0 {
        assert(without =~= after);
        assert(with =~= silent + after);
        assert(announced_len(with) == announced_len(silent));
        assert(with.skip(silent.len() as int) =~= after);
        assert(plain_of(with) =~= plain_of(after));
    } else {
        let end = RECORD_HEADER_LEN + announced_len(before);
        let rest = before.skip(end);
        law_silent_record_changes_nothing(rest, silent, after);
        assert(announced_len(with) == announced_len(before));
        assert(announced_len(without) == announced_len(before));
        assert(with.skip(end) =~= rest + silent + after);
        assert(without.skip(end) =~= rest + after);
        assert(with.subrange(RECORD_HEADER_LEN as int, end) =~= without.subrange(
            RECORD_HEADER_LEN as int,
            end,
        ));
    }
    law_reader_delivers_plain_bytes(with);
    law_reader_delivers_plain_bytes(without);
}

/// Framing costs five bytes for each started run of [`TLS_APPDATA_MAX`] bytes.
pub proof fn law_wrapped_length(data: Seq<u8>)
    ensures
        wrapped(data).len() == data.len() + RECORD_HEADER_LEN * ((data.len() + TLS_APPDATA_MAX - 1)
            / TLS_APPDATA_MAX as int),
    decreases data.len(),
{
    if data.len() > TLS_APPDATA_MAX {
        law_wrapped_length(data.skip(TLS_APPDATA_MAX as int));
    }
}

/// Where each byte of framed data stands. The data is cut into runs of 16384 bytes, the last of
/// which may be shorter. The run `c` is a record at `c * 16389`: type 0x17, version 3.3, the
/// run's length in two bytes, high byte first, and the run itself.
pub proof fn law_where_wrapped_bytes_stand(data: Seq<u8>, c: int)
    requires
        0 <= c,
        c * 16384 < data.len(),
    ensures
        wrapped(data).len() == data.len() + 5 * ((data.len() + 16383) / 16384),
        ({
            let out = wrapped(data);
            let start = c * 16389;
            let left = data.len() - c * 16384;
            let run = if left < 16384 {
                left
            } else {
                16384
            };
            &&& start + 5 + run <= out.len()
            &&& out[start] == 0x17
            &&& out[start + 1] == 0x03
            &&& out[start + 2] == 0x03
            &&& out[start + 3] * 256 + out[start + 4] == run
            &&& out.subrange(start + 5, start + 5 + run) == data.subrange(
                c * 16384,
                c * 16384 + run,
            )
        }),
    decreases c,
{
    law_wrapped_length(data);
    let out = wrapped(data);
    let left = data.len() - c * 16384;
    let run = if left < 16384 {
        left
    } else {
        16384
    };
    if c == 0 {
        assert(out.subrange(5, 5 + run) =~= data.subrange(0, run));
    } else {
        let rest = data.skip(16384);
        law_where_wrapped_bytes_stand(rest, c - 1);
        let start = c * 16389;
        let behind = wrapped(rest);
        assert(out =~= record(TLS_RECORD_APPDATA, data.take(16384)) + behind);
        assert(forall|i: int| 0 <= i < behind.len() ==> out[16389 + i] == #[trigger] behind[i]);
        assert(out[start] == behind[start - 16389]);
        assert(out[start + 1] == behind[start - 16389 + 1]);
        assert(out[start + 2] == behind[start - 16389 + 2]);
        assert(out[start + 3] == behind[start - 16389 + 3]);
        assert(out[start + 4] == behind[start - 16389 + 4]);
        assert(out.subrange(start + 5, start + 5 + run) =~= behind.subrange(
            start - 16389 + 5,
            start - 16389 + 5 + run,
        ));
        assert(data.subrange(c * 16384, c * 16384 + run) =~= rest.subrange(
            (c - 1) * 16384,
            (c - 1) * 16384 + run,
        ));
    }
}

/// All that the reader delivers over `stream` when its own actions are performed: a read takes
/// as many bytes as the action asks for, as long as the stream has them, and every delivery
/// succeeds.
pub open spec fn driven(state: UnwrapState, action: UnwrapActionView, stream: Seq<u8>) -> Seq<u8>
    decreases stream.len(), if action is Deliver { 1nat } else { 0nat },
{
    match action {
        UnwrapActionView::Read(n) => if n == 0 || n > stream.len() {
            Seq::empty()
        } else {
            let next = unwrap_next(state, UnwrapEventView::Read(stream.take(n as int)));
            driven(next.0, next.1, stream.skip(n as int))
        },
        UnwrapActionView::Deliver(bytes) => {
            let next = unwrap_next(state, UnwrapEventView::Delivered);
            if next.1 is Deliver {
                bytes
            } else {
                bytes + driven(next.0, next.1, stream)
            }
        },
        UnwrapActionView::Close => Seq::empty(),
    }
}

/// Performing the reader's actions over any stream delivers the plain bytes in it.
pub proof fn law_driven_reader_delivers_plain_bytes(stream: Seq<u8>)
    ensures
        driven(UnwrapState::Header, UnwrapActionView::Read(5), stream) == plain_of(stream),
    decreases stream.len(),
{
    reveal_with_fuel(driven, 4);
    if stream.len() >= 5 {
        let header = stream.take(5);
        let tail = stream.skip(5);
        let len = announced_len(stream);
        assert(announced_len(header) == len);
        let next = unwrap_next(UnwrapState::Header, UnwrapEventView::Read(header));
        if next.0 is Header {
            law_driven_reader_delivers_plain_bytes(tail);
            assert(stream.subrange(5, 5) + plain_of(tail) =~= plain_of(tail));
        } else if !(next.0 is Closed) && tail.len() >= len {
            law_driven_reader_delivers_plain_bytes(tail.skip(len as int));
            assert(tail.skip(len as int) =~= stream.skip(5 + len as int));
            assert(tail.take(len as int) =~= stream.subrange(5, 5 + len as int));
        }
    }
}

/// One record as its writer sees it.
pub struct RecordParts {
    pub kind: u8,
    pub major: u8,
    pub minor: u8,
    pub body: Seq<u8>,
}

/// Records laid out one behind the other, each with its length high byte first.
pub open spec fn laid_out(records: Seq<RecordParts>) -> Seq<u8>
    decreases records.len(),
{
    if records.len() == 0 {
        Seq::empty()
    } else {
        let first = records.first();
        let len = first.body.len();
        seq![first.kind, first.major, first.minor, (len / 256) as u8, (len % 256) as u8]
            + first.body + laid_out(records.drop_first())
    }
}

/// The bodies of the application-data records, joined, as far as only change-cipher-spec
/// records stand between them.
pub open spec fn app_bodies(records: Seq<RecordParts>) -> Seq<u8>
    decreases records.len(),
{
    if records.len() == 0 {
        Seq::empty()
    } else if records.first().kind == 0x17 {
        records.first().body + app_bodies(records.drop_first())
    } else if records.first().kind == 0x14 {
        app_bodies(records.drop_first())
    } else {
        Seq::empty()
    }
}

proof fn lemma_plain_of_records(records: Seq<RecordParts>, cut: Seq<u8>)
    requires
        forall|i: int| 0 <= i < records.len() ==> (#[trigger] records[i]).body.len() <= 65535,
        cut.len() < 5 || cut.len() < 5 + cut[3] * 256 + cut[4],
    ensures
        plain_of(laid_out(records) + cut) == app_bodies(records),
    decreases records.len(),
{
    let stream = laid_out(records) + cut;
    if records.len() == 0 {
        assert(stream =~= cut);
    } else {
        let first = records.first();
        let rest = records.drop_first();
        assert forall|i: int| 0 <= i < rest.len() implies (#[trigger] rest[i]).body.len()
            <= 65535 by {
            assert(rest[i] == records[i + 1]);
        }
        assert(records[0].body.len() <= 65535);
        lemma_plain_of_records(rest, cut);
        let end = 5 + first.body.len();
        assert(announced_len(stream) == first.body.len());
        assert(stream.skip(end as int) =~= laid_out(rest) + cut);
        assert(stream.subrange(5, end as int) =~= first.body);
    }
}

/// Whatever records a client sends, of any types, versions and lengths, and wherever its stream
/// is cut off: performing the reader's actions delivers the bodies of its application-data
/// records, whole and in order, up to the first record that is neither application data nor
/// change-cipher-spec.
pub proof fn law_reader_delivers_the_bodies_sent(records: Seq<RecordParts>, cut: Seq<u8>)
    requires
        forall|i: int| 0 <= i < records.len() ==> (#[trigger] records[i]).body.len() <= 65535,
        cut.len() < 5 || cut.len() < 5 + cut[3] * 256 + cut[4],
    ensures
        driven(UnwrapState::Header, UnwrapActionView::Read(5), laid_out(records) + cut)
            == app_bodies(records),
{
    lemma_plain_of_records(records, cut);
    law_driven_reader_delivers_plain_bytes(laid_out(records) + cut);
}

/// Performing the reader's actions over framed data and a further stream delivers the data,
/// whatever its length, and then what the stream alone would deliver.
pub proof fn law_driven_reader_undoes_wrap(data: Seq<u8>, stream: Seq<u8>)
    ensures
        driven(UnwrapState::Header, UnwrapActionView::Read(5), wrapped(data) + stream) == data
            + driven(UnwrapState::Header, UnwrapActionView::Read(5), stream),
{
    law_wrapped_data_comes_out(data, stream);
    law_driven_reader_delivers_plain_bytes(wrapped(data) + stream);
    law_driven_reader_delivers_plain_bytes(stream);
}

/// Whenever the reader asks for bytes, it asks for as many as its new state waits for, and for
/// at least one; it delivers exactly when it then waits for the delivery, and closes exactly
/// when it is closed.
pub proof fn law_reader_asks_for_what_it_awaits(state: UnwrapState, event: UnwrapEventView)
    ensures
        ({
            let next = unwrap_next(state, event);
            &&& next.1 matches UnwrapActionView::Read(n) ==> n > 0 && match next.0 {
                UnwrapState::Header => n == 5,
                UnwrapState::Skip(len) => n == len,
                UnwrapState::Payload(len) => n == len,
                _ => false,
            }
            &&& next.1 is Deliver <==> next.0 is Delivering
            &&& next.1 is Close <==> next.0 is Closed
        }),
{
}

/// The reader goes on exactly where it got what it waited for: a body that is to be thrown away
/// leads to the next header, a payload is delivered as it was read, and a delivery leads to the
/// next header. A failure, a read of another length, and an event that the state does not wait
/// for close the stream, and nothing opens it again.
pub proof fn law_reader_goes_on_or_closes(
    state: UnwrapState,
    event: UnwrapEventView,
    bytes: Seq<u8>,
    len: usize,
)
    requires
        bytes.len() == len,
    ensures
        unwrap_next(UnwrapState::Skip(len), UnwrapEventView::Read(bytes)) == (
            UnwrapState::Header,
            UnwrapActionView::Read(5),
        ),
        unwrap_next(UnwrapState::Payload(len), UnwrapEventView::Read(bytes)) == (
            UnwrapState::Delivering,
            UnwrapActionView::Deliver(bytes),
        ),
        unwrap_next(UnwrapState::Delivering, UnwrapEventView::Delivered) == (
            UnwrapState::Header,
            UnwrapActionView::Read(5),
        ),
        event is Failed || state is Closed || (event is Delivered <==> !(state is Delivering)) || (
        event matches UnwrapEventView::Read(other) && match state {
            UnwrapState::Header => other.len() != 5,
            UnwrapState::Skip(waited) => other.len() != waited,
            UnwrapState::Payload(waited) => other.len() != waited,
            _ => true,
        }) ==> unwrap_next(state, event) == (UnwrapState::Closed, UnwrapActionView::Close),
{
}

/// The views of events and actions hold their bytes and lengths unchanged.
pub proof fn law_reader_views_are_faithful(bytes: Vec<u8>, len: usize)
    ensures
        UnwrapEvent::Read(bytes)@ == UnwrapEventView::Read(bytes@),
        UnwrapEvent::Delivered@ is Delivered,
        UnwrapEvent::Failed@ is Failed,
        UnwrapAction::Deliver(bytes)@ == UnwrapActionView::Deliver(bytes@),
        UnwrapAction::Read(len)@ == UnwrapActionView::Read(len as nat),
        UnwrapAction::Close@ is Close,
{
}

/// What any five header bytes lead to. Of a change-cipher-spec record (0x14) and of application
/// data (0x17) as many bytes are asked for as the last two announce, the high byte first, to be
/// thrown away and to be delivered; where they announce none the next header is asked for. Any
/// other type closes the stream. The version bytes do not matter.
pub proof fn law_header_bytes_decide(kind: u8, major: u8, minor: u8, high: u8, low: u8)
    ensures
        ({
            let next = unwrap_next(
                UnwrapState::Header,
                UnwrapEventView::Read(seq![kind, major, minor, high, low]),
            );
            let len = high * 256 + low;
            &&& kind == 0x14 && len > 0 ==> next.0 == UnwrapState::Skip(len as usize) && next.1
                == UnwrapActionView::Read(len as nat)
            &&& kind == 0x17 && len > 0 ==> next.0 == UnwrapState::Payload(len as usize) && next.1
                == UnwrapActionView::Read(len as nat)
            &&& (kind == 0x14 || kind == 0x17) && len == 0 ==> next.0 is Header && next.1
                == UnwrapActionView::Read(5)
            &&& kind != 0x14 && kind != 0x17 ==> next.0 is Closed && next.1 is Close
        }),
{
}

} // verus!
