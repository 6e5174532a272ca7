//! Events on their way to a virtual device, and from a kernel device.

use crate::input::{is_event_type, EventKind, EventTime, InputEvent};
use bytes::BytesMut;
use vstd::layout::size_of;
use vstd::prelude::*;

verus! {

#[verifier::external_type_specification]
#[verifier::external_body]
pub struct ExBytesMut(bytes::BytesMut);

#[verifier::external_type_specification]
#[verifier::external_body]
pub struct ExRawEvent(input_linux::sys::input_event);

/// An event as the kernel has it: its timestamp, its type, its code and its
/// value.
#[derive(Debug, Clone, Copy, PartialEq, Eq, Structural)]
pub struct RawEvent {
    pub seconds: i64,
    pub microseconds: i64,
    pub type_: u16,
    pub code: u16,
    pub value: i32,
}

/// The number of bytes that an event takes: that of the kernel's `input_event`.
pub open spec fn event_size() -> nat {
    size_of::<input_linux::sys::input_event>()
}

/// Whether a number of bytes is that of some whole events.
pub open spec fn is_whole(len: nat) -> bool {
    len as int % event_size() as int == 0
}

/// The bytes in a buffer.
pub uninterp spec fn buffered(buf: BytesMut) -> Seq<u8>;

/// The events that the bytes in a buffer are on this machine, one after another
/// from the first byte on; bytes at the end that are no whole event are left
/// out.
pub uninterp spec fn buffered_events(buf: BytesMut) -> Seq<RawEvent>;

/// `bytes::BytesMut::new`: an empty buffer.
pub assume_specification[ bytes::BytesMut::new ]() -> (buf: BytesMut)
    ensures
        buffered(buf) == Seq::<u8>::empty(),
        buffered_events(buf) == Seq::<RawEvent>::empty(),
;

/// `bytes::BytesMut::len`: the number of bytes in the buffer.
pub assume_specification[ bytes::BytesMut::len ](buf: &BytesMut) -> (len: usize)
    ensures
        len == buffered(*buf).len(),
;

/// `bytes::BytesMut::split_to`: takes the first bytes off the buffer, which
/// has at least that many, and returns them. Where they are whole events, the
/// events that are left are those behind them.
pub assume_specification[ bytes::BytesMut::split_to ](buf: &mut BytesMut, at: usize) -> (front:
    BytesMut)
    requires
        at <= buffered(*old(buf)).len(),
    ensures
        buffered(front) == buffered(*old(buf)).take(at as int),
        buffered(*final(buf)) == buffered(*old(buf)).skip(at as int),
        is_whole(at as nat) ==> buffered_events(*final(buf)) == buffered_events(*old(buf)).skip(
            at as int / event_size() as int,
        ),
;

/// Whether events are those that some bytes are.
pub open spec fn are_events_of(bytes: Seq<u8>, events: Seq<RawEvent>) -> bool {
    forall|buf: BytesMut|
        #![trigger buffered_events(buf)]
        buffered(buf) == bytes ==> events == buffered_events(buf)
}

/// Whether events are followed by those that some bytes are.
pub open spec fn are_joined(
    before: Seq<RawEvent>,
    bytes: Seq<u8>,
    after: Seq<RawEvent>,
) -> bool {
    forall|tail: BytesMut|
        #![trigger buffered_events(tail)]
        buffered(tail) == bytes ==> after == before + buffered_events(tail)
}

/// `bytes::BytesMut::extend_from_slice`: adds bytes at the end. The events
/// before them stay, and where those are all that there was, the events that
/// the added bytes are follow. What the events are depends on the bytes alone.
pub assume_specification[ bytes::BytesMut::extend_from_slice ](buf: &mut BytesMut, extend: &[u8])
    ensures
        buffered(*final(buf)) == buffered(*old(buf)) + extend@,
        buffered_events(*old(buf)).is_prefix_of(buffered_events(*final(buf))),
        is_whole(buffered(*old(buf)).len()) ==> are_joined(
            buffered_events(*old(buf)),
            extend@,
            buffered_events(*final(buf)),
        ),
        are_events_of(buffered(*final(buf)), buffered_events(*final(buf))),
;

/// The bytes in a buffer, by the `Deref` of `bytes::BytesMut`.
#[verifier::external_body]
fn buffer_bytes(buf: &BytesMut) -> (bytes: &[u8])
    ensures
        bytes@ == buffered(*buf),
{
    &buf[..]
}

/// Whether every machine has room for a part of a timestamp.
pub open spec fn fits_anywhere(part: i64) -> bool {
    i32::MIN <= part <= i32::MAX
}

/// Whether a part of a timestamp is kept as it is, or as what a machine with
/// 32 bits for it keeps of it: its lowest bits.
pub open spec fn is_kept(part: i64, kept: i64) -> bool {
    kept == part || kept == (part as i32) as i64
}

/// Whether an event of the kernel has the given parts. A timestamp that some
/// machine has no room for may be cut off.
pub open spec fn has_parts(
    raw: RawEvent,
    seconds: i64,
    microseconds: i64,
    type_: u16,
    code: u16,
    value: i32,
) -> bool {
    &&& is_kept(seconds, raw.seconds)
    &&& is_kept(microseconds, raw.microseconds)
    &&& raw.type_ == type_
    &&& raw.code == code
    &&& raw.value == value
}

/// Whether bytes are one event, which has the given parts.
pub open spec fn are_one_event(
    bytes: Seq<u8>,
    seconds: i64,
    microseconds: i64,
    type_: u16,
    code: u16,
    value: i32,
) -> bool {
    exists|buf: BytesMut|
        #![trigger buffered_events(buf)]
        buffered(buf) == bytes && buffered_events(buf).len() == 1 && has_parts(
            buffered_events(buf)[0],
            seconds,
            microseconds,
            type_,
            code,
            value,
        )
}

/// `input_linux::EventCodec::encode_bytes` on an event with the given
/// timestamp, type, code and value: adds the bytes that are this event at the
/// end of the buffer, whatever is in it. Which bytes they are depends on how the
/// machine lays an event out, and is not stated.
#[verifier::external_body]
fn encode_event(
    seconds: i64,
    microseconds: i64,
    type_: u16,
    code: u16,
    value: i32,
    buf: &mut BytesMut,
)
    requires
        is_event_type(type_),
    ensures
        buffered(*final(buf)).len() == buffered(*old(buf)).len() + event_size(),
        buffered(*final(buf)).take(buffered(*old(buf)).len() as int) == buffered(*old(buf)),
        are_one_event(
            buffered(*final(buf)).skip(buffered(*old(buf)).len() as int),
            seconds,
            microseconds,
            type_,
            code,
            value,
        ),
        is_whole(buffered(*old(buf)).len()) ==> {
            &&& buffered_events(*final(buf)).len() == buffered_events(*old(buf)).len() + 1
            &&& buffered_events(*old(buf)).is_prefix_of(buffered_events(*final(buf)))
            &&& has_parts(
                buffered_events(*final(buf)).last(),
                seconds,
                microseconds,
                type_,
                code,
                value,
            )
        },
{
    let time = input_linux::EventTime::new(seconds, microseconds);
    let kind = input_linux::EventKind::from_type(type_).unwrap();
    let event = input_linux::InputEvent { time, kind, code, value };
    input_linux::EventCodec::new().encode_bytes(event, buf).unwrap()
}

/// The bytes are no event of a type that there is.
#[derive(Debug, Clone, Copy, PartialEq, Eq, Structural)]
pub struct BadEvent;

/// `input_linux::EventCodec::decode_bytes`: takes the first event off the
/// buffer, where there are bytes enough for one. It fails where the type is
/// none that there is.
#[verifier::external_body]
fn decode_event(buf: &mut BytesMut) -> (event: Result<Option<RawEvent>, BadEvent>)
    ensures
        buffered(*old(buf)).len() < event_size() ==> {
            &&& event == Ok::<Option<RawEvent>, BadEvent>(None)
            &&& buffered(*final(buf)) == buffered(*old(buf))
            &&& buffered_events(*final(buf)) == buffered_events(*old(buf))
        },
        buffered(*old(buf)).len() >= event_size() ==> {
            &&& event == if is_event_type(buffered_events(*old(buf))[0].type_) {
                Ok(Some(buffered_events(*old(buf))[0]))
            } else {
                Err(BadEvent)
            }
            &&& buffered(*final(buf)) == buffered(*old(buf)).skip(event_size() as int)
            &&& buffered_events(*final(buf)) == buffered_events(*old(buf)).skip(1)
        },
{
    let event = input_linux::EventCodec::new().decode_bytes(buf).map_err(|_| BadEvent)?;
    Ok(event.map(|e| RawEvent {
        seconds: e.time.seconds(),
        microseconds: e.time.microseconds(),
        type_: e.kind as u16,
        code: e.code,
        value: e.value,
    }))
}

#[derive(Debug, Clone, Copy, PartialEq, Eq, Structural)]
pub enum SinkError {
    /// The device is closed.
    Closed,
    /// Nothing could be written.
    WriteZero,
    /// What was read is no event.
    BadEvent,
    /// The last event is not complete.
    BytesRemaining,
}

impl SinkError {
    pub fn message(&self) -> (message: &'static str)
        ensures
            message@ == match *self {
                SinkError::Closed => "uinput fd is closed"@,
                SinkError::WriteZero => "failed to write to uinput"@,
                SinkError::BadEvent => "input event out of range"@,
                SinkError::BytesRemaining => "bytes remaining on stream"@,
            },
    {
        match *self {
            SinkError::Closed => "uinput fd is closed",
            SinkError::WriteZero => "failed to write to uinput",
            SinkError::BadEvent => "input event out of range",
            SinkError::BytesRemaining => "bytes remaining on stream",
        }
    }
}

/// What flushing asks for.
#[derive(Debug, Clone, Copy, PartialEq, Eq, Structural)]
pub enum FlushStep {
    Done,
    /// Wait until the device takes bytes, and write.
    Write,
}

/// What reading gives or asks for.
#[derive(Debug, Clone, Copy, PartialEq, Eq, Structural)]
pub enum NextStep {
    Event(InputEvent),
    /// Wait until the device has bytes, and read.
    Read,
    End,
}

/// How many events may wait before the sink is flushed.
pub const WAITING_EVENTS: usize = 8;

/// A device that takes events, or gives them.
pub struct UInputSink {
    pub open: bool,
    pub buffer_write: BytesMut,
    pub buffer_read: BytesMut,
}

impl UInputSink {
    /// The bytes that wait to be written.
    pub open spec fn unwritten(self) -> Seq<u8> {
        buffered(self.buffer_write)
    }

    /// The events that wait to be written.
    pub open spec fn waiting(self) -> Seq<RawEvent> {
        buffered_events(self.buffer_write)
    }

    /// The bytes that were read and have not been given as events.
    pub open spec fn unread(self) -> Seq<u8> {
        buffered(self.buffer_read)
    }

    /// The events that were read and have not been given.
    pub open spec fn ungiven(self) -> Seq<RawEvent> {
        buffered_events(self.buffer_read)
    }

    /// An open device.
    pub fn new() -> (sink: UInputSink)
        ensures
            sink.open,
            sink.unwritten() == Seq::<u8>::empty(),
            sink.unread() == Seq::<u8>::empty(),
            sink.waiting() == Seq::<RawEvent>::empty(),
            sink.ungiven() == Seq::<RawEvent>::empty(),
    {
        UInputSink { open: true, buffer_write: BytesMut::new(), buffer_read: BytesMut::new() }
    }

    /// The bytes that wait to be written.
    pub fn pending(&self) -> (bytes: &[u8])
        ensures
            bytes@ == self.unwritten(),
    {
        buffer_bytes(&self.buffer_write)
    }

    /// Takes note of how many of the bytes that wait were written.
    pub fn write_events(&mut self, n: usize) -> (written: Result<usize, SinkError>)
        requires
            n <= old(self).unwritten().len(),
        ensures
            written == if old(self).unwritten().len() == 0 {
                Ok(0)
            } else if n == 0 {
                Err(SinkError::WriteZero)
            } else {
                Ok(n)
            },
            final(self).unwritten() == old(self).unwritten().skip(n as int),
            n > 0 && is_whole(n as nat) ==> final(self).waiting() == old(self).waiting().skip(
                n as int / event_size() as int,
            ),
            n == 0 ==> final(self).waiting() == old(self).waiting(),
            final(self).open == old(self).open,
            final(self).buffer_read == old(self).buffer_read,
    {
        assert(self.unwritten().skip(0) =~= self.unwritten());
        if self.buffer_write.len() == 0 {
            return Ok(0);
        }
        if n == 0 {
            Err(SinkError::WriteZero)
        } else {
            let _front = self.buffer_write.split_to(n);
            Ok(n)
        }
    }

    /// Lets an event wait to be written, behind the bytes that wait already. A
    /// closed device takes none.
    pub fn start_send(&mut self, item: &InputEvent) -> (r: Result<(), SinkError>)
        requires
            is_event_type(item.kind.number()),
        ensures
            r == if old(self).open {
                Ok(())
            } else {
                Err(SinkError::Closed)
            },
            old(self).open ==> {
                &&& final(self).unwritten().len() == old(self).unwritten().len() + event_size()
                &&& final(self).unwritten().take(old(self).unwritten().len() as int) == old(
                    self,
                ).unwritten()
                &&& are_bytes_of(
                    final(self).unwritten().skip(old(self).unwritten().len() as int),
                    *item,
                )
                &&& is_whole(old(self).unwritten().len()) ==> {
                    &&& final(self).waiting().len() == old(self).waiting().len() + 1
                    &&& old(self).waiting().is_prefix_of(final(self).waiting())
                    &&& stands_for(final(self).waiting().last(), *item)
                }
            },
            !old(self).open ==> final(self).buffer_write == old(self).buffer_write,
            final(self).open == old(self).open,
            final(self).buffer_read == old(self).buffer_read,
    {
        if self.open {
            encode_event(
                item.time.seconds,
                item.time.microseconds,
                item.kind.code(),
                item.code,
                item.value,
                &mut self.buffer_write,
            );
            Ok(())
        } else {
            Err(SinkError::Closed)
        }
    }

    /// Whether another event can be sent at once, or the sink is to be flushed
    /// first.
    pub fn poll_ready(&self) -> (ready: Result<bool, SinkError>)
        ensures
            ready == if self.open {
                Ok(self.unwritten().len() <= event_size() * WAITING_EVENTS)
            } else {
                Err(SinkError::Closed)
            },
    {
        if self.open {
            let limit = core::mem::size_of::<input_linux::sys::input_event>() as u128
                * WAITING_EVENTS as u128;
            Ok(self.buffer_write.len() as u128 <= limit)
        } else {
            Err(SinkError::Closed)
        }
    }

    /// The next step of flushing. A closed device cannot write what waits.
    pub fn poll_flush(&self) -> (step: Result<FlushStep, SinkError>)
        ensures
            step == if self.unwritten().len() == 0 {
                Ok(FlushStep::Done)
            } else if self.open {
                Ok(FlushStep::Write)
            } else {
                Err(SinkError::Closed)
            },
    {
        if self.buffer_write.len() == 0 {
            Ok(FlushStep::Done)
        } else if self.open {
            Ok(FlushStep::Write)
        } else {
            Err(SinkError::Closed)
        }
    }

    /// Closes the device, once flushing is over or has failed.
    pub fn poll_close(&mut self)
        ensures
            !final(self).open,
            final(self).buffer_write == old(self).buffer_write,
            final(self).buffer_read == old(self).buffer_read,
    {
        self.open = false;
    }

    /// Takes note of bytes that were read. None were there to read at the end,
    /// which closes the device.
    pub fn read_events(&mut self, bytes: &[u8])
        ensures
            final(self).open == (old(self).open && bytes@.len() > 0),
            final(self).unread() == old(self).unread() + bytes@,
            old(self).ungiven().is_prefix_of(final(self).ungiven()),
            is_whole(old(self).unread().len()) ==> are_joined(
                old(self).ungiven(),
                bytes@,
                final(self).ungiven(),
            ),
            are_events_of(final(self).unread(), final(self).ungiven()),
            final(self).buffer_write == old(self).buffer_write,
    {
        self.buffer_read.extend_from_slice(bytes);
        if bytes.len() == 0 {
            self.open = false;
        }
    }

    /// The next event. While the device is open, more is read where there is
    /// no whole event; once it is closed, bytes that are left are an error.
    pub fn poll_next(&mut self) -> (step: Result<NextStep, SinkError>)
        ensures
            old(self).unread().len() < event_size() ==> {
                &&& step == if old(self).open {
                    Ok(NextStep::Read)
                } else if old(self).unread().len() == 0 {
                    Ok(NextStep::End)
                } else {
                    Err(SinkError::BytesRemaining)
                }
                &&& final(self).unread() == old(self).unread()
                &&& final(self).ungiven() == old(self).ungiven()
            },
            old(self).unread().len() >= event_size() ==> {
                &&& if is_event_type(old(self).ungiven()[0].type_) {
                    step matches Ok(NextStep::Event(event)) && is_read(
                        old(self).ungiven()[0],
                        event,
                    )
                } else {
                    step == Err::<NextStep, SinkError>(SinkError::BadEvent)
                }
                &&& final(self).unread() == old(self).unread().skip(event_size() as int)
                &&& final(self).ungiven() == old(self).ungiven().skip(1)
            },
            final(self).open == old(self).open,
            final(self).buffer_write == old(self).buffer_write,
    {
        match decode_event(&mut self.buffer_read) {
            Ok(Some(raw)) => Ok(NextStep::Event(event_of_raw(&raw))),
            Ok(None) => {
                if self.open {
                    Ok(NextStep::Read)
                } else if self.buffer_read.len() == 0 {
                    Ok(NextStep::End)
                } else {
                    Err(SinkError::BytesRemaining)
                }
            },
            Err(_) => Err(SinkError::BadEvent),
        }
    }
}

/// Whether an event of the kernel stands for an event.
pub open spec fn stands_for(raw: RawEvent, event: InputEvent) -> bool {
    has_parts(
        raw,
        event.time.seconds,
        event.time.microseconds,
        event.kind.number(),
        event.code,
        event.value,
    )
}

/// Whether bytes are an event.
pub open spec fn are_bytes_of(bytes: Seq<u8>, event: InputEvent) -> bool {
    are_one_event(
        bytes,
        event.time.seconds,
        event.time.microseconds,
        event.kind.number(),
        event.code,
        event.value,
    )
}

/// Whether an event is what an event of the kernel is read as.
pub open spec fn is_read(raw: RawEvent, event: InputEvent) -> bool {
    &&& event.time == EventTime { seconds: raw.seconds, microseconds: raw.microseconds }
    &&& event.kind.number() == raw.type_
    &&& event.kind.is_plain()
    &&& event.code == raw.code
    &&& event.value == raw.value
}

/// The event that was read.
pub fn event_of_raw(raw: &RawEvent) -> (event: InputEvent)
    ensures
        is_read(*raw, event),
{
    InputEvent {
        time: EventTime { seconds: raw.seconds, microseconds: raw.microseconds },
        kind: EventKind::from_type(raw.type_),
        code: raw.code,
        value: raw.value,
    }
}

/// An event that was sent is read back as it was, where every machine has room
/// for its timestamp.
pub proof fn sent_events_are_read_back(sent: InputEvent, raw: RawEvent, read: InputEvent)
    requires
        stands_for(raw, sent),
        is_read(raw, read),
        sent.kind.is_plain(),
        fits_anywhere(sent.time.seconds),
        fits_anywhere(sent.time.microseconds),
    ensures
        read == sent,
{
}

/// The bytes of an event that was sent are one event more to a device that
/// reads them, behind the whole events that it has read before: the one that
/// was sent.
pub proof fn sent_bytes_are_read_as_the_event(
    sent: InputEvent,
    bytes: Seq<u8>,
    before: Seq<RawEvent>,
    after: Seq<RawEvent>,
)
    requires
        are_bytes_of(bytes, sent),
        are_joined(before, bytes, after),
    ensures
        after.len() == before.len() + 1,
        after.drop_last() == before,
        stands_for(after.last(), sent),
{
    let buf = choose|buf: BytesMut|
        #![trigger buffered_events(buf)]
        buffered(buf) == bytes && buffered_events(buf).len() == 1 && stands_for(
            buffered_events(buf)[0],
            sent,
        );
    assert(after == before + buffered_events(buf));
    assert(after.drop_last() =~= before);
}

/// The bytes of an event that was sent are that event to a device that has read
/// them, in whichever pieces, and nothing else.
pub proof fn sent_bytes_are_the_event(sent: InputEvent, bytes: Seq<u8>, events: Seq<RawEvent>)
    requires
        are_bytes_of(bytes, sent),
        are_events_of(bytes, events),
    ensures
        events.len() == 1,
        stands_for(events[0], sent),
{
}

/// As many bytes leave the ones that wait as were written, from the front; writing none
/// of some is an error, and with none waiting there is nothing to write.
pub proof fn written_bytes_leave_from_the_front(
    before: UInputSink,
    n: usize,
    written: Result<usize, SinkError>,
    after: UInputSink,
    bytes: &[u8],
    left: &[u8],
)
    requires
        n <= before.unwritten().len(),
        exists|this: &mut UInputSink| #[trigger]
            call_ensures(UInputSink::write_events, (this, n), written) && *this == before
                && *final(this) == after,
        call_ensures(UInputSink::pending, (&before,), bytes),
        call_ensures(UInputSink::pending, (&after,), left),
    ensures
        bytes@.take(n as int) + left@ == bytes@,
        written is Err <==> n == 0 && bytes@.len() > 0,
        written matches Err(error) ==> error is WriteZero,
        written matches Ok(count) ==> count == n,
        after.open == before.open,
        after.unread() == before.unread(),
{
    assert(bytes@.take(n as int) + bytes@.skip(n as int) =~= bytes@);
}

/// An open device takes more events until more than eight wait, and writes as long as
/// any do; a closed one takes none, and what waits for it is an error.
pub proof fn sinks_are_flushed_before_they_fill(
    sink: UInputSink,
    ready: Result<bool, SinkError>,
    step: Result<FlushStep, SinkError>,
)
    requires
        call_ensures(UInputSink::poll_ready, (&sink,), ready),
        call_ensures(UInputSink::poll_flush, (&sink,), step),
    ensures
        sink.open ==> ready == Ok::<bool, SinkError>(sink.unwritten().len() <= 8 * event_size()),
        !sink.open ==> ready == Err::<bool, SinkError>(SinkError::Closed),
        sink.unwritten().len() == 0 ==> step == Ok::<FlushStep, SinkError>(FlushStep::Done),
        sink.unwritten().len() > 0 && sink.open ==> step == Ok::<FlushStep, SinkError>(
            FlushStep::Write,
        ),
        sink.unwritten().len() > 0 && !sink.open ==> step == Err::<FlushStep, SinkError>(
            SinkError::Closed,
        ),
{
}

/// Bytes that are read are added behind those that were, and reading none closes the
/// device. While it is open more is read where there is no whole event; once it is
/// closed it has ended, unless a part of an event is left.
pub proof fn devices_end_where_nothing_is_read(
    before: UInputSink,
    bytes: &[u8],
    after: UInputSink,
    step: Result<NextStep, SinkError>,
)
    requires
        exists|this: &mut UInputSink, r: ()| #[trigger]
            call_ensures(UInputSink::read_events, (this, bytes), r) && *this == before
                && *final(this) == after,
        exists|this: &mut UInputSink| #[trigger]
            call_ensures(UInputSink::poll_next, (this,), step) && *this == after,
    ensures
        after.unread() == before.unread() + bytes@,
        after.open <==> before.open && bytes@.len() > 0,
        after.unwritten() == before.unwritten(),
        after.unread().len() < event_size() ==> {
            &&& after.open <==> step == Ok::<NextStep, SinkError>(NextStep::Read)
            &&& !after.open && after.unread().len() == 0 <==> step == Ok::<NextStep, SinkError>(
                NextStep::End,
            )
            &&& !after.open && after.unread().len() > 0 <==> step == Err::<NextStep, SinkError>(
                SinkError::BytesRemaining,
            )
        },
{
}

/// The events that were read are given one by one, the first one first, with all of
/// their parts; one of a type that there is none of is an error and is passed over.
pub proof fn read_events_are_given_in_order(
    before: UInputSink,
    step: Result<NextStep, SinkError>,
    after: UInputSink,
)
    requires
        before.unread().len() >= event_size(),
        exists|this: &mut UInputSink| #[trigger]
            call_ensures(UInputSink::poll_next, (this,), step) && *this == before && *final(this)
                == after,
    ensures
        ({
            let first = before.ungiven()[0];
            let known = first.type_ <= 0x1f || first.type_ == 0x101;
            &&& !known ==> step == Err::<NextStep, SinkError>(SinkError::BadEvent)
            &&& known ==> {
                &&& step is Ok && step->Ok_0 is Event
                &&& step->Ok_0->Event_0.time.seconds == first.seconds
                &&& step->Ok_0->Event_0.time.microseconds == first.microseconds
                &&& step->Ok_0->Event_0.kind.number() == first.type_
                &&& step->Ok_0->Event_0.kind is Synchronize <==> first.type_ == 0
                &&& step->Ok_0->Event_0.kind is Key <==> first.type_ == 1
                &&& step->Ok_0->Event_0.kind is Relative <==> first.type_ == 2
                &&& step->Ok_0->Event_0.kind is Absolute <==> first.type_ == 3
                &&& step->Ok_0->Event_0.code == first.code
                &&& step->Ok_0->Event_0.value == first.value
            }
            &&& after.ungiven() == before.ungiven().skip(1)
            &&& after.unread() == before.unread().skip(event_size() as int)
            &&& after.open == before.open
        }),
{
}

/// A closed device takes no event and stays closed; nothing that waits is lost by
/// closing it.
pub proof fn closed_devices_take_nothing(
    before: UInputSink,
    closed: UInputSink,
    item: InputEvent,
    r: Result<(), SinkError>,
    after: UInputSink,
)
    requires
        is_event_type(item.kind.number()),
        exists|this: &mut UInputSink, r: ()| #[trigger]
            call_ensures(UInputSink::poll_close, (this,), r) && *this == before && *final(this)
                == closed,
        exists|this: &mut UInputSink| #[trigger]
            call_ensures(UInputSink::start_send, (this, &item), r) && *this == closed
                && *final(this) == after,
    ensures
        r == Err::<(), SinkError>(SinkError::Closed),
        !after.open,
        after.unwritten() == before.unwritten(),
        after.unread() == before.unread(),
{
}

} // verus!
