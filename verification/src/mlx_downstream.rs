//! The angle sensor on a slot: how its parameters are negotiated, one step
//! per tick, and how a reading becomes an event.

use vstd::prelude::*;
use crate::downstream::{DownstreamError, MlxError};
use crate::negicon_event::{EventFields, NegiconEvent, NegiconEventType};

verus! {

/// The smallest change of the raw reading that is reported.
pub const DEADZONE: u16 = 100;

/// The top of the output range; readings are scaled to `0..=OUTPUT_MAX`.
pub const OUTPUT_MAX: u16 = 16383;

/// The register that holds the sensor's identifier.
pub const ID_ADDRESS: u16 = 0x1018;

#[derive(Clone, Copy, Debug, PartialEq, Eq, Structural)]
pub enum InputMode {
    Absolute,
    Relative,
}

/// A parameter that is read from the sensor once: it moves from
/// `Uninitialized` to `Requested` to `Initialized` and never back, and holds
/// its default until it is `Initialized`.
#[derive(Debug, PartialEq, Eq)]
pub enum ParameterState<T> {
    Uninitialized(T),
    Requested(T),
    Initialized(T),
}

impl<T: Copy> Clone for ParameterState<T> {
    fn clone(&self) -> (r: Self)
        ensures
            r == *self,
    {
        *self
    }
}

impl<T: Copy> Copy for ParameterState<T> {

}

impl<T: Copy> ParameterState<T> {
    /// The value held: the default, or what the sensor reported.
    pub open spec fn value(self) -> T {
        match self {
            ParameterState::Uninitialized(v) => v,
            ParameterState::Requested(v) => v,
            ParameterState::Initialized(v) => v,
        }
    }

    /// How far the negotiation has come: 0, 1 or 2.
    pub open spec fn rank(self) -> int {
        match self {
            ParameterState::Uninitialized(_) => 0,
            ParameterState::Requested(_) => 1,
            ParameterState::Initialized(_) => 2,
        }
    }

    pub fn get_value(&self) -> (r: T)
        ensures
            r == self.value(),
    {
        match self {
            ParameterState::Uninitialized(value) => *value,
            ParameterState::Requested(value) => *value,
            ParameterState::Initialized(value) => *value,
        }
    }

    pub fn is_initialized(&self) -> (r: bool)
        ensures
            r == (self.rank() == 2),
    {
        matches!(self, ParameterState::Initialized(_))
    }
}

/// The two words of a memory-read reply.
#[derive(Clone, Copy, Debug, PartialEq, Eq, Structural)]
pub struct MlxMemReadResponse {
    pub data0: u16,
    pub data1: u16,
}

/// An angle reading and the sensor's transaction counter.
#[derive(Clone, Copy, Debug, PartialEq, Eq, Structural)]
pub struct MlxAlpha {
    pub data: u16,
    pub counter: u8,
}

/// What the sensor answered.
#[derive(Clone, Copy, Debug, PartialEq, Eq, Structural)]
pub enum MlxReply {
    MlxMemReadResponse(MlxMemReadResponse),
    MlxAlpha(MlxAlpha),
    Other,
}

/// What to ask the sensor.
#[derive(Clone, Copy, Debug, PartialEq, Eq, Structural)]
pub enum MlxRequest {
    ReadMemory { addr0: u16, addr1: u16 },
    GetAlpha,
    WriteMemory { value: i16, sequence: u8 },
}

/// How a tick goes on after a reply.
#[derive(Clone, Copy, Debug, PartialEq, Eq)]
pub enum MlxStep {
    /// The tick is not over: ask `poll_request` again.
    Again,
    /// The tick is over, with an event to report or without.
    Done(Option<NegiconEvent>),
}

/// The next state of a parameter after the reply to its memory read, where
/// `read` is what the caller's transform makes of the two words.
pub open spec fn parameter_after<R: Copy>(
    param: ParameterState<R>,
    reply: Result<MlxReply, MlxError>,
    read: R,
) -> Result<ParameterState<R>, DownstreamError> {
    match param {
        ParameterState::Initialized(_) => Ok(param),
        ParameterState::Uninitialized(default) => match reply {
            Ok(_) => Ok(ParameterState::Requested(default)),
            Err(e) => Err(DownstreamError::MlxError(e)),
        },
        ParameterState::Requested(_) => match reply {
            Ok(MlxReply::MlxMemReadResponse(_)) => Ok(ParameterState::Initialized(read)),
            Ok(_) => Err(DownstreamError::UnexpectedReply),
            Err(e) => Err(DownstreamError::MlxError(e)),
        },
    }
}

/// The two words of a reply, or zeros where it is no memory-read reply.
pub open spec fn reply_words(reply: Result<MlxReply, MlxError>) -> [u16; 2] {
    match reply {
        Ok(MlxReply::MlxMemReadResponse(m)) => [m.data0, m.data1],
        _ => [0u16, 0u16],
    }
}

/// Whether the reply carries the two words that a requested parameter waits
/// for.
pub open spec fn words_due<R: Copy>(
    param: ParameterState<R>,
    reply: Result<MlxReply, MlxError>,
) -> bool {
    &&& param is Requested
    &&& reply is Ok
    &&& reply->Ok_0 is MlxMemReadResponse
}

/// Whether a raw reading is far enough from the last reported one.
pub open spec fn outside_deadzone(last: u16, input: u16) -> bool {
    input as int - last as int > DEADZONE as int || last as int - input as int > DEADZONE as int
}

/// Whether a reply is an angle that is to be reported after `last`.
pub open spec fn is_report(last: u16, reply: Result<MlxReply, MlxError>) -> bool {
    &&& reply is Ok
    &&& reply->Ok_0 is MlxAlpha
    &&& outside_deadzone(last, reply->Ok_0->MlxAlpha_0.data)
}

/// Division that truncates toward zero, for a positive divisor.
pub open spec fn div_toward_zero(a: int, b: int) -> int {
    if a >= 0 {
        a / b
    } else {
        -((-a) / b)
    }
}

/// The raw reading `input` moved from `min..=max` to `0..=OUTPUT_MAX` by
/// linear interpolation on integers.
pub open spec fn rescaled(input: int, min: int, max: int) -> int {
    div_toward_zero((input - min) * OUTPUT_MAX as int, max - min)
}

pub struct MlxDownstream {
    pub id: ParameterState<u16>,
    pub min: ParameterState<u16>,
    pub max: ParameterState<u16>,
    pub mode: ParameterState<InputMode>,
    pub last: u16,
}

/// The fields of the event that reports a reading.
pub open spec fn reading_event(id: u16, value: i16) -> EventFields {
    EventFields {
        event_type: NegiconEventType::Input,
        id,
        sub_id: 0,
        value,
        controller_id: 0,
        sequence: 0,
    }
}

/// Advances one parameter by one step on the reply to its memory read.
/// An initialized parameter stays as it is; an uninitialized one becomes
/// requested on any reply; a requested one takes what `transform` makes of
/// the two words of a memory-read reply. A fault of the sensor, or another
/// reply where the words were due, is an error.
pub fn init_param<R: Copy, F: Fn([u16; 2]) -> R>(
    param: ParameterState<R>,
    reply: Result<MlxReply, MlxError>,
    transform: F,
) -> (r: Result<ParameterState<R>, DownstreamError>)
    requires
        words_due(param, reply) ==> call_requires(transform, (reply_words(reply),)),
    ensures
        exists|read: R|
            r == parameter_after(param, reply, read) && (words_due(param, reply) ==> call_ensures(
                transform,
                (reply_words(reply),),
                read,
            )),
{
    match param {
        ParameterState::Uninitialized(default) => match reply {
            Ok(_) => {
                assert(Ok::<ParameterState<R>, DownstreamError>(ParameterState::Requested(default))
                    == parameter_after(param, reply, default));
                Ok(ParameterState::Requested(default))
            },
            Err(e) => {
                assert(Err::<ParameterState<R>, DownstreamError>(DownstreamError::MlxError(e))
                    == parameter_after(param, reply, default));
                Err(DownstreamError::MlxError(e))
            },
        },
        ParameterState::Requested(default) => match reply {
            Ok(res) => match res {
                MlxReply::MlxMemReadResponse(msg) => {
                    let words: [u16; 2] = [msg.data0, msg.data1];
                    assert(words =~= reply_words(reply));
                    let read = transform(words);
                    assert(Ok::<ParameterState<R>, DownstreamError>(
                        ParameterState::Initialized(read),
                    ) == parameter_after(param, reply, read));
                    Ok(ParameterState::Initialized(read))
                },
                _ => {
                    assert(Err::<ParameterState<R>, DownstreamError>(
                        DownstreamError::UnexpectedReply,
                    ) == parameter_after(param, reply, default));
                    Err(DownstreamError::UnexpectedReply)
                },
            },
            Err(e) => {
                assert(Err::<ParameterState<R>, DownstreamError>(DownstreamError::MlxError(e))
                    == parameter_after(param, reply, default));
                Err(DownstreamError::MlxError(e))
            },
        },
        ParameterState::Initialized(v) => {
            assert(Ok::<ParameterState<R>, DownstreamError>(param) == parameter_after(
                param,
                reply,
                v,
            ));
            Ok(param)
        },
    }
}

impl MlxDownstream {
    pub fn new() -> (s: Self)
        ensures
            s.id == ParameterState::Uninitialized(0u16),
            s.min == ParameterState::Initialized(0u16),
            s.max == ParameterState::Initialized(OUTPUT_MAX),
            s.mode == ParameterState::Initialized(InputMode::Absolute),
            s.last == 0,
    {
        MlxDownstream {
            id: ParameterState::Uninitialized(0),
            min: ParameterState::Initialized(0),
            max: ParameterState::Initialized(16383),
            mode: ParameterState::Initialized(InputMode::Absolute),
            last: 0,
        }
    }

    /// Whether `input` is to be reported: it is where it differs from the
    /// last reported reading by more than the deadzone, and it then becomes
    /// the last reported reading.
    pub fn check_deadzone(&mut self, input: u16) -> (r: bool)
        ensures
            r == outside_deadzone(old(self).last, input),
            final(self).last == (if r {
                input
            } else {
                old(self).last
            }),
            final(self).id == old(self).id,
            final(self).min == old(self).min,
            final(self).max == old(self).max,
            final(self).mode == old(self).mode,
    {
        let diff: i32 = input as i32 - self.last as i32;
        if diff > 100 || diff < -100 {
            self.last = input;
            true
        } else {
            false
        }
    }

    /// The reading `input` scaled from `min..=max` to `0..=OUTPUT_MAX`,
    /// truncated toward zero and then to 16 bits. Only the absolute mode
    /// has a scale, and `min` must lie below `max`.
    pub fn calculate_output(&self, input: i16) -> (r: i16)
        requires
            self.mode == ParameterState::Initialized(InputMode::Absolute),
            self.min.value() < self.max.value(),
        ensures
            r == rescaled(input as int, self.min.value() as int, self.max.value() as int) as i16,
            self.min.value() <= input <= self.max.value() ==> 0 <= r <= OUTPUT_MAX && r == rescaled(
                input as int,
                self.min.value() as int,
                self.max.value() as int,
            ),
            input == self.min.value() ==> r == 0,
            input == self.max.value() ==> r == OUTPUT_MAX,
    {
        let min: i32 = self.min.get_value() as i32;
        let span: i32 = (self.max.get_value() - self.min.get_value()) as i32;
        let offset: i32 = input as i32 - min;
        let output: i32 = if offset >= 0 {
            proof {
                lemma_scale_bounds(offset as int, span as int);
            }
            (offset * 16383) / span
        } else {
            proof {
                lemma_scale_bounds(-offset as int, span as int);
            }
            -((-offset * 16383) / span)
        };
        #[verifier::truncate]
        (output as i16)
    }
}

/// The next state of the identifier after the reply to its memory read:
/// the identifier is the second word of the reply.
pub open spec fn id_after(id: ParameterState<u16>, reply: Result<MlxReply, MlxError>) -> Result<
    ParameterState<u16>,
    DownstreamError,
> {
    parameter_after(id, reply, reply_words(reply)[1])
}

/// What a tick asks the sensor for an identifier in state `id`: the
/// identifier's register until it is initialized, the angle after that.
pub open spec fn request_for(id: ParameterState<u16>) -> MlxRequest {
    if id.rank() == 2 {
        MlxRequest::GetAlpha
    } else {
        MlxRequest::ReadMemory { addr0: ID_ADDRESS, addr1: ID_ADDRESS }
    }
}

/// The identifier after a tick has taken `reply`: an initialized one stays,
/// any other moves as `id_after` says and stays on an error.
pub open spec fn polled_id(
    id: ParameterState<u16>,
    reply: Result<MlxReply, MlxError>,
) -> ParameterState<u16> {
    if id.rank() == 2 {
        id
    } else {
        match id_after(id, reply) {
            Ok(next) => next,
            Err(_) => id,
        }
    }
}

/// Whether the tick goes on to the angle after `reply`: it does where this
/// reply has initialized the identifier.
pub open spec fn goes_on(id: ParameterState<u16>, reply: Result<MlxReply, MlxError>) -> bool {
    id.rank() != 2 && polled_id(id, reply).rank() == 2
}

impl MlxDownstream {
    /// Whether readings can be scaled: the mode is absolute and `min` lies
    /// below `max`. The relative mode has no scale.
    pub open spec fn can_scale(&self) -> bool {
        &&& self.mode == ParameterState::Initialized(InputMode::Absolute)
        &&& self.min.value() < self.max.value()
    }

    /// Whether readings can be scaled.
    pub fn has_scale(&self) -> (r: bool)
        ensures
            r == self.can_scale(),
    {
        match self.mode {
            ParameterState::Initialized(InputMode::Absolute) => self.min.get_value()
                < self.max.get_value(),
            _ => false,
        }
    }

    /// Whether `reply`, taken as the reply to an angle request, is a
    /// reading that is to be reported, and so to be scaled.
    pub fn reports(&self, reply: &Result<MlxReply, MlxError>) -> (r: bool)
        ensures
            r == is_report(self.last, *reply),
    {
        match reply {
            Ok(MlxReply::MlxAlpha(a)) => {
                let diff: i32 = a.data as i32 - self.last as i32;
                diff > 100 || diff < -100
            },
            _ => false,
        }
    }

    /// What to ask the sensor next in this tick: the identifier's register
    /// until the identifier is initialized, the angle after that.
    pub fn poll_request(&self) -> (r: MlxRequest)
        ensures
            r == request_for(self.id),
    {
        if self.id.is_initialized() {
            MlxRequest::GetAlpha
        } else {
            MlxRequest::ReadMemory { addr0: ID_ADDRESS, addr1: ID_ADDRESS }
        }
    }

    /// Takes the reply to the identifier's memory read and moves the
    /// identifier one step. Nothing changes on an error.
    pub fn init_reply(&mut self, reply: Result<MlxReply, MlxError>) -> (r: Result<
        (),
        DownstreamError,
    >)
        ensures
            match id_after(old(self).id, reply) {
                Ok(next) => r == Ok::<(), DownstreamError>(()) && final(self).id == next,
                Err(e) => r == Err::<(), DownstreamError>(e) && final(self).id == old(self).id,
            },
            final(self).min == old(self).min,
            final(self).max == old(self).max,
            final(self).mode == old(self).mode,
            final(self).last == old(self).last,
    {
        let second_word = |words: [u16; 2]| -> (word: u16)
            ensures
                word == words[1],
            { words[1] };
        match init_param(self.id, reply, second_word) {
            Ok(next) => {
                self.id = next;
                Ok(())
            },
            Err(e) => Err(e),
        }
    }

    /// Takes the reply to an angle request. A reading outside the deadzone
    /// becomes the last reported one and is returned as an input event of
    /// this sensor, scaled; any other reply reports nothing. A reading that
    /// is to be reported needs a scale.
    pub fn alpha_reply(&mut self, reply: Result<MlxReply, MlxError>) -> (r: Result<
        Option<NegiconEvent>,
        DownstreamError,
    >)
        requires
            is_report(old(self).last, reply) ==> old(self).can_scale(),
        ensures
            match reply {
                Ok(MlxReply::MlxAlpha(a)) => if outside_deadzone(old(self).last, a.data) {
                    &&& final(self).last == a.data
                    &&& r matches Ok(Some(event))
                    &&& event@ == reading_event(
                        old(self).id.value(),
                        rescaled(
                            a.data as i16 as int,
                            old(self).min.value() as int,
                            old(self).max.value() as int,
                        ) as i16,
                    )
                } else {
                    final(self).last == old(self).last && r == Ok::<
                        Option<NegiconEvent>,
                        DownstreamError,
                    >(None)
                },
                Ok(_) => final(self).last == old(self).last && r == Ok::<
                    Option<NegiconEvent>,
                    DownstreamError,
                >(None),
                Err(e) => final(self).last == old(self).last && r == Err::<
                    Option<NegiconEvent>,
                    DownstreamError,
                >(DownstreamError::MlxError(e)),
            },
            final(self).id == old(self).id,
            final(self).min == old(self).min,
            final(self).max == old(self).max,
            final(self).mode == old(self).mode,
    {
        match reply {
            Ok(MlxReply::MlxAlpha(a)) => {
                if self.check_deadzone(a.data) {
                    let raw: i16 = #[verifier::truncate]
                    (a.data as i16);
                    let value: i16 = self.calculate_output(raw);
                    Ok(Some(NegiconEvent::from_fields(
                        NegiconEventType::Input,
                        self.id.get_value(),
                        0,
                        value,
                        0,
                        0,
                    )))
                } else {
                    Ok(None)
                }
            },
            Ok(_) => Ok(None),
            Err(e) => Err(DownstreamError::MlxError(e)),
        }
    }

    /// Takes the reply to what `poll_request` asked. While the identifier
    /// is being negotiated the reply moves it one step, and the tick goes
    /// on to the angle only once it is initialized; after that the reply is
    /// an angle's.
    pub fn poll_reply(&mut self, reply: Result<MlxReply, MlxError>) -> (r: Result<
        MlxStep,
        DownstreamError,
    >)
        requires
            old(self).id.rank() == 2 && is_report(old(self).last, reply) ==> old(self).can_scale(),
        ensures
            final(self).id == polled_id(old(self).id, reply),
            r == Ok::<MlxStep, DownstreamError>(MlxStep::Again) <==> goes_on(old(self).id, reply),
            old(self).id.rank() != 2 ==> final(self).last == old(self).last && match id_after(
                old(self).id,
                reply,
            ) {
                Ok(next) => final(self).id == next && r == Ok::<MlxStep, DownstreamError>(
                    if next.rank() == 2 {
                        MlxStep::Again
                    } else {
                        MlxStep::Done(None)
                    },
                ),
                Err(e) => final(self).id == old(self).id && r == Err::<MlxStep, DownstreamError>(e),
            },
            old(self).id.rank() == 2 ==> final(self).id == old(self).id && match reply {
                Ok(MlxReply::MlxAlpha(a)) => if outside_deadzone(old(self).last, a.data) {
                    &&& final(self).last == a.data
                    &&& r matches Ok(MlxStep::Done(Some(event)))
                    &&& event@ == reading_event(
                        old(self).id.value(),
                        rescaled(
                            a.data as i16 as int,
                            old(self).min.value() as int,
                            old(self).max.value() as int,
                        ) as i16,
                    )
                } else {
                    final(self).last == old(self).last && r == Ok::<MlxStep, DownstreamError>(
                        MlxStep::Done(None),
                    )
                },
                Ok(_) => final(self).last == old(self).last && r == Ok::<MlxStep, DownstreamError>(
                    MlxStep::Done(None),
                ),
                Err(e) => final(self).last == old(self).last && r == Err::<
                    MlxStep,
                    DownstreamError,
                >(DownstreamError::MlxError(e)),
            },
            final(self).min == old(self).min,
            final(self).max == old(self).max,
            final(self).mode == old(self).mode,
    {
        if self.id.is_initialized() {
            match self.alpha_reply(reply) {
                Ok(event) => Ok(MlxStep::Done(event)),
                Err(e) => Err(e),
            }
        } else {
            match self.init_reply(reply) {
                Ok(()) => if self.id.is_initialized() {
                    Ok(MlxStep::Again)
                } else {
                    Ok(MlxStep::Done(None))
                },
                Err(e) => Err(e),
            }
        }
    }

    /// The request that writes the value and the sequence of `write_event`
    /// to the sensor's memory, both as they are. Nothing is read back.
    pub fn write_memory(&self, write_event: &NegiconEvent) -> (r: MlxRequest)
        ensures
            r == (MlxRequest::WriteMemory {
                value: write_event@.value,
                sequence: write_event@.sequence,
            }),
    {
        MlxRequest::WriteMemory { value: write_event.value(), sequence: write_event.sequence() }
    }
}

/// A parameter never moves back and never skips a step, and it keeps its
/// default until it is initialized.
pub proof fn lemma_parameter_monotonic<R: Copy>(
    param: ParameterState<R>,
    reply: Result<MlxReply, MlxError>,
    read: R,
)
    ensures
        match parameter_after(param, reply, read) {
            Ok(next) => {
                &&& param.rank() <= next.rank() <= param.rank() + 1
                &&& next.rank() < 2 ==> next.value() == param.value()
                &&& param.rank() == 2 ==> next == param
            },
            Err(_) => param.rank() < 2,
        },
{
}

/// Three replies in a row, the second of them a memory-read reply, take an
/// uninitialized identifier to requested and then to initialized with the
/// second word read; every later reply, whatever it is, leaves it there.
pub proof fn lemma_id_negotiation(
    default: u16,
    first: MlxReply,
    words: MlxMemReadResponse,
    later: Result<MlxReply, MlxError>,
)
    ensures
        id_after(ParameterState::Uninitialized(default), Ok(first)) == Ok::<
            ParameterState<u16>,
            DownstreamError,
        >(ParameterState::Requested(default)),
        id_after(ParameterState::Requested(default), Ok(MlxReply::MlxMemReadResponse(words)))
            == Ok::<ParameterState<u16>, DownstreamError>(
            ParameterState::Initialized(words.data1),
        ),
        id_after(ParameterState::Initialized(words.data1), later) == Ok::<
            ParameterState<u16>,
            DownstreamError,
        >(ParameterState::Initialized(words.data1)),
{
}

/// Three ticks in a row take the identifier of a new sensor from
/// uninitialized to requested and then to initialized, one step per tick,
/// where the sensor answers the first memory read with anything and the
/// second with two words; the identifier is then the second word. The first
/// two ticks ask for the identifier's register, and only the second goes
/// on to the angle. The third tick asks for the angle alone and leaves the
/// identifier as it is, whatever the sensor answers.
pub proof fn lemma_three_polls(
    default: u16,
    first: MlxReply,
    words: MlxMemReadResponse,
    third: Result<MlxReply, MlxError>,
)
    ensures
        ({
            let read_id = MlxRequest::ReadMemory { addr0: ID_ADDRESS, addr1: ID_ADDRESS };
            let second = Ok::<MlxReply, MlxError>(MlxReply::MlxMemReadResponse(words));
            let s0 = ParameterState::Uninitialized(default);
            let s1 = polled_id(s0, Ok(first));
            let s2 = polled_id(s1, second);
            let s3 = polled_id(s2, third);
            &&& request_for(s0) == read_id
            &&& s1 == ParameterState::Requested(default)
            &&& !goes_on(s0, Ok(first))
            &&& request_for(s1) == read_id
            &&& s2 == ParameterState::Initialized(words.data1)
            &&& goes_on(s1, second)
            &&& request_for(s2) == MlxRequest::GetAlpha
            &&& s3 == s2
            &&& !goes_on(s2, third)
        }),
{
}

/// Once the identifier is initialized, every tick asks for the angle alone
/// and leaves the identifier and its value as they are.
pub proof fn lemma_initialized_is_final(id: ParameterState<u16>, reply: Result<MlxReply, MlxError>)
    requires
        id.rank() == 2,
    ensures
        request_for(id) == MlxRequest::GetAlpha,
        polled_id(id, reply) == id,
        !goes_on(id, reply),
{
}

/// A tick never moves the identifier back and never by more than one step,
/// and an identifier that is not yet initialized keeps its default.
pub proof fn lemma_one_step_per_poll(id: ParameterState<u16>, reply: Result<MlxReply, MlxError>)
    ensures
        id.rank() <= polled_id(id, reply).rank() <= id.rank() + 1,
        polled_id(id, reply).rank() < 2 ==> polled_id(id, reply).value() == id.value(),
{
}

/// Scaling a non-negative offset stays within the product, and within the
/// output range where the offset is within the span.
pub proof fn lemma_scale_bounds(offset: int, span: int)
    requires
        0 <= offset,
        0 < span,
    ensures
        0 <= (offset * 16383) / span <= offset * 16383,
        offset <= span ==> (offset * 16383) / span <= 16383,
        offset == span ==> (offset * 16383) / span == 16383,
        offset == 0 ==> (offset * 16383) / span == 0,
{
    assert(0 <= (offset * 16383) / span <= offset * 16383) by (nonlinear_arith)
        requires
            0 <= offset,
            0 < span,
    ;
    assert(offset <= span ==> (offset * 16383) / span <= 16383) by (nonlinear_arith)
        requires
            0 <= offset,
            0 < span,
    ;
    assert(offset == span ==> (offset * 16383) / span == 16383) by (nonlinear_arith)
        requires
            0 <= offset,
            0 < span,
    ;
}

} // verus!
