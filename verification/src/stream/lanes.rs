//! The two media lanes of a viewer, and the input that it sends back.
use crate::desktop::datagram::{
    classify_video_datagram, delivers, kind_of, Delivery, LaneView, VideoDatagramKind,
    VideoDatagramReassembler,
};
use crate::desktop::input::{input_failure, validate_input};
use crate::desktop::nal_datagram::{H264NalDatagramReassembler, NalLaneView};
use crate::error::{DcError, DcErrorView};
use crate::protocol::types::MessageView;
use crate::protocol::{InputEvent, WireMessage};
use crate::stream::frames::{is_keyframe_message, keyframe_message};
use crate::stream::host::MediaFeatures;
use crate::text::owned;
use crate::time::Duration;
use vstd::prelude::*;

verus! {

/// What a datagram led to.
#[derive(Debug)]
pub enum LaneOutcome {
    /// Its envelope is not known.
    Unknown,
    /// It carries a unit, which was not agreed on.
    NotNegotiated,
    /// It was refused.
    Rejected(DcError),
    /// It completed nothing.
    Pending,
    /// It completed a message. A keyframe waits for a place in the queue, others are dropped
    /// there.
    Complete { message: WireMessage, wait: bool },
}

/// What a datagram led to.
pub enum LaneOutcomeView {
    Unknown,
    NotNegotiated,
    Rejected(DcErrorView),
    Pending,
    Complete { message: MessageView, wait: bool },
}

impl View for LaneOutcome {
    type V = LaneOutcomeView;

    open spec fn view(&self) -> LaneOutcomeView {
        match *self {
            LaneOutcome::Unknown => LaneOutcomeView::Unknown,
            LaneOutcome::NotNegotiated => LaneOutcomeView::NotNegotiated,
            LaneOutcome::Rejected(error) => LaneOutcomeView::Rejected(error@),
            LaneOutcome::Pending => LaneOutcomeView::Pending,
            LaneOutcome::Complete { message, wait } => LaneOutcomeView::Complete {
                message: message@,
                wait,
            },
        }
    }
}

/// The outcome of a push to one of the reassemblers.
pub open spec fn outcome_of(delivery: Delivery) -> LaneOutcomeView {
    match delivery {
        Err(error) => LaneOutcomeView::Rejected(error),
        Ok(None) => LaneOutcomeView::Pending,
        Ok(Some(message)) => LaneOutcomeView::Complete { message, wait: keyframe_message(message) },
    }
}

/// The state of [`DatagramLanes`].
pub struct LanesView {
    pub frames: LaneView,
    pub units: NalLaneView,
    pub unit_datagrams: bool,
}

impl LanesView {
    /// What a datagram leads to at a given time, and the lanes afterwards.
    pub open spec fn after(self, now: u128, datagram: Seq<u8>) -> (LanesView, LaneOutcomeView) {
        match kind_of(datagram) {
            None => (self, LaneOutcomeView::Unknown),
            Some(VideoDatagramKind::Legacy) => {
                let (frames, delivery) = self.frames.push(now, datagram);
                (LanesView { frames, ..self }, outcome_of(delivery))
            },
            Some(VideoDatagramKind::H264Nal) => if self.unit_datagrams {
                let (units, delivery) = self.units.push(now, datagram);
                (LanesView { units, ..self }, outcome_of(delivery))
            } else {
                (self, LaneOutcomeView::NotNegotiated)
            },
        }
    }
}

/// Puts the messages of the datagram lane together again.
pub struct DatagramLanes {
    frames: VideoDatagramReassembler,
    units: H264NalDatagramReassembler,
    unit_datagrams: bool,
}

impl View for DatagramLanes {
    type V = LanesView;

    closed spec fn view(&self) -> LanesView {
        LanesView {
            frames: self.frames@,
            units: self.units@,
            unit_datagrams: self.unit_datagrams,
        }
    }
}

fn outcome(result: Result<Option<WireMessage>, DcError>, delivery: Ghost<Delivery>) -> (outcome:
    LaneOutcome)
    requires
        delivers(result, delivery@),
    ensures
        outcome@ == outcome_of(delivery@),
{
    match result {
        Err(error) => LaneOutcome::Rejected(error),
        Ok(None) => LaneOutcome::Pending,
        Ok(Some(message)) => {
            let wait = is_keyframe_message(&message);
            LaneOutcome::Complete { message, wait }
        },
    }
}

impl DatagramLanes {
    /// Empty lanes.
    pub fn new(features: MediaFeatures) -> (lanes: DatagramLanes)
        ensures
            lanes@.frames.frames.dom() == Set::<u64>::empty(),
            lanes@.frames.latest is None,
            lanes@.units.frames.dom() == Set::<u64>::empty(),
            lanes@.units.latest is None,
            lanes@.unit_datagrams == features.h264_nal_datagrams,
    {
        let lanes = DatagramLanes {
            frames: VideoDatagramReassembler::new(),
            units: H264NalDatagramReassembler::new(),
            unit_datagrams: features.h264_nal_datagrams,
        };
        assert(lanes@.frames.frames.dom() =~= Set::<u64>::empty());
        assert(lanes@.units.frames.dom() =~= Set::<u64>::empty());
        lanes
    }

    /// Takes a datagram at the given time since the lanes were made.
    pub fn receive(&mut self, now: Duration, datagram: &[u8]) -> (outcome: LaneOutcome)
        ensures
            final(self)@ == old(self)@.after(now.nanos, datagram@).0,
            outcome@ == old(self)@.after(now.nanos, datagram@).1,
    {
        match classify_video_datagram(datagram) {
            None => LaneOutcome::Unknown,
            Some(VideoDatagramKind::Legacy) => {
                let ghost delivery = self.frames@.push(now.nanos, datagram@).1;
                let result = self.frames.push_at(now, datagram);
                outcome(result, Ghost(delivery))
            },
            Some(VideoDatagramKind::H264Nal) => {
                if !self.unit_datagrams {
                    return LaneOutcome::NotNegotiated;
                }
                let ghost delivery = self.units@.push(now.nanos, datagram@).1;
                let result = self.units.push_at(now, datagram);
                outcome(result, Ghost(delivery))
            },
        }
    }
}

/// Whether a message may come on the reliable media stream.
pub open spec fn reliable(message: MessageView) -> bool {
    keyframe_message(message) || message is Cursor
}

/// Accepts the messages of the reliable media stream: keyframes and cursors.
pub fn accept_reliable(message: WireMessage) -> (result: Result<WireMessage, String>)
    ensures
        match result {
            Ok(accepted) => reliable(message@) && accepted == message,
            Err(reason) => !reliable(message@) && reason@
                == "reliable media stream received a non-keyframe"@,
        },
{
    let accepted = match &message {
        WireMessage::Cursor { .. } => true,
        other => is_keyframe_message(other),
    };
    if accepted {
        Ok(message)
    } else {
        Err(owned("reliable media stream received a non-keyframe"))
    }
}

/// The events other than pointer positions, in order.
pub open spec fn ordered_events(events: Seq<InputEvent>) -> Seq<InputEvent>
    decreases events.len(),
{
    if events.len() == 0 {
        Seq::empty()
    } else if events.last() is Pointer {
        ordered_events(events.drop_last())
    } else {
        ordered_events(events.drop_last()).push(events.last())
    }
}

/// The last pointer position.
pub open spec fn latest_pointer(events: Seq<InputEvent>) -> Option<InputEvent>
    decreases events.len(),
{
    if events.len() == 0 {
        None
    } else if events.last() is Pointer {
        Some(events.last())
    } else {
        latest_pointer(events.drop_last())
    }
}

/// The events that are sent for one look at the window. A pointer position is a state, so only
/// the last one counts; everything else keeps its order and comes before it.
pub open spec fn input_queue(events: Seq<InputEvent>) -> Seq<InputEvent> {
    match latest_pointer(events) {
        Some(pointer) => ordered_events(events).push(pointer),
        None => ordered_events(events),
    }
}

/// The number of events before the first one that is not valid for the desktop.
pub open spec fn valid_prefix(events: Seq<InputEvent>, width: u32, height: u32) -> nat
    decreases events.len(),
{
    if events.len() == 0 || input_failure(events[0], width, height) is Some {
        0
    } else {
        1 + valid_prefix(events.drop_first(), width, height)
    }
}

/// Messages with input events, and what is wrong with the event behind them, if there is one.
pub struct OutgoingInput {
    pub messages: Vec<WireMessage>,
    pub failure: Option<DcError>,
}

proof fn lemma_valid_prefix(events: Seq<InputEvent>, width: u32, height: u32, count: int)
    requires
        0 <= count <= events.len(),
        forall|i: int|
            0 <= i < count ==> input_failure(#[trigger] events[i], width, height) is None,
        count < events.len() ==> input_failure(events[count], width, height) is Some,
    ensures
        valid_prefix(events, width, height) == count,
    decreases events.len(),
{
    if count > 0 {
        assert(input_failure(events[0], width, height) is None);
        assert forall|i: int| 0 <= i < count - 1 implies input_failure(
            #[trigger] events.drop_first()[i],
            width,
            height,
        ) is None by {
            assert(events.drop_first()[i] == events[i + 1]);
        }
        lemma_valid_prefix(events.drop_first(), width, height, count - 1);
    }
}

fn queue_input(events: &[InputEvent]) -> (queue: Vec<InputEvent>)
    ensures
        queue@ == input_queue(events@),
{
    let mut queue: Vec<InputEvent> = Vec::new();
    let mut latest: Option<InputEvent> = None;
    let mut index: usize = 0;
    assert(events@.take(0) =~= Seq::empty());
    while index < events.len()
        invariant
            index <= events@.len(),
            queue@ == ordered_events(events@.take(index as int)),
            latest == latest_pointer(events@.take(index as int)),
        decreases events@.len() - index,
    {
        let event = events[index];
        assert(events@.take(index + 1).drop_last() =~= events@.take(index as int));
        assert(events@.take(index + 1).last() == event);
        match event {
            InputEvent::Pointer { .. } => {
                latest = Some(event);
            },
            _ => {
                queue.push(event);
            },
        }
        index = index + 1;
    }
    assert(events@.take(index as int) =~= events@);
    if let Some(pointer) = latest {
        queue.push(pointer);
    }
    queue
}

/// What is sent of the events that a window reported, and why no more.
pub open spec fn planned_input(events: Seq<InputEvent>, width: u32, height: u32) -> (
    Seq<InputEvent>,
    Option<DcErrorView>,
) {
    let queue = input_queue(events);
    let count = valid_prefix(queue, width, height);
    (
        queue.take(count as int),
        if count < queue.len() {
            input_failure(queue[count as int], width, height)
        } else {
            None
        },
    )
}

/// The messages for the events of one look at the window, checked against the desktop. Behind an
/// event that is not valid nothing is sent.
pub fn plan_input(events: &[InputEvent], width: u32, height: u32) -> (outgoing: OutgoingInput)
    ensures
        ({
            let queue = input_queue(events@);
            let count = valid_prefix(queue, width, height);
            &&& count <= queue.len()
            &&& outgoing.messages@.len() == count
            &&& forall|i: int|
                0 <= i < count ==> (#[trigger] outgoing.messages@[i])@ == MessageView::Input(
                    queue[i],
                )
            &&& match outgoing.failure {
                Some(error) => count < queue.len() && input_failure(
                    queue[count as int],
                    width,
                    height,
                ) == Some(error@),
                None => count == queue.len(),
            }
        }),
        ({
            let (sent, failure) = planned_input(events@, width, height);
            &&& outgoing.messages@.len() == sent.len()
            &&& forall|i: int|
                0 <= i < sent.len() ==> (#[trigger] outgoing.messages@[i])@ == MessageView::Input(sent[i])
            &&& match outgoing.failure {
                Some(error) => failure == Some(error@),
                None => failure is None,
            }
        }),
{
    let queue = queue_input(events);
    let mut messages: Vec<WireMessage> = Vec::new();
    let mut index: usize = 0;
    while index < queue.len()
        invariant
            index <= queue@.len(),
            queue@ == input_queue(events@),
            messages@.len() == index,
            forall|i: int|
                0 <= i < index ==> (#[trigger] messages@[i])@ == MessageView::Input(queue@[i]),
            forall|i: int|
                0 <= i < index ==> input_failure(#[trigger] queue@[i], width, height) is None,
        decreases queue@.len() - index,
    {
        let event = queue[index];
        match validate_input(&event, width, height) {
            Ok(_) => {},
            Err(error) => {
                proof {
                    lemma_valid_prefix(queue@, width, height, index as int);
                }
                return OutgoingInput { messages, failure: Some(error) };
            },
        }
        messages.push(WireMessage::Input(event));
        index = index + 1;
    }
    proof {
        lemma_valid_prefix(queue@, width, height, index as int);
    }
    OutgoingInput { messages, failure: None }
}

proof fn lemma_ordered(events: Seq<InputEvent>)
    ensures
        ordered_events(events).len() <= events.len(),
        forall|i: int|
            0 <= i < ordered_events(events).len() ==> !(#[trigger] ordered_events(events)[i]
                is Pointer),
    decreases events.len(),
{
    if events.len() > 0 {
        lemma_ordered(events.drop_last());
    }
}

/// At most one pointer position is sent for one look at the window, and it comes last.
pub proof fn law_one_pointer_is_sent_last(events: Seq<InputEvent>, index: int)
    requires
        0 <= index < input_queue(events).len(),
        input_queue(events)[index] is Pointer,
    ensures
        index == input_queue(events).len() - 1,
        Some(input_queue(events)[index]) == latest_pointer(events),
{
    lemma_ordered(events);
    if index < ordered_events(events).len() {
        assert(!(ordered_events(events)[index] is Pointer));
    }
}

/// A datagram goes to the lane of its kind, and to none where its kind is not known or was not agreed
/// to. The other lane is left alone, and a message that is complete is handed on as the lane gave it.
pub proof fn law_datagrams_go_to_their_lane(lanes: LanesView, now: u128, datagram: Seq<u8>)
    ensures
        ({
            let (after, outcome) = lanes.after(now, datagram);
            let kind = kind_of(datagram);
            &&& after.unit_datagrams == lanes.unit_datagrams
            &&& kind is None ==> after == lanes && outcome is Unknown
            &&& kind == Some(VideoDatagramKind::Legacy) ==> {
                &&& after.units == lanes.units
                &&& after.frames == lanes.frames.push(now, datagram).0
                &&& outcome == outcome_of(lanes.frames.push(now, datagram).1)
            }
            &&& kind == Some(VideoDatagramKind::H264Nal) && !lanes.unit_datagrams ==> after == lanes
                && outcome is NotNegotiated
            &&& kind == Some(VideoDatagramKind::H264Nal) && lanes.unit_datagrams ==> {
                &&& after.frames == lanes.frames
                &&& after.units == lanes.units.push(now, datagram).0
                &&& outcome == outcome_of(lanes.units.push(now, datagram).1)
            }
        }),
{
}

/// Only a keyframe makes the viewer wait for its other stream.
pub proof fn law_keyframes_are_waited_for(delivery: Delivery)
    ensures
        delivery matches Err(error) ==> outcome_of(delivery) == LaneOutcomeView::Rejected(error),
        delivery == Ok::<Option<MessageView>, DcErrorView>(None) ==> outcome_of(delivery)
            == LaneOutcomeView::Pending,
        delivery matches Ok(Some(message)) ==> outcome_of(delivery) == (LaneOutcomeView::Complete {
            message,
            wait: message is Video && message->Video_keyframe,
        }),
{
}

/// The reliable stream carries keyframes and cursors and nothing else.
pub proof fn law_reliable_stream_carries_keyframes_and_cursors(message: MessageView)
    ensures
        reliable(message) <==> message is Cursor || (message is Video && message->Video_keyframe),
{
}

/// Of what a window reports, keys and wheel turns keep their order, all of them, and of the pointer's
/// places only the last is kept, behind the others.
pub proof fn law_input_keeps_its_order(events: Seq<InputEvent>, event: InputEvent)
    ensures
        ordered_events(Seq::empty()) == Seq::<InputEvent>::empty(),
        latest_pointer(Seq::empty()) is None,
        event is Pointer ==> ordered_events(events.push(event)) == ordered_events(events)
            && latest_pointer(events.push(event)) == Some(event),
        !(event is Pointer) ==> ordered_events(events.push(event)) == ordered_events(events).push(
            event,
        ) && latest_pointer(events.push(event)) == latest_pointer(events),
        latest_pointer(events) is None ==> input_queue(events) == ordered_events(events),
        latest_pointer(events) is Some ==> input_queue(events) == ordered_events(events).push(
            latest_pointer(events)->Some_0,
        ),
{
    assert(events.push(event).drop_last() =~= events);
}

/// Events are sent up to the first that is not on the desktop, and that one is not.
pub proof fn law_events_are_sent_up_to_the_first_refused(
    events: Seq<InputEvent>,
    width: u32,
    height: u32,
)
    ensures
        ({
            let count = valid_prefix(events, width, height);
            &&& count <= events.len()
            &&& forall|i: int|
                0 <= i < count ==> input_failure(#[trigger] events[i], width, height) is None
            &&& count < events.len() ==> input_failure(events[count as int], width, height) is Some
        }),
    decreases events.len(),
{
    if events.len() > 0 && input_failure(events[0], width, height) is None {
        let rest = events.drop_first();
        law_events_are_sent_up_to_the_first_refused(rest, width, height);
        let count = valid_prefix(events, width, height);
        assert forall|i: int| 0 <= i < count implies input_failure(
            #[trigger] events[i],
            width,
            height,
        ) is None by {
            if i > 0 {
                assert(rest[i - 1] == events[i]);
            }
        }
        if count < events.len() {
            assert(rest[count - 1] == events[count as int]);
        }
    }
}

/// All events are sent where all are on the desktop, and otherwise those in front of the first that is
/// not; then it is told why.
pub proof fn law_input_is_sent_or_refused(events: Seq<InputEvent>, width: u32, height: u32)
    ensures
        ({
            let queue = input_queue(events);
            let (sent, failure) = planned_input(events, width, height);
            &&& sent.len() <= queue.len()
            &&& sent == queue.take(sent.len() as int)
            &&& forall|i: int|
                0 <= i < sent.len() ==> input_failure(#[trigger] sent[i], width, height) is None
            &&& failure is None <==> sent.len() == queue.len()
            &&& failure is Some ==> failure == input_failure(
                queue[sent.len() as int],
                width,
                height,
            )
        }),
{
    let queue = input_queue(events);
    law_events_are_sent_up_to_the_first_refused(queue, width, height);
    let (sent, failure) = planned_input(events, width, height);
    assert forall|i: int| 0 <= i < sent.len() implies input_failure(
        #[trigger] sent[i],
        width,
        height,
    ) is None by {
        assert(sent[i] == queue[i]);
    }
}

} // verus!
