//! What holds of the way of every image to the parent process.

use vstd::prelude::*;
use vstd::string::*;
use vstd::utf8::*;

use crate::decimal::decimal;
use crate::frame::{
    announced, first_frame, frame, frame_is_read_back, frame_layout, FrameError, HEADER,
    MAX_PAYLOAD,
};
use crate::pipeline::{
    delivered, failed_text, forwarded_text, has_bmp_signature, message, proceed, processed,
    received_text, BmpError, Input, InputView, PipelineAction, PipelineActionView, PipelineEvent,
    PipelineEventView, PARENT_CONNECT_TIMEOUT_SECONDS,
};

verus! {

/// A message of any size tells where its parts are: each frame announces its length, the
/// image comes first, the file name second, and nothing follows.
pub proof fn message_layout(input: InputView)
    requires
        input.data.len() <= u64::MAX,
        encode_utf8(input.name).len() <= u64::MAX,
    ensures
        ({
            let image_end = (HEADER + announced(message(input))) as int;
            let rest = message(input).skip(image_end);
            let name_end = (HEADER + announced(rest)) as int;
            &&& message(input).subrange(HEADER as int, image_end) == input.data
            &&& decode_utf8(rest.subrange(HEADER as int, name_end)) == input.name
            &&& rest.len() == name_end
        }),
{
    let name_bytes = encode_utf8(input.name);
    frame_layout(input.data, frame(name_bytes));
    frame_layout(name_bytes, Seq::empty());
    assert(frame(name_bytes) + Seq::<u8>::empty() =~= frame(name_bytes));
    encode_utf8_decode_utf8(input.name);
}

/// A reader that keeps to the size limit takes the image and then the file name out of a
/// message, and nothing is left over.
pub proof fn message_is_read_back(input: InputView)
    requires
        input.data.len() <= MAX_PAYLOAD,
        encode_utf8(input.name).len() <= MAX_PAYLOAD,
    ensures
        ({
            let first = first_frame(message(input));
            let taken = frame(input.data).len();
            let second = first_frame(message(input).skip(taken as int));
            let name_bytes = encode_utf8(input.name);
            &&& first == Ok::<Option<(Seq<u8>, nat)>, FrameError>(Some((input.data, taken)))
            &&& second == Ok::<Option<(Seq<u8>, nat)>, FrameError>(
                Some((name_bytes, (message(input).len() - taken) as nat)),
            )
            &&& decode_utf8(name_bytes) == input.name
        }),
{
    let name_bytes = encode_utf8(input.name);
    let taken = frame(input.data).len();
    frame_is_read_back(input.data, frame(name_bytes));
    frame_is_read_back(name_bytes, Seq::empty());
    assert(frame(name_bytes) + Seq::<u8>::empty() =~= frame(name_bytes));
    assert(message(input).skip(taken as int) =~= frame(name_bytes));
    encode_utf8_decode_utf8(input.name);
}

/// What is delivered for later inputs does not depend on the earlier ones: an input that
/// fails, or a parent process that is away for a while, stops nothing.
pub proof fn failures_stop_nothing(
    earlier: Seq<InputView>,
    earlier_reached: Seq<bool>,
    later: Seq<InputView>,
    later_reached: Seq<bool>,
)
    requires
        earlier.len() == earlier_reached.len(),
        later.len() == later_reached.len(),
    ensures
        delivered(earlier + later, earlier_reached + later_reached) == delivered(
            earlier,
            earlier_reached,
        ) + delivered(later, later_reached),
    decreases later.len(),
{
    let inputs = earlier + later;
    let reached = earlier_reached + later_reached;
    if later.len() == 0 {
        assert(inputs =~= earlier);
        assert(reached =~= earlier_reached);
        assert(delivered(inputs, reached) =~= delivered(earlier, earlier_reached) + delivered(
            later,
            later_reached,
        ));
    } else {
        failures_stop_nothing(
            earlier,
            earlier_reached,
            later.drop_last(),
            later_reached.drop_last(),
        );
        assert(inputs.drop_last() =~= earlier + later.drop_last());
        assert(reached.drop_last() =~= earlier_reached + later_reached.drop_last());
        assert(delivered(inputs, reached) =~= delivered(earlier, earlier_reached) + delivered(
            later,
            later_reached,
        ));
    }
}

/// What has come of the inputs so far.
pub struct Run {
    /// The input whose message is on its way.
    pub on_its_way: Option<InputView>,
    /// The messages for which a connection to the parent process was opened.
    pub attempted: Seq<Seq<u8>>,
    /// The messages that reached the parent process.
    pub sent: Seq<Seq<u8>>,
}

/// What comes of `inputs` that arrive one after the other. `outcomes` tells for each of them
/// what would come of sending it: success, or the reason why it fails.
pub open spec fn run(inputs: Seq<InputView>, outcomes: Seq<Result<(), Seq<char>>>) -> Run
    decreases inputs.len(),
{
    if inputs.len() == 0 {
        Run { on_its_way: None, attempted: Seq::empty(), sent: Seq::empty() }
    } else {
        let earlier = run(inputs.drop_last(), outcomes.drop_last());
        let received = PipelineEventView::Received { input: inputs.last() };
        match proceed(earlier.on_its_way, received) {
            (on_its_way, PipelineActionView::Send { message, .. }) => match outcomes.last() {
                Ok(()) => Run {
                    on_its_way: proceed(on_its_way, PipelineEventView::Sent).0,
                    attempted: earlier.attempted.push(message),
                    sent: earlier.sent.push(message),
                },
                Err(reason) => Run {
                    on_its_way: proceed(on_its_way, PipelineEventView::NotSent { reason }).0,
                    attempted: earlier.attempted.push(message),
                    sent: earlier.sent,
                },
            },
            (on_its_way, _) => Run { on_its_way, ..earlier },
        }
    }
}

/// Tells for each outcome whether the parent process was reached.
pub open spec fn reached(outcomes: Seq<Result<(), Seq<char>>>) -> Seq<bool> {
    outcomes.map_values(|outcome: Result<(), Seq<char>>| outcome is Ok)
}

/// The messages of the inputs that are images, in their order.
pub open spec fn messages(inputs: Seq<InputView>) -> Seq<Seq<u8>>
    decreases inputs.len(),
{
    if inputs.len() == 0 {
        Seq::empty()
    } else if has_bmp_signature(inputs.last().data) {
        messages(inputs.drop_last()).push(message(inputs.last()))
    } else {
        messages(inputs.drop_last())
    }
}

/// Exactly the inputs that are images and whose message could be sent reach the parent
/// process, in the order in which they came. A connection is opened for each image, once,
/// and for nothing else. When nothing more comes the pipeline ends well.
pub proof fn images_are_delivered_in_order(
    inputs: Seq<InputView>,
    outcomes: Seq<Result<(), Seq<char>>>,
)
    requires
        inputs.len() == outcomes.len(),
    ensures
        run(inputs, outcomes).sent == delivered(inputs, reached(outcomes)),
        run(inputs, outcomes).attempted == messages(inputs),
        run(inputs, outcomes).on_its_way is None,
        proceed(run(inputs, outcomes).on_its_way, PipelineEventView::Closed).1
            == PipelineActionView::Stop,
    decreases inputs.len(),
{
    if inputs.len() > 0 {
        images_are_delivered_in_order(inputs.drop_last(), outcomes.drop_last());
        assert(reached(outcomes).drop_last() =~= reached(outcomes.drop_last()));
        assert(reached(outcomes).last() == (outcomes.last() is Ok));
    }
}

/// Where every input is an image and every message can be sent, the parent process gets one
/// connection for each: none is lost and none is doubled.
pub proof fn every_image_is_delivered_once(
    inputs: Seq<InputView>,
    outcomes: Seq<Result<(), Seq<char>>>,
)
    requires
        inputs.len() == outcomes.len(),
        forall|i: int| 0 <= i < inputs.len() ==> has_bmp_signature((#[trigger] inputs[i]).data),
        forall|i: int| 0 <= i < outcomes.len() ==> #[trigger] outcomes[i] is Ok,
    ensures
        run(inputs, outcomes).sent == inputs.map_values(|input: InputView| message(input)),
        run(inputs, outcomes).attempted == run(inputs, outcomes).sent,
    decreases inputs.len(),
{
    let all = inputs.map_values(|input: InputView| message(input));
    if inputs.len() == 0 {
        assert(all =~= Seq::empty());
    } else {
        let front = inputs.drop_last();
        every_image_is_delivered_once(front, outcomes.drop_last());
        assert(has_bmp_signature(inputs[inputs.len() - 1].data));
        assert(outcomes[outcomes.len() - 1] is Ok);
        assert(all =~= front.map_values(|input: InputView| message(input)).push(
            message(inputs.last()),
        ));
    }
}

/// Data are an image where they begin with the letters `BM`, whatever follows and however much
/// of it, and nowhere else.
pub proof fn images_begin_with_their_letters(data: Seq<u8>, rest: Seq<u8>)
    ensures
        has_bmp_signature(seq![0x42u8, 0x4du8] + rest),
        has_bmp_signature(data) ==> data == seq![0x42u8, 0x4du8] + data.skip(2),
{
    if has_bmp_signature(data) {
        assert(data =~= seq![0x42u8, 0x4du8] + data.skip(2));
    }
}

/// An image of any size gets a message: a frame with all of the image, then a frame with the
/// file name in UTF-8. Other data get none.
pub proof fn image_gets_a_message(rest: Seq<u8>, name: Seq<char>, other: InputView)
    ensures
        ({
            let data = seq![0x42u8, 0x4du8] + rest;
            processed(InputView { data, name }) == Ok::<Seq<u8>, BmpError>(
                frame(data) + frame(encode_utf8(name)),
            )
        }),
        message(other) == frame(other.data) + frame(encode_utf8(other.name)),
        other.data.len() < 2 || other.data[0] != 0x42 || other.data[1] != 0x4d ==> processed(other)
            == Err::<Seq<u8>, BmpError>(BmpError::NotBmp),
{
    images_begin_with_their_letters(seq![0x42u8, 0x4du8] + rest, rest);
}

/// One more input adds its message to what reaches the parent process where it is an image
/// and can be sent, and nothing else. Without inputs nothing reaches it.
pub proof fn one_more_input_adds_its_message(
    inputs: Seq<InputView>,
    outcomes: Seq<bool>,
    input: InputView,
    reaches: bool,
)
    ensures
        delivered(Seq::<InputView>::empty(), Seq::<bool>::empty()) == Seq::<Seq<u8>>::empty(),
        delivered(inputs.push(input), outcomes.push(reaches)) == delivered(inputs, outcomes) + (
        if reaches && input.data.len() >= 2 && input.data[0] == 0x42 && input.data[1] == 0x4d {
            seq![frame(input.data) + frame(encode_utf8(input.name))]
        } else {
            Seq::empty()
        }),
{
    assert(inputs.push(input).drop_last() =~= inputs);
    assert(outcomes.push(reaches).drop_last() =~= outcomes);
}

/// The console shows the file name and the size of an image that has been received or
/// forwarded, and the reason why one is passed over.
pub proof fn console_shows_the_way_of_an_image(input: InputView, reason: Seq<char>)
    ensures
        received_text(input) == "FTP STOR: přijat BMP "@ + input.name + " ("@ + decimal(
            input.data.len(),
        ) + " B)"@,
        forwarded_text(input) == "Pipeline: předáno parent procesu (BMP "@ + decimal(
            input.data.len(),
        ) + " B, název "@ + input.name + ")"@,
        failed_text(reason) == "Pipeline: "@ + reason,
        BmpError::NotBmp.text() == "přijatá data nejsou BMP"@,
        PARENT_CONNECT_TIMEOUT_SECONDS == 30,
{
}

/// An image that arrives is announced and sent; what comes of sending it is shown, and the
/// pipeline goes on. Other data are reported, and the pipeline goes on. When nothing more
/// comes it stops.
pub proof fn pipeline_takes_one_image_after_the_other(
    on_its_way: Option<InputView>,
    input: InputView,
    reason: Seq<char>,
)
    ensures
        ({
            let image = input.data.len() >= 2 && input.data[0] == 0x42 && input.data[1] == 0x4d;
            let received = proceed(on_its_way, PipelineEventView::Received { input });
            &&& image ==> received == (
                Some(input),
                PipelineActionView::Send {
                    notice: received_text(input),
                    message: frame(input.data) + frame(encode_utf8(input.name)),
                },
            )
            &&& !image ==> received == (
                None::<InputView>,
                PipelineActionView::Report { notice: "Pipeline: "@ + "přijatá data nejsou BMP"@ },
            )
        }),
        proceed(Some(input), PipelineEventView::Sent) == (
            None::<InputView>,
            PipelineActionView::Announce { notice: forwarded_text(input) },
        ),
        proceed(Some(input), PipelineEventView::NotSent { reason }) == (
            None::<InputView>,
            PipelineActionView::Report { notice: "Pipeline: "@ + reason },
        ),
        proceed(None, PipelineEventView::Sent) == (None::<InputView>, PipelineActionView::Wait),
        proceed(None, PipelineEventView::NotSent { reason }) == (
            None::<InputView>,
            PipelineActionView::Wait,
        ),
        proceed(on_its_way, PipelineEventView::Closed) == (
            None::<InputView>,
            PipelineActionView::Stop,
        ),
{
}

/// Inputs, events and actions hold what their parts hold.
pub proof fn pipeline_values_hold_their_parts(
    input: Input,
    event: PipelineEvent,
    action: PipelineAction,
)
    ensures
        input matches Input::Bmp { data, name } && input@ == (InputView {
            data: data@,
            name: name@,
        }),
        match event {
            PipelineEvent::Received { input } => event@ == (PipelineEventView::Received {
                input: input@,
            }),
            PipelineEvent::Sent => event@ == PipelineEventView::Sent,
            PipelineEvent::NotSent { reason } => event@ == (PipelineEventView::NotSent {
                reason: reason@,
            }),
            PipelineEvent::Closed => event@ == PipelineEventView::Closed,
        },
        match action {
            PipelineAction::Send { notice, message } => action@ == (PipelineActionView::Send {
                notice: notice@,
                message: message@,
            }),
            PipelineAction::Announce { notice } => action@ == (PipelineActionView::Announce {
                notice: notice@,
            }),
            PipelineAction::Report { notice } => action@ == (PipelineActionView::Report {
                notice: notice@,
            }),
            PipelineAction::Wait => action@ == PipelineActionView::Wait,
            PipelineAction::Stop => action@ == PipelineActionView::Stop,
        },
{
}

} // verus!
