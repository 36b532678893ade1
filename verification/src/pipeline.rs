//! From an uploaded image to the message that the parent process receives.

use vstd::prelude::*;
use vstd::string::*;
use vstd::utf8::*;

use crate::decimal::{decimal, decimal_of};
use crate::frame::{frame, write_frame};

verus! {

/// How long the collector waits for the parent process, and for each write to it.
pub const PARENT_CONNECT_TIMEOUT_SECONDS: u64 = 30;

/// What the FTP server hands to the pipeline.
#[derive(Debug)]
pub enum Input {
    /// A BMP image received through FTP, and its file name.
    Bmp { data: Vec<u8>, name: String },
}

/// The contents of an `Input`.
pub struct InputView {
    pub data: Seq<u8>,
    pub name: Seq<char>,
}

impl View for Input {
    type V = InputView;

    open spec fn view(&self) -> InputView {
        match self {
            Input::Bmp { data, name } => InputView { data: data@, name: name@ },
        }
    }
}

/// Why an image is refused.
#[derive(Clone, Copy, Debug, PartialEq, Eq, Structural)]
pub enum BmpError {
    NotBmp,
}

impl BmpError {
    /// The error in words.
    pub open spec fn text(self) -> Seq<char> {
        "přijatá data nejsou BMP"@
    }

    /// The error in words.
    pub fn message(&self) -> (m: String)
        ensures
            m@ == self.text(),
    {
        "přijatá data nejsou BMP".to_owned()
    }
}

/// Tells that `data` begins with the BMP signature, the letters `BM`.
pub open spec fn has_bmp_signature(data: Seq<u8>) -> bool {
    data.len() >= 2 && data[0] == 0x42 && data[1] == 0x4d
}

/// Accepts data that begins with the BMP signature and nothing else.
pub fn validate_bmp(data: &[u8]) -> (res: Result<(), BmpError>)
    ensures
        res == (if has_bmp_signature(data@) {
            Ok::<(), BmpError>(())
        } else {
            Err::<(), BmpError>(BmpError::NotBmp)
        }),
        res is Ok <==> data@.len() >= 2 && data@[0] == 0x42 && data@[1] == 0x4d,
{
    if data.len() < 2 || data[0] != 0x42 || data[1] != 0x4d {
        return Err(BmpError::NotBmp);
    }
    Ok(())
}

/// What the parent process receives for an image: a frame with the image, then a frame
/// with the file name in UTF-8.
pub open spec fn message(input: InputView) -> Seq<u8> {
    frame(input.data) + frame(encode_utf8(input.name))
}

/// What becomes of an input: the message for the parent process, or the reason why there
/// is none.
pub open spec fn processed(input: InputView) -> Result<Seq<u8>, BmpError> {
    if has_bmp_signature(input.data) {
        Ok(message(input))
    } else {
        Err(BmpError::NotBmp)
    }
}

/// The messages that reach the parent process when `inputs` come one after the other.
/// `reached` tells for each of them whether the parent process could be reached. An input
/// that fails is passed over.
pub open spec fn delivered(inputs: Seq<InputView>, reached: Seq<bool>) -> Seq<Seq<u8>>
    decreases inputs.len(),
{
    if inputs.len() == 0 {
        Seq::empty()
    } else {
        let earlier = delivered(inputs.drop_last(), reached.drop_last());
        match processed(inputs.last()) {
            Ok(bytes) => if reached.last() {
                earlier.push(bytes)
            } else {
                earlier
            },
            Err(_) => earlier,
        }
    }
}

/// What the parent process receives for an image.
pub fn parent_message(data: &[u8], name: &str) -> (bytes: Vec<u8>)
    ensures
        bytes@ == message(InputView { data: data@, name: name@ }),
{
    let mut bytes: Vec<u8> = write_frame(data);
    let name_frame: Vec<u8> = write_frame(name.as_bytes());
    bytes.extend_from_slice(name_frame.as_slice());
    assert(bytes@ =~= message(InputView { data: data@, name: name@ }));
    bytes
}

/// Makes the message for the parent process, or tells why the input is passed over.
pub fn process_input(input: &Input) -> (res: Result<Vec<u8>, BmpError>)
    ensures
        match res {
            Ok(bytes) => processed(input@) == Ok::<Seq<u8>, BmpError>(bytes@),
            Err(e) => processed(input@) == Err::<Seq<u8>, BmpError>(e),
        },
        forall|earlier: Seq<InputView>, reached: Seq<bool>| #[trigger]
            delivered(earlier.push(input@), reached.push(true)) == delivered(earlier, reached) + (
            match res {
                Ok(bytes) => seq![bytes@],
                Err(_) => Seq::empty(),
            }),
        forall|earlier: Seq<InputView>, reached: Seq<bool>| #[trigger]
            delivered(earlier.push(input@), reached.push(false)) == delivered(earlier, reached),
{
    proof {
        lemma_delivered(input@);
    }
    match input {
        Input::Bmp { data, name } => match validate_bmp(data.as_slice()) {
            Ok(()) => Ok(parent_message(data.as_slice(), name.as_str())),
            Err(e) => Err(e),
        },
    }
}

/// One more input adds its message where it has one and the parent process is reached.
proof fn lemma_delivered(input: InputView)
    ensures
        forall|earlier: Seq<InputView>, reached: Seq<bool>| #[trigger]
            delivered(earlier.push(input), reached.push(true)) == delivered(earlier, reached) + (
            match processed(input) {
                Ok(bytes) => seq![bytes],
                Err(_) => Seq::empty(),
            }),
        forall|earlier: Seq<InputView>, reached: Seq<bool>| #[trigger]
            delivered(earlier.push(input), reached.push(false)) == delivered(earlier, reached),
{
    assert forall|earlier: Seq<InputView>, reached: Seq<bool>| #[trigger]
        delivered(earlier.push(input), reached.push(true)) == delivered(earlier, reached) + (
        match processed(input) {
            Ok(bytes) => seq![bytes],
            Err(_) => Seq::empty(),
        }) by {
        assert(earlier.push(input).drop_last() =~= earlier);
        assert(reached.push(true).drop_last() =~= reached);
    }
    assert forall|earlier: Seq<InputView>, reached: Seq<bool>| #[trigger]
        delivered(earlier.push(input), reached.push(false)) == delivered(earlier, reached) by {
        assert(earlier.push(input).drop_last() =~= earlier);
        assert(reached.push(false).drop_last() =~= reached);
    }
}

/// What the console shows for an image that has been received.
pub open spec fn received_text(input: InputView) -> Seq<char> {
    "FTP STOR: přijat BMP "@ + input.name + " ("@ + decimal(input.data.len()) + " B)"@
}

/// What the console shows for an image that has reached the parent process.
pub open spec fn forwarded_text(input: InputView) -> Seq<char> {
    "Pipeline: předáno parent procesu (BMP "@ + decimal(input.data.len()) + " B, název "@
        + input.name + ")"@
}

/// What the console shows for an image that is passed over.
pub open spec fn failed_text(reason: Seq<char>) -> Seq<char> {
    "Pipeline: "@ + reason
}

/// What the console shows for an image that has been received.
pub fn received_notice(input: &Input) -> (text: String)
    ensures
        text@ == received_text(input@),
{
    match input {
        Input::Bmp { data, name } => {
            let mut text: String = "FTP STOR: přijat BMP ".to_owned();
            text.append(name.as_str());
            text.append(" (");
            text.append(decimal_of(data.len()).as_str());
            text.append(" B)");
            text
        },
    }
}

/// What the console shows for an image that has reached the parent process.
pub fn forwarded_notice(input: &Input) -> (text: String)
    ensures
        text@ == forwarded_text(input@),
{
    match input {
        Input::Bmp { data, name } => {
            let mut text: String = "Pipeline: předáno parent procesu (BMP ".to_owned();
            text.append(decimal_of(data.len()).as_str());
            text.append(" B, název ");
            text.append(name.as_str());
            text.append(")");
            text
        },
    }
}

/// What the console shows for an image that is passed over.
fn failed_notice(reason: &str) -> (text: String)
    ensures
        text@ == failed_text(reason@),
{
    let mut text: String = "Pipeline: ".to_owned();
    text.append(reason);
    text
}

/// What happens to the pipeline.
#[derive(Debug)]
pub enum PipelineEvent {
    /// The FTP server hands over an input.
    Received { input: Input },
    /// The message has been sent.
    Sent,
    /// The message could not be sent.
    NotSent { reason: String },
    /// The FTP server hands over nothing more.
    Closed,
}

/// The contents of a `PipelineEvent`.
pub enum PipelineEventView {
    Received { input: InputView },
    Sent,
    NotSent { reason: Seq<char> },
    Closed,
}

impl View for PipelineEvent {
    type V = PipelineEventView;

    open spec fn view(&self) -> PipelineEventView {
        match self {
            PipelineEvent::Received { input } => PipelineEventView::Received { input: input@ },
            PipelineEvent::Sent => PipelineEventView::Sent,
            PipelineEvent::NotSent { reason } => PipelineEventView::NotSent { reason: reason@ },
            PipelineEvent::Closed => PipelineEventView::Closed,
        }
    }
}

/// What the pipeline does next.
#[derive(Debug)]
pub enum PipelineAction {
    /// Shows `notice`, then sends `message` to the parent process over a connection of its
    /// own.
    Send { notice: String, message: Vec<u8> },
    /// Shows `notice`, then waits for an input.
    Announce { notice: String },
    /// Shows `notice` as an error, then waits for an input.
    Report { notice: String },
    /// Waits for an input.
    Wait,
    /// Ends well.
    Stop,
}

/// The contents of a `PipelineAction`.
pub enum PipelineActionView {
    Send { notice: Seq<char>, message: Seq<u8> },
    Announce { notice: Seq<char> },
    Report { notice: Seq<char> },
    Wait,
    Stop,
}

impl View for PipelineAction {
    type V = PipelineActionView;

    open spec fn view(&self) -> PipelineActionView {
        match self {
            PipelineAction::Send { notice, message } => PipelineActionView::Send {
                notice: notice@,
                message: message@,
            },
            PipelineAction::Announce { notice } => PipelineActionView::Announce {
                notice: notice@,
            },
            PipelineAction::Report { notice } => PipelineActionView::Report { notice: notice@ },
            PipelineAction::Wait => PipelineActionView::Wait,
            PipelineAction::Stop => PipelineActionView::Stop,
        }
    }
}

/// The input whose message is on its way and the action that follow when `event` happens.
/// An input that fails, or whose message could not be sent, is reported and passed over.
pub open spec fn proceed(on_its_way: Option<InputView>, event: PipelineEventView) -> (
    Option<InputView>,
    PipelineActionView,
) {
    match event {
        PipelineEventView::Received { input } => match processed(input) {
            Ok(message) => (
                Some(input),
                PipelineActionView::Send { notice: received_text(input), message },
            ),
            Err(e) => (None, PipelineActionView::Report { notice: failed_text(e.text()) }),
        },
        PipelineEventView::Sent => match on_its_way {
            Some(input) => (None, PipelineActionView::Announce { notice: forwarded_text(input) }),
            None => (None, PipelineActionView::Wait),
        },
        PipelineEventView::NotSent { reason } => match on_its_way {
            Some(_) => (None, PipelineActionView::Report { notice: failed_text(reason) }),
            None => (None, PipelineActionView::Wait),
        },
        PipelineEventView::Closed => (None, PipelineActionView::Stop),
    }
}

/// What the pipeline remembers: the input whose message is on its way.
#[derive(Debug)]
pub struct Pipeline {
    on_its_way: Option<Input>,
}

impl View for Pipeline {
    type V = Option<InputView>;

    closed spec fn view(&self) -> Option<InputView> {
        match self.on_its_way {
            Some(input) => Some(input@),
            None => None,
        }
    }
}

impl Pipeline {
    /// A pipeline that waits for its first input.
    pub fn new() -> (pipeline: Pipeline)
        ensures
            pipeline@ is None,
    {
        Pipeline { on_its_way: None }
    }

    /// Decides what to do after `event`.
    pub fn handle_event(&mut self, event: PipelineEvent) -> (action: PipelineAction)
        ensures
            (final(self)@, action@) == proceed(old(self)@, event@),
    {
        let sent: Option<Input> = self.on_its_way.take();
        match event {
            PipelineEvent::Received { input } => match process_input(&input) {
                Ok(message) => {
                    let notice: String = received_notice(&input);
                    self.on_its_way = Some(input);
                    PipelineAction::Send { notice, message }
                },
                Err(e) => {
                    let notice: String = failed_notice(e.message().as_str());
                    PipelineAction::Report { notice }
                },
            },
            PipelineEvent::Sent => match sent {
                Some(input) => PipelineAction::Announce { notice: forwarded_notice(&input) },
                None => PipelineAction::Wait,
            },
            PipelineEvent::NotSent { reason } => match sent {
                Some(_) => PipelineAction::Report { notice: failed_notice(reason.as_str()) },
                None => PipelineAction::Wait,
            },
            PipelineEvent::Closed => PipelineAction::Stop,
        }
    }
}

} // verus!
