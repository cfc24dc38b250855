//! Reading the log of one pod: what is made of each thing that the byte
//! stream gives, and whether reading goes on after it.

use crate::kubernetes::log::{cleaned, message_of, LogEntry};
use vstd::prelude::*;
use vstd::string::StringExecFns;
use vstd::utf8::{decode_utf8, valid_utf8};

verus! {

/// How many entries wait at the most between the readers and the one that
/// shows them. A reader that finds no room waits.
pub const QUEUE_CAPACITY: usize = 100;

/// How long a reader waits after an error before it reads again, in
/// milliseconds.
pub const RETRY_DELAY_MS: u64 = 500;

/// The text that `String::from_utf8_lossy` makes of bytes: the text they
/// encode, with a replacement character for each part that encodes none.
pub uninterp spec fn lossy_text(bytes: Seq<u8>) -> Seq<char>;

/// `String::from_utf8_lossy`: the text of `bytes`. Bytes that are valid
/// UTF-8 give the text that they encode.
#[verifier::external_body]
fn decode_lossy(bytes: &[u8]) -> (text: String)
    ensures
        text@ == lossy_text(bytes@),
        valid_utf8(bytes@) ==> text@ == decode_utf8(bytes@),
{
    String::from_utf8_lossy(bytes).into_owned()
}

/// What reading the byte stream of a pod gave.
pub enum Read {
    /// One line.
    Line(Vec<u8>),
    /// An error, after which the stream can be read again.
    Failed(String),
    /// The end of the stream.
    End,
}

/// What the reader of a pod hands on.
pub enum Step {
    /// An entry, to be sent.
    Forward(LogEntry),
    /// An error with the name of the pod, to be sent.
    Report(String),
    /// Nothing: the reader ends, and sends no mark of it.
    Finish,
}

/// What the reader of a pod does after it has handed something on.
#[derive(Debug, Clone, Copy, PartialEq, Eq, Structural)]
pub enum Next {
    /// It reads again.
    Read,
    /// It waits for so many milliseconds and reads again: an error of
    /// the stream may pass.
    ReadAfter(u64),
    /// It ends.
    Stop,
}

/// The text of the error that the reader of `pod_name` reports.
pub open spec fn error_text(pod_name: Seq<char>, error: Seq<char>) -> Seq<char> {
    "Error from pod "@ + pod_name + ": "@ + error
}

/// What `ingest` makes of `read`. The line of an entry is the text of
/// the bytes that were read, cleaned; for bytes that are valid UTF-8 that
/// is the text which they encode.
pub open spec fn is_step_of(step: Step, pod_name: Seq<char>, read: Read) -> bool {
    match read {
        Read::Line(bytes) => {
            &&& step matches Step::Forward(entry)
            &&& entry.pod_name@ == pod_name
            &&& entry.raw_line@ == cleaned(lossy_text(bytes@))
            &&& valid_utf8(bytes@) ==> entry.raw_line@ == cleaned(decode_utf8(bytes@))
            &&& entry.message@ == message_of(entry.raw_line@)
        },
        Read::Failed(error) => step matches Step::Report(text) && text@ == error_text(
            pod_name,
            error@,
        ),
        Read::End => step is Finish,
    }
}

/// What the reader of the pod `pod_name` hands on for what it has read: a
/// line becomes an entry, an error is reported under the name of the pod,
/// and the end of the stream ends the reader.
pub fn ingest(pod_name: &str, read: Read) -> (step: Step)
    ensures
        is_step_of(step, pod_name@, read),
{
    match read {
        Read::Line(bytes) => {
            let text = decode_lossy(bytes.as_slice());
            Step::Forward(LogEntry::parse(pod_name.to_owned(), text))
        },
        Read::Failed(error) => Step::Report(
            "Error from pod ".to_owned().concat(pod_name).concat(": ").concat(error.as_str()),
        ),
        Read::End => Step::Finish,
    }
}

/// What the reader does after `step`, of which `sent` says whether it
/// could be sent. What cannot be sent, an entry or an error, ends the
/// reader at once: nobody listens any more. After an error that was sent
/// the reader waits and reads again.
pub open spec fn next_after(step: Step, sent: bool) -> Next {
    if !sent {
        Next::Stop
    } else {
        match step {
            Step::Forward(_) => Next::Read,
            Step::Report(_) => Next::ReadAfter(RETRY_DELAY_MS),
            Step::Finish => Next::Stop,
        }
    }
}

/// What the reader does after `step`, of which `sent` says whether it
/// could be sent. The reader ends at its first failed send, and takes
/// nothing more from its stream.
pub fn after_send(step: &Step, sent: bool) -> (next: Next)
    ensures
        next == next_after(*step, sent),
        !sent ==> next == Next::Stop,
{
    if !sent {
        return Next::Stop;
    }
    match step {
        Step::Forward(_) => Next::Read,
        Step::Report(_) => Next::ReadAfter(RETRY_DELAY_MS),
        Step::Finish => Next::Stop,
    }
}

} // verus!
