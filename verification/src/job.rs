//! The data that travels through the pool: what is to be converted, what comes
//! back, and how a submission can fail.

use vstd::prelude::*;

verus! {

/// What a job asks the converter to do.
#[derive(Debug, Clone, PartialEq, Eq)]
pub enum ConversionInput {
    /// A document held in memory, as text.
    InlinePayload(String),
    /// A document on disk, and the directory that receives the result.
    FileJob { source_path: String, output_dir: String },
}

/// What a finished conversion hands back.
#[derive(Debug, Clone, PartialEq, Eq)]
pub enum ConversionOutput {
    /// The converted document.
    InlinePayload(String),
    /// The converted file was written; there is nothing to return.
    Acknowledged,
}

/// Why a submission did not yield a converted document.
#[derive(Debug, Clone, PartialEq, Eq)]
pub enum Error {
    /// The converter reported the failure described by the text.
    ConversionFailed(String),
    /// No worker will ever resolve the reply.
    Disconnected,
    /// The reply holds the output of the other kind of job.
    MismatchedResponse,
}

impl Error {
    /// The words in which the error is reported.
    pub open spec fn spec_message(self) -> Seq<char> {
        match self {
            Error::ConversionFailed(detail) => detail@,
            Error::Disconnected => "worker disconnected before sending result"@,
            Error::MismatchedResponse => "worker sent a response of the wrong kind"@,
        }
    }

    /// The words in which the error is reported: the converter's own for a
    /// failed conversion, a fixed sentence for the other two.
    pub fn message(&self) -> (text: String)
        ensures
            text@ == self.spec_message(),
    {
        match self {
            Error::ConversionFailed(detail) => detail.clone(),
            Error::Disconnected => "worker disconnected before sending result".to_owned(),
            Error::MismatchedResponse => "worker sent a response of the wrong kind".to_owned(),
        }
    }
}

/// What a worker writes into a reply.
pub type Reply = Result<ConversionOutput, Error>;

/// One queued conversion request. The ticket is the number of submissions
/// that came before it, and names the reply that belongs to it.
#[derive(Debug, Clone, PartialEq, Eq)]
pub struct Job {
    pub ticket: u64,
    pub input: ConversionInput,
}

/// The single-use reply of one submission, as long as its reader is there.
#[derive(Debug, PartialEq, Eq)]
pub enum ReplySlot {
    /// Nothing has been written yet.
    Pending,
    /// A worker has written the reply; the reader has not taken it yet.
    Ready(Reply),
}

/// The reply for an inline job whose converter call returned `converted`.
pub open spec fn spec_inline_reply(converted: Result<String, String>) -> Reply {
    match converted {
        Ok(payload) => Ok(ConversionOutput::InlinePayload(payload)),
        Err(detail) => Err(Error::ConversionFailed(detail)),
    }
}

/// The reply for a file job whose converter call returned `converted`.
pub open spec fn spec_file_reply(converted: Result<(), String>) -> Reply {
    match converted {
        Ok(_) => Ok(ConversionOutput::Acknowledged),
        Err(detail) => Err(Error::ConversionFailed(detail)),
    }
}

/// What the submitter of an inline job gets for `reply`.
pub open spec fn spec_inline_outcome(reply: Reply) -> Result<String, Error> {
    match reply {
        Ok(ConversionOutput::InlinePayload(payload)) => Ok(payload),
        Ok(ConversionOutput::Acknowledged) => Err(Error::MismatchedResponse),
        Err(e) => Err(e),
    }
}

/// What the submitter of a file job gets for `reply`.
pub open spec fn spec_file_outcome(reply: Reply) -> Result<(), Error> {
    match reply {
        Ok(ConversionOutput::Acknowledged) => Ok(()),
        Ok(ConversionOutput::InlinePayload(_)) => Err(Error::MismatchedResponse),
        Err(e) => Err(e),
    }
}

/// Wraps the converter's answer to an inline job: the converted text becomes
/// the payload of the reply, a failure keeps its text.
#[verifier::when_used_as_spec(spec_inline_reply)]
pub fn inline_reply(converted: Result<String, String>) -> (reply: Reply)
    ensures
        reply == spec_inline_reply(converted),
{
    match converted {
        Ok(payload) => Ok(ConversionOutput::InlinePayload(payload)),
        Err(detail) => Err(Error::ConversionFailed(detail)),
    }
}

/// Wraps the converter's answer to a file job: success is acknowledged
/// without data, a failure keeps its text.
#[verifier::when_used_as_spec(spec_file_reply)]
pub fn file_reply(converted: Result<(), String>) -> (reply: Reply)
    ensures
        reply == spec_file_reply(converted),
{
    match converted {
        Ok(_) => Ok(ConversionOutput::Acknowledged),
        Err(detail) => Err(Error::ConversionFailed(detail)),
    }
}

/// Reads a reply as the submitter of an inline job: the payload on success,
/// the error as it was written, and `MismatchedResponse` where the reply
/// acknowledges a file instead.
#[verifier::when_used_as_spec(spec_inline_outcome)]
pub fn inline_outcome(reply: Reply) -> (outcome: Result<String, Error>)
    ensures
        outcome == spec_inline_outcome(reply),
{
    match reply {
        Ok(ConversionOutput::InlinePayload(payload)) => Ok(payload),
        Ok(ConversionOutput::Acknowledged) => Err(Error::MismatchedResponse),
        Err(e) => Err(e),
    }
}

/// Reads a reply as the submitter of a file job: `()` on acknowledgement,
/// the error as it was written, and `MismatchedResponse` where the reply
/// carries a payload instead.
#[verifier::when_used_as_spec(spec_file_outcome)]
pub fn file_outcome(reply: Reply) -> (outcome: Result<(), Error>)
    ensures
        outcome == spec_file_outcome(reply),
{
    match reply {
        Ok(ConversionOutput::Acknowledged) => Ok(()),
        Ok(ConversionOutput::InlinePayload(_)) => Err(Error::MismatchedResponse),
        Err(e) => Err(e),
    }
}

} // verus!
