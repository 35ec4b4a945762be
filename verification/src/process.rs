//! From the content of a source to its count record.

use vstd::prelude::*;
use crate::args::{Args, Metrics};
use crate::errors::{Failure, ProcessFileError};
use crate::record::{Counts, WcResult};
use crate::text::{
    byte_count, char_count, count_bytes, count_chars, count_lines, count_words,
    lemma_bytes_and_chars, line_count, word_count,
};
use vstd::utf8::{encode_utf8, is_ascii_chars};

verus! {

/// The record of `text` under `label`: each metric of `metrics` is present
/// with its count, and no other metric is.
pub open spec fn count_text(label: Seq<char>, text: Seq<char>, metrics: Metrics) -> Counts {
    Counts {
        label,
        bytes: if metrics.bytes {
            Some(byte_count(text))
        } else {
            None
        },
        lines: if metrics.lines {
            Some(line_count(text))
        } else {
            None
        },
        words: if metrics.words {
            Some(word_count(text))
        } else {
            None
        },
        chars: if metrics.chars {
            Some(char_count(text))
        } else {
            None
        },
    }
}

/// Every record counted under one selection has the metrics of that
/// selection present, and no other: all records of a run have the same
/// metrics present.
pub proof fn lemma_count_text_presence(
    label: Seq<char>,
    text: Seq<char>,
    other_label: Seq<char>,
    other_text: Seq<char>,
    metrics: Metrics,
)
    ensures
        count_text(label, text, metrics).bytes is Some <==> metrics.bytes,
        count_text(label, text, metrics).lines is Some <==> metrics.lines,
        count_text(label, text, metrics).words is Some <==> metrics.words,
        count_text(label, text, metrics).chars is Some <==> metrics.chars,
        count_text(label, text, metrics).same_presence(
            count_text(other_label, other_text, metrics),
        ),
{
}

/// The byte count of a text is the length of its UTF-8 encoding, and its
/// character count is the number of its scalar values. The byte count is at
/// least the character count; the two are equal if the text is pure ASCII,
/// and the byte count is the larger if the text holds any other character.
pub proof fn lemma_counted_bytes_and_chars(label: Seq<char>, text: Seq<char>)
    ensures
        ({
            let bytes = Metrics { bytes: true, lines: false, words: false, chars: false };
            let chars = Metrics { bytes: false, lines: false, words: false, chars: true };
            let byte_count = count_text(label, text, bytes).bytes;
            let char_count = count_text(label, text, chars).chars;
            &&& byte_count == Some(encode_utf8(text).len())
            &&& char_count == Some(text.len())
            &&& byte_count->0 >= char_count->0
            &&& is_ascii_chars(text) ==> byte_count->0 == char_count->0
            &&& !is_ascii_chars(text) ==> byte_count->0 > char_count->0
        }),
{
    lemma_bytes_and_chars(text);
}

/// Counts in `content` the metrics that `args` selects, and labels the
/// record with `file_path`. A metric that is not selected is not computed.
pub fn process_content(file_path: &str, content: &str, args: &Args) -> (result: WcResult)
    ensures
        result@ == count_text(file_path@, content@, args.metrics()),
{
    let mut wc_result = WcResult::new(file_path.to_owned());
    if args.bytes {
        wc_result.bytes = Some(count_bytes(content));
    }
    if args.lines {
        wc_result.lines = Some(count_lines(content));
    }
    if args.words {
        wc_result.words = Some(count_words(content));
    }
    if args.chars {
        wc_result.chars = Some(count_chars(content));
    }
    wc_result
}

/// What came of the attempt to read a file.
#[derive(Debug)]
pub enum FileOutcome {
    /// The path does not name a regular file.
    NotFound,
    /// The file could not be read or decoded; holds the description of the
    /// failure.
    ReadFailed(String),
    /// The file was read; holds its content.
    Content(String),
}

/// The mathematical value of a `FileOutcome`.
pub enum Outcome {
    NotFound,
    ReadFailed(Seq<char>),
    Content(Seq<char>),
}

impl View for FileOutcome {
    type V = Outcome;

    open spec fn view(&self) -> Outcome {
        match self {
            FileOutcome::NotFound => Outcome::NotFound,
            FileOutcome::ReadFailed(description) => Outcome::ReadFailed(description@),
            FileOutcome::Content(content) => Outcome::Content(content@),
        }
    }
}

/// The mathematical value of what processing a file gives.
pub open spec fn result_view(result: Result<WcResult, ProcessFileError>) -> Result<
    Counts,
    Failure,
> {
    match result {
        Ok(record) => Ok(record@),
        Err(error) => Err(error@),
    }
}

/// What processing the file at `path` gives, by what came of reading it: the
/// record of its content, or the error that names the path or describes the
/// failure.
pub open spec fn file_result(path: Seq<char>, outcome: Outcome, metrics: Metrics) -> Result<
    Counts,
    Failure,
> {
    match outcome {
        Outcome::NotFound => Err(Failure::FileNotFound(path)),
        Outcome::ReadFailed(description) => Err(Failure::IoError(description)),
        Outcome::Content(content) => Ok(count_text(path, content, metrics)),
    }
}

/// Processes the file at `file_path`, given what came of reading it. A file
/// that was read is counted; one that was not gives the error for it.
pub fn process_file(file_path: &str, outcome: FileOutcome, args: &Args) -> (result: Result<
    WcResult,
    ProcessFileError,
>)
    ensures
        result_view(result) == file_result(file_path@, outcome@, args.metrics()),
{
    match outcome {
        FileOutcome::NotFound => Err(ProcessFileError::FileNotFound(file_path.to_owned())),
        FileOutcome::ReadFailed(description) => Err(ProcessFileError::IoError(description)),
        FileOutcome::Content(content) => Ok(process_content(file_path, content.as_str(), args)),
    }
}

} // verus!
