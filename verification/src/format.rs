//! The process-formatter pipeline around the subprocess call: planning the
//! invocation of the external tool (command, expanded arguments, the
//! document snapshot it receives, the line count the edit must span) and
//! turning the tool's captured output into an editor-applicable edit or a
//! reportable failure.

use crate::config::FormatterConfig;
use crate::text::line_count_spec;
use crate::utils::expand_args;
use crate::utils::expand_arg_spec;
use vstd::prelude::*;
use vstd::string::StringExecFns;
use vstd::utf8::decode_utf8;
use vstd::utf8::encode_utf8;
use vstd::utf8::encode_utf8_decode_utf8;
use vstd::utf8::encode_utf8_valid_utf8;
use vstd::utf8::valid_utf8;

verus! {

/// A position in a document, as the editor counts it.
pub struct Position {
    pub line: u32,
    pub character: u32,
}

/// A half-open span of document text between two positions.
pub struct TextRange {
    pub start: Position,
    pub end: Position,
}

/// An instruction to the editor: replace the text in `range` with
/// `new_text`.
pub struct TextEdit {
    pub range: TextRange,
    pub new_text: String,
}

/// Why a format request produced no edit.
pub enum FormatError {
    /// The external command could not be launched.
    Launch(String),
    /// The scratch storage for the document could not be written or read.
    Io(String),
    /// The tool's captured output was not valid text.
    Decode,
}

impl FormatError {
    /// The human-readable description of the failure.
    pub open spec fn message_spec(&self) -> Seq<char> {
        match self {
            FormatError::Launch(m) => "cannot launch formatter: "@ + m@,
            FormatError::Io(m) => "formatter scratch storage failure: "@ + m@,
            FormatError::Decode => "formatter output is not valid text"@,
        }
    }

    /// Renders the failure for a client-visible log message.
    pub fn message(&self) -> (r: String)
        ensures
            r@ == self.message_spec(),
    {
        match self {
            FormatError::Launch(m) => String::from_str("cannot launch formatter: ").concat(
                m.as_str(),
            ),
            FormatError::Io(m) => String::from_str("formatter scratch storage failure: ").concat(
                m.as_str(),
            ),
            FormatError::Decode => String::from_str("formatter output is not valid text"),
        }
    }
}

/// A planned subprocess invocation: everything the runner needs to execute
/// the external tool and everything the edit builder needs afterwards.
pub struct FormatJob {
    /// The command to launch.
    pub command: String,
    /// The concrete arguments, templates already expanded.
    pub args: Vec<String>,
    /// Whether the document is fed to the tool on standard input.
    pub to_stdin: bool,
    /// The document snapshot handed to the tool.
    pub text: String,
    /// The line count of the snapshot, the span of the resulting edit.
    pub end_line: u32,
    /// The optional cleanup command of the definition.
    pub cleanup: Option<String>,
}

/// The line one past the last line of the snapshot, saturated at the largest
/// line number an edit can carry.
pub open spec fn end_line_spec(text: Seq<char>) -> u32 {
    if line_count_spec(text) > 0xffff_ffff {
        0xffff_ffffu32
    } else {
        line_count_spec(text) as u32
    }
}

/// True when `job` is the invocation that formats `document`, standing at
/// `path`, with the definition `d`.
pub open spec fn job_for(
    d: FormatterConfig,
    document: Seq<char>,
    path: Seq<char>,
    job: FormatJob,
) -> bool {
    &&& job.command@ == d.command@
    &&& job.args@.len() == d.args@.len()
    &&& forall|i: int|
        0 <= i < d.args@.len() ==> (#[trigger] job.args@[i])@ == expand_arg_spec(d.args@[i]@, path)
    &&& job.to_stdin == d.to_stdin
    &&& job.text@ == document
    &&& job.end_line == end_line_spec(document)
    &&& match d.cleanup {
        Some(c) => job.cleanup matches Some(jc) && jc@ == c@,
        None => job.cleanup is None,
    }
}

impl FormatterConfig {
    /// Plans the subprocess invocation that formats `document`, which stands
    /// at `file_path`.
    pub fn invocation(&self, document: &str, file_path: &str) -> (job: FormatJob)
        ensures
            job_for(*self, document@, file_path@, job),
    {
        let args = expand_args(&self.args, file_path);
        let lines = crate::text::count_lines(document);
        let end_line: u32 = if lines >= 0xffff_ffff {
            0xffff_ffffu32
        } else {
            lines as u32
        };
        let cleanup = match &self.cleanup {
            Some(c) => Some(c.clone()),
            None => None,
        };
        FormatJob {
            command: self.command.clone(),
            args,
            to_stdin: self.to_stdin,
            text: String::from_str(document),
            end_line,
            cleanup,
        }
    }
}

/// Relies on String::from_utf8: succeeds exactly on input bytes that are
/// valid UTF-8 and returns the text those bytes encode.
#[verifier::external_body]
fn decode_output(bytes: Vec<u8>) -> (r: Option<String>)
    ensures
        r is Some <==> valid_utf8(bytes@),
        r matches Some(s) ==> s@ == decode_utf8(bytes@),
{
    String::from_utf8(bytes).ok()
}

/// What a format request yields from the runner's raw result: the decoded
/// replacement text, or the failure to report.
pub open spec fn format_outcome_spec(raw: Result<Seq<u8>, FormatError>) -> Result<
    Seq<char>,
    FormatError,
> {
    match raw {
        Ok(bytes) => if valid_utf8(bytes) {
            Ok(decode_utf8(bytes))
        } else {
            Err(FormatError::Decode)
        },
        Err(e) => Err(e),
    }
}

/// The possible answers to a formatting request: an edit spanning the whole
/// document, or a failure message to log beside an answer of "no edit".
pub enum FormatResponse {
    Edit(TextEdit),
    Failed(String),
}

/// True when `r` is the response owed for `outcome` over a document of
/// `end_line` lines: a full-document edit on success, the failure's message
/// otherwise.
pub open spec fn response_for(
    end_line: u32,
    outcome: Result<Seq<char>, FormatError>,
    r: FormatResponse,
) -> bool {
    match outcome {
        Ok(t) => {
            &&& r matches FormatResponse::Edit(e)
            &&& e.new_text@ == t
            &&& e.range.start.line == 0
            &&& e.range.start.character == 0
            &&& e.range.end.line == end_line
            &&& e.range.end.character == 0
        },
        Err(err) => r matches FormatResponse::Failed(m) && m@ == err.message_spec(),
    }
}

/// Turns the runner's raw result for a document of `end_line` lines into the
/// response owed for it: a single edit replacing the whole document with the
/// decoded output, or the failure to log.
pub fn finish_format(end_line: u32, raw: Result<Vec<u8>, FormatError>) -> (r: FormatResponse)
    ensures
        match raw {
            Ok(bytes) => response_for(end_line, format_outcome_spec(Ok(bytes@)), r),
            Err(e) => response_for(end_line, format_outcome_spec(Err(e)), r),
        },
{
    match raw {
        Ok(bytes) => match decode_output(bytes) {
            Some(s) => FormatResponse::Edit(
                TextEdit {
                    range: TextRange {
                        start: Position { line: 0, character: 0 },
                        end: Position { line: end_line, character: 0 },
                    },
                    new_text: s,
                },
            ),
            None => FormatResponse::Failed(FormatError::Decode.message()),
        },
        Err(e) => FormatResponse::Failed(e.message()),
    }
}

/// Law: a format request whose external tool echoes the bytes it was given
/// yields the document text unchanged: the tool receives the document's
/// encoding, and the decoded outcome is exactly the original text.
pub proof fn lemma_identity_tool_round_trip(text: Seq<char>)
    ensures
        ({
            let outcome = format_outcome_spec(Ok(encode_utf8(text)));
            outcome == Ok::<Seq<char>, FormatError>(text)
        }),
{
    broadcast use encode_utf8_valid_utf8;
    broadcast use encode_utf8_decode_utf8;

}

} // verus!
