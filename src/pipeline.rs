use vstd::prelude::*;

use crate::command::{
    convert_tool, page_file, probe_tool, raster_command, raster_output_path, raster_parts,
    raster_produced, vector_command, vector_parts, CommandSpec,
};
use crate::geometry::{PageGeometry, TargetDimensions};
use crate::numeric::{format_i64, signed_decimal};
use crate::output::Format;
use crate::probe::{geometry_of_report, parse_page_geometry};

verus! {

/// What a finished external command left behind.
#[derive(Clone, Debug)]
pub struct ProcessResult {
    /// The command exited with status zero.
    pub success: bool,
    /// The exit code, absent where the command was stopped by a signal.
    pub code: Option<i32>,
    pub stdout: Vec<u8>,
    /// The error stream, as text.
    pub stderr: String,
}

/// Why a rendering run stopped.
#[derive(Clone, Debug)]
pub enum PipelineError {
    /// The command line was missing or malformed.
    Usage { message: String },
    /// A tool could not be started at all.
    Launch { tool: String },
    /// The typesetting engine failed; its log is attached where it could be read.
    Typeset { status: String, diagnostics: String, log: Option<String> },
    /// The probe's report held no readable page size.
    DimensionParse,
    /// A secondary tool exited with a failure.
    ToolFailure { tool: String, diagnostics: String },
    /// A conversion engine exited with a failure.
    Convert { tool: String, diagnostics: String },
    /// The converted file could not be moved to its final path.
    Rename { from: String, to: String },
}

/// The final image and its format.
#[derive(Clone, Debug)]
pub struct RenderArtifact {
    pub path: String,
    pub format: Format,
}

/// How a command ended, in words.
pub open spec fn status_text(code: Option<i32>) -> Seq<char> {
    match code {
        Some(c) => "exit code "@ + signed_decimal(c as int),
        None => "terminated by a signal"@,
    }
}

pub open spec fn text_of(t: Option<String>) -> Option<Seq<char>> {
    match t {
        Some(s) => Some(s@),
        None => None,
    }
}

/// What a typesetting failure says about the log.
pub open spec fn log_note(log: Option<Seq<char>>) -> Seq<char> {
    match log {
        Some(l) => "\nlog:\n"@ + l,
        None => "\nthe log file was unavailable"@,
    }
}

pub open spec fn typeset_message(status: Seq<char>, diagnostics: Seq<char>, log: Option<Seq<char>>) -> Seq<
    char,
> {
    "typesetting failed ("@ + status + ")\n"@ + diagnostics + log_note(log)
}

/// The one diagnostic message of an error.
pub open spec fn error_message(e: PipelineError) -> Seq<char> {
    match e {
        PipelineError::Usage { message } => "usage error: "@ + message@,
        PipelineError::Launch { tool } => "could not launch "@ + tool@,
        PipelineError::Typeset { status, diagnostics, log } => typeset_message(
            status@,
            diagnostics@,
            text_of(log),
        ),
        PipelineError::DimensionParse => "could not read the page size from the probe report"@,
        PipelineError::ToolFailure { tool, diagnostics } => tool@ + " failed: "@ + diagnostics@,
        PipelineError::Convert { tool, diagnostics } => "conversion with "@ + tool@ + " failed: "@
            + diagnostics@,
        PipelineError::Rename { from, to } => "could not move "@ + from@ + " to "@ + to@,
    }
}

/// Describes how a command ended.
pub fn status_description(code: Option<i32>) -> (r: String)
    ensures
        r@ == status_text(code),
{
    match code {
        Some(c) => {
            let mut r = String::from_str("exit code ");
            let digits = format_i64(c as i64);
            r.append(digits.as_str());
            r
        },
        None => String::from_str("terminated by a signal"),
    }
}

impl PipelineError {
    /// The diagnostic message for the user: which stage failed and what the
    /// tool reported.
    pub fn message(&self) -> (r: String)
        ensures
            r@ == error_message(*self),
    {
        match self {
            PipelineError::Usage { message } => {
                let mut r = String::from_str("usage error: ");
                r.append(message.as_str());
                r
            },
            PipelineError::Launch { tool } => {
                let mut r = String::from_str("could not launch ");
                r.append(tool.as_str());
                r
            },
            PipelineError::Typeset { status, diagnostics, log } => {
                let mut r = String::from_str("typesetting failed (");
                r.append(status.as_str());
                r.append(")\n");
                r.append(diagnostics.as_str());
                match log {
                    Some(l) => {
                        r.append("\nlog:\n");
                        r.append(l.as_str());
                    },
                    None => {
                        r.append("\nthe log file was unavailable");
                    },
                }
                r
            },
            PipelineError::DimensionParse => String::from_str(
                "could not read the page size from the probe report",
            ),
            PipelineError::ToolFailure { tool, diagnostics } => {
                let mut r = String::from_str(tool.as_str());
                r.append(" failed: ");
                r.append(diagnostics.as_str());
                r
            },
            PipelineError::Convert { tool, diagnostics } => {
                let mut r = String::from_str("conversion with ");
                r.append(tool.as_str());
                r.append(" failed: ");
                r.append(diagnostics.as_str());
                r
            },
            PipelineError::Rename { from, to } => {
                let mut r = String::from_str("could not move ");
                r.append(from.as_str());
                r.append(" to ");
                r.append(to.as_str());
                r
            },
        }
    }
}

/// Decides the typesetting stage: the page in the scratch directory on
/// success, else a typesetting error with the exit status, the error stream
/// and the log text where it could be read.
pub fn typeset_outcome(result: &ProcessResult, log: Option<String>, scratch_dir: &str) -> (r:
    Result<String, PipelineError>)
    ensures
        result.success ==> (r matches Ok(p) && p@ == page_file(scratch_dir@)),
        !result.success ==> (r matches Err(PipelineError::Typeset { status, diagnostics, log: l })
            && status@ == status_text(result.code) && diagnostics@ == result.stderr@ && text_of(l)
            == text_of(log)),
{
    if result.success {
        Ok(crate::command::page_path(scratch_dir))
    } else {
        Err(
            PipelineError::Typeset {
                status: status_description(result.code),
                diagnostics: result.stderr.clone(),
                log,
            },
        )
    }
}

/// Decides the probe stage: a tool failure where the probe exited with a
/// failure, else the geometry read from its report, or a parse error.
pub fn probe_outcome(result: &ProcessResult) -> (r: Result<PageGeometry, PipelineError>)
    ensures
        !result.success ==> (r matches Err(PipelineError::ToolFailure { tool, diagnostics })
            && tool@ == probe_tool() && diagnostics@ == result.stderr@),
        result.success ==> match geometry_of_report(result.stdout@) {
            Some(g) => r == Ok::<PageGeometry, PipelineError>(g),
            None => r matches Err(PipelineError::DimensionParse),
        },
        r matches Ok(g) ==> g.wf(),
{
    if !result.success {
        return Err(
            PipelineError::ToolFailure {
                tool: String::from_str("pdfinfo"),
                diagnostics: result.stderr.clone(),
            },
        );
    }
    match parse_page_geometry(&result.stdout) {
        Some(g) => Ok(g),
        None => Err(PipelineError::DimensionParse),
    }
}

/// The conversion command for a format: vector output goes straight to
/// `final_path` and ignores the pixel size; raster output is scaled to it.
pub fn render_command(page: &str, format: Format, dims: TargetDimensions, final_path: &str) -> (r:
    CommandSpec)
    ensures
        r.view_parts() == match format {
            Format::Vector => vector_parts(page@, final_path@),
            Format::Raster => raster_parts(page@, dims, final_path@),
        },
{
    match format {
        Format::Vector => vector_command(page, final_path),
        Format::Raster => raster_command(page, dims, final_path),
    }
}

/// The file to move onto `final_path` after conversion: the raster engine's
/// own output name where it differs from the final path; nothing otherwise.
pub fn rename_source(format: Format, final_path: &str) -> (r: Option<String>)
    ensures
        r matches Some(p) ==> format == Format::Raster && p@ == raster_produced(final_path@) && p@
            != final_path@,
        r is None ==> format == Format::Vector || raster_produced(final_path@) == final_path@,
{
    match format {
        Format::Vector => None,
        Format::Raster => {
            let produced = raster_output_path(final_path);
            let target = String::from_str(final_path);
            if produced == target {
                None
            } else {
                Some(produced)
            }
        },
    }
}

/// Decides the conversion stage: the artifact at `final_path` on success,
/// else a conversion error naming the engine, with its error stream.
pub fn convert_outcome(format: Format, result: &ProcessResult, final_path: &str) -> (r: Result<
    RenderArtifact,
    PipelineError,
>)
    ensures
        result.success ==> (r matches Ok(a) && a.path@ == final_path@ && a.format == format),
        !result.success ==> (r matches Err(PipelineError::Convert { tool, diagnostics }) && tool@
            == convert_tool(format) && diagnostics@ == result.stderr@),
{
    if result.success {
        Ok(RenderArtifact { path: String::from_str(final_path), format })
    } else {
        let tool = match format {
            Format::Vector => String::from_str("dvisvgm"),
            Format::Raster => String::from_str("pdftoppm"),
        };
        Err(PipelineError::Convert { tool, diagnostics: result.stderr.clone() })
    }
}

/// `needle` stands somewhere inside `hay`.
pub open spec fn occurs_in(hay: Seq<char>, needle: Seq<char>) -> bool {
    exists|i: int|
        0 <= i && i + needle.len() <= hay.len() && #[trigger] hay.subrange(i, i + needle.len())
            == needle
}

/// The message of a typesetting failure carries the exit status and, where
/// the log was read, the log's text; where it was not, it says so.
pub proof fn lemma_typeset_message_reports(
    status: Seq<char>,
    diagnostics: Seq<char>,
    log: Option<Seq<char>>,
)
    ensures
        occurs_in(typeset_message(status, diagnostics, log), status),
        log matches Some(l) ==> occurs_in(typeset_message(status, diagnostics, log), l),
        log is None ==> occurs_in(
            typeset_message(status, diagnostics, log),
            "\nthe log file was unavailable"@,
        ),
{
    let msg = typeset_message(status, diagnostics, log);
    let a = "typesetting failed ("@;
    let head = a + status + ")\n"@ + diagnostics;
    assert(msg == head + log_note(log));
    assert(msg.subrange(a.len() as int, (a.len() + status.len()) as int) =~= status);
    match log {
        Some(l) => {
            let start: int = (head.len() + "\nlog:\n"@.len()) as int;
            assert(msg.subrange(start, start + l.len() as int) =~= l);
        },
        None => {
            let note = "\nthe log file was unavailable"@;
            assert(msg.subrange(head.len() as int, (head.len() + note.len()) as int) =~= note);
        },
    }
}

} // verus!
