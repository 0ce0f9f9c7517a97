//! Render a math expression to an image by driving external tools.
//!
//! The library holds every decision of the rendering pipeline: the document
//! source, the command line of each tool, the parsing of the page geometry, the
//! pixel dimensions, the output path, and what each tool's result means.
//! Running the tools and touching the file system is left to the caller.
pub mod args;
pub mod command;
pub mod document;
pub mod geometry;
pub mod numeric;
pub mod output;
pub mod pipeline;
pub mod probe;

pub use args::{parse_arguments, parse_pixel_count, split_packages, EquationRequest, Invocation};
pub use command::{
    log_path, page_path, probe_command, raster_basename, raster_command, raster_output_path,
    source_path, typeset_command, vector_command, CommandSpec,
};
pub use document::{build_document, default_packages, lemma_one_directive_per_package};
pub use geometry::{
    resolve_dimensions, PageGeometry, TargetDimensions, MAX_SIDE_MICROS, MICROS_PER_POINT,
};
pub use numeric::{format_i64, format_u32, format_u64, round_div};
pub use output::{extension, resolve_output, Format};
pub use pipeline::{
    convert_outcome, lemma_typeset_message_reports, probe_outcome, rename_source, render_command,
    status_description, typeset_outcome, PipelineError, ProcessResult, RenderArtifact,
};
pub use probe::{parse_page_geometry, parse_point_micros};
