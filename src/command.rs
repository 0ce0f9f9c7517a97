use vstd::prelude::*;

use crate::document::views;
use crate::geometry::TargetDimensions;
use crate::numeric::{decimal_digits, format_u32};
use crate::output::{ends_with, Format};

verus! {

/// An external tool and the ordered arguments it is run with.
#[derive(Clone, Debug)]
pub struct CommandSpec {
    pub program: String,
    pub args: Vec<String>,
}

impl CommandSpec {
    /// The program name and argument texts.
    pub open spec fn view_parts(&self) -> (Seq<char>, Seq<Seq<char>>) {
        (self.program@, views(self.args@))
    }
}

/// The typesetting engine.
pub open spec fn typeset_tool() -> Seq<char> {
    "pdflatex"@
}

/// The tool that reports the page size.
pub open spec fn probe_tool() -> Seq<char> {
    "pdfinfo"@
}

/// The engine of vector output.
pub open spec fn vector_tool() -> Seq<char> {
    "dvisvgm"@
}

/// The engine of raster output.
pub open spec fn raster_tool() -> Seq<char> {
    "pdftoppm"@
}

/// The conversion engine of a format.
pub open spec fn convert_tool(f: Format) -> Seq<char> {
    match f {
        Format::Vector => vector_tool(),
        Format::Raster => raster_tool(),
    }
}

/// A file of the scratch directory; the intermediate files share one base name.
pub open spec fn scratch_file(scratch_dir: Seq<char>, suffix: Seq<char>) -> Seq<char> {
    scratch_dir + "/equation"@ + suffix
}

pub open spec fn source_file(scratch_dir: Seq<char>) -> Seq<char> {
    scratch_file(scratch_dir, ".tex"@)
}

pub open spec fn log_file(scratch_dir: Seq<char>) -> Seq<char> {
    scratch_file(scratch_dir, ".log"@)
}

pub open spec fn page_file(scratch_dir: Seq<char>) -> Seq<char> {
    scratch_file(scratch_dir, ".pdf"@)
}

/// The typesetting run: output into the scratch directory, from the source file.
pub open spec fn typeset_parts(scratch_dir: Seq<char>) -> (Seq<char>, Seq<Seq<char>>) {
    (typeset_tool(), seq!["-output-directory="@ + scratch_dir, source_file(scratch_dir)])
}

pub open spec fn probe_parts(page: Seq<char>) -> (Seq<char>, Seq<Seq<char>>) {
    (probe_tool(), seq![page])
}

pub open spec fn vector_parts(page: Seq<char>, final_path: Seq<char>) -> (Seq<char>, Seq<Seq<char>>) {
    (vector_tool(), seq![page, "--pdf"@, "-n"@, "-o"@, final_path])
}

/// The name handed to the raster engine: the final path without one trailing `.png`.
pub open spec fn raster_base(final_path: Seq<char>) -> Seq<char> {
    if ends_with(final_path, ".png"@) {
        final_path.subrange(0, final_path.len() - 4)
    } else {
        final_path
    }
}

/// The file the raster engine writes: the name it was given plus `.png`.
pub open spec fn raster_produced(final_path: Seq<char>) -> Seq<char> {
    raster_base(final_path) + ".png"@
}

pub open spec fn raster_parts(page: Seq<char>, dims: TargetDimensions, final_path: Seq<char>) -> (
    Seq<char>,
    Seq<Seq<char>>,
) {
    (
        raster_tool(),
        seq![
            "-png"@,
            "-singlefile"@,
            "-scale-to-x"@,
            decimal_digits(dims.width as nat),
            "-scale-to-y"@,
            decimal_digits(dims.height as nat),
            page,
            raster_base(final_path),
        ],
    )
}

fn scratch_path(scratch_dir: &str, suffix: &str) -> (r: String)
    ensures
        r@ == scratch_file(scratch_dir@, suffix@),
{
    let mut r = String::from_str(scratch_dir);
    r.append("/equation");
    r.append(suffix);
    r
}

/// The source file that the typesetting engine reads.
pub fn source_path(scratch_dir: &str) -> (r: String)
    ensures
        r@ == source_file(scratch_dir@),
{
    scratch_path(scratch_dir, ".tex")
}

/// The log that the typesetting engine writes beside its output.
pub fn log_path(scratch_dir: &str) -> (r: String)
    ensures
        r@ == log_file(scratch_dir@),
{
    scratch_path(scratch_dir, ".log")
}

/// The page that the typesetting engine produces.
pub fn page_path(scratch_dir: &str) -> (r: String)
    ensures
        r@ == page_file(scratch_dir@),
{
    scratch_path(scratch_dir, ".pdf")
}

/// The typesetting engine's command: writes into `scratch_dir`, reads the
/// source file there.
pub fn typeset_command(scratch_dir: &str) -> (r: CommandSpec)
    ensures
        r.view_parts() == typeset_parts(scratch_dir@),
{
    let mut out_arg = String::from_str("-output-directory=");
    out_arg.append(scratch_dir);
    let mut args: Vec<String> = Vec::new();
    args.push(out_arg);
    args.push(source_path(scratch_dir));
    let r = CommandSpec { program: String::from_str("pdflatex"), args };
    assert(r.view_parts().1 =~= typeset_parts(scratch_dir@).1);
    r
}

/// The command that reports the size of `page`.
pub fn probe_command(page: &str) -> (r: CommandSpec)
    ensures
        r.view_parts() == probe_parts(page@),
{
    let mut args: Vec<String> = Vec::new();
    args.push(String::from_str(page));
    let r = CommandSpec { program: String::from_str("pdfinfo"), args };
    assert(r.view_parts().1 =~= probe_parts(page@).1);
    r
}

/// The command that converts `page` to SVG at exactly `final_path`.
pub fn vector_command(page: &str, final_path: &str) -> (r: CommandSpec)
    ensures
        r.view_parts() == vector_parts(page@, final_path@),
{
    let mut args: Vec<String> = Vec::new();
    args.push(String::from_str(page));
    args.push(String::from_str("--pdf"));
    args.push(String::from_str("-n"));
    args.push(String::from_str("-o"));
    args.push(String::from_str(final_path));
    let r = CommandSpec { program: String::from_str("dvisvgm"), args };
    assert(r.view_parts().1 =~= vector_parts(page@, final_path@).1);
    r
}

/// The name to hand the raster engine for `final_path`.
pub fn raster_basename(final_path: &str) -> (r: String)
    ensures
        r@ == raster_base(final_path@),
{
    let n = final_path.unicode_len();
    proof {
        reveal_strlit(".png");
    }
    if n >= 4 && final_path.get_char(n - 4) == '.' && final_path.get_char(n - 3) == 'p'
        && final_path.get_char(n - 2) == 'n' && final_path.get_char(n - 1) == 'g' {
        assert(final_path@.subrange(n - 4, n as int) =~= ".png"@);
        String::from_str(final_path.substring_char(0, n - 4))
    } else {
        proof {
            if n >= 4 {
                let tail = final_path@.subrange(n - 4, n as int);
                assert(tail[0] == final_path@[n - 4]);
                assert(tail[1] == final_path@[n - 3]);
                assert(tail[2] == final_path@[n - 2]);
                assert(tail[3] == final_path@[n - 1]);
                assert(tail != ".png"@ || (tail[0] == '.' && tail[1] == 'p' && tail[2] == 'n'
                    && tail[3] == 'g'));
            }
        }
        String::from_str(final_path)
    }
}

/// The file the raster engine writes when aimed at `final_path`.
pub fn raster_output_path(final_path: &str) -> (r: String)
    ensures
        r@ == raster_produced(final_path@),
{
    let mut r = raster_basename(final_path);
    r.append(".png");
    r
}

/// The command that converts `page` to a PNG of the given pixel size, named
/// after `final_path`.
pub fn raster_command(page: &str, dims: TargetDimensions, final_path: &str) -> (r: CommandSpec)
    ensures
        r.view_parts() == raster_parts(page@, dims, final_path@),
{
    let mut args: Vec<String> = Vec::new();
    args.push(String::from_str("-png"));
    args.push(String::from_str("-singlefile"));
    args.push(String::from_str("-scale-to-x"));
    args.push(format_u32(dims.width));
    args.push(String::from_str("-scale-to-y"));
    args.push(format_u32(dims.height));
    args.push(String::from_str(page));
    args.push(raster_basename(final_path));
    let r = CommandSpec { program: String::from_str("pdftoppm"), args };
    assert(r.view_parts().1 =~= raster_parts(page@, dims, final_path@).1);
    r
}

} // verus!
