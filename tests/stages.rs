use eqrender::{
    convert_outcome, extension, format_i64, format_u32, format_u64, log_path, page_path,
    probe_command, probe_outcome, raster_basename, raster_command, raster_output_path,
    rename_source, render_command, resolve_dimensions, resolve_output, source_path,
    status_description, typeset_command, typeset_outcome, vector_command, Format, PageGeometry,
    PipelineError, ProcessResult, TargetDimensions,
};

fn result(success: bool, code: Option<i32>, stdout: &[u8], stderr: &str) -> ProcessResult {
    ProcessResult { success, code, stdout: stdout.to_vec(), stderr: stderr.to_string() }
}

fn strings(v: &[&str]) -> Vec<String> {
    v.iter().map(|s| s.to_string()).collect()
}

#[test]
fn requested_png_with_vector_format_is_renamed() {
    let (path, changed) = resolve_output(Some("out.png"), Format::Vector, "/tmp/run");
    assert_eq!(path, "out.svg");
    assert!(path.ends_with(".svg"));
    assert!(changed);
}

#[test]
fn output_defaults_by_format() {
    assert_eq!(
        resolve_output(None, Format::Vector, "/tmp/run"),
        ("/tmp/run/equation.svg".to_string(), false)
    );
    assert_eq!(
        resolve_output(None, Format::Raster, "/tmp/run"),
        ("/tmp/run/equation.png".to_string(), false)
    );
}

#[test]
fn output_matching_extension_is_kept() {
    assert_eq!(
        resolve_output(Some("pics/eq.png"), Format::Raster, "/s"),
        ("pics/eq.png".to_string(), false)
    );
    assert_eq!(
        resolve_output(Some("eq.svg"), Format::Vector, "/s"),
        ("eq.svg".to_string(), false)
    );
}

#[test]
fn output_extension_substitution() {
    assert_eq!(
        resolve_output(Some("eq.svg"), Format::Raster, "/s"),
        ("eq.png".to_string(), true)
    );
    assert_eq!(
        resolve_output(Some("dir.v1/file"), Format::Raster, "/s"),
        ("dir.v1/file.png".to_string(), true)
    );
    assert_eq!(
        resolve_output(Some(".hidden"), Format::Vector, "/s"),
        (".hidden.svg".to_string(), true)
    );
    assert_eq!(
        resolve_output(Some("a.b.pdf"), Format::Vector, "/s"),
        ("a.b.svg".to_string(), true)
    );
}

#[test]
fn extensions() {
    assert_eq!(extension(Format::Vector), ".svg");
    assert_eq!(extension(Format::Raster), ".png");
}

#[test]
fn decimal_formatting() {
    assert_eq!(format_u32(0), "0");
    assert_eq!(format_u32(4096), "4096");
    assert_eq!(format_u32(u32::MAX), "4294967295");
    assert_eq!(format_u64(u64::MAX), "18446744073709551615");
    assert_eq!(format_i64(-42), "-42");
    assert_eq!(format_i64(i64::MIN), "-9223372036854775808");
    assert_eq!(format_i64(7), "7");
}

#[test]
fn scratch_paths() {
    assert_eq!(source_path("/tmp/r"), "/tmp/r/equation.tex");
    assert_eq!(log_path("/tmp/r"), "/tmp/r/equation.log");
    assert_eq!(page_path("/tmp/r"), "/tmp/r/equation.pdf");
}

#[test]
fn stage_commands() {
    let c = typeset_command("/tmp/r");
    assert_eq!(c.program, "pdflatex");
    assert_eq!(c.args, strings(&["-output-directory=/tmp/r", "/tmp/r/equation.tex"]));
    let c = probe_command("/tmp/r/equation.pdf");
    assert_eq!(c.program, "pdfinfo");
    assert_eq!(c.args, strings(&["/tmp/r/equation.pdf"]));
    let c = vector_command("p.pdf", "out.svg");
    assert_eq!(c.program, "dvisvgm");
    assert_eq!(c.args, strings(&["p.pdf", "--pdf", "-n", "-o", "out.svg"]));
}

#[test]
fn raster_command_carries_pixel_size() {
    let c = raster_command("p.pdf", TargetDimensions { width: 800, height: 500 }, "img/out.png");
    assert_eq!(c.program, "pdftoppm");
    assert_eq!(
        c.args,
        strings(&[
            "-png",
            "-singlefile",
            "-scale-to-x",
            "800",
            "-scale-to-y",
            "500",
            "p.pdf",
            "img/out"
        ])
    );
}

#[test]
fn render_command_by_format() {
    let d = TargetDimensions { width: 3, height: 4 };
    assert_eq!(render_command("p.pdf", Format::Vector, d, "o.svg").program, "dvisvgm");
    assert_eq!(render_command("p.pdf", Format::Raster, d, "o.png").program, "pdftoppm");
}

#[test]
fn raster_names_and_rename() {
    assert_eq!(raster_basename("a/b.png"), "a/b");
    assert_eq!(raster_basename("a/b.png.png"), "a/b.png");
    assert_eq!(raster_basename("a/b"), "a/b");
    assert_eq!(raster_output_path("out"), "out.png");
    assert_eq!(rename_source(Format::Raster, "out.png"), None);
    assert_eq!(rename_source(Format::Raster, "out"), Some("out.png".to_string()));
    assert_eq!(rename_source(Format::Vector, "out"), None);
}

#[test]
fn status_descriptions() {
    assert_eq!(status_description(Some(1)), "exit code 1");
    assert_eq!(status_description(Some(-2)), "exit code -2");
    assert_eq!(status_description(None), "terminated by a signal");
}

#[test]
fn typeset_failure_with_log() {
    let r = result(false, Some(1), b"", "! Undefined control sequence.");
    let e = typeset_outcome(&r, Some("l.4 \\frac{a}".to_string()), "/tmp/r").unwrap_err();
    assert!(matches!(e, PipelineError::Typeset { .. }));
    let m = e.message();
    assert!(m.contains("exit code 1"));
    assert!(m.contains("l.4 \\frac{a}"));
    assert!(m.contains("! Undefined control sequence."));
}

#[test]
fn typeset_failure_without_log() {
    let r = result(false, Some(1), b"", "");
    let e = typeset_outcome(&r, None, "/tmp/r").unwrap_err();
    assert!(matches!(e, PipelineError::Typeset { log: None, .. }));
    let m = e.message();
    assert!(m.contains("exit code 1"));
    assert!(m.contains("the log file was unavailable"));
}

#[test]
fn typeset_success_gives_page() {
    let r = result(true, Some(0), b"", "");
    assert_eq!(typeset_outcome(&r, None, "/tmp/r").unwrap(), "/tmp/r/equation.pdf");
}

#[test]
fn probe_without_marker_is_parse_error() {
    let r = result(true, Some(0), b"Pages: 1\nEncrypted: no\n", "");
    assert!(matches!(probe_outcome(&r), Err(PipelineError::DimensionParse)));
}

#[test]
fn probe_failure_is_tool_failure() {
    let r = result(false, Some(99), b"", "I/O Error");
    match probe_outcome(&r) {
        Err(PipelineError::ToolFailure { tool, diagnostics }) => {
            assert_eq!(tool, "pdfinfo");
            assert_eq!(diagnostics, "I/O Error");
        }
        other => panic!("unexpected {:?}", other),
    }
}

#[test]
fn convert_outcomes() {
    let ok = result(true, Some(0), b"", "");
    let a = convert_outcome(Format::Vector, &ok, "o.svg").unwrap();
    assert_eq!(a.path, "o.svg");
    assert_eq!(a.format, Format::Vector);
    let bad = result(false, Some(2), b"", "broken");
    match convert_outcome(Format::Raster, &bad, "o.png") {
        Err(PipelineError::Convert { tool, diagnostics }) => {
            assert_eq!(tool, "pdftoppm");
            assert_eq!(diagnostics, "broken");
        }
        other => panic!("unexpected {:?}", other),
    }
}

#[test]
fn error_messages() {
    let cases = vec![
        (PipelineError::Usage { message: "missing equation".to_string() }, "usage error: missing equation"),
        (PipelineError::Launch { tool: "pdflatex".to_string() }, "could not launch pdflatex"),
        (PipelineError::DimensionParse, "could not read the page size from the probe report"),
        (
            PipelineError::ToolFailure { tool: "pdfinfo".to_string(), diagnostics: "x".to_string() },
            "pdfinfo failed: x",
        ),
        (
            PipelineError::Convert { tool: "dvisvgm".to_string(), diagnostics: "y".to_string() },
            "conversion with dvisvgm failed: y",
        ),
        (
            PipelineError::Rename { from: "a.png".to_string(), to: "b.png".to_string() },
            "could not move a.png to b.png",
        ),
    ];
    for (e, m) in cases {
        assert_eq!(e.message(), m);
    }
}

#[test]
fn simulated_vector_run_end_to_end() {
    let scratch = "/tmp/run";
    let packages = eqrender::default_packages();
    let doc = eqrender::build_document("x^2", &packages, false);
    assert!(doc.contains("\\usepackage{amsmath}"));
    let (final_path, changed) = resolve_output(None, Format::Vector, scratch);
    assert!(!changed);
    let page = typeset_outcome(&result(true, Some(0), b"", ""), None, scratch).unwrap();
    let report = b"Page size:      19.163 x 8.966 pts\n";
    let g: PageGeometry = probe_outcome(&result(true, Some(0), report, "")).unwrap();
    let dims = resolve_dimensions(&g, None, None);
    assert_eq!(dims, TargetDimensions { width: 19, height: 9 });
    let cmd = render_command(&page, Format::Vector, dims, &final_path);
    assert_eq!(cmd.args.last().unwrap(), &final_path);
    let art = convert_outcome(Format::Vector, &result(true, Some(0), b"", ""), &final_path).unwrap();
    assert_eq!(art.path, "/tmp/run/equation.svg");
    assert!(art.path.ends_with(".svg"));
    assert_eq!(rename_source(Format::Vector, &final_path), None);
}
