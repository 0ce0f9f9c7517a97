use eqrender::{parse_arguments, parse_pixel_count, Format, Invocation, PipelineError};

fn args(v: &[&str]) -> Vec<String> {
    v.iter().map(|s| s.to_string()).collect()
}

#[test]
fn help_anywhere() {
    assert!(matches!(parse_arguments(&args(&["x", "--help"])), Ok(Invocation::Help)));
}

#[test]
fn missing_equation_is_usage_error() {
    assert!(matches!(parse_arguments(&args(&[])), Err(PipelineError::Usage { .. })));
    assert!(matches!(parse_arguments(&args(&["--png"])), Err(PipelineError::Usage { .. })));
}

#[test]
fn unknown_option_is_usage_error() {
    assert!(matches!(parse_arguments(&args(&["--bogus", "x"])), Err(PipelineError::Usage { .. })));
}

#[test]
fn bad_pixel_counts_are_usage_errors() {
    for a in ["--width=0", "--width=abc", "--height=", "--height=4294967296"] {
        assert!(matches!(parse_arguments(&args(&[a, "x"])), Err(PipelineError::Usage { .. })));
    }
}

#[test]
fn defaults() {
    match parse_arguments(&args(&["$x^2$"])) {
        Ok(Invocation::Render(r)) => {
            assert_eq!(r.equation, "$x^2$");
            assert_eq!(r.packages, args(&["amsmath"]));
            assert_eq!(r.format, Format::Vector);
            assert_eq!(r.width, None);
            assert_eq!(r.height, None);
            assert_eq!(r.output, None);
            assert!(!r.auto_wrap);
        }
        other => panic!("unexpected {:?}", other),
    }
}

#[test]
fn all_options() {
    let a = args(&[
        "--png",
        "--packages=amsmath,amssymb",
        "--output=eq.png",
        "--width=800",
        "--height=500",
        "\\frac{a}{b}",
    ]);
    match parse_arguments(&a) {
        Ok(Invocation::Render(r)) => {
            assert_eq!(r.equation, "\\frac{a}{b}");
            assert_eq!(r.packages, args(&["amsmath", "amssymb"]));
            assert_eq!(r.format, Format::Raster);
            assert_eq!(r.width, Some(800));
            assert_eq!(r.height, Some(500));
            assert_eq!(r.output, Some("eq.png".to_string()));
        }
        other => panic!("unexpected {:?}", other),
    }
}

#[test]
fn last_positional_is_equation_and_first_flag_wins() {
    match parse_arguments(&args(&["a", "--width=5", "b", "--width=7"])) {
        Ok(Invocation::Render(r)) => {
            assert_eq!(r.equation, "b");
            assert_eq!(r.width, Some(5));
        }
        other => panic!("unexpected {:?}", other),
    }
}

#[test]
fn pixel_counts() {
    assert_eq!(parse_pixel_count("500"), Some(500));
    assert_eq!(parse_pixel_count("007"), Some(7));
    assert_eq!(parse_pixel_count("4294967295"), Some(u32::MAX));
    assert_eq!(parse_pixel_count("4294967296"), None);
    assert_eq!(parse_pixel_count("0"), None);
    assert_eq!(parse_pixel_count(""), None);
    assert_eq!(parse_pixel_count("+5"), None);
}
