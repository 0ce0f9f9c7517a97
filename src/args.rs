use vstd::prelude::*;

use crate::document::{default_packages, views};
use crate::output::Format;
use crate::pipeline::PipelineError;

verus! {

/// What a rendering run is asked to do.
#[derive(Clone, Debug)]
pub struct EquationRequest {
    pub equation: String,
    /// Never empty.
    pub packages: Vec<String>,
    pub format: Format,
    /// Explicit pixel width, positive where given.
    pub width: Option<u32>,
    /// Explicit pixel height, positive where given.
    pub height: Option<u32>,
    pub output: Option<String>,
    /// Wrap an equation without delimiters of its own in display math.
    pub auto_wrap: bool,
}

impl EquationRequest {
    /// The package list is not empty and the pixel overrides are positive.
    pub open spec fn wf(&self) -> bool {
        &&& self.packages@.len() > 0
        &&& self.width matches Some(w) ==> w > 0
        &&& self.height matches Some(h) ==> h > 0
    }
}

/// A request as plain values.
pub struct RequestModel {
    pub equation: Seq<char>,
    pub packages: Seq<Seq<char>>,
    pub format: Format,
    pub width: Option<u32>,
    pub height: Option<u32>,
    pub output: Option<Seq<char>>,
    pub auto_wrap: bool,
}

impl View for EquationRequest {
    type V = RequestModel;

    open spec fn view(&self) -> RequestModel {
        RequestModel {
            equation: self.equation@,
            packages: views(self.packages@),
            format: self.format,
            width: self.width,
            height: self.height,
            output: match self.output {
                Some(o) => Some(o@),
                None => None,
            },
            auto_wrap: self.auto_wrap,
        }
    }
}

/// What a command line asks for.
#[derive(Clone, Debug)]
pub enum Invocation {
    Help,
    Render(EquationRequest),
}

/// What a command line means, as plain values.
pub enum InvocationModel {
    Help,
    Render(RequestModel),
    Usage,
}

pub open spec fn has_prefix(s: Seq<char>, p: Seq<char>) -> bool {
    p.len() <= s.len() && s.subrange(0, p.len() as int) == p
}

/// The pieces of `s[start..]` between commas, scanning from `i`.
pub open spec fn split_from(s: Seq<char>, start: int, i: int) -> Seq<Seq<char>>
    decreases s.len() - i,
{
    if i < start || start < 0 || i >= s.len() {
        seq![s.subrange(start, s.len() as int)]
    } else if s[i] == ',' {
        seq![s.subrange(start, i)] + split_from(s, i + 1, i + 1)
    } else {
        split_from(s, start, i + 1)
    }
}

/// The comma-separated pieces of `s`; an empty text is one empty piece.
pub open spec fn split_commas(s: Seq<char>) -> Seq<Seq<char>> {
    split_from(s, 0, 0)
}

/// The text after `prefix` in the first argument from `i` on that starts with it.
pub open spec fn flag_value_from(args: Seq<Seq<char>>, prefix: Seq<char>, i: int) -> Option<
    Seq<char>,
>
    decreases args.len() - i,
{
    if i < 0 || i >= args.len() {
        None
    } else if has_prefix(args[i], prefix) {
        Some(args[i].subrange(prefix.len() as int, args[i].len() as int))
    } else {
        flag_value_from(args, prefix, i + 1)
    }
}

pub open spec fn flag_value(args: Seq<Seq<char>>, prefix: Seq<char>) -> Option<Seq<char>> {
    flag_value_from(args, prefix, 0)
}

pub open spec fn is_option(a: Seq<char>) -> bool {
    has_prefix(a, "--"@)
}

/// The options this command line knows.
pub open spec fn known_option(a: Seq<char>) -> bool {
    a == "--help"@ || a == "--png"@ || has_prefix(a, "--packages="@) || has_prefix(a, "--output="@)
        || has_prefix(a, "--width="@) || has_prefix(a, "--height="@)
}

/// The last argument below `n` that is no option.
pub open spec fn last_positional_below(args: Seq<Seq<char>>, n: int) -> Option<Seq<char>>
    decreases n,
{
    if n <= 0 || n > args.len() {
        None
    } else if !is_option(args[n - 1]) {
        Some(args[n - 1])
    } else {
        last_positional_below(args, n - 1)
    }
}

pub open spec fn char_digits_value(d: Seq<char>) -> nat
    decreases d.len(),
{
    if d.len() == 0 {
        0
    } else {
        char_digits_value(d.drop_last()) * 10 + (d.last() as nat - 48) as nat
    }
}

pub open spec fn is_decimal(d: Seq<char>) -> bool {
    d.len() >= 1 && forall|k: int| 0 <= k < d.len() ==> '0' <= #[trigger] d[k] <= '9'
}

/// A pixel count: decimal digits with a positive value that fits in `u32`.
pub open spec fn pixel_count(d: Seq<char>) -> Option<u32> {
    if is_decimal(d) && 0 < char_digits_value(d) <= u32::MAX {
        Some(char_digits_value(d) as u32)
    } else {
        None
    }
}

/// The meaning of a command line (without the program name).
pub open spec fn invocation_of(args: Seq<Seq<char>>) -> InvocationModel {
    let width = flag_value(args, "--width="@);
    let height = flag_value(args, "--height="@);
    if args.contains("--help"@) {
        InvocationModel::Help
    } else if exists|i: int| 0 <= i < args.len() && is_option(#[trigger] args[i]) && !known_option(args[i]) {
        InvocationModel::Usage
    } else if last_positional_below(args, args.len() as int) is None {
        InvocationModel::Usage
    } else if (width matches Some(w) && pixel_count(w) is None) || (height matches Some(h)
        && pixel_count(h) is None) {
        InvocationModel::Usage
    } else {
        InvocationModel::Render(
            RequestModel {
                equation: last_positional_below(args, args.len() as int)->Some_0,
                packages: match flag_value(args, "--packages="@) {
                    Some(p) => split_commas(p),
                    None => seq!["amsmath"@],
                },
                format: if args.contains("--png"@) {
                    Format::Raster
                } else {
                    Format::Vector
                },
                width: match width {
                    Some(w) => pixel_count(w),
                    None => None,
                },
                height: match height {
                    Some(h) => pixel_count(h),
                    None => None,
                },
                output: flag_value(args, "--output="@),
                auto_wrap: false,
            },
        )
    }
}

fn starts_with(s: &str, p: &str) -> (r: bool)
    ensures
        r == has_prefix(s@, p@),
{
    let n = s.unicode_len();
    let m = p.unicode_len();
    if m > n {
        return false;
    }
    let mut k: usize = 0;
    while k < m
        invariant
            m <= n,
            n == s@.len(),
            m == p@.len(),
            k <= m,
            forall|q: int| 0 <= q < k ==> s@[q] == p@[q],
        decreases m - k,
    {
        if s.get_char(k) != p.get_char(k) {
            assert(s@.subrange(0, m as int)[k as int] != p@[k as int]);
            return false;
        }
        k = k + 1;
    }
    assert(s@.subrange(0, m as int) =~= p@);
    true
}

fn text_eq(s: &str, p: &str) -> (r: bool)
    ensures
        r == (s@ == p@),
{
    let a = String::from_str(s);
    let b = String::from_str(p);
    a == b
}

/// Splits `s` at its commas.
pub fn split_packages(s: &str) -> (r: Vec<String>)
    ensures
        views(r@) == split_commas(s@),
        r@.len() >= 1,
{
    let n = s.unicode_len();
    let mut pieces: Vec<String> = Vec::new();
    let mut start: usize = 0;
    let mut i: usize = 0;
    while i < n
        invariant
            n == s@.len(),
            start <= i <= n,
            views(pieces@) + split_from(s@, start as int, i as int) == split_commas(s@),
        decreases n - i,
    {
        if s.get_char(i) == ',' {
            let piece = String::from_str(s.substring_char(start, i));
            proof {
                let ghost old_views = views(pieces@);
                assert(views(pieces@.push(piece)) =~= old_views.push(piece@));
                assert(split_from(s@, start as int, i as int) == seq![s@.subrange(start as int, i as int)]
                    + split_from(s@, i + 1, i + 1));
                assert(old_views.push(piece@) + split_from(s@, i + 1, i + 1) =~= old_views
                    + split_from(s@, start as int, i as int));
            }
            pieces.push(piece);
            start = i + 1;
        }
        i = i + 1;
    }
    let last = String::from_str(s.substring_char(start, n));
    proof {
        let ghost old_views = views(pieces@);
        assert(views(pieces@.push(last)) =~= old_views.push(last@));
        assert(old_views.push(last@) =~= old_views + split_from(s@, start as int, n as int));
    }
    pieces.push(last);
    pieces
}

fn find_flag(args: &Vec<String>, prefix: &str) -> (r: Option<String>)
    ensures
        match r {
            Some(v) => flag_value(views(args@), prefix@) == Some(v@),
            None => flag_value(views(args@), prefix@) is None,
        },
{
    let ghost a = views(args@);
    let m = prefix.unicode_len();
    let mut i: usize = 0;
    while i < args.len()
        invariant
            a == views(args@),
            m == prefix@.len(),
            i <= args@.len(),
            flag_value(a, prefix@) == flag_value_from(a, prefix@, i as int),
        decreases args@.len() - i,
    {
        let arg = args[i].as_str();
        if starts_with(arg, prefix) {
            let n = arg.unicode_len();
            return Some(String::from_str(arg.substring_char(m, n)));
        }
        i = i + 1;
    }
    None
}

fn contains_arg(args: &Vec<String>, word: &str) -> (r: bool)
    ensures
        r == views(args@).contains(word@),
{
    let ghost a = views(args@);
    let mut i: usize = 0;
    while i < args.len()
        invariant
            a == views(args@),
            i <= args@.len(),
            forall|k: int| 0 <= k < i ==> a[k] != word@,
        decreases args@.len() - i,
    {
        if text_eq(args[i].as_str(), word) {
            assert(a[i as int] == word@);
            return true;
        }
        i = i + 1;
    }
    false
}

fn is_known_option(a: &str) -> (r: bool)
    ensures
        r == known_option(a@),
{
    text_eq(a, "--help") || text_eq(a, "--png") || starts_with(a, "--packages=") || starts_with(
        a,
        "--output=",
    ) || starts_with(a, "--width=") || starts_with(a, "--height=")
}

fn has_unknown_option(args: &Vec<String>) -> (r: bool)
    ensures
        r == exists|i: int|
            0 <= i < views(args@).len() && is_option(#[trigger] views(args@)[i]) && !known_option(
                views(args@)[i],
            ),
{
    let ghost a = views(args@);
    let mut i: usize = 0;
    while i < args.len()
        invariant
            a == views(args@),
            i <= args@.len(),
            forall|k: int| 0 <= k < i ==> !(is_option(#[trigger] a[k]) && !known_option(a[k])),
        decreases args@.len() - i,
    {
        let arg = args[i].as_str();
        if starts_with(arg, "--") && !is_known_option(arg) {
            assert(is_option(a[i as int]) && !known_option(a[i as int]));
            return true;
        }
        i = i + 1;
    }
    false
}

fn last_positional(args: &Vec<String>) -> (r: Option<String>)
    ensures
        match r {
            Some(v) => last_positional_below(views(args@), args@.len() as int) == Some(v@),
            None => last_positional_below(views(args@), args@.len() as int) is None,
        },
{
    let ghost a = views(args@);
    let mut n: usize = args.len();
    while n > 0
        invariant
            a == views(args@),
            n <= args@.len(),
            last_positional_below(a, args@.len() as int) == last_positional_below(a, n as int),
        decreases n,
    {
        if !starts_with(args[n - 1].as_str(), "--") {
            return Some(args[n - 1].clone());
        }
        n = n - 1;
    }
    None
}

proof fn lemma_char_digits_monotone(d: Seq<char>, k: int)
    requires
        0 <= k <= d.len(),
        forall|q: int| 0 <= q < d.len() ==> '0' <= #[trigger] d[q] <= '9',
    ensures
        char_digits_value(d.subrange(0, k)) <= char_digits_value(d),
    decreases d.len() - k,
{
    if k < d.len() {
        lemma_char_digits_monotone(d, k + 1);
        let p = d.subrange(0, k + 1);
        assert(p.drop_last() =~= d.subrange(0, k));
        assert('0' <= p.last() <= '9');
    } else {
        assert(d.subrange(0, k) =~= d);
    }
}

/// Reads a pixel count: decimal digits, positive, at most `u32::MAX`.
pub fn parse_pixel_count(s: &str) -> (r: Option<u32>)
    ensures
        r == pixel_count(s@),
        r matches Some(x) ==> x > 0,
{
    let n = s.unicode_len();
    if n == 0 {
        return None;
    }
    let mut v: u64 = 0;
    let mut i: usize = 0;
    while i < n
        invariant
            n == s@.len(),
            i <= n,
            v <= u32::MAX,
            v == char_digits_value(s@.subrange(0, i as int)),
            forall|q: int| 0 <= q < i ==> '0' <= #[trigger] s@[q] <= '9',
        decreases n - i,
    {
        let c = s.get_char(i);
        if c < '0' || c > '9' {
            return None;
        }
        proof {
            assert(s@.subrange(0, i + 1).drop_last() =~= s@.subrange(0, i as int));
        }
        v = v * 10 + (c as u64 - 48);
        if v > u32::MAX as u64 {
            proof {
                if is_decimal(s@) {
                    lemma_char_digits_monotone(s@, i + 1);
                }
            }
            return None;
        }
        i = i + 1;
    }
    assert(s@.subrange(0, n as int) =~= s@);
    if v == 0 {
        None
    } else {
        Some(v as u32)
    }
}

fn usage(message: &str) -> (r: PipelineError)
    ensures
        r matches PipelineError::Usage { message: m } && m@ == message@,
{
    PipelineError::Usage { message: String::from_str(message) }
}

/// Reads the command line (without the program name): `--help` anywhere asks
/// for help; an unknown option, a missing equation or a bad pixel count is a
/// usage error; otherwise the last argument that is no option is the equation.
pub fn parse_arguments(args: &Vec<String>) -> (r: Result<Invocation, PipelineError>)
    ensures
        match invocation_of(views(args@)) {
            InvocationModel::Help => r matches Ok(Invocation::Help),
            InvocationModel::Usage => r matches Err(PipelineError::Usage { .. }),
            InvocationModel::Render(m) => r matches Ok(Invocation::Render(q)) && q@ == m,
        },
        r matches Ok(Invocation::Render(q)) ==> q.wf(),
{
    if contains_arg(args, "--help") {
        return Ok(Invocation::Help);
    }
    if has_unknown_option(args) {
        return Err(usage("unknown option"));
    }
    let equation = match last_positional(args) {
        Some(e) => e,
        None => return Err(usage("missing equation")),
    };
    let width = match find_flag(args, "--width=") {
        Some(w) => match parse_pixel_count(w.as_str()) {
            Some(x) => Some(x),
            None => return Err(usage("the width must be a positive integer")),
        },
        None => None,
    };
    let height = match find_flag(args, "--height=") {
        Some(h) => match parse_pixel_count(h.as_str()) {
            Some(x) => Some(x),
            None => return Err(usage("the height must be a positive integer")),
        },
        None => None,
    };
    let packages = match find_flag(args, "--packages=") {
        Some(p) => split_packages(p.as_str()),
        None => default_packages(),
    };
    let format = if contains_arg(args, "--png") {
        Format::Raster
    } else {
        Format::Vector
    };
    let output = find_flag(args, "--output=");
    let req = EquationRequest { equation, packages, format, width, height, output, auto_wrap: false };
    Ok(Invocation::Render(req))
}

} // verus!
