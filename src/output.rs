use vstd::prelude::*;

verus! {

/// The kind of image produced.
#[derive(Clone, Copy, Debug, PartialEq, Eq, Structural)]
pub enum Format {
    /// Resolution-independent SVG.
    Vector,
    /// Fixed-size PNG.
    Raster,
}

/// The canonical file extension of a format, with its dot.
pub open spec fn extension_of(f: Format) -> Seq<char> {
    match f {
        Format::Vector => ".svg"@,
        Format::Raster => ".png"@,
    }
}

pub open spec fn ends_with(p: Seq<char>, e: Seq<char>) -> bool {
    p.len() >= e.len() && p.subrange(p.len() - e.len(), p.len() as int) == e
}

/// The last index below `n` that holds `c`, or -1.
pub open spec fn last_index_below(p: Seq<char>, c: char, n: int) -> int
    decreases n,
{
    if n <= 0 {
        -1
    } else if n - 1 < p.len() && p[n - 1] == c {
        n - 1
    } else {
        last_index_below(p, c, n - 1)
    }
}

pub open spec fn last_index(p: Seq<char>, c: char) -> int {
    last_index_below(p, c, p.len() as int)
}

/// The path without its extension: the extension starts at the last `.` of
/// the final component, where that dot is not the component's first character.
pub open spec fn stem_of(p: Seq<char>) -> Seq<char> {
    let dot = last_index(p, '.');
    if dot > last_index(p, '/') + 1 {
        p.subrange(0, dot)
    } else {
        p
    }
}

/// The default output path in the scratch directory for a format.
pub open spec fn default_output(scratch_dir: Seq<char>, f: Format) -> Seq<char> {
    scratch_dir + "/equation"@ + extension_of(f)
}

/// The final output path and whether the requested one was changed to agree
/// with the format.
pub open spec fn resolved_output(requested: Option<Seq<char>>, f: Format, scratch_dir: Seq<char>) -> (
    Seq<char>,
    bool,
) {
    match requested {
        None => (default_output(scratch_dir, f), false),
        Some(p) => if ends_with(p, extension_of(f)) {
            (p, false)
        } else {
            (stem_of(p) + extension_of(f), true)
        },
    }
}

/// The canonical file extension of a format, with its dot.
pub fn extension(f: Format) -> (r: &'static str)
    ensures
        r@ == extension_of(f),
{
    match f {
        Format::Vector => ".svg",
        Format::Raster => ".png",
    }
}

fn find_last(p: &str, c: char) -> (r: Option<usize>)
    ensures
        r matches Some(i) ==> last_index(p@, c) == i as int && i < p@.len(),
        r is None ==> last_index(p@, c) == -1,
{
    let mut n = p.unicode_len();
    while n > 0
        invariant
            n <= p@.len(),
            last_index(p@, c) == last_index_below(p@, c, n as int),
        decreases n,
    {
        if p.get_char(n - 1) == c {
            return Some(n - 1);
        }
        n = n - 1;
    }
    None
}

fn has_suffix(p: &str, e: &str) -> (r: bool)
    ensures
        r == ends_with(p@, e@),
{
    let n = p.unicode_len();
    let m = e.unicode_len();
    if n < m {
        return false;
    }
    let mut k: usize = 0;
    while k < m
        invariant
            m <= n,
            n == p@.len(),
            m == e@.len(),
            k <= m,
            forall|q: int| 0 <= q < k ==> p@[n - m + q] == e@[q],
        decreases m - k,
    {
        if p.get_char(n - m + k) != e.get_char(k) {
            assert(p@.subrange(n - m, n as int)[k as int] != e@[k as int]);
            return false;
        }
        k = k + 1;
    }
    assert(p@.subrange(n - m, n as int) =~= e@);
    true
}

/// Settles the output path: the scratch default where none is requested, the
/// requested path where its extension fits the format, else the requested
/// path with the format's extension in place of its own, flagged as changed.
pub fn resolve_output(requested: Option<&str>, format: Format, scratch_dir: &str) -> (r: (
    String,
    bool,
))
    ensures
        (r.0@, r.1) == resolved_output(
            match requested {
                Some(p) => Some(p@),
                None => None,
            },
            format,
            scratch_dir@,
        ),
{
    let ext = extension(format);
    match requested {
        None => {
            let mut path = String::from_str(scratch_dir);
            path.append("/equation");
            path.append(ext);
            (path, false)
        },
        Some(p) => {
            if has_suffix(p, ext) {
                (String::from_str(p), false)
            } else {
                let dot = find_last(p, '.');
                let slash = find_last(p, '/');
                let stem: &str = match dot {
                    Some(d) => {
                        let after_slash = match slash {
                            Some(s) => d > s && d - s > 1,
                            None => d > 0,
                        };
                        if after_slash {
                            p.substring_char(0, d)
                        } else {
                            p
                        }
                    },
                    None => p,
                };
                let mut path = String::from_str(stem);
                path.append(ext);
                (path, true)
            }
        },
    }
}

} // verus!
