use vstd::prelude::*;

use crate::geometry::{PageGeometry, MAX_SIDE_MICROS};

verus! {

/// ASCII whitespace: space, tab, line feed, vertical tab, form feed, carriage return.
pub open spec fn is_space(b: u8) -> bool {
    b == 32 || (9 <= b <= 13)
}

pub open spec fn is_digit(b: u8) -> bool {
    48 <= b <= 57
}

pub open spec fn all_digits(d: Seq<u8>) -> bool {
    forall|k: int| 0 <= k < d.len() ==> is_digit(#[trigger] d[k])
}

/// The number that a run of decimal digits denotes.
pub open spec fn digits_value(d: Seq<u8>) -> nat
    decreases d.len(),
{
    if d.len() == 0 {
        0
    } else {
        digits_value(d.drop_last()) * 10 + (d.last() - 48) as nat
    }
}

pub open spec fn pow10(n: nat) -> nat
    decreases n,
{
    if n == 0 {
        1
    } else {
        10 * pow10((n - 1) as nat)
    }
}

/// The index of the first `.` at or after `i`, or the length.
pub open spec fn first_dot(t: Seq<u8>, i: int) -> int
    decreases t.len() - i,
{
    if i < 0 || i >= t.len() {
        t.len() as int
    } else if t[i] == 46 {
        i
    } else {
        first_dot(t, i + 1)
    }
}

/// The integer part of a number token: everything before the first `.`.
pub open spec fn int_part(t: Seq<u8>) -> Seq<u8> {
    t.subrange(0, first_dot(t, 0))
}

/// The fractional part of a number token: everything after the first `.`.
pub open spec fn frac_part(t: Seq<u8>) -> Seq<u8> {
    if first_dot(t, 0) < t.len() {
        t.subrange(first_dot(t, 0) + 1, t.len() as int)
    } else {
        Seq::empty()
    }
}

/// The value of a point measure, in millionths of a point, written as
/// decimal digits with an optional `.` and fractional digits: at least one
/// digit, at most nine before the point and six after it.
pub open spec fn point_value_micros(t: Seq<u8>) -> Option<nat> {
    let ip = int_part(t);
    let fp = frac_part(t);
    if all_digits(ip) && all_digits(fp) && ip.len() + fp.len() >= 1 && ip.len() <= 9
        && fp.len() <= 6 {
        Some(digits_value(ip) * 1_000_000 + digits_value(fp) * pow10((6 - fp.len()) as nat))
    } else {
        None
    }
}

/// The marker that opens the line of the page size: `Page size:`.
pub open spec fn size_marker() -> Seq<u8> {
    seq![80u8, 97, 103, 101, 32, 115, 105, 122, 101, 58]
}

pub open spec fn marker_at(s: Seq<u8>, i: int) -> bool {
    0 <= i && i + size_marker().len() <= s.len() && s.subrange(i, i + size_marker().len())
        == size_marker()
}

pub open spec fn line_start(s: Seq<u8>, i: int) -> bool {
    i == 0 || (0 < i <= s.len() && s[i - 1] == 10)
}

/// The first line at or after `i` that opens with the size marker.
pub open spec fn marker_line_from(s: Seq<u8>, i: int) -> Option<int>
    decreases s.len() - i,
{
    if i < 0 || i >= s.len() {
        None
    } else if line_start(s, i) && marker_at(s, i) {
        Some(i)
    } else {
        marker_line_from(s, i + 1)
    }
}

/// The first index at or after `i` of a line feed, or the length.
pub open spec fn line_end(s: Seq<u8>, i: int) -> int
    decreases s.len() - i,
{
    if i < 0 || i >= s.len() {
        s.len() as int
    } else if s[i] == 10 {
        i
    } else {
        line_end(s, i + 1)
    }
}

/// The first index at or after `i` that holds no whitespace, or the length.
pub open spec fn skip_space(t: Seq<u8>, i: int) -> int
    decreases t.len() - i,
{
    if i < 0 || i >= t.len() {
        t.len() as int
    } else if !is_space(t[i]) {
        i
    } else {
        skip_space(t, i + 1)
    }
}

/// The first index at or after `i` that holds whitespace, or the length.
pub open spec fn token_end(t: Seq<u8>, i: int) -> int
    decreases t.len() - i,
{
    if i < 0 || i >= t.len() {
        t.len() as int
    } else if is_space(t[i]) {
        i
    } else {
        token_end(t, i + 1)
    }
}

/// The whitespace-separated tokens of `t` from index `i` on; the `n`-th one
/// (counted from zero), empty where there are fewer.
pub open spec fn nth_token(t: Seq<u8>, i: int, n: nat) -> Seq<u8>
    decreases n,
{
    let a = skip_space(t, i);
    let b = token_end(t, a);
    if n == 0 {
        t.subrange(a, b)
    } else {
        nth_token(t, b, (n - 1) as nat)
    }
}

/// What follows the size marker on its line.
pub open spec fn size_text(s: Seq<u8>, m: int) -> Seq<u8> {
    let from = m + size_marker().len();
    s.subrange(from, line_end(s, from))
}

/// The page geometry in a probe's report: the first line that opens with the
/// size marker carries the width, a separating token and the height.
pub open spec fn geometry_of_report(s: Seq<u8>) -> Option<PageGeometry> {
    match marker_line_from(s, 0) {
        None => None,
        Some(m) => match (
            point_value_micros(nth_token(size_text(s, m), 0, 0)),
            point_value_micros(nth_token(size_text(s, m), 0, 2)),
        ) {
            (Some(w), Some(h)) => if 0 < w && 0 < h {
                Some(PageGeometry { width_micros: w as u64, height_micros: h as u64 })
            } else {
                None
            },
            _ => None,
        },
    }
}

proof fn lemma_first_dot_bounds(t: Seq<u8>, i: int)
    requires
        0 <= i <= t.len(),
    ensures
        i <= first_dot(t, i) <= t.len(),
    decreases t.len() - i,
{
    if i < t.len() && t[i] != 46 {
        lemma_first_dot_bounds(t, i + 1);
    }
}

proof fn lemma_digits_bound(d: Seq<u8>)
    requires
        all_digits(d),
    ensures
        digits_value(d) < pow10(d.len()),
    decreases d.len(),
{
    if d.len() > 0 {
        let p = d.drop_last();
        assert(all_digits(p)) by {
            assert forall|k: int| 0 <= k < p.len() implies is_digit(#[trigger] p[k]) by {
                assert(p[k] == d[k]);
            }
        }
        lemma_digits_bound(p);
        assert(is_digit(d[d.len() - 1]));
        assert(pow10(d.len()) == 10 * pow10(p.len()));
        assert(digits_value(p) * 10 + 9 < pow10(d.len())) by (nonlinear_arith)
            requires
                digits_value(p) < pow10(p.len()),
                pow10(d.len()) == 10 * pow10(p.len()),
        ;
    }
}

proof fn lemma_pow10_small(n: nat)
    requires
        n <= 9,
    ensures
        pow10(n) <= 1_000_000_000,
    decreases n,
{
    reveal_with_fuel(pow10, 10);
    if n > 0 {
        lemma_pow10_small((n - 1) as nat);
    }
}

/// Copies `s[a..b]` into a vector of its own.
fn copy_range(s: &Vec<u8>, a: usize, b: usize) -> (r: Vec<u8>)
    requires
        a <= b <= s@.len(),
    ensures
        r@ == s@.subrange(a as int, b as int),
{
    let mut r: Vec<u8> = Vec::new();
    let mut i: usize = a;
    while i < b
        invariant
            a <= i <= b <= s@.len(),
            r@ == s@.subrange(a as int, i as int),
        decreases b - i,
    {
        r.push(s[i]);
        assert(r@ =~= s@.subrange(a as int, i + 1));
        i = i + 1;
    }
    r
}

/// Reads a point measure, in millionths of a point.
pub fn parse_point_micros(t: &Vec<u8>) -> (r: Option<u64>)
    ensures
        r matches Some(v) ==> point_value_micros(t@) == Some(v as nat),
        r is None ==> point_value_micros(t@) is None,
{
    let ghost s = t@;
    let n = t.len();
    let mut j: usize = 0;
    let mut ival: u64 = 0;
    while j < n && t[j] != 46
        invariant
            0 <= j <= n == s.len(),
            s == t@,
            first_dot(s, 0) == first_dot(s, j as int),
            all_digits(s.subrange(0, j as int)),
            j <= 9,
            ival == digits_value(s.subrange(0, j as int)),
            ival < pow10(j as nat),
        decreases n - j,
    {
        let c = t[j];
        if c < 48 || c > 57 {
            proof {
                assert(first_dot(s, j as int) == first_dot(s, j as int + 1));
                lemma_first_dot_bounds(s, j as int + 1);
                assert(int_part(s)[j as int] == c);
            }
            return None;
        }
        if j == 9 {
            proof {
                assert(first_dot(s, j as int) == first_dot(s, j as int + 1));
                lemma_first_dot_bounds(s, j as int + 1);
            }
            return None;
        }
        proof {
            let p = s.subrange(0, j as int + 1);
            assert(p.drop_last() =~= s.subrange(0, j as int));
            assert(all_digits(p));
            lemma_digits_bound(p);
            lemma_pow10_small(j as nat + 1);
        }
        ival = ival * 10 + (c - 48) as u64;
        j = j + 1;
    }
    proof {
        assert(first_dot(s, j as int) == j);
        assert(int_part(s) =~= s.subrange(0, j as int));
        lemma_pow10_small(j as nat);
    }
    let mut k: usize = if j < n { j + 1 } else { n };
    let start = k;
    let mut fval: u64 = 0;
    while k < n
        invariant
            start <= k <= n == s.len(),
            s == t@,
            first_dot(s, 0) == j,
            j < n ==> start == j + 1,
            j >= n ==> start == n,
            all_digits(s.subrange(start as int, k as int)),
            k - start <= 6,
            fval == digits_value(s.subrange(start as int, k as int)),
            fval < pow10((k - start) as nat),
        decreases n - k,
    {
        let c = t[k];
        if c < 48 || c > 57 {
            proof {
                assert(frac_part(s) =~= s.subrange(start as int, n as int));
                assert(frac_part(s)[k - start] == c);
            }
            return None;
        }
        if k - start == 6 {
            proof {
                assert(frac_part(s) =~= s.subrange(start as int, n as int));
            }
            return None;
        }
        proof {
            let p = s.subrange(start as int, k as int + 1);
            assert(p.drop_last() =~= s.subrange(start as int, k as int));
            assert(all_digits(p));
            lemma_digits_bound(p);
            lemma_pow10_small((k - start) as nat + 1);
        }
        fval = fval * 10 + (c - 48) as u64;
        k = k + 1;
    }
    proof {
        assert(frac_part(s) =~= s.subrange(start as int, n as int));
    }
    if j == 0 && n - start == 0 {
        return None;
    }
    let mut scaled: u64 = fval;
    let mut e: usize = n - start;
    assert(pow10((e - (n - start)) as nat) == 1);
    assert(fval * 1 == fval);
    while e < 6
        invariant
            n - start <= e <= 6,
            scaled == fval * pow10((e - (n - start)) as nat),
            scaled < pow10(e as nat),
        decreases 6 - e,
    {
        proof {
            lemma_pow10_small(e as nat + 1);
            assert(pow10((e + 1 - (n - start)) as nat) == 10 * pow10((e - (n - start)) as nat));
            assert(pow10((e + 1) as nat) == 10 * pow10(e as nat));
        }
        scaled = scaled * 10;
        proof {
            assert(scaled == fval * pow10((e + 1 - (n - start)) as nat)) by (nonlinear_arith)
                requires
                    scaled == (fval * pow10((e - (n - start)) as nat)) * 10,
                    pow10((e + 1 - (n - start)) as nat) == 10 * pow10((e - (n - start)) as nat),
            ;
        }
        e = e + 1;
    }
    proof {
        reveal_with_fuel(pow10, 7);
        assert(ival * 1_000_000 <= 999_999_999 * 1_000_000) by (nonlinear_arith)
            requires
                ival < 1_000_000_000,
        ;
    }
    Some(ival * 1_000_000 + scaled)
}

fn has_marker_at(s: &Vec<u8>, i: usize) -> (r: bool)
    ensures
        r == marker_at(s@, i as int),
{
    let m: Vec<u8> = vec![80u8, 97, 103, 101, 32, 115, 105, 122, 101, 58];
    assert(m@ =~= size_marker());
    if i > s.len() || s.len() - i < m.len() {
        return false;
    }
    let n = s.len();
    let mut k: usize = 0;
    while k < m.len()
        invariant
            n == s@.len(),
            i + m@.len() <= s@.len(),
            m@ == size_marker(),
            0 <= k <= m@.len(),
            forall|q: int| 0 <= q < k ==> s@[i + q] == m@[q],
        decreases m@.len() - k,
    {
        if s[i + k] != m[k] {
            assert(s@.subrange(i as int, i + m@.len())[k as int] != size_marker()[k as int]);
            return false;
        }
        k = k + 1;
    }
    assert(s@.subrange(i as int, i + m@.len()) =~= size_marker());
    true
}

fn find_marker_line(s: &Vec<u8>) -> (r: Option<usize>)
    ensures
        r matches Some(m) ==> marker_line_from(s@, 0) == Some(m as int),
        r is None ==> marker_line_from(s@, 0) is None,
{
    let mut i: usize = 0;
    while i < s.len()
        invariant
            i <= s@.len(),
            marker_line_from(s@, 0) == marker_line_from(s@, i as int),
        decreases s@.len() - i,
    {
        let starts = i == 0 || s[i - 1] == 10;
        if starts && has_marker_at(s, i) {
            return Some(i);
        }
        i = i + 1;
    }
    None
}

fn find_line_end(s: &Vec<u8>, i: usize) -> (r: usize)
    requires
        i <= s@.len(),
    ensures
        r == line_end(s@, i as int),
        i <= r <= s@.len(),
{
    let mut j: usize = i;
    while j < s.len() && s[j] != 10
        invariant
            i <= j <= s@.len(),
            line_end(s@, i as int) == line_end(s@, j as int),
        decreases s@.len() - j,
    {
        j = j + 1;
    }
    j
}

fn find_skip_space(t: &Vec<u8>, i: usize) -> (r: usize)
    requires
        i <= t@.len(),
    ensures
        r == skip_space(t@, i as int),
        i <= r <= t@.len(),
{
    let mut j: usize = i;
    while j < t.len() && (t[j] == 32 || (9 <= t[j] && t[j] <= 13))
        invariant
            i <= j <= t@.len(),
            skip_space(t@, i as int) == skip_space(t@, j as int),
        decreases t@.len() - j,
    {
        j = j + 1;
    }
    j
}

fn find_token_end(t: &Vec<u8>, i: usize) -> (r: usize)
    requires
        i <= t@.len(),
    ensures
        r == token_end(t@, i as int),
        i <= r <= t@.len(),
{
    let mut j: usize = i;
    while j < t.len() && !(t[j] == 32 || (9 <= t[j] && t[j] <= 13))
        invariant
            i <= j <= t@.len(),
            token_end(t@, i as int) == token_end(t@, j as int),
        decreases t@.len() - j,
    {
        j = j + 1;
    }
    j
}

/// Reads the page geometry from a probe's report: the first line that opens
/// with `Page size:` carries the width, a separating token such as `x`, and
/// the height, in points. `None` where there is no such line, a measure does
/// not read, or a side is zero.
pub fn parse_page_geometry(report: &Vec<u8>) -> (r: Option<PageGeometry>)
    ensures
        r == geometry_of_report(report@),
        r matches Some(g) ==> g.wf(),
{
    let m = match find_marker_line(report) {
        None => return None,
        Some(m) => m,
    };
    let n = report.len();
    proof {
        lemma_marker_line_found(report@, 0);
    }
    assert(m + 10 <= n);
    let from = m + 10;
    let end = find_line_end(report, from);
    let text = copy_range(report, from, end);
    assert(text@ == size_text(report@, m as int));
    let a0 = find_skip_space(&text, 0);
    let b0 = find_token_end(&text, a0);
    let a1 = find_skip_space(&text, b0);
    let b1 = find_token_end(&text, a1);
    let a2 = find_skip_space(&text, b1);
    let b2 = find_token_end(&text, a2);
    proof {
        reveal_with_fuel(nth_token, 3);
        assert(nth_token(text@, 0, 0) == text@.subrange(a0 as int, b0 as int));
        assert(nth_token(text@, b0 as int, 0) == text@.subrange(a1 as int, b1 as int));
        assert(nth_token(text@, 0, 2) == nth_token(text@, b1 as int, 0));
    }
    let wtok = copy_range(&text, a0, b0);
    let htok = copy_range(&text, a2, b2);
    match (parse_point_micros(&wtok), parse_point_micros(&htok)) {
        (Some(w), Some(h)) => {
            if 0 < w && 0 < h {
                proof {
                    lemma_point_value_bound(wtok@);
                    lemma_point_value_bound(htok@);
                }
                Some(PageGeometry { width_micros: w, height_micros: h })
            } else {
                None
            }
        },
        _ => None,
    }
}

proof fn lemma_marker_line_found(s: Seq<u8>, i: int)
    requires
        marker_line_from(s, i) is Some,
    ensures
        marker_at(s, marker_line_from(s, i)->Some_0),
    decreases s.len() - i,
{
    if !(line_start(s, i) && marker_at(s, i)) {
        lemma_marker_line_found(s, i + 1);
    }
}

proof fn lemma_point_value_bound(t: Seq<u8>)
    requires
        point_value_micros(t) is Some,
    ensures
        point_value_micros(t)->Some_0 <= MAX_SIDE_MICROS,
{
    let ip = int_part(t);
    let fp = frac_part(t);
    lemma_digits_bound(ip);
    lemma_digits_bound(fp);
    lemma_pow10_small(ip.len());
    lemma_pow10_small(fp.len());
    lemma_pow10_small((6 - fp.len()) as nat);
    reveal_with_fuel(pow10, 10);
    lemma_pow10_split(fp.len(), (6 - fp.len()) as nat);
    let a = digits_value(ip);
    let b = digits_value(fp);
    let p = pow10((6 - fp.len()) as nat);
    assert(b * p < 1_000_000) by (nonlinear_arith)
        requires
            b < pow10(fp.len()),
            pow10(fp.len()) * p == 1_000_000,
            p >= 1,
    ;
    assert(a * 1_000_000 + b * p <= MAX_SIDE_MICROS) by (nonlinear_arith)
        requires
            a < 1_000_000_000,
            b * p < 1_000_000,
    ;
}

proof fn lemma_pow10_split(x: nat, y: nat)
    ensures
        pow10(x) * pow10(y) == pow10(x + y),
        pow10(y) >= 1,
    decreases x,
{
    lemma_pow10_pos(y);
    if x == 0 {
        assert(pow10(x) == 1);
        assert(x + y == y);
    } else {
        assert(pow10(x) == 10 * pow10((x - 1) as nat));
        lemma_pow10_split((x - 1) as nat, y);
        assert(pow10(x + y) == 10 * pow10((x - 1 + y) as nat));
        assert(pow10(x) * pow10(y) == 10 * (pow10((x - 1) as nat) * pow10(y))) by (nonlinear_arith)
            requires
                pow10(x) == 10 * pow10((x - 1) as nat),
        ;
    }
}

proof fn lemma_pow10_pos(y: nat)
    ensures
        pow10(y) >= 1,
    decreases y,
{
    if y > 0 {
        lemma_pow10_pos((y - 1) as nat);
    }
}

} // verus!
