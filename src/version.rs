use vstd::prelude::*;

use crate::text::{
    chars_of, contains, decimal, find_from, find_in, int_error_text, lemma_decimal_digits,
    lemma_find_first, lemma_find_from_bounds, lemma_find_single, lemma_parse_decimal, occurs_at,
    parse_u32, parse_u32_in, slice_chars,
};

verus! {

/// An installed runtime's version, as `major.minor`.
#[derive(Clone, Copy, Debug, PartialEq, Eq, Structural)]
pub struct ByondVersion {
    pub major: u32,
    pub minor: u32,
}

/// What running the version query gave.
pub enum ProbeOutcome {
    /// The executable is not where it should be.
    Missing,
    /// The executable could not be started; the system's reason.
    NotStarted(String),
    /// The executable ran; its standard output, whatever its exit status.
    Output(String),
}

/// A directory joined with a relative path, as the platform joins paths:
/// a separator is added unless the directory is empty or ends with one.
pub open spec fn join_path(dir: Seq<char>, rel: Seq<char>) -> Seq<char> {
    if dir.len() == 0 || dir.last() == '\\' || dir.last() == '/' {
        dir + rel
    } else {
        dir.push('\\') + rel
    }
}

/// Joins `rel` onto the directory `dir`.
pub fn join_path_text(dir: &str, rel: &str) -> (r: String)
    ensures
        r@ == join_path(dir@, rel@),
{
    let n = dir.unicode_len();
    let mut r = String::from_str(dir);
    if n > 0 {
        let last = dir.get_char(n - 1);
        if last != '\\' && last != '/' {
            proof {
                reveal_strlit("\\");
            }
            r.append("\\");
            assert(r@ =~= dir@.push('\\'));
        }
    }
    r.append(rel);
    r
}

pub open spec fn dd_relative() -> Seq<char> {
    "bin\\dd.exe"@
}

/// Where the server executable that answers the version query lies under an
/// installation directory.
pub fn dd_executable_path(byond_path: &str) -> (r: String)
    ensures
        r@ == join_path(byond_path@, dd_relative()),
{
    join_path_text(byond_path, "bin\\dd.exe")
}

pub open spec fn product_mark() -> Seq<char> {
    seq!['B', 'Y', 'O', 'N', 'D']
}

pub open spec fn version_mark() -> Seq<char> {
    seq!['V', 'e', 'r', 's', 'i', 'o', 'n', ' ']
}

pub open spec fn close_mark() -> Seq<char> {
    seq![')']
}

pub open spec fn dot_mark() -> Seq<char> {
    seq!['.']
}

pub open spec fn newline_mark() -> Seq<char> {
    seq!['\n']
}

pub open spec fn no_version_text() -> Seq<char> {
    "Could not find BYOND version in output"@
}

/// What the text between the version marker and the closing parenthesis
/// reads as: exactly two numbers, joined by one period.
pub open spec fn version_text_verdict(v: Seq<char>) -> Result<(u32, u32), Seq<char>> {
    match find_from(v, dot_mark(), 0) {
        None => Err("Invalid version format: "@ + v),
        Some(d) => if find_from(v, dot_mark(), d + 1) is Some {
            Err("Invalid version format: "@ + v)
        } else {
            match parse_u32(v.subrange(0, d)) {
                Err(e) => Err("Failed to parse major version: "@ + int_error_text(e)),
                Ok(major) => match parse_u32(v.subrange(d + 1, v.len() as int)) {
                    Err(e) => Err("Failed to parse minor version: "@ + int_error_text(e)),
                    Ok(minor) => Ok((major, minor)),
                },
            }
        },
    }
}

/// What one line of output says: nothing (`None`) unless it holds the
/// product name, the version marker and, after that marker, a closing
/// parenthesis; else the verdict on the text between the two.
pub open spec fn line_verdict(line: Seq<char>) -> Option<Result<(u32, u32), Seq<char>>> {
    if !contains(line, product_mark()) {
        None
    } else {
        match find_from(line, version_mark(), 0) {
            None => None,
            Some(st) => match find_from(line, close_mark(), st + 8) {
                None => None,
                Some(e) => Some(version_text_verdict(line.subrange(st + 8, e))),
            },
        }
    }
}

/// Where the line that starts at `p` ends: at the next newline, or at the
/// end of the text.
pub open spec fn line_end(s: Seq<char>, p: int) -> int {
    match find_from(s, newline_mark(), p) {
        Some(j) => j,
        None => s.len() as int,
    }
}

/// The verdict of the first line, from index `p` on, that says anything.
pub open spec fn output_verdict(s: Seq<char>, p: int) -> Result<(u32, u32), Seq<char>>
    decreases s.len() + 1 - p,
    via output_verdict_decreases
{
    if p < 0 || p >= s.len() {
        Err(no_version_text())
    } else {
        match line_verdict(s.subrange(p, line_end(s, p))) {
            Some(r) => r,
            None => output_verdict(s, line_end(s, p) + 1),
        }
    }
}

#[via_fn]
proof fn output_verdict_decreases(s: Seq<char>, p: int) {
    if 0 <= p {
        lemma_find_from_bounds(s, newline_mark(), p);
    }
}

/// `r` is the executable form of the verdict `v`.
pub open spec fn version_result(r: Result<ByondVersion, String>, v: Result<(u32, u32), Seq<char>>) -> bool {
    match r {
        Ok(b) => v == Ok::<(u32, u32), Seq<char>>((b.major, b.minor)),
        Err(m) => v == Err::<(u32, u32), Seq<char>>(m@),
    }
}

fn version_text_exec(output: &str, v: &Vec<char>, lo: usize, hi: usize) -> (r: Result<
    ByondVersion,
    String,
>)
    requires
        lo <= hi <= output@.len(),
        v@ == output@.subrange(lo as int, hi as int),
    ensures
        version_result(r, version_text_verdict(v@)),
{
    let dot: Vec<char> = vec!['.'];
    assert(dot@ =~= dot_mark());
    match find_in(v, &dot, 0) {
        None => Err(String::from_str("Invalid version format: ").concat(output.substring_char(lo, hi))),
        Some(d) => {
            proof {
                lemma_find_from_bounds(v@, dot_mark(), 0);
            }
            if find_in(v, &dot, d + 1).is_some() {
                return Err(
                    String::from_str("Invalid version format: ").concat(
                        output.substring_char(lo, hi),
                    ),
                );
            }
            let major = match parse_u32_in(v, 0, d) {
                Ok(x) => x,
                Err(e) => {
                    return Err(String::from_str("Failed to parse major version: ").concat(e.text()));
                },
            };
            let minor = match parse_u32_in(v, d + 1, v.len()) {
                Ok(x) => x,
                Err(e) => {
                    return Err(String::from_str("Failed to parse minor version: ").concat(e.text()));
                },
            };
            Ok(ByondVersion { major, minor })
        },
    }
}

fn line_verdict_exec(output: &str, s: &Vec<char>, p: usize, k: usize) -> (r: Option<
    Result<ByondVersion, String>,
>)
    requires
        s@ == output@,
        p <= k <= s@.len(),
    ensures
        match r {
            None => line_verdict(s@.subrange(p as int, k as int)) is None,
            Some(x) => line_verdict(s@.subrange(p as int, k as int)) matches Some(v) && version_result(x, v),
        },
{
    let line = slice_chars(s, p, k);
    let line = &line;
    let product: Vec<char> = vec!['B', 'Y', 'O', 'N', 'D'];
    let marker: Vec<char> = vec!['V', 'e', 'r', 's', 'i', 'o', 'n', ' '];
    let close: Vec<char> = vec![')'];
    assert(product@ =~= product_mark());
    assert(marker@ =~= version_mark());
    assert(close@ =~= close_mark());
    if find_in(line, &product, 0).is_none() {
        return None;
    }
    let st = match find_in(line, &marker, 0) {
        Some(st) => st,
        None => {
            return None;
        },
    };
    proof {
        lemma_find_from_bounds(line@, version_mark(), 0);
    }
    let a = st + 8;
    let e = match find_in(line, &close, a) {
        Some(e) => e,
        None => {
            return None;
        },
    };
    proof {
        lemma_find_from_bounds(line@, close_mark(), a as int);
    }
    let v = slice_chars(line, a, e);
    assert(v@ =~= output@.subrange(p + a, p + e));
    Some(version_text_exec(output, &v, p + a, p + e))
}

/// Reads the runtime's version from the output of its version query: the
/// first line that holds `BYOND`, then `Version ` and, after it, `)` gives
/// the `major.minor` between the two markers.
pub fn parse_byond_version(output: &str) -> (r: Result<ByondVersion, String>)
    ensures
        version_result(r, output_verdict(output@, 0)),
{
    let s = chars_of(output);
    let n = s.len();
    let nl: Vec<char> = vec!['\n'];
    assert(nl@ =~= newline_mark());
    let mut p: usize = 0;
    while p < n
        invariant
            s@ == output@,
            nl@ == newline_mark(),
            n == s@.len(),
            p <= n,
            output_verdict(s@, 0) == output_verdict(s@, p as int),
        decreases n - p,
    {
        let k = match find_in(&s, &nl, p) {
            Some(j) => j,
            None => n,
        };
        proof {
            lemma_find_from_bounds(s@, newline_mark(), p as int);
        }
        assert(k == line_end(s@, p as int));
        match line_verdict_exec(output, &s, p, k) {
            Some(r) => {
                return r;
            },
            None => {},
        }
        if k == n {
            assert(output_verdict(s@, p as int) == output_verdict(s@, n + 1));
            return Err(String::from_str("Could not find BYOND version in output"));
        }
        p = k + 1;
    }
    Err(String::from_str("Could not find BYOND version in output"))
}

/// Gives the version of the runtime installed under `byond_path`, from what
/// running its version query gave. A nonzero exit status of the query is no
/// failure: only a missing executable, one that could not be started, or
/// output without a readable version is.
pub fn get_byond_version(byond_path: &str, probe: ProbeOutcome) -> (r: Result<ByondVersion, String>)
    ensures
        match probe {
            ProbeOutcome::Missing => r matches Err(m) && m@ == "Dream Daemon executable not found at "@
                + join_path(byond_path@, dd_relative()),
            ProbeOutcome::NotStarted(e) => r matches Err(m) && m@ == "Failed to execute dd.exe: "@
                + e@,
            ProbeOutcome::Output(out) => version_result(r, output_verdict(out@, 0)),
        },
{
    match probe {
        ProbeOutcome::Missing => Err(
            String::from_str("Dream Daemon executable not found at ").concat(
                dd_executable_path(byond_path).as_str(),
            ),
        ),
        ProbeOutcome::NotStarted(e) => Err(
            String::from_str("Failed to execute dd.exe: ").concat(e.as_str()),
        ),
        ProbeOutcome::Output(out) => parse_byond_version(out.as_str()),
    }
}

/// No character of `s` is `c`.
pub open spec fn free_of(s: Seq<char>, c: char) -> bool {
    forall|k: int| 0 <= k < s.len() ==> s[k] != c
}

/// An output whose first line is `prefix`, the version marker, `major`, a
/// period, `minor` and a closing parenthesis, and which goes on with `rest`.
pub open spec fn probe_line(prefix: Seq<char>, major: Seq<char>, minor: Seq<char>, rest: Seq<char>) -> Seq<char> {
    prefix + version_mark() + major + dot_mark() + minor + close_mark() + rest
}

/// What a well-formed first line needs of what comes before the marker: the
/// product name, no line break, and no earlier version marker.
pub open spec fn well_formed_prefix(prefix: Seq<char>, line: Seq<char>) -> bool {
    &&& contains(prefix, product_mark())
    &&& free_of(prefix, '\n')
    &&& forall|k: int| 0 <= k < prefix.len() ==> !occurs_at(line, version_mark(), k)
}

/// A segment between the markers that holds neither a period nor what ends
/// the version or the line.
pub open spec fn plain_segment(a: Seq<char>) -> bool {
    free_of(a, '.') && free_of(a, ')') && free_of(a, '\n')
}

proof fn lemma_segments_verdict(a: Seq<char>, b: Seq<char>)
    requires
        free_of(a, '.'),
        free_of(b, '.'),
    ensures
        version_text_verdict(a + dot_mark() + b) == match parse_u32(a) {
            Err(e) => Err("Failed to parse major version: "@ + int_error_text(e)),
            Ok(major) => match parse_u32(b) {
                Err(e) => Err("Failed to parse minor version: "@ + int_error_text(e)),
                Ok(minor) => Ok((major, minor)),
            },
        },
{
    let v = a + dot_mark() + b;
    let d = a.len() as int;
    assert(v[d] == '.');
    lemma_find_single(v, '.', 0, d);
    lemma_find_single(v, '.', d + 1, v.len() as int);
    assert(v.subrange(0, d) =~= a);
    assert(v.subrange(d + 1, v.len() as int) =~= b);
}

/// The part of a version line up to and with the closing parenthesis.
pub open spec fn probe_head(prefix: Seq<char>, major: Seq<char>, minor: Seq<char>) -> Seq<char> {
    prefix + version_mark() + major + dot_mark() + minor + close_mark()
}

proof fn lemma_head_shape(prefix: Seq<char>, a: Seq<char>, b: Seq<char>)
    requires
        free_of(prefix, '\n'),
        plain_segment(a),
        plain_segment(b),
    ensures
        free_of(probe_head(prefix, a, b), '\n'),
        probe_head(prefix, a, b).len() == prefix.len() + 8 + a.len() + 1 + b.len() + 1,
        probe_head(prefix, a, b).subrange(prefix.len() as int, prefix.len() as int + 8)
            == version_mark(),
        probe_head(prefix, a, b).subrange(
            prefix.len() as int + 8,
            prefix.len() as int + 9 + a.len() as int + b.len() as int,
        ) == a + dot_mark() + b,
        free_of(a + dot_mark() + b, ')'),
        probe_head(prefix, a, b)[prefix.len() as int + 9 + a.len() as int + b.len() as int]
            == ')',
        probe_head(prefix, a, b).subrange(0, prefix.len() as int) == prefix,
{
    let h = probe_head(prefix, a, b);
    let v = a + dot_mark() + b;
    let p = prefix.len() as int;
    let m = p + 8 + v.len();
    assert(h =~= prefix + version_mark() + v + close_mark());
    assert(h.subrange(p, p + 8) =~= version_mark());
    assert(h.subrange(p + 8, m) =~= v);
    assert(h.subrange(0, p) =~= prefix);
    assert forall|k: int| 0 <= k < v.len() implies v[k] != ')' && v[k] != '\n' by {
        if k < a.len() {
            assert(v[k] == a[k]);
        } else if k > a.len() {
            assert(v[k] == b[k - a.len() - 1]);
        }
    }
    assert forall|k: int| 0 <= k < h.len() implies h[k] != '\n' by {
        if k < p {
            assert(h[k] == prefix[k]);
        } else if k < p + 8 {
            assert(h[k] == version_mark()[k - p]);
        } else if k < m {
            assert(h[k] == v[k - p - 8]);
        }
    }
}

proof fn lemma_first_line(h: Seq<char>, rest: Seq<char>) -> (j: int)
    requires
        free_of(h, '\n'),
    ensures
        0 <= j <= rest.len(),
        line_end(h + rest, 0) == h.len() + j,
        (h + rest).subrange(0, h.len() + j).subrange(0, h.len() as int) == h,
{
    let s = h + rest;
    let r = h.len() as int;
    lemma_find_from_bounds(rest, newline_mark(), 0);
    let j = match find_from(rest, newline_mark(), 0) {
        Some(j) => j,
        None => rest.len() as int,
    };
    assert forall|k: int| 0 <= k < r + j implies s[k] != '\n' by {
        if k >= r {
            crate::text::lemma_occurs_single(rest, '\n', k - r);
            assert(s[k] == rest[k - r]);
        }
    }
    if j < rest.len() {
        crate::text::lemma_occurs_single(rest, '\n', j);
        assert(s[r + j] == rest[j]);
    }
    lemma_find_single(s, '\n', 0, r + j);
    assert(s.subrange(0, r + j).subrange(0, r) =~= h);
    j
}

proof fn lemma_line_of_head(prefix: Seq<char>, a: Seq<char>, b: Seq<char>, line: Seq<char>)
    requires
        contains(prefix, product_mark()),
        free_of(prefix, '\n'),
        plain_segment(a),
        plain_segment(b),
        line.len() >= probe_head(prefix, a, b).len(),
        line.subrange(0, probe_head(prefix, a, b).len() as int) == probe_head(prefix, a, b),
        forall|k: int| 0 <= k < prefix.len() ==> !occurs_at(line, version_mark(), k),
    ensures
        line_verdict(line) == Some(version_text_verdict(a + dot_mark() + b)),
{
    let h = probe_head(prefix, a, b);
    lemma_head_shape(prefix, a, b);
    let v = a + dot_mark() + b;
    let p = prefix.len() as int;
    let st = p + 8;
    let m = st + v.len();
    assert forall|k: int| 0 <= k < h.len() implies line[k] == h[k] by {
        assert(line.subrange(0, h.len() as int)[k] == line[k]);
    }
    // the product name stands in it
    lemma_find_from_bounds(prefix, product_mark(), 0);
    let i = find_from(prefix, product_mark(), 0)->0;
    assert(line.subrange(i, i + 5) =~= prefix.subrange(i, i + 5)) by {
        assert forall|k: int| i <= k < i + 5 implies line[k] == prefix[k] by {
            assert(h.subrange(0, p)[k] == h[k]);
        }
    }
    assert(occurs_at(line, product_mark(), i));
    lemma_find_from_bounds(line, product_mark(), 0);
    assert(contains(line, product_mark()));
    // the version marker first stands right after the prefix
    assert(line.subrange(p, p + 8) =~= version_mark()) by {
        assert forall|k: int| p <= k < p + 8 implies line[k] == version_mark()[k - p] by {
            assert(h.subrange(p, p + 8)[k - p] == h[k]);
        }
    }
    lemma_find_first(line, version_mark(), 0, p);
    assert(find_from(line, version_mark(), 0) == Some(p));
    // the closing parenthesis follows the two segments
    assert forall|k: int| st <= k < m implies line[k] != ')' by {
        assert(h.subrange(st, m)[k - st] == h[k]);
        assert(v[k - st] != ')');
    }
    assert(line[m] == ')');
    lemma_find_single(line, ')', st, m);
    assert(find_from(line, close_mark(), st) == Some(m));
    assert(line.subrange(st, m) =~= v) by {
        assert forall|k: int| st <= k < m implies line[k] == v[k - st] by {
            assert(h.subrange(st, m)[k - st] == h[k]);
        }
    }
}

proof fn lemma_output_first_line(s: Seq<char>)
    requires
        s.len() > 0,
        line_verdict(s.subrange(0, line_end(s, 0))) is Some,
    ensures
        output_verdict(s, 0) == line_verdict(s.subrange(0, line_end(s, 0)))->0,
{
}

proof fn lemma_prefix_occurrences(s: Seq<char>, line: Seq<char>, p: int)
    requires
        line.len() <= s.len(),
        line == s.subrange(0, line.len() as int),
        forall|k: int| 0 <= k < p ==> !occurs_at(s, version_mark(), k),
    ensures
        forall|k: int| 0 <= k < p ==> !occurs_at(line, version_mark(), k),
{
    assert forall|k: int| 0 <= k < p implies !occurs_at(line, version_mark(), k) by {
        assert(!occurs_at(s, version_mark(), k));
        assert(version_mark().len() == 8);
        if occurs_at(line, version_mark(), k) {
            assert(line.subrange(k, k + 8) =~= s.subrange(k, k + 8));
        }
    }
}

proof fn lemma_probe_line_verdict(prefix: Seq<char>, a: Seq<char>, b: Seq<char>, rest: Seq<char>)
    requires
        well_formed_prefix(prefix, probe_line(prefix, a, b, rest)),
        plain_segment(a),
        plain_segment(b),
    ensures
        output_verdict(probe_line(prefix, a, b, rest), 0) == version_text_verdict(
            a + dot_mark() + b,
        ),
{
    let h = probe_head(prefix, a, b);
    let s = probe_line(prefix, a, b, rest);
    assert(s == h + rest);
    lemma_head_shape(prefix, a, b);
    let j = lemma_first_line(h, rest);
    let line = s.subrange(0, h.len() + j);
    assert(line.subrange(0, h.len() as int) == h);
    lemma_prefix_occurrences(s, line, prefix.len() as int);
    lemma_line_of_head(prefix, a, b, line);
    lemma_output_first_line(s);
}

/// Every well-formed version line reads as the numbers written in it.
pub proof fn lemma_well_formed_line_parses(prefix: Seq<char>, major: u32, minor: u32, rest: Seq<char>)
    requires
        well_formed_prefix(
            prefix,
            probe_line(prefix, decimal(major as nat), decimal(minor as nat), rest),
        ),
    ensures
        output_verdict(probe_line(prefix, decimal(major as nat), decimal(minor as nat), rest), 0)
            == Ok::<(u32, u32), Seq<char>>((major, minor)),
{
    lemma_decimal_digits(major as nat);
    lemma_decimal_digits(minor as nat);
    lemma_parse_decimal(major);
    lemma_parse_decimal(minor);
    lemma_probe_line_verdict(prefix, decimal(major as nat), decimal(minor as nat), rest);
    lemma_segments_verdict(decimal(major as nat), decimal(minor as nat));
}

/// A version line whose major or minor segment is not a number fails.
pub proof fn lemma_non_numeric_segment_fails(prefix: Seq<char>, a: Seq<char>, b: Seq<char>, rest: Seq<char>)
    requires
        well_formed_prefix(prefix, probe_line(prefix, a, b, rest)),
        plain_segment(a),
        plain_segment(b),
        parse_u32(a) is Err || parse_u32(b) is Err,
    ensures
        output_verdict(probe_line(prefix, a, b, rest), 0) is Err,
{
    lemma_probe_line_verdict(prefix, a, b, rest);
    lemma_segments_verdict(a, b);
}

/// Output of one line without the version marker fails.
pub proof fn lemma_line_without_marker_fails(s: Seq<char>)
    requires
        free_of(s, '\n'),
        find_from(s, version_mark(), 0) is None,
    ensures
        output_verdict(s, 0) is Err,
{
    lemma_find_single(s, '\n', 0, s.len() as int);
    assert(s.subrange(0, s.len() as int) =~= s);
    if s.len() > 0 {
        assert(output_verdict(s, 0) == output_verdict(s, s.len() as int + 1));
    }
}

} // verus!
