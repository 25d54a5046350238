//! Formatting of execution results for the client.
//!
//! The two captured streams are combined into one text blob, which is then
//! truncated to a byte ceiling on a character boundary; when something was cut
//! a marker is appended, once, at the end. A non-zero exit code marks the
//! whole result as an error.

use vstd::prelude::*;

verus! {

use vstd::string::{StringSliceAdditionalSpecFns, StringExecFns};
use vstd::utf8::{encode_utf8, is_char_boundary, valid_utf8};

/// Ceiling on the text returned to the client: 1 MiB.
pub const MAX_OUTPUT_SIZE: usize = 1024 * 1024;

/// The marker appended when the output was cut off.
pub open spec fn spec_marker() -> Seq<char> {
    "\n\n[truncated — output exceeded 1MB]"@
}

/// The largest character boundary at or below `limit`.
pub open spec fn spec_cut(bytes: Seq<u8>, limit: int) -> int
    decreases limit,
{
    if limit <= 0 {
        0
    } else if is_char_boundary(bytes, limit) {
        limit
    } else {
        spec_cut(bytes, limit - 1)
    }
}

/// The cut point is a character boundary between zero and the limit.
pub proof fn lemma_spec_cut(bytes: Seq<u8>, limit: int)
    requires
        limit >= 0,
        valid_utf8(bytes),
    ensures
        0 <= spec_cut(bytes, limit) <= limit,
        is_char_boundary(bytes, spec_cut(bytes, limit)),
    decreases limit,
{
    if limit > 0 && !is_char_boundary(bytes, limit) {
        lemma_spec_cut(bytes, limit - 1);
    }
}

/// UTF-8 encoding distributes over concatenation of character sequences.
proof fn lemma_encode_utf8_concat(a: Seq<char>, b: Seq<char>)
    ensures
        encode_utf8(a + b) == encode_utf8(a) + encode_utf8(b),
    decreases a.len(),
{
    if a.len() == 0 {
        assert(a + b =~= b);
        assert(encode_utf8(a) + encode_utf8(b) =~= encode_utf8(b));
    } else {
        assert((a + b).drop_first() =~= a.drop_first() + b);
        lemma_encode_utf8_concat(a.drop_first(), b);
        assert(vstd::utf8::encode_scalar((a + b)[0] as u32) + (encode_utf8(a.drop_first())
            + encode_utf8(b)) =~= (vstd::utf8::encode_scalar(a[0] as u32) + encode_utf8(
            a.drop_first(),
        )) + encode_utf8(b));
    }
}

/// Truncate a string to a byte ceiling, cutting at a character boundary and
/// appending the marker if anything was cut. A string within the ceiling is
/// returned unchanged.
pub fn truncate_output(s: &str, max_bytes: usize) -> (r: String)
    ensures
        s.spec_bytes().len() <= max_bytes ==> r@ == s@,
        s.spec_bytes().len() > max_bytes ==> encode_utf8(r@) == s.spec_bytes().subrange(
            0,
            spec_cut(s.spec_bytes(), max_bytes as int),
        ) + encode_utf8(spec_marker()),
{
    proof {
        broadcast use vstd::utf8::encode_utf8_valid_utf8;

        assert(valid_utf8(s.spec_bytes()));
    }
    let nbytes = s.as_bytes().len();
    if nbytes <= max_bytes {
        return s.to_owned();
    }
    let mut end: usize = max_bytes;
    while end > 0 && !s.is_char_boundary(end)
        invariant
            end <= max_bytes,
            spec_cut(s.spec_bytes(), max_bytes as int) == spec_cut(s.spec_bytes(), end as int),
        decreases end,
    {
        end = end - 1;
    }
    assert(is_char_boundary(s.spec_bytes(), end as int)) by {
        broadcast use vstd::utf8::encode_utf8_valid_utf8;

    }
    assert(spec_cut(s.spec_bytes(), end as int) == end);
    let (prefix, _) = s.split_at(end);
    let mut out = prefix.to_owned();
    out.append("\n\n[truncated — output exceeded 1MB]");
    proof {
        lemma_encode_utf8_concat(prefix@, spec_marker());
        assert(encode_utf8(out@) =~= s.spec_bytes().subrange(
            0,
            spec_cut(s.spec_bytes(), max_bytes as int),
        ) + encode_utf8(spec_marker()));
    }
    out
}

/// How stdout and stderr are combined into one text blob: whichever stream is
/// empty is left out; when both carry text, stderr follows stdout under a
/// divider.
pub open spec fn spec_combined(stdout: Seq<char>, stderr: Seq<char>) -> Seq<char> {
    if stderr.len() == 0 {
        stdout
    } else if stdout.len() == 0 {
        stderr
    } else {
        stdout + "\n--- stderr ---\n"@ + stderr
    }
}

/// An execution result formatted for the client.
#[derive(Debug)]
pub struct FormattedResult {
    /// The combined, possibly truncated text.
    pub text: String,
    /// Whether the result is reported as an error: any non-zero exit code.
    pub is_error: bool,
}

/// Format an execution result: combine the streams, truncate to the output
/// ceiling, and mark any non-zero exit code as an error.
pub fn format_result(exit_code: i32, stdout: String, stderr: String) -> (r: FormattedResult)
    ensures
        r.is_error == (exit_code != 0),
        encode_utf8(spec_combined(stdout@, stderr@)).len() <= MAX_OUTPUT_SIZE ==> r.text@
            == spec_combined(stdout@, stderr@),
        encode_utf8(spec_combined(stdout@, stderr@)).len() > MAX_OUTPUT_SIZE ==> encode_utf8(
            r.text@,
        ) == encode_utf8(spec_combined(stdout@, stderr@)).subrange(
            0,
            spec_cut(encode_utf8(spec_combined(stdout@, stderr@)), MAX_OUTPUT_SIZE as int),
        ) + encode_utf8(spec_marker()),
{
    let output: String = if stderr.as_str().is_empty() {
        stdout
    } else if stdout.as_str().is_empty() {
        stderr
    } else {
        let mut o = stdout;
        o.append("\n--- stderr ---\n");
        o.append(stderr.as_str());
        o
    };
    assert(output@ == spec_combined(stdout@, stderr@));
    let text = truncate_output(output.as_str(), MAX_OUTPUT_SIZE);
    FormattedResult { text, is_error: exit_code != 0 }
}

/// Output truncation, as the client sees it: a formatted text over the
/// ceiling is cut at a character boundary at or below the ceiling, the kept
/// prefix is valid UTF-8 — no character is torn apart — and the marker stands
/// after it exactly once, as `truncate_output`'s contract places it.
pub proof fn lemma_truncation_shape(text: Seq<char>, limit: int)
    requires
        limit >= 0,
        encode_utf8(text).len() > limit,
    ensures
        0 <= spec_cut(encode_utf8(text), limit) <= limit,
        is_char_boundary(encode_utf8(text), spec_cut(encode_utf8(text), limit)),
        valid_utf8(encode_utf8(text).subrange(0, spec_cut(encode_utf8(text), limit))),
{
    broadcast use vstd::utf8::encode_utf8_valid_utf8;

    let bytes = encode_utf8(text);
    lemma_spec_cut(bytes, limit);
    vstd::utf8::valid_utf8_split(bytes, spec_cut(bytes, limit));
    assert(valid_utf8(bytes.subrange(0, spec_cut(bytes, limit))));
}

} // verus!
