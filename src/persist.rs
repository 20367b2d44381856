//! What the seed persister computes before it touches storage: the file's
//! location and the exact text written there.

use vstd::prelude::*;

verus! {

/// Whether `c` ends a line.
pub open spec fn is_line_ending(c: char) -> bool {
    c == '\r' || c == '\n'
}

/// Whether `c` ends a line.
fn is_line_end(c: char) -> (r: bool)
    ensures
        r == is_line_ending(c),
{
    c == '\r' || c == '\n'
}

/// `s` without its trailing line-ending characters.
pub open spec fn trimmed_line_endings(s: Seq<char>) -> Seq<char>
    decreases s.len(),
{
    if s.len() > 0 && is_line_ending(s.last()) {
        trimmed_line_endings(s.drop_last())
    } else {
        s
    }
}

/// The content written to the seed file: `content` with every trailing
/// carriage return and line feed removed.
pub fn trim_line_endings(content: &str) -> (r: String)
    ensures
        r@ == trimmed_line_endings(content@),
{
    let mut end: usize = content.unicode_len();
    assert(content@.take(end as int) =~= content@);
    while end > 0 && is_line_end(content.get_char(end - 1))
        invariant
            end <= content@.len(),
            trimmed_line_endings(content@.take(end as int)) == trimmed_line_endings(content@),
        decreases end,
    {
        assert(content@.take(end as int).drop_last() =~= content@.take(end as int - 1));
        end -= 1;
    }
    proof {
        let t = content@.take(end as int);
        if end > 0 {
            assert(t.last() == content@[end as int - 1]);
        }
        assert(trimmed_line_endings(t) == t);
        if end == content@.len() {
            assert(t =~= content@);
        }
    }
    String::from_str(content.substring_char(0, end))
}

/// The seed file's location: the file name inside the directory.
pub fn seed_location(dir: &str, file_name: &str) -> (r: String)
    ensures
        r@ == dir@ + "/"@ + file_name@,
{
    let mut r = String::from_str(dir);
    r.append("/");
    r.append(file_name);
    r
}

} // verus!
