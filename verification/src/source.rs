//! Comment stripping: on every line of the program text, everything from the
//! first `#` to the end of the line is removed. Line breaks themselves are
//! dropped as well (they are no-ops to the engine), and a carriage return
//! that ends a line together with a line feed goes with it.

use vstd::prelude::*;

verus! {

/// The program text from position `i` on, with comments removed, given
/// whether position `i` is already inside a comment.
pub open spec fn strip_from(s: Seq<char>, i: int, in_comment: bool) -> Seq<char>
    decreases s.len() - i,
{
    if i < 0 || i >= s.len() {
        Seq::empty()
    } else if s[i] == '\n' {
        strip_from(s, i + 1, false)
    } else if in_comment {
        strip_from(s, i + 1, true)
    } else if s[i] == '#' {
        strip_from(s, i + 1, true)
    } else if s[i] == '\r' && i + 1 < s.len() && s[i + 1] == '\n' {
        strip_from(s, i + 1, false)
    } else {
        seq![s[i]] + strip_from(s, i + 1, false)
    }
}

/// The whole program text with comments removed.
pub open spec fn stripped(s: Seq<char>) -> Seq<char> {
    strip_from(s, 0, false)
}

/// Removes single-line comments from every line of the code. Single-line
/// comments begin with a '#'.
pub fn remove_comments(string: &Vec<char>) -> (r: Vec<char>)
    ensures
        r@ == stripped(string@),
{
    let mut out: Vec<char> = Vec::new();
    let mut in_comment: bool = false;
    let n: usize = string.len();
    let mut i: usize = 0;
    while i < n
        invariant
            n == string@.len(),
            i <= n,
            stripped(string@) == out@ + strip_from(string@, i as int, in_comment),
        decreases n - i,
    {
        let ghost prev_out = out@;
        let ghost prev_flag = in_comment;
        let c = string[i];
        if c == '\n' {
            in_comment = false;
        } else if in_comment {
        } else if c == '#' {
            in_comment = true;
        } else if c == '\r' && i + 1 < n && string[i + 1] == '\n' {
        } else {
            out.push(c);
        }
        proof {
            assert(prev_out + strip_from(string@, i as int, prev_flag) =~= out@ + strip_from(
                string@,
                i + 1,
                in_comment,
            ));
        }
        i += 1;
    }
    proof {
        assert(out@ + strip_from(string@, n as int, in_comment) =~= out@);
    }
    out
}

} // verus!
