//! Small verified text helpers: ASCII whitespace trimming and string
//! concatenation for default file names.

use vstd::prelude::*;
use vstd::string::StrSliceExecFns;
use vstd::string::StringExecFns;

verus! {

/// Whether a character is ASCII whitespace.
pub open spec fn is_ascii_ws(c: char) -> bool {
    c == ' ' || c == '\t' || c == '\n' || c == '\r'
}

/// The index of the first non-whitespace character (the length if none).
pub open spec fn spec_ws_start(s: Seq<char>) -> int
    decreases s.len(),
{
    if s.len() == 0 {
        0
    } else if !is_ascii_ws(s[0]) {
        0
    } else {
        1 + spec_ws_start(s.drop_first())
    }
}

/// One past the index of the last non-whitespace character (zero if none).
pub open spec fn spec_ws_end(s: Seq<char>) -> int
    decreases s.len(),
{
    if s.len() == 0 {
        0
    } else if !is_ascii_ws(s.last()) {
        s.len() as int
    } else {
        spec_ws_end(s.drop_last())
    }
}

/// The string with ASCII whitespace removed from both ends.
pub open spec fn spec_trimmed(s: Seq<char>) -> Seq<char> {
    let start = spec_ws_start(s);
    let end = spec_ws_end(s);
    if start < end {
        s.subrange(start, end)
    } else {
        Seq::empty()
    }
}

proof fn lemma_ws_start_bounds(s: Seq<char>)
    ensures
        0 <= spec_ws_start(s) <= s.len(),
        forall|k: int| 0 <= k < spec_ws_start(s) ==> is_ascii_ws(#[trigger] s[k]),
        spec_ws_start(s) < s.len() ==> !is_ascii_ws(s[spec_ws_start(s)]),
    decreases s.len(),
{
    if s.len() > 0 && is_ascii_ws(s[0]) {
        lemma_ws_start_bounds(s.drop_first());
        let dropped = s.drop_first();
        assert(forall|k: int| 0 < k < s.len() ==> #[trigger] s[k] == dropped[k - 1]);
    }
}

proof fn lemma_ws_end_bounds(s: Seq<char>)
    ensures
        0 <= spec_ws_end(s) <= s.len(),
        forall|k: int| spec_ws_end(s) <= k < s.len() ==> is_ascii_ws(#[trigger] s[k]),
        spec_ws_end(s) > 0 ==> !is_ascii_ws(s[spec_ws_end(s) - 1]),
    decreases s.len(),
{
    if s.len() > 0 && is_ascii_ws(s.last()) {
        lemma_ws_end_bounds(s.drop_last());
        let dropped = s.drop_last();
        assert(forall|k: int| 0 <= k < s.len() - 1 ==> #[trigger] s[k] == dropped[k]);
    }
}

proof fn lemma_ws_start_at(s: Seq<char>, i: int)
    requires
        0 <= i <= s.len(),
        forall|k: int| 0 <= k < i ==> is_ascii_ws(#[trigger] s[k]),
        i < s.len() ==> !is_ascii_ws(s[i]),
    ensures
        spec_ws_start(s) == i,
    decreases i,
{
    if s.len() > 0 && is_ascii_ws(s[0]) {
        let dropped = s.drop_first();
        assert(forall|k: int| 0 < k < s.len() ==> #[trigger] s[k] == dropped[k - 1]);
        assert(forall|k: int| 0 <= k < i - 1 ==> is_ascii_ws(#[trigger] dropped[k]));
        lemma_ws_start_at(dropped, i - 1);
    }
}

proof fn lemma_ws_end_at(s: Seq<char>, i: int)
    requires
        0 <= i <= s.len(),
        forall|k: int| i <= k < s.len() ==> is_ascii_ws(#[trigger] s[k]),
        i > 0 ==> !is_ascii_ws(s[i - 1]),
    ensures
        spec_ws_end(s) == i,
    decreases s.len() - i,
{
    if s.len() > 0 && is_ascii_ws(s.last()) {
        let dropped = s.drop_last();
        assert(forall|k: int| 0 <= k < s.len() - 1 ==> #[trigger] s[k] == dropped[k]);
        lemma_ws_end_at(dropped, i);
    }
}

/// Removes ASCII whitespace from both ends of a string.
pub fn trim_ascii(s: &String) -> (r: String)
    ensures
        r@ == spec_trimmed(s@),
{
    let n = s.as_str().unicode_len();
    let mut start: usize = 0;
    while start < n
        invariant_except_break
            start <= n,
            n as int == s@.len(),
            forall|k: int| 0 <= k < start ==> is_ascii_ws(#[trigger] s@[k]),
        ensures
            start <= n,
            n as int == s@.len(),
            forall|k: int| 0 <= k < start ==> is_ascii_ws(#[trigger] s@[k]),
            start < n ==> !is_ascii_ws(s@[start as int]),
        decreases n - start,
    {
        let c = s.as_str().get_char(start);
        if !(c == ' ' || c == '\t' || c == '\n' || c == '\r') {
            break ;
        }
        start += 1;
    }
    if start == n {
        proof {
            lemma_ws_start_at(s@, n as int);
            lemma_ws_end_bounds(s@);
        }
        return String::new();
    }
    proof {
        lemma_ws_start_at(s@, start as int);
    }
    let mut end: usize = n;
    while end > start + 1
        invariant_except_break
            start < end <= n,
            n as int == s@.len(),
            !is_ascii_ws(s@[start as int]),
            forall|k: int| end <= k < n ==> is_ascii_ws(#[trigger] s@[k]),
        ensures
            start < end <= n,
            n as int == s@.len(),
            !is_ascii_ws(s@[start as int]),
            forall|k: int| end <= k < n ==> is_ascii_ws(#[trigger] s@[k]),
            !is_ascii_ws(s@[end - 1]),
        decreases end,
    {
        let c = s.as_str().get_char(end - 1);
        if !(c == ' ' || c == '\t' || c == '\n' || c == '\r') {
            break ;
        }
        end -= 1;
    }
    proof {
        lemma_ws_end_at(s@, end as int);
    }
    s.as_str().substring_char(start, end).to_owned()
}

/// Builds the default file name for an attachment that was uploaded without
/// one: `<device>-<attachment>.bin`.
pub fn default_file_name(device_id: &String, attachment_id: &String) -> (r: String)
    ensures
        r@ == device_id@ + "-"@ + attachment_id@ + ".bin"@,
{
    let mut out = String::new();
    out.append(device_id.as_str());
    out.append("-");
    out.append(attachment_id.as_str());
    out.append(".bin");
    proof {
        assert(out@ =~= device_id@ + "-"@ + attachment_id@ + ".bin"@);
    }
    out
}

} // verus!
