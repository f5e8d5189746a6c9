//! Cleaning a renderer's plain-text output: overstrike sequences (a character
//! followed by a backspace, which renderers use for bold and underline) and
//! the remaining control characters are removed, newlines and tabs are kept.

use vstd::prelude::*;

use crate::chars::{chars_of, string_of};

verus! {

/// The pattern handed to the regex engine: any character but a newline,
/// then a backspace.
pub open spec fn overstrike_pattern() -> Seq<char> {
    seq!['.', '\\', 'x', '0', '8']
}

/// An overstrike sequence starts at `i`: a character other than a newline,
/// followed by a backspace.
pub open spec fn overstrike_at(s: Seq<char>, i: int) -> bool {
    0 <= i && i + 1 < s.len() && s[i] != '\n' && s[i + 1] == '\x08'
}

/// `s` with its overstrike sequences deleted, scanning from the left: where
/// one starts, its two characters go and the scan resumes after them.
pub open spec fn without_overstrikes(s: Seq<char>) -> Seq<char>
    decreases s.len(),
{
    if s.len() == 0 {
        s
    } else if overstrike_at(s, 0) {
        without_overstrikes(s.subrange(2, s.len() as int))
    } else {
        seq![s[0]] + without_overstrikes(s.drop_first())
    }
}

/// A control character: general category Cc, that is U+0000 to U+001F and
/// U+007F to U+009F.
pub open spec fn is_control(c: char) -> bool {
    (c as u32) <= 0x1f || (0x7f <= (c as u32) && (c as u32) <= 0x9f)
}

/// The characters that survive the second step.
pub open spec fn is_kept(c: char) -> bool {
    c == '\n' || c == '\t' || !is_control(c)
}

/// `s` without the characters that are not kept, in order.
pub open spec fn keep_printable(s: Seq<char>) -> Seq<char>
    decreases s.len(),
{
    if s.len() == 0 {
        s
    } else if is_kept(s[0]) {
        seq![s[0]] + keep_printable(s.drop_first())
    } else {
        keep_printable(s.drop_first())
    }
}

/// The clean text of a raw rendering.
pub open spec fn sanitized(s: Seq<char>) -> Seq<char> {
    keep_printable(without_overstrikes(s))
}

/// The number of newline characters in `s`.
pub open spec fn newline_count(s: Seq<char>) -> nat
    decreases s.len(),
{
    if s.len() == 0 {
        0
    } else {
        (if s[0] == '\n' { 1nat } else { 0nat }) + newline_count(s.drop_first())
    }
}

/// Relies on `regex::Regex::new` and `regex::Regex::replace_all`: the pattern
/// `.\x08` compiles, `.` matches any character but a newline, and every
/// leftmost non-overlapping match is replaced by the empty string.
#[verifier::external_body]
fn delete_overstrikes(pattern: &str, text: &str) -> (r: String)
    requires
        pattern@ == overstrike_pattern(),
    ensures
        r@ == without_overstrikes(text@),
{
    regex::Regex::new(pattern).unwrap().replace_all(text, "").into_owned()
}

/// Whether `c` survives the removal of control characters.
pub fn is_kept_char(c: char) -> (r: bool)
    ensures
        r == is_kept(c),
{
    let u = c as u32;
    c == '\n' || c == '\t' || !(u <= 0x1f || (0x7f <= u && u <= 0x9f))
}

/// Removes every control character but newline and tab.
pub fn remove_control_chars(text: &str) -> (r: String)
    ensures
        r@ == keep_printable(text@),
{
    let v = chars_of(text);
    let mut kept: Vec<char> = Vec::new();
    let mut i: usize = 0;
    proof {
        assert(text@.skip(0) =~= text@);
        assert(kept@ + keep_printable(text@) =~= keep_printable(text@));
    }
    while i < v.len()
        invariant
            i <= v@.len(),
            v@ == text@,
            keep_printable(text@) == kept@ + keep_printable(text@.skip(i as int)),
        decreases v@.len() - i,
    {
        let c = v[i];
        proof {
            assert(text@.skip(i as int).drop_first() =~= text@.skip(i + 1));
        }
        if is_kept_char(c) {
            kept.push(c);
            proof {
                assert(kept@ + keep_printable(text@.skip(i + 1)) =~= kept@.drop_last() + (seq![c]
                    + keep_printable(text@.skip(i + 1))));
            }
        }
        i = i + 1;
    }
    proof {
        assert(text@.skip(i as int) =~= Seq::<char>::empty());
        assert(kept@ + Seq::<char>::empty() =~= kept@);
    }
    string_of(kept.as_slice(), 0, kept.len())
}

/// The clean text of a raw rendering: overstrike sequences are deleted, then
/// every control character but newline and tab. Never fails.
pub fn strip_control_chars(text: &str) -> (r: String)
    ensures
        r@ == sanitized(text@),
        newline_count(r@) == newline_count(text@),
{
    let pattern = ".\\x08";
    proof {
        reveal_strlit(".\\x08");
        assert(pattern@ =~= overstrike_pattern());
    }
    let cleaned = delete_overstrikes(pattern, text);
    let r = remove_control_chars(cleaned.as_str());
    proof {
        lemma_sanitize_keeps_line_count(text@);
    }
    r
}

proof fn lemma_overstrikes_keep_newlines(s: Seq<char>)
    ensures
        newline_count(without_overstrikes(s)) == newline_count(s),
    decreases s.len(),
{
    if s.len() == 0 {
    } else if overstrike_at(s, 0) {
        let rest = s.subrange(2, s.len() as int);
        lemma_overstrikes_keep_newlines(rest);
        assert(s.drop_first().drop_first() =~= rest);
        assert(newline_count(s.drop_first()) == newline_count(rest));
    } else {
        let t = without_overstrikes(s.drop_first());
        lemma_overstrikes_keep_newlines(s.drop_first());
        assert((seq![s[0]] + t).drop_first() =~= t);
    }
}

proof fn lemma_keep_printable_keeps_newlines(s: Seq<char>)
    ensures
        newline_count(keep_printable(s)) == newline_count(s),
    decreases s.len(),
{
    if s.len() > 0 {
        lemma_keep_printable_keeps_newlines(s.drop_first());
        let t = keep_printable(s.drop_first());
        assert((seq![s[0]] + t).drop_first() =~= t);
    }
}

/// Cleaning never changes the number of lines: every newline of the raw text
/// is kept, and nothing else becomes one.
pub proof fn lemma_sanitize_keeps_line_count(s: Seq<char>)
    ensures
        newline_count(sanitized(s)) == newline_count(s),
{
    lemma_overstrikes_keep_newlines(s);
    lemma_keep_printable_keeps_newlines(without_overstrikes(s));
}

proof fn lemma_keep_printable_only_kept(s: Seq<char>)
    ensures
        forall|i: int| 0 <= i < keep_printable(s).len() ==> is_kept(#[trigger] keep_printable(s)[i]),
    decreases s.len(),
{
    if s.len() > 0 {
        lemma_keep_printable_only_kept(s.drop_first());
        let t = keep_printable(s.drop_first());
        if is_kept(s[0]) {
            assert forall|i: int| 0 <= i < keep_printable(s).len() implies is_kept(
                #[trigger] keep_printable(s)[i],
            ) by {
                if i > 0 {
                    assert(keep_printable(s)[i] == t[i - 1]);
                }
            }
        }
    }
}

proof fn lemma_all_kept_unchanged(s: Seq<char>)
    requires
        forall|i: int| 0 <= i < s.len() ==> is_kept(#[trigger] s[i]),
    ensures
        keep_printable(s) == s,
        without_overstrikes(s) == s,
    decreases s.len(),
{
    if s.len() > 0 {
        lemma_all_kept_unchanged(s.drop_first());
        assert(is_kept(s[0]));
        if s.len() > 1 {
            assert(is_kept(s[1]));
        }
        assert(seq![s[0]] + s.drop_first() =~= s);
    }
}

/// Cleaning leaves no overstrike sequence behind, so that deleting them once
/// more changes nothing, and cleaning clean text changes nothing either.
pub proof fn lemma_sanitize_idempotent(s: Seq<char>)
    ensures
        without_overstrikes(sanitized(s)) == sanitized(s),
        forall|i: int| !overstrike_at(sanitized(s), i),
        sanitized(sanitized(s)) == sanitized(s),
{
    let t = sanitized(s);
    lemma_keep_printable_only_kept(without_overstrikes(s));
    lemma_all_kept_unchanged(t);
    assert forall|i: int| !overstrike_at(t, i) by {
        if overstrike_at(t, i) {
            assert(is_kept(t[i + 1]));
        }
    }
}

} // verus!
