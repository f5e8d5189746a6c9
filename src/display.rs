//! The texts that the interactive list and the messages are made of:
//! truncation to a display width, line-number labels, and the header,
//! notice and pager argument.

use vstd::prelude::*;

use crate::chars::{chars_of, push_char, push_str_chars, string_of};
use crate::search::Match;

verus! {

/// The widest a line of the list is shown, in characters.
pub const MAX_DISPLAY_WIDTH: usize = 100;

/// The width that line numbers are padded to.
pub const LABEL_WIDTH: usize = 4;

/// The marker put at the end of a truncated line.
pub open spec fn ellipsis() -> Seq<char> {
    seq!['.', '.', '.']
}

/// `s` as shown in at most `max_len` characters: a longer line keeps its
/// first `max_len - 3` characters and ends with the ellipsis.
pub open spec fn truncated(s: Seq<char>, max_len: nat) -> Seq<char> {
    if s.len() > max_len {
        s.subrange(0, max_len - 3) + ellipsis()
    } else {
        s
    }
}

/// Cuts `s` to at most `max_len` characters, ending a cut line with `...`;
/// a line of at most `max_len` characters is returned as it is.
pub fn truncate(s: &str, max_len: usize) -> (r: String)
    requires
        max_len >= 3,
    ensures
        r@ == truncated(s@, max_len as nat),
{
    let v = chars_of(s);
    if v.len() > max_len {
        let mut r = string_of(v.as_slice(), 0, max_len - 3);
        push_char(&mut r, '.');
        push_char(&mut r, '.');
        push_char(&mut r, '.');
        proof {
            assert(r@ =~= s@.subrange(0, max_len - 3) + ellipsis());
        }
        r
    } else {
        string_of(v.as_slice(), 0, v.len())
    }
}

/// A line one character over the limit comes out exactly at the limit,
/// ellipsis included; a line at the limit is untouched; no line comes out
/// longer than the limit.
pub proof fn lemma_truncate_bounds(s: Seq<char>, max_len: nat)
    requires
        max_len >= 3,
    ensures
        truncated(s, max_len).len() <= max_len,
        s.len() == max_len + 1 ==> truncated(s, max_len).len() == max_len,
        s.len() <= max_len ==> truncated(s, max_len) == s,
{
}

/// The decimal digits, in order.
pub open spec fn digits() -> Seq<char> {
    seq!['0', '1', '2', '3', '4', '5', '6', '7', '8', '9']
}

/// The decimal form of `n`, without leading zeros.
pub open spec fn decimal(n: nat) -> Seq<char>
    decreases n,
{
    if n < 10 {
        seq![digits()[n as int]]
    } else {
        decimal(n / 10).push(digits()[(n % 10) as int])
    }
}

/// `s` right-aligned in `width` characters with spaces in front.
pub open spec fn padded(s: Seq<char>, width: nat) -> Seq<char> {
    if s.len() >= width {
        s
    } else {
        Seq::new((width - s.len()) as nat, |i: int| ' ') + s
    }
}

/// The decimal form of `n`.
pub fn decimal_string(n: usize) -> (r: String)
    ensures
        r@ == decimal(n as nat),
{
    let table = ['0', '1', '2', '3', '4', '5', '6', '7', '8', '9'];
    proof {
        assert(table@ =~= digits());
    }
    let mut tail: Vec<char> = Vec::new();
    let mut m: usize = n;
    proof {
        assert(decimal(n as nat) =~= decimal(m as nat) + tail@);
    }
    while m >= 10
        invariant
            table@ == digits(),
            decimal(n as nat) == decimal(m as nat) + tail@,
        decreases m,
    {
        let d = table[m % 10];
        let ghost old_tail = tail@;
        tail.insert(0, d);
        proof {
            assert(tail@ =~= seq![d] + old_tail);
            assert(decimal(m as nat) == decimal((m / 10) as nat).push(d));
            assert(decimal(m as nat) + old_tail =~= decimal((m / 10) as nat) + tail@);
        }
        m = m / 10;
    }
    let mut r = String::new();
    push_char(&mut r, table[m]);
    let rest = string_of(tail.as_slice(), 0, tail.len());
    push_str_chars(&mut r, rest.as_str());
    proof {
        assert(tail@.subrange(0, tail@.len() as int) =~= tail@);
        assert(seq![digits()[m as int]] =~= Seq::<char>::empty().push(table@[m as int]));
    }
    r
}

/// `s` right-aligned in `width` characters.
pub fn pad_left(s: &str, width: usize) -> (r: String)
    ensures
        r@ == padded(s@, width as nat),
{
    let len = chars_of(s).len();
    let mut r = String::new();
    let mut k: usize = len;
    while k < width
        invariant
            len == s@.len(),
            len <= k,
            len <= width ==> k <= width,
            len >= width ==> k == len,
            r@ == Seq::new((k - len) as nat, |i: int| ' '),
        decreases width - k,
    {
        push_char(&mut r, ' ');
        proof {
            assert(r@ =~= Seq::new((k + 1 - len) as nat, |i: int| ' '));
        }
        k = k + 1;
    }
    push_str_chars(&mut r, s);
    proof {
        if len >= width {
            assert(r@ =~= s@);
        } else {
            assert(r@ =~= padded(s@, width as nat));
        }
    }
    r
}

/// The label in front of a context line: two spaces, the line number padded
/// to four places, a space.
pub open spec fn context_label_text(n: nat) -> Seq<char> {
    seq![' ', ' '] + padded(decimal(n), LABEL_WIDTH as nat) + seq![' ']
}

/// The label in front of a matching line: the marker, a space, the line
/// number padded to four places, a space.
pub open spec fn match_label_text(n: nat) -> Seq<char> {
    seq!['\u{25b6}', ' '] + padded(decimal(n), LABEL_WIDTH as nat) + seq![' ']
}

/// The label of a context line with number `n`.
pub fn context_label(n: usize) -> (r: String)
    ensures
        r@ == context_label_text(n as nat),
{
    let mut r = String::new();
    push_char(&mut r, ' ');
    push_char(&mut r, ' ');
    let number = pad_left(decimal_string(n).as_str(), LABEL_WIDTH);
    push_str_chars(&mut r, number.as_str());
    push_char(&mut r, ' ');
    proof {
        assert(r@ =~= context_label_text(n as nat));
    }
    r
}

/// The label of a matching line with number `n`.
pub fn match_label(n: usize) -> (r: String)
    ensures
        r@ == match_label_text(n as nat),
{
    let mut r = String::new();
    push_char(&mut r, '\u{25b6}');
    push_char(&mut r, ' ');
    let number = pad_left(decimal_string(n).as_str(), LABEL_WIDTH);
    push_str_chars(&mut r, number.as_str());
    push_char(&mut r, ' ');
    proof {
        assert(r@ =~= match_label_text(n as nat));
    }
    r
}

/// The header of the list: how many matches, for which term, in which page.
pub open spec fn header_spec(count: nat, term: Seq<char>, program: Seq<char>) -> Seq<char> {
    "Found "@ + decimal(count) + " matches for '"@ + term + "' in '"@ + program + "' man page"@
}

/// The header of the list.
pub fn header_text(count: usize, term: &str, program: &str) -> (r: String)
    ensures
        r@ == header_spec(count as nat, term@, program@),
{
    let mut r = String::new();
    push_str_chars(&mut r, "Found ");
    push_str_chars(&mut r, decimal_string(count).as_str());
    push_str_chars(&mut r, " matches for '");
    push_str_chars(&mut r, term);
    push_str_chars(&mut r, "' in '");
    push_str_chars(&mut r, program);
    push_str_chars(&mut r, "' man page");
    proof {
        assert(r@ =~= header_spec(count as nat, term@, program@));
    }
    r
}

/// What is printed when a search finds nothing.
pub open spec fn no_matches_spec(term: Seq<char>, program: Seq<char>) -> Seq<char> {
    "No matches found for '"@ + term + "' in man page for '"@ + program + "'"@
}

/// The notice for a search that found `count` matches: present exactly when
/// there are none, in which case no list is shown.
pub fn no_matches_notice(count: usize, term: &str, program: &str) -> (r: Option<String>)
    ensures
        r is Some <==> count == 0,
        r matches Some(t) ==> t@ == no_matches_spec(term@, program@),
{
    if count > 0 {
        return None;
    }
    let mut r = String::new();
    push_str_chars(&mut r, "No matches found for '");
    push_str_chars(&mut r, term);
    push_str_chars(&mut r, "' in man page for '");
    push_str_chars(&mut r, program);
    push_str_chars(&mut r, "'");
    proof {
        assert(r@ =~= no_matches_spec(term@, program@));
    }
    Some(r)
}

/// The pager command that opens a page at line `n`.
pub open spec fn pager_spec(n: nat) -> Seq<char> {
    "less +"@ + decimal(n) + "G"@
}

/// The pager command that opens a page at line `line_number`.
pub fn pager_argument(line_number: usize) -> (r: String)
    ensures
        r@ == pager_spec(line_number as nat),
{
    let mut r = String::new();
    push_str_chars(&mut r, "less +");
    push_str_chars(&mut r, decimal_string(line_number).as_str());
    push_str_chars(&mut r, "G");
    proof {
        assert(r@ =~= pager_spec(line_number as nat));
    }
    r
}

/// How a match is shown: the context line, if any, with its label, and the
/// matching line with its label, each cut to `width` characters.
pub struct EntryText {
    pub context: Option<(String, String)>,
    pub matched: (String, String),
}

/// The texts that show `m` in the list, lines cut to `width` characters.
pub fn entry_text(m: &Match, width: usize) -> (r: EntryText)
    requires
        width >= 3,
        m.context_before is Some ==> m.line_number >= 1,
    ensures
        r.context is Some <==> m.context_before is Some,
        r.context matches Some((label, text)) ==> label@ == context_label_text(
            (m.line_number - 1) as nat,
        ) && text@ == truncated(m.context_before->0@, width as nat),
        r.matched.0@ == match_label_text(m.line_number as nat),
        r.matched.1@ == truncated(m.content@, width as nat),
{
    let context = match &m.context_before {
        Some(c) => Some((context_label(m.line_number - 1), truncate(c.as_str(), width))),
        None => None,
    };
    EntryText {
        context,
        matched: (match_label(m.line_number), truncate(m.content.as_str(), width)),
    }
}

} // verus!
