//! Line-oriented search: the text is split into lines, and every line that
//! holds the term, compared as written or case-folded, becomes a match that
//! carries its 1-based line number and the line before it.

use vstd::prelude::*;

use crate::chars::{chars_of, string_of};

verus! {

/// What `str::to_lowercase` makes of a string.
pub uninterp spec fn lower_of(s: Seq<char>) -> Seq<char>;

/// Relies on `str::to_lowercase`: the result depends on the characters
/// alone, and an empty string stays empty.
#[verifier::external_body]
fn to_lower(s: &str) -> (r: String)
    ensures
        r@ == lower_of(s@),
        s@.len() == 0 ==> r@.len() == 0,
{
    s.to_lowercase()
}

/// The form in which a line or a term is compared.
pub open spec fn folded(case_sensitive: bool, s: Seq<char>) -> Seq<char> {
    if case_sensitive {
        s
    } else {
        lower_of(s)
    }
}

/// A line that ends at a newline loses one carriage return before it.
pub open spec fn trim_cr(l: Seq<char>) -> Seq<char> {
    if l.len() > 0 && l.last() == '\r' {
        l.drop_last()
    } else {
        l
    }
}

/// The lines of `s`, where `cur` is the part of the current line already
/// read. A final line without a newline counts only if it is not empty.
pub open spec fn lines_from(s: Seq<char>, cur: Seq<char>) -> Seq<Seq<char>>
    decreases s.len(),
{
    if s.len() == 0 {
        if cur.len() == 0 {
            Seq::empty()
        } else {
            seq![cur]
        }
    } else if s[0] == '\n' {
        seq![trim_cr(cur)] + lines_from(s.drop_first(), Seq::empty())
    } else {
        lines_from(s.drop_first(), cur.push(s[0]))
    }
}

/// The lines of a text.
pub open spec fn lines_of(s: Seq<char>) -> Seq<Seq<char>> {
    lines_from(s, Seq::empty())
}

/// The views of a sequence of strings.
pub open spec fn views(v: Seq<String>) -> Seq<Seq<char>> {
    Seq::new(v.len(), |i: int| v[i]@)
}

/// `needle` stands in `hay` from position `i` on.
pub open spec fn occurs_at(hay: Seq<char>, needle: Seq<char>, i: int) -> bool {
    0 <= i && i + needle.len() <= hay.len() && hay.subrange(i, i + needle.len()) == needle
}

/// `needle` is a substring of `hay`.
pub open spec fn contains(hay: Seq<char>, needle: Seq<char>) -> bool {
    exists|i: int| occurs_at(hay, needle, i)
}

/// A search hit.
#[derive(Clone, Debug, PartialEq, Eq)]
pub struct Match {
    /// 1-based position of the line in the text.
    pub line_number: usize,
    /// The whole line, as written.
    pub content: String,
    /// The line before it; absent for the first line.
    pub context_before: Option<String>,
}

pub struct MatchView {
    pub line_number: nat,
    pub content: Seq<char>,
    pub context_before: Option<Seq<char>>,
}

impl View for Match {
    type V = MatchView;

    open spec fn view(&self) -> MatchView {
        MatchView {
            line_number: self.line_number as nat,
            content: self.content@,
            context_before: match self.context_before {
                Some(c) => Some(c@),
                None => None,
            },
        }
    }
}

/// The views of a list of matches.
pub open spec fn match_views(v: Seq<Match>) -> Seq<MatchView> {
    Seq::new(v.len(), |i: int| v[i]@)
}

/// The match that line `i` (from 0) of `lines` gives.
pub open spec fn entry(lines: Seq<Seq<char>>, i: int) -> MatchView {
    MatchView {
        line_number: (i + 1) as nat,
        content: lines[i],
        context_before: if i > 0 {
            Some(lines[i - 1])
        } else {
            None
        },
    }
}

/// The matches among the first `n` lines: those whose key holds `needle`,
/// in the order of the lines.
pub open spec fn hits(
    lines: Seq<Seq<char>>,
    keys: Seq<Seq<char>>,
    needle: Seq<char>,
    n: nat,
) -> Seq<MatchView>
    decreases n,
{
    if n == 0 {
        Seq::empty()
    } else {
        let prev = hits(lines, keys, needle, (n - 1) as nat);
        if contains(keys[n - 1], needle) {
            prev.push(entry(lines, n - 1))
        } else {
            prev
        }
    }
}

/// The matches that a search of `text` for `term` finds.
pub open spec fn search_result(text: Seq<char>, term: Seq<char>, case_sensitive: bool) -> Seq<
    MatchView,
> {
    let lines = lines_of(text);
    hits(
        lines,
        lines.map_values(|l: Seq<char>| folded(case_sensitive, l)),
        folded(case_sensitive, term),
        lines.len(),
    )
}

/// Splits a text into lines at each newline; a line that ends at a newline
/// drops one carriage return before it, and a newline at the very end makes
/// no empty last line.
pub fn split_lines(text: &str) -> (r: Vec<String>)
    ensures
        views(r@) == lines_of(text@),
{
    let v = chars_of(text);
    let mut r: Vec<String> = Vec::new();
    let mut start: usize = 0;
    let mut i: usize = 0;
    proof {
        assert(text@.skip(0) =~= text@);
        assert(text@.subrange(0, 0) =~= Seq::<char>::empty());
        assert(views(r@) + lines_of(text@) =~= lines_of(text@));
    }
    while i < v.len()
        invariant
            start <= i <= v@.len(),
            v@ == text@,
            lines_of(text@) == views(r@) + lines_from(text@.skip(i as int), text@.subrange(
                start as int,
                i as int,
            )),
        decreases v@.len() - i,
    {
        let ghost cur = text@.subrange(start as int, i as int);
        proof {
            assert(text@.skip(i as int).drop_first() =~= text@.skip(i + 1));
            assert(text@.skip(i as int)[0] == v@[i as int]);
        }
        if v[i] == '\n' {
            let end: usize = if i > start && v[i - 1] == '\r' {
                i - 1
            } else {
                i
            };
            let line = string_of(v.as_slice(), start, end);
            proof {
                assert(line@ =~= trim_cr(cur));
            }
            let ghost before = views(r@);
            r.push(line);
            proof {
                assert(views(r@) =~= before.push(line@));
                assert(text@.subrange(i + 1, i + 1) =~= Seq::<char>::empty());
                assert(before + (seq![trim_cr(cur)] + lines_from(text@.skip(i + 1), Seq::empty()))
                    =~= before.push(line@) + lines_from(text@.skip(i + 1), Seq::empty()));
            }
            start = i + 1;
        } else {
            proof {
                assert(cur.push(v@[i as int]) =~= text@.subrange(start as int, i + 1));
            }
        }
        i = i + 1;
    }
    if start < v.len() {
        let line = string_of(v.as_slice(), start, v.len());
        let ghost before = views(r@);
        r.push(line);
        proof {
            assert(text@.skip(i as int) =~= Seq::<char>::empty());
            assert(views(r@) =~= before.push(line@));
            assert(before + seq![line@] =~= before.push(line@));
        }
    } else {
        proof {
            assert(text@.skip(i as int) =~= Seq::<char>::empty());
            assert(views(r@) + Seq::<Seq<char>>::empty() =~= views(r@));
        }
    }
    r
}

/// Whether `needle` stands in `hay` from position `i` on.
fn matches_at(hay: &Vec<char>, needle: &Vec<char>, i: usize) -> (r: bool)
    requires
        i + needle@.len() <= hay@.len(),
    ensures
        r == occurs_at(hay@, needle@, i as int),
{
    let n = needle.len();
    let hay_len = hay.len();
    let mut j: usize = 0;
    while j < n
        invariant
            n == needle@.len(),
            hay_len == hay@.len(),
            i + n <= hay@.len(),
            j <= n,
            forall|k: int| 0 <= k < j ==> hay@[i + k] == needle@[k],
        decreases n - j,
    {
        if hay[i + j] != needle[j] {
            proof {
                assert(hay@.subrange(i as int, i + n)[j as int] != needle@[j as int]);
            }
            return false;
        }
        j = j + 1;
    }
    proof {
        assert(hay@.subrange(i as int, i + n) =~= needle@);
    }
    true
}

/// Whether `needle` is a substring of `hay`; an empty needle is a substring
/// of every text.
pub fn contains_chars(hay: &Vec<char>, needle: &Vec<char>) -> (r: bool)
    ensures
        r == contains(hay@, needle@),
{
    let n = needle.len();
    if n > hay.len() {
        proof {
            assert forall|i: int| !occurs_at(hay@, needle@, i) by {}
        }
        return false;
    }
    let last = hay.len() - n;
    let mut i: usize = 0;
    while i <= last
        invariant
            n == needle@.len(),
            n <= hay@.len(),
            hay@.len() <= usize::MAX,
            last == hay@.len() - n,
            i <= last + 1,
            forall|k: int| 0 <= k < i ==> !occurs_at(hay@, needle@, k),
        decreases last + 1 - i,
    {
        if matches_at(hay, needle, i) {
            return true;
        }
        proof {
            if n == 0 {
                assert(hay@.subrange(i as int, i as int) =~= needle@);
            }
        }
        i = i + 1;
    }
    proof {
        assert forall|k: int| !occurs_at(hay@, needle@, k) by {
            if 0 <= k && k <= last {
                assert(!occurs_at(hay@, needle@, k));
            }
        }
    }
    false
}

/// Every hit among the first `n` lines is the entry of a line whose key
/// holds `needle`; hits come in strictly ascending line order; a hit has a
/// line before it exactly when it is not on the first line.
pub proof fn lemma_hits_shape(
    lines: Seq<Seq<char>>,
    keys: Seq<Seq<char>>,
    needle: Seq<char>,
    n: nat,
)
    requires
        n <= lines.len(),
        n <= keys.len(),
    ensures
        forall|k: int|
            0 <= k < hits(lines, keys, needle, n).len() ==> {
                let h = #[trigger] hits(lines, keys, needle, n)[k];
                &&& 1 <= h.line_number <= n
                &&& h == entry(lines, h.line_number - 1)
                &&& contains(keys[h.line_number - 1], needle)
                &&& (h.context_before is Some <==> h.line_number > 1)
            },
        forall|a: int, b: int|
            #![trigger hits(lines, keys, needle, n)[a], hits(lines, keys, needle, n)[b]]
            0 <= a < b < hits(lines, keys, needle, n).len() ==> hits(lines, keys, needle, n)[a].line_number
                < hits(lines, keys, needle, n)[b].line_number,
    decreases n,
{
    if n > 0 {
        lemma_hits_shape(lines, keys, needle, (n - 1) as nat);
    }
}

/// With an empty needle every one of the first `n` lines is a hit.
pub proof fn lemma_empty_needle_hits_all(lines: Seq<Seq<char>>, keys: Seq<Seq<char>>, n: nat)
    requires
        n <= keys.len(),
    ensures
        hits(lines, keys, Seq::empty(), n).len() == n,
    decreases n,
{
    if n > 0 {
        lemma_empty_needle_hits_all(lines, keys, (n - 1) as nat);
        assert(keys[n - 1].subrange(0, 0) =~= Seq::<char>::empty());
        assert(occurs_at(keys[n - 1], Seq::empty(), 0));
    }
}

/// The matches among `lines` whose comparison form in `keys` holds `needle`.
pub fn search_lines(lines: &Vec<String>, keys: &Vec<String>, needle: &str) -> (r: Vec<Match>)
    requires
        lines@.len() == keys@.len(),
    ensures
        match_views(r@) == hits(views(lines@), views(keys@), needle@, lines@.len() as nat),
{
    let needle_chars = chars_of(needle);
    let mut r: Vec<Match> = Vec::new();
    let mut i: usize = 0;
    while i < lines.len()
        invariant
            i <= lines@.len() == keys@.len(),
            needle_chars@ == needle@,
            match_views(r@) == hits(views(lines@), views(keys@), needle@, i as nat),
        decreases lines@.len() - i,
    {
        let key = chars_of(keys[i].as_str());
        if contains_chars(&key, &needle_chars) {
            let context_before = if i > 0 {
                Some(lines[i - 1].clone())
            } else {
                None
            };
            let m = Match { line_number: i + 1, content: lines[i].clone(), context_before };
            let ghost before = match_views(r@);
            r.push(m);
            proof {
                assert(m@ == entry(views(lines@), i as int));
                assert(match_views(r@) =~= before.push(m@));
            }
        }
        i = i + 1;
    }
    r
}

/// Searches `text` line by line for `term`. With `case_sensitive` false, both
/// sides are compared lowercased; the match keeps the line as written. An
/// empty term matches every line.
pub fn search_man_page(text: &str, term: &str, case_sensitive: bool) -> (r: Vec<Match>)
    ensures
        match_views(r@) == search_result(text@, term@, case_sensitive),
        forall|k: int|
            0 <= k < r@.len() ==> contains(
                folded(case_sensitive, (#[trigger] r@[k]).content@),
                folded(case_sensitive, term@),
            ),
        forall|a: int, b: int|
            #![trigger r@[a], r@[b]]
            0 <= a < b < r@.len() ==> r@[a].line_number < r@[b].line_number,
        forall|k: int|
            0 <= k < r@.len() ==> ((#[trigger] r@[k]).context_before is Some <==> r@[k].line_number
                > 1),
        term@.len() == 0 ==> r@.len() == lines_of(text@).len(),
{
    let lines = split_lines(text);
    let ghost ls = lines_of(text@);
    let ghost key_of = |l: Seq<char>| folded(case_sensitive, l);
    let needle = if case_sensitive {
        term.to_owned()
    } else {
        to_lower(term)
    };
    let mut keys: Vec<String> = Vec::new();
    let mut i: usize = 0;
    while i < lines.len()
        invariant
            i <= lines@.len(),
            views(lines@) == ls,
            key_of == (|l: Seq<char>| folded(case_sensitive, l)),
            views(keys@) == ls.take(i as int).map_values(key_of),
        decreases lines@.len() - i,
    {
        let key = if case_sensitive {
            lines[i].clone()
        } else {
            to_lower(lines[i].as_str())
        };
        let ghost before = views(keys@);
        keys.push(key);
        proof {
            assert(views(lines@)[i as int] == lines@[i as int]@);
            assert(key@ == key_of(ls[i as int]));
            assert(views(keys@) =~= before.push(key@));
            assert(ls.take(i + 1).map_values(key_of) =~= ls.take(i as int).map_values(key_of).push(
                key_of(ls[i as int]),
            ));
        }
        i = i + 1;
    }
    proof {
        assert(ls.take(i as int) =~= ls);
    }
    let r = search_lines(&lines, &keys, needle.as_str());
    proof {
        let ks = ls.map_values(key_of);
        assert(views(keys@) =~= ks);
        lemma_hits_shape(ls, ks, needle@, ls.len());
        let h = hits(ls, ks, needle@, ls.len());
        assert forall|k: int| 0 <= k < r@.len() implies contains(
            folded(case_sensitive, (#[trigger] r@[k]).content@),
            folded(case_sensitive, term@),
        ) by {
            assert(match_views(r@)[k] == h[k]);
        }
        assert forall|a: int, b: int|
            #![trigger r@[a], r@[b]]
            0 <= a < b < r@.len() implies r@[a].line_number < r@[b].line_number by {
            assert(match_views(r@)[a] == h[a]);
            assert(match_views(r@)[b] == h[b]);
        }
        assert forall|k: int| 0 <= k < r@.len() implies ((#[trigger] r@[k]).context_before is Some
            <==> r@[k].line_number > 1) by {
            assert(match_views(r@)[k] == h[k]);
        }
        if term@.len() == 0 {
            assert(needle@ =~= Seq::<char>::empty());
            lemma_empty_needle_hits_all(ls, ks, ls.len());
        }
    }
    r
}

} // verus!
