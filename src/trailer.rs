//! Finding upstream references in a commit message.
//!
//! Two line shapes name an upstream commit:
//! `commit <id>` and `(cherry picked from commit <id>)`.
use crate::store::{chars_of, string_of};
use vstd::prelude::*;

verus! {

/// ASCII whitespace, as `str::split_ascii_whitespace` splits on it.
pub open spec fn is_ws(c: char) -> bool {
    c == ' ' || c == '\t' || c == '\n' || c == '\u{c}' || c == '\r'
}

/// The whitespace-separated words of `s`, in order.
pub open spec fn words(s: Seq<char>) -> Seq<Seq<char>>
    decreases s.len(),
{
    if s.len() == 0 {
        seq![]
    } else {
        let w = words(s.drop_last());
        let c = s.last();
        if is_ws(c) {
            w
        } else if s.len() >= 2 && !is_ws(s[s.len() - 2]) {
            w.update(w.len() - 1, w.last().push(c))
        } else {
            w.push(seq![c])
        }
    }
}

/// The pieces of `s` between newlines. A `'\r'` before a newline stays in its
/// piece; being whitespace, it changes no word of it.
pub open spec fn segments(s: Seq<char>) -> Seq<Seq<char>>
    decreases s.len(),
{
    if s.len() == 0 {
        seq![seq![]]
    } else {
        let p = segments(s.drop_last());
        let c = s.last();
        if c == '\n' {
            p.push(seq![])
        } else {
            p.update(p.len() - 1, p.last().push(c))
        }
    }
}

pub open spec fn commit_word() -> Seq<char> {
    seq!['c', 'o', 'm', 'm', 'i', 't']
}

pub open spec fn cherry_word() -> Seq<char> {
    seq!['(', 'c', 'h', 'e', 'r', 'r', 'y']
}

pub open spec fn picked_word() -> Seq<char> {
    seq!['p', 'i', 'c', 'k', 'e', 'd']
}

/// `s` without its last character, if it has one.
pub open spec fn strip_last(s: Seq<char>) -> Seq<char> {
    if s.len() > 0 {
        s.drop_last()
    } else {
        s
    }
}

/// The upstream id that a line with these words names, if any: the second word
/// after `commit`; the fifth after `(cherry picked`, less its last character.
pub open spec fn upstream_of_words(w: Seq<Seq<char>>) -> Option<Seq<char>> {
    if w.len() >= 1 && w[0] == commit_word() {
        if w.len() >= 2 {
            Some(w[1])
        } else {
            None
        }
    } else if w.len() >= 2 && w[0] == cherry_word() && w[1] == picked_word() {
        if w.len() >= 5 {
            Some(strip_last(w[4]))
        } else {
            None
        }
    } else {
        None
    }
}

pub open spec fn upstream_of_line(line: Seq<char>) -> Option<Seq<char>> {
    upstream_of_words(words(line))
}

/// The ids that the lines of a message name, in line order, repeats kept.
pub open spec fn candidates_of(lines: Seq<Seq<char>>) -> Seq<Seq<char>>
    decreases lines.len(),
{
    if lines.len() == 0 {
        seq![]
    } else {
        let rest = candidates_of(lines.drop_last());
        match upstream_of_line(lines.last()) {
            Some(id) => rest.push(id),
            None => rest,
        }
    }
}

pub open spec fn upstream_candidates_spec(msg: Seq<char>) -> Seq<Seq<char>> {
    candidates_of(segments(msg))
}

pub open spec fn char_views(v: Seq<Vec<char>>) -> Seq<Seq<char>> {
    v.map_values(|x: Vec<char>| x@)
}

pub open spec fn string_views(v: Seq<String>) -> Seq<Seq<char>> {
    v.map_values(|x: String| x@)
}

pub open spec fn opt_chars(o: Option<Vec<char>>) -> Option<Seq<char>> {
    match o {
        Some(v) => Some(v@),
        None => None,
    }
}

proof fn lemma_words_nonempty(s: Seq<char>)
    requires
        s.len() > 0,
        !is_ws(s.last()),
    ensures
        words(s).len() > 0,
    decreases s.len(),
{
    if s.len() >= 2 && !is_ws(s[s.len() - 2]) {
        lemma_words_nonempty(s.drop_last());
    }
}

proof fn lemma_segments_nonempty(s: Seq<char>)
    ensures
        segments(s).len() > 0,
    decreases s.len(),
{
    if s.len() > 0 {
        lemma_segments_nonempty(s.drop_last());
    }
}

/// Whether two character vectors hold the same characters.
pub fn same_chars(a: &Vec<char>, b: &Vec<char>) -> (r: bool)
    ensures
        r == (a@ == b@),
{
    if a.len() != b.len() {
        return false;
    }
    let mut i: usize = 0;
    while i < a.len()
        invariant
            a@.len() == b@.len(),
            i <= a@.len(),
            forall|j: int| 0 <= j < i ==> a@[j] == b@[j],
        decreases a@.len() - i,
    {
        if a[i] != b[i] {
            return false;
        }
        i = i + 1;
    }
    assert(a@ =~= b@);
    true
}

/// Splits a line into its whitespace-separated words.
pub fn split_words(line: &Vec<char>) -> (r: Vec<Vec<char>>)
    ensures
        char_views(r@) == words(line@),
{
    let mut out: Vec<Vec<char>> = Vec::new();
    let mut i: usize = 0;
    while i < line.len()
        invariant
            i <= line@.len(),
            char_views(out@) == words(line@.subrange(0, i as int)),
        decreases line@.len() - i,
    {
        let c = line[i];
        let ghost pre = line@.subrange(0, i as int);
        let ghost cur = line@.subrange(0, i + 1);
        assert(cur.drop_last() =~= pre);
        assert(cur.last() == c);
        assert(i >= 1 ==> cur[i - 1] == line@[i - 1]);
        if c == ' ' || c == '\t' || c == '\n' || c == '\u{c}' || c == '\r' {
        } else if i >= 1 && !(line[i - 1] == ' ' || line[i - 1] == '\t' || line[i - 1] == '\n'
            || line[i - 1] == '\u{c}' || line[i - 1] == '\r') {
            proof {
                lemma_words_nonempty(pre);
            }
            let mut w = out.pop().unwrap();
            w.push(c);
            out.push(w);
            assert(char_views(out@) =~= words(cur));
        } else {
            let ghost before = out@;
            let nw = vec![c];
            assert(nw@ =~= seq![c]);
            out.push(nw);
            assert(out@ =~= before.push(nw));
            assert(char_views(out@) =~= char_views(before).push(seq![c]));
            assert(char_views(out@) =~= words(cur));
        }
        i = i + 1;
    }
    assert(line@.subrange(0, line@.len() as int) =~= line@);
    out
}

/// Splits a text into the pieces between newlines.
pub fn split_segments(text: &Vec<char>) -> (r: Vec<Vec<char>>)
    ensures
        char_views(r@) == segments(text@),
{
    let mut out: Vec<Vec<char>> = Vec::new();
    out.push(Vec::new());
    let mut i: usize = 0;
    assert(char_views(out@) =~= segments(text@.subrange(0, 0)));
    while i < text.len()
        invariant
            i <= text@.len(),
            char_views(out@) == segments(text@.subrange(0, i as int)),
        decreases text@.len() - i,
    {
        let c = text[i];
        let ghost pre = text@.subrange(0, i as int);
        let ghost cur = text@.subrange(0, i + 1);
        assert(cur.drop_last() =~= pre);
        proof {
            lemma_segments_nonempty(pre);
        }
        if c == '\n' {
            out.push(Vec::new());
            assert(char_views(out@) =~= segments(cur));
        } else {
            let mut w = out.pop().unwrap();
            w.push(c);
            out.push(w);
            assert(char_views(out@) =~= segments(cur));
        }
        i = i + 1;
    }
    assert(text@.subrange(0, text@.len() as int) =~= text@);
    out
}

/// The upstream id that one line names, as characters.
pub fn upstream_of_chars(line: &Vec<char>) -> (r: Option<Vec<char>>)
    ensures
        opt_chars(r) == upstream_of_line(line@),
{
    let mut w = split_words(line);
    let ghost ws = words(line@);
    assert(w@.len() == ws.len());
    let commit = vec!['c', 'o', 'm', 'm', 'i', 't'];
    let cherry = vec!['(', 'c', 'h', 'e', 'r', 'r', 'y'];
    let picked = vec!['p', 'i', 'c', 'k', 'e', 'd'];
    assert(commit@ =~= commit_word());
    assert(cherry@ =~= cherry_word());
    assert(picked@ =~= picked_word());
    if w.len() >= 1 && same_chars(&w[0], &commit) {
        assert(w@[0]@ == ws[0]);
        if w.len() >= 2 {
            assert(w@[1]@ == ws[1]);
            Some(w.remove(1))
        } else {
            None
        }
    } else if w.len() >= 2 && same_chars(&w[0], &cherry) && same_chars(&w[1], &picked) {
        assert(w@[0]@ == ws[0]);
        assert(w@[1]@ == ws[1]);
        if w.len() >= 5 {
            assert(w@[4]@ == ws[4]);
            let mut id = w.remove(4);
            if id.len() > 0 {
                id.pop();
            }
            assert(id@ =~= strip_last(ws[4]));
            Some(id)
        } else {
            None
        }
    } else {
        proof {
            if w@.len() >= 1 {
                assert(w@[0]@ == ws[0]);
            }
            if w@.len() >= 2 {
                assert(w@[1]@ == ws[1]);
            }
        }
        None
    }
}

/// The upstream commit id that a message line names, if it has one of the two
/// shapes: `commit <id>` gives the second word; `(cherry picked from commit
/// <id>)` gives the fifth word less its last character (the parenthesis).
pub fn line_to_upstream(line: &str) -> (r: Option<String>)
    ensures
        match r {
            Some(s) => upstream_of_line(line@) == Some(s@),
            None => upstream_of_line(line@) is None,
        },
{
    let chars = chars_of(line);
    match upstream_of_chars(&chars) {
        Some(id) => Some(string_of(&id)),
        None => None,
    }
}

/// The upstream ids that the lines of a message name, in line order, with
/// repeats kept.
pub fn upstream_candidates(message: &str) -> (r: Vec<String>)
    ensures
        string_views(r@) == upstream_candidates_spec(message@),
{
    let chars = chars_of(message);
    let lines = split_segments(&chars);
    let mut out: Vec<String> = Vec::new();
    let mut i: usize = 0;
    while i < lines.len()
        invariant
            i <= lines@.len(),
            char_views(lines@) == segments(message@),
            string_views(out@) == candidates_of(segments(message@).subrange(0, i as int)),
        decreases lines@.len() - i,
    {
        let ghost segs = segments(message@);
        assert(segs.subrange(0, i + 1).drop_last() =~= segs.subrange(0, i as int));
        assert(lines@[i as int]@ == segs[i as int]);
        match upstream_of_chars(&lines[i]) {
            Some(id) => {
                let s = string_of(&id);
                out.push(s);
                assert(string_views(out@) =~= candidates_of(segs.subrange(0, i + 1)));
            },
            None => {
                assert(string_views(out@) =~= candidates_of(segs.subrange(0, i + 1)));
            },
        }
        i = i + 1;
    }
    assert(segments(message@).subrange(0, lines@.len() as int) =~= segments(message@));
    out
}

} // verus!
