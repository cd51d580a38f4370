//! Finding the file behind the title of the active window.
//!
//! Editors put the file they show into their window title, in one form or
//! another: `/home/u/p/file.rs - Editor`, `file.rs (~/p/file.rs) - NVIM`.
//! The title is cut into tokens, and the first token that looks like a path
//! with a file extension is taken.

use vstd::prelude::*;
use crate::path::{extension, extension_range, file_name_range, slash};
use crate::json::{json_document, member_of, text_member};
use crate::text::{
    copy_range, cut, opt_str_text, opt_text, to_chars, trim, trim_range, trimmed,
};

verus! {

/// The characters at which a title is cut. Looking for absolute paths, these
/// are blank, tab and the two long dashes; looking for paths under the home
/// directory, blank, tab and round brackets.
pub open spec fn cuts(c: char, home_pass: bool) -> bool {
    if home_pass {
        c == ' ' || c == '\t' || c == '(' || c == ')'
    } else {
        c == ' ' || c == '\t' || c == '\u{2014}' || c == '\u{2013}'
    }
}

/// The tokens of a title: the pieces between the cutting characters, empty
/// pieces included.
pub open spec fn tokens(title: Seq<char>, home_pass: bool) -> Seq<Seq<char>>
    decreases title.len(),
{
    if title.len() == 0 {
        seq![Seq::empty()]
    } else {
        let before = tokens(title.drop_last(), home_pass);
        if cuts(title.last(), home_pass) {
            before.push(Seq::empty())
        } else {
            before.drop_last().push(before.last().push(title.last()))
        }
    }
}

/// The absolute path that a token stands for: the token without the white
/// space around it, where that starts with `/`, goes on, and has a file
/// extension.
pub open spec fn absolute_candidate(token: Seq<char>) -> Option<Seq<char>> {
    let t = trim(token);
    if t.len() > 1 && t[0] == '/' && extension(t) is Some {
        Some(t)
    } else {
        None
    }
}

/// A path under the home directory, written with `~/`, spelled out.
pub open spec fn expand(home: Seq<char>, t: Seq<char>) -> Seq<char> {
    home + slash() + t.skip(2)
}

/// The path under the home directory that a token stands for: the token
/// without the white space around it, where that starts with `~/` and,
/// spelled out, has a file extension.
pub open spec fn home_candidate(token: Seq<char>, home: Seq<char>) -> Option<Seq<char>> {
    let t = trim(token);
    if t.len() >= 2 && t[0] == '~' && t[1] == '/' && extension(expand(home, t)) is Some {
        Some(expand(home, t))
    } else {
        None
    }
}

/// What a token stands for in one of the two passes.
pub open spec fn candidate(token: Seq<char>, home: Option<Seq<char>>) -> Option<Seq<char>> {
    match home {
        Some(h) => home_candidate(token, h),
        None => absolute_candidate(token),
    }
}

/// The first of the tokens that stands for a path.
pub open spec fn first_candidate(list: Seq<Seq<char>>, home: Option<Seq<char>>) -> Option<Seq<char>>
    decreases list.len(),
{
    if list.len() == 0 {
        None
    } else {
        match first_candidate(list.drop_last(), home) {
            Some(found) => Some(found),
            None => candidate(list.last(), home),
        }
    }
}

/// The file that a window title shows: the first absolute path with an
/// extension among its tokens; failing that, and with a home directory
/// known, the first `~/` path with an extension, spelled out.
pub open spec fn file_in_title(title: Seq<char>, home: Option<Seq<char>>) -> Option<Seq<char>> {
    match first_candidate(tokens(title, false), None) {
        Some(path) => Some(path),
        None => match home {
            Some(h) => first_candidate(tokens(title, true), Some(h)),
            None => None,
        },
    }
}

fn is_cut(c: char, home_pass: bool) -> (yes: bool)
    ensures
        yes == cuts(c, home_pass),
{
    if home_pass {
        c == ' ' || c == '\t' || c == '(' || c == ')'
    } else {
        c == ' ' || c == '\t' || c == '\u{2014}' || c == '\u{2013}'
    }
}

/// The bounds of the tokens of a title, one pair per token.
fn token_ranges(title: &Vec<char>, home_pass: bool) -> (out: Vec<(usize, usize)>)
    ensures
        out.len() == tokens(title@, home_pass).len(),
        forall|k: int|
            0 <= k < out.len() ==> (#[trigger] out[k]).0 <= out[k].1 <= title.len()
                && title@.subrange(out[k].0 as int, out[k].1 as int) == tokens(title@, home_pass)[k],
{
    let mut out: Vec<(usize, usize)> = Vec::new();
    let mut start: usize = 0;
    let mut i: usize = 0;
    assert(title@.subrange(0, 0) =~= Seq::<char>::empty());
    assert(title@.take(0) =~= Seq::<char>::empty());
    while i < title.len()
        invariant
            start <= i <= title.len(),
            out.len() + 1 == tokens(title@.take(i as int), home_pass).len(),
            forall|k: int|
                0 <= k < out.len() ==> (#[trigger] out[k]).0 <= out[k].1 <= title.len()
                    && title@.subrange(out[k].0 as int, out[k].1 as int) == tokens(
                    title@.take(i as int),
                    home_pass,
                )[k],
            title@.subrange(start as int, i as int) == tokens(title@.take(i as int), home_pass).last(),
        decreases title.len() - i,
    {
        assert(title@.take(i + 1).drop_last() =~= title@.take(i as int));
        assert(title@.take(i + 1).last() == title@[i as int]);
        if is_cut(title[i], home_pass) {
            out.push((start, i));
            start = i + 1;
            assert(title@.subrange(start as int, start as int) =~= Seq::<char>::empty());
        } else {
            assert(title@.subrange(start as int, i + 1) =~= title@.subrange(
                start as int,
                i as int,
            ).push(title@[i as int]));
        }
        i = i + 1;
    }
    assert(title@.take(title.len() as int) =~= title@);
    out.push((start, i));
    out
}

/// Whether the path `p` has a file extension.
fn has_extension(p: &Vec<char>) -> (yes: bool)
    ensures
        yes == extension(p@) is Some,
{
    match file_name_range(p) {
        Some(name) => extension_range(p, name.0, name.1).is_some(),
        None => false,
    }
}

fn absolute_path_of(title: &str, chars: &Vec<char>, from: usize, to: usize) -> (found: Option<String>)
    requires
        chars@ == title@,
        from <= to <= chars.len(),
    ensures
        opt_text(found) == absolute_candidate(chars@.subrange(from as int, to as int)),
{
    let r = trim_range(chars, from, to);
    if r.1 - r.0 > 1 && chars[r.0] == '/' {
        let path = copy_range(chars, r.0, r.1);
        if has_extension(&path) {
            return Some(cut(title, r.0, r.1));
        }
    }
    None
}

fn home_path_of(title: &str, chars: &Vec<char>, from: usize, to: usize, home: &str) -> (found: Option<
    String,
>)
    requires
        chars@ == title@,
        from <= to <= chars.len(),
    ensures
        opt_text(found) == home_candidate(chars@.subrange(from as int, to as int), home@),
{
    let r = trim_range(chars, from, to);
    if r.1 - r.0 >= 2 && chars[r.0] == '~' && chars[r.0 + 1] == '/' {
        let ghost t = chars@.subrange(r.0 as int, r.1 as int);
        let mut path: String = home.to_owned();
        proof {
            reveal_strlit("/");
            assert("/"@ =~= slash());
        }
        path.append("/");
        let rest = cut(title, r.0 + 2, r.1);
        assert(rest@ =~= t.skip(2));
        path.append(rest.as_str());
        let spelled = to_chars(path.as_str());
        if has_extension(&spelled) {
            return Some(path);
        }
    }
    None
}

/// A candidate found among the first tokens is the one found among all.
proof fn lemma_first_candidate_stays(list: Seq<Seq<char>>, home: Option<Seq<char>>, upto: int)
    requires
        0 <= upto <= list.len(),
        first_candidate(list.take(upto), home) is Some,
    ensures
        first_candidate(list, home) == first_candidate(list.take(upto), home),
    decreases list.len() - upto,
{
    if upto < list.len() {
        assert(list.take(upto + 1).drop_last() =~= list.take(upto));
        lemma_first_candidate_stays(list, home, upto + 1);
    } else {
        assert(list.take(upto) =~= list);
    }
}

fn first_path(title: &str, chars: &Vec<char>, home: Option<&str>) -> (found: Option<String>)
    requires
        chars@ == title@,
    ensures
        opt_text(found) == first_candidate(
            tokens(title@, home is Some),
            opt_str_text(home),
        ),
{
    let ranges = token_ranges(chars, home.is_some());
    let ghost list = tokens(title@, home is Some);
    let ghost h = opt_str_text(home);
    let mut i: usize = 0;
    while i < ranges.len()
        invariant
            i <= ranges.len(),
            chars@ == title@,
            list == tokens(title@, home is Some),
            h == opt_str_text(home),
            ranges.len() == list.len(),
            forall|k: int|
                0 <= k < ranges.len() ==> (#[trigger] ranges[k]).0 <= ranges[k].1 <= chars.len()
                    && chars@.subrange(ranges[k].0 as int, ranges[k].1 as int) == list[k],
            first_candidate(list.take(i as int), h) is None,
        decreases ranges.len() - i,
    {
        assert(list.take(i + 1).drop_last() =~= list.take(i as int));
        assert(list.take(i + 1).last() == list[i as int]);
        let r: (usize, usize) = ranges[i];
        let found = match home {
            Some(dir) => home_path_of(title, chars, r.0, r.1, dir),
            None => absolute_path_of(title, chars, r.0, r.1),
        };
        if found.is_some() {
            proof {
                lemma_first_candidate_stays(list, h, i + 1);
            }
            return found;
        }
        i = i + 1;
    }
    assert(list.take(ranges.len() as int) =~= list);
    None
}

/// Extracts the path of the file that a window title shows. `home` is the
/// user's home directory, where it is known.
pub fn extract_file_path(title: &str, home: Option<&str>) -> (path: Option<String>)
    ensures
        opt_text(path) == file_in_title(title@, opt_str_text(home)),
{
    let chars = to_chars(title);
    let absolute = first_path(title, &chars, None);
    if absolute.is_some() {
        return absolute;
    }
    match home {
        Some(dir) => first_path(title, &chars, Some(dir)),
        None => None,
    }
}

/// The window title in what the compositor reports of the active window: a
/// JSON object with a text member `title`. There is none where the report is
/// no such object.
pub fn title_from_json(report: &str) -> (title: Option<String>)
    ensures
        opt_text(title) == member_of(json_document(report@), "title"@),
{
    text_member(report, "title")
}

/// The window title in what the window tool prints: the line without the
/// white space around it.
pub fn title_from_line(output: &str) -> (title: String)
    ensures
        title@ == trim(output@),
{
    trimmed(output)
}

} // verus!
