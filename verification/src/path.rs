//! Paths as text: pieces between `/` separators, file names and extensions.
//!
//! A path is read the way a Unix file system reads it. Repeated separators,
//! a trailing separator and `.` pieces do not count, except a `.` at the very
//! start of a relative path.

use vstd::prelude::*;
use crate::text::{cut, opt_text, texts, to_chars};

verus! {

pub open spec fn dot() -> Seq<char> {
    seq!['.']
}

pub open spec fn dot_dot() -> Seq<char> {
    seq!['.', '.']
}

pub open spec fn slash() -> Seq<char> {
    seq!['/']
}

/// The pieces of `p` between its separators, empty pieces included: one more
/// than there are separators.
pub open spec fn split(p: Seq<char>) -> Seq<Seq<char>>
    decreases p.len(),
{
    if p.len() == 0 {
        seq![Seq::empty()]
    } else {
        let before = split(p.drop_last());
        if p.last() == '/' {
            before.push(Seq::empty())
        } else {
            before.drop_last().push(before.last().push(p.last()))
        }
    }
}

/// A piece that names something: neither empty nor `.`.
pub open spec fn is_normal(piece: Seq<char>) -> bool {
    piece.len() > 0 && piece != dot()
}

/// The pieces among `pieces` that name something, in order.
pub open spec fn keep_normal(pieces: Seq<Seq<char>>) -> Seq<Seq<char>>
    decreases pieces.len(),
{
    if pieces.len() == 0 {
        Seq::empty()
    } else {
        let before = keep_normal(pieces.drop_last());
        if is_normal(pieces.last()) {
            before.push(pieces.last())
        } else {
            before
        }
    }
}

/// What stands before the named pieces of a path: `/` for an absolute path,
/// `.` for a relative path that starts with a `.` piece, else nothing.
pub open spec fn lead(p: Seq<char>) -> Seq<Seq<char>> {
    if p.len() > 0 && p[0] == '/' {
        seq![slash()]
    } else if split(p)[0] == dot() {
        seq![dot()]
    } else {
        Seq::empty()
    }
}

/// The components of a path: its lead and its named pieces. `..` is a
/// component like any name.
pub open spec fn components(p: Seq<char>) -> Seq<Seq<char>> {
    lead(p) + keep_normal(split(p))
}

/// The final component of a path, if it is a name: none for an empty path,
/// for `/`, for `.` and for a path that ends in `..`.
pub open spec fn file_name(p: Seq<char>) -> Option<Seq<char>> {
    let names = keep_normal(split(p));
    if names.len() > 0 && names.last() != dot_dot() {
        Some(names.last())
    } else {
        None
    }
}

/// The position of the last `.` in `name`, or -1.
pub open spec fn last_dot(name: Seq<char>) -> int
    decreases name.len(),
{
    if name.len() == 0 {
        -1
    } else if name.last() == '.' {
        name.len() - 1
    } else {
        last_dot(name.drop_last())
    }
}

/// The extension of a file name: what follows its last `.`, unless the name
/// has no `.` or only the one it starts with.
pub open spec fn extension_of(name: Seq<char>) -> Option<Seq<char>> {
    let at = last_dot(name);
    if at <= 0 {
        None
    } else {
        Some(name.skip(at + 1))
    }
}

/// The extension of the file name of a path.
pub open spec fn extension(p: Seq<char>) -> Option<Seq<char>> {
    match file_name(p) {
        Some(name) => extension_of(name),
        None => None,
    }
}

pub proof fn lemma_split_nonempty(p: Seq<char>)
    ensures
        split(p).len() >= 1,
    decreases p.len(),
{
    if p.len() > 0 {
        lemma_split_nonempty(p.drop_last());
    }
}

/// The bounds of the pieces of `p`, one pair per piece of `split`.
pub fn piece_ranges(p: &Vec<char>) -> (out: Vec<(usize, usize)>)
    ensures
        out.len() == split(p@).len(),
        forall|k: int|
            0 <= k < out.len() ==> (#[trigger] out[k]).0 <= out[k].1 <= p.len() && p@.subrange(
                out[k].0 as int,
                out[k].1 as int,
            ) == split(p@)[k],
{
    let mut out: Vec<(usize, usize)> = Vec::new();
    let mut start: usize = 0;
    let mut i: usize = 0;
    assert(p@.subrange(0, 0) =~= Seq::<char>::empty());
    assert(p@.take(0) =~= Seq::<char>::empty());
    while i < p.len()
        invariant
            start <= i <= p.len(),
            out.len() + 1 == split(p@.take(i as int)).len(),
            forall|k: int|
                0 <= k < out.len() ==> (#[trigger] out[k]).0 <= out[k].1 <= p.len()
                    && p@.subrange(out[k].0 as int, out[k].1 as int) == split(
                    p@.take(i as int),
                )[k],
            p@.subrange(start as int, i as int) == split(p@.take(i as int)).last(),
        decreases p.len() - i,
    {
        let ghost before = split(p@.take(i as int));
        assert(p@.take(i + 1).drop_last() =~= p@.take(i as int));
        assert(p@.take(i + 1).last() == p@[i as int]);
        if p[i] == '/' {
            out.push((start, i));
            start = i + 1;
            assert(p@.subrange(start as int, start as int) =~= Seq::<char>::empty());
        } else {
            assert(p@.subrange(start as int, i + 1) =~= p@.subrange(start as int, i as int).push(
                p@[i as int],
            ));
        }
        i = i + 1;
    }
    assert(p@.take(p.len() as int) =~= p@);
    out.push((start, i));
    out
}

fn names_something(p: &Vec<char>, from: usize, to: usize) -> (yes: bool)
    requires
        from <= to <= p.len(),
    ensures
        yes == is_normal(p@.subrange(from as int, to as int)),
{
    let ghost piece = p@.subrange(from as int, to as int);
    if to - from == 0 {
        false
    } else if to - from == 1 && p[from] == '.' {
        assert(piece =~= dot());
        false
    } else {
        if to - from == 1 {
            assert(piece[0] != dot()[0]);
        } else {
            assert(piece.len() != dot().len());
        }
        true
    }
}

fn is_dot_dot(p: &Vec<char>, from: usize, to: usize) -> (yes: bool)
    requires
        from <= to <= p.len(),
    ensures
        yes == (p@.subrange(from as int, to as int) == dot_dot()),
{
    let ghost piece = p@.subrange(from as int, to as int);
    if to - from == 2 && p[from] == '.' && p[from + 1] == '.' {
        assert(piece =~= dot_dot());
        true
    } else {
        if to - from == 2 {
            assert(piece[0] == p@[from as int] && piece[1] == p@[from + 1]);
            assert(piece[0] != dot_dot()[0] || piece[1] != dot_dot()[1]);
        } else {
            assert(piece.len() != dot_dot().len());
        }
        false
    }
}

/// The bounds of the named pieces of `p`, one pair per piece of
/// `keep_normal(split(p))`.
pub fn name_ranges(p: &Vec<char>) -> (out: Vec<(usize, usize)>)
    ensures
        out.len() == keep_normal(split(p@)).len(),
        forall|k: int|
            0 <= k < out.len() ==> (#[trigger] out[k]).0 <= out[k].1 <= p.len() && p@.subrange(
                out[k].0 as int,
                out[k].1 as int,
            ) == keep_normal(split(p@))[k],
{
    let all = piece_ranges(p);
    let ghost pieces = split(p@);
    let mut out: Vec<(usize, usize)> = Vec::new();
    let mut i: usize = 0;
    while i < all.len()
        invariant
            i <= all.len(),
            all.len() == pieces.len(),
            forall|k: int|
                0 <= k < all.len() ==> (#[trigger] all[k]).0 <= all[k].1 <= p.len()
                    && p@.subrange(all[k].0 as int, all[k].1 as int) == pieces[k],
            out.len() == keep_normal(pieces.take(i as int)).len(),
            forall|k: int|
                0 <= k < out.len() ==> (#[trigger] out[k]).0 <= out[k].1 <= p.len()
                    && p@.subrange(out[k].0 as int, out[k].1 as int) == keep_normal(
                    pieces.take(i as int),
                )[k],
        decreases all.len() - i,
    {
        assert(pieces.take(i + 1).drop_last() =~= pieces.take(i as int));
        assert(pieces.take(i + 1).last() == pieces[i as int]);
        let r: (usize, usize) = all[i];
        if names_something(p, r.0, r.1) {
            out.push(r);
        }
        i = i + 1;
    }
    assert(pieces.take(all.len() as int) =~= pieces);
    out
}

/// A `.` with none behind it is the last one.
proof fn lemma_last_dot_found(name: Seq<char>, at: int)
    requires
        0 <= at < name.len(),
        name[at] == '.',
        forall|k: int| at < k < name.len() ==> name[k] != '.',
    ensures
        last_dot(name) == at,
    decreases name.len(),
{
    if at < name.len() - 1 {
        lemma_last_dot_found(name.drop_last(), at);
    }
}

proof fn lemma_last_dot_absent(name: Seq<char>)
    requires
        forall|k: int| 0 <= k < name.len() ==> name[k] != '.',
    ensures
        last_dot(name) == -1,
    decreases name.len(),
{
    if name.len() > 0 {
        lemma_last_dot_absent(name.drop_last());
    }
}

/// The bounds of the file name of `p`.
pub fn file_name_range(p: &Vec<char>) -> (found: Option<(usize, usize)>)
    ensures
        found is Some == file_name(p@) is Some,
        found matches Some(r) ==> r.0 <= r.1 <= p.len() && p@.subrange(r.0 as int, r.1 as int)
            == file_name(p@)->0,
{
    let names = name_ranges(p);
    if names.len() == 0 {
        return None;
    }
    let r: (usize, usize) = names[names.len() - 1];
    if is_dot_dot(p, r.0, r.1) {
        None
    } else {
        Some(r)
    }
}

/// The bounds of the extension of the file name `p[from..to]`.
pub fn extension_range(p: &Vec<char>, from: usize, to: usize) -> (found: Option<(usize, usize)>)
    requires
        from <= to <= p.len(),
    ensures
        found is Some == extension_of(p@.subrange(from as int, to as int)) is Some,
        found matches Some(r) ==> r.0 <= r.1 <= p.len() && p@.subrange(r.0 as int, r.1 as int)
            == extension_of(p@.subrange(from as int, to as int))->0,
{
    let ghost name = p@.subrange(from as int, to as int);
    let mut at: usize = to;
    while at > from
        invariant
            from <= at <= to <= p.len(),
            name == p@.subrange(from as int, to as int),
            forall|k: int| at <= k < to ==> p@[k] != '.',
        decreases at,
    {
        if p[at - 1] == '.' {
            proof {
                assert forall|k: int| at - 1 - from < k < name.len() implies name[k] != '.' by {
                    assert(name[k] == p@[from + k]);
                }
                lemma_last_dot_found(name, at - 1 - from);
                assert(name.skip(at - from) =~= p@.subrange(at as int, to as int));
            }
            if at - 1 == from {
                return None;
            }
            return Some((at, to));
        }
        at = at - 1;
    }
    proof {
        assert forall|k: int| 0 <= k < name.len() implies name[k] != '.' by {
            assert(name[k] == p@[from + k]);
        }
        lemma_last_dot_absent(name);
    }
    None
}

/// The final component of a path, if it is a name.
pub fn path_file_name(path: &str) -> (name: Option<String>)
    ensures
        crate::text::opt_text(name) == file_name(path@),
{
    let chars = to_chars(path);
    match file_name_range(&chars) {
        Some(r) => Some(cut(path, r.0, r.1)),
        None => None,
    }
}

/// The extension of the file name of a path.
pub fn path_extension(path: &str) -> (ext: Option<String>)
    ensures
        crate::text::opt_text(ext) == extension(path@),
{
    let chars = to_chars(path);
    match file_name_range(&chars) {
        Some(r) => match extension_range(&chars, r.0, r.1) {
            Some(e) => Some(cut(path, e.0, e.1)),
            None => None,
        },
        None => None,
    }
}

/// The components of a path, in order.
pub fn path_components(path: &str) -> (out: Vec<String>)
    ensures
        texts(out@) == components(path@),
{
    let chars = to_chars(path);
    let mut out: Vec<String> = Vec::new();
    proof {
        lemma_split_nonempty(path@);
    }
    if chars.len() > 0 && chars[0] == '/' {
        let root = "/";
        proof {
            reveal_strlit("/");
            assert(root@ =~= slash());
        }
        out.push(root.to_owned());
    } else {
        let pieces = piece_ranges(&chars);
        let first: (usize, usize) = pieces[0];
        if first.1 - first.0 == 1 && chars[first.0] == '.' {
            assert(chars@.subrange(first.0 as int, first.1 as int) =~= dot());
            out.push(cut(path, first.0, first.1));
        } else {
            if first.1 - first.0 == 1 {
                assert(split(path@)[0][0] != dot()[0]);
            } else {
                assert(split(path@)[0].len() != dot().len());
            }
        }
    }
    assert(texts(out@) =~= lead(path@));
    let names = name_ranges(&chars);
    let ghost kept = keep_normal(split(path@));
    let mut i: usize = 0;
    while i < names.len()
        invariant
            i <= names.len(),
            chars@ == path@,
            names.len() == kept.len(),
            forall|k: int|
                0 <= k < names.len() ==> (#[trigger] names[k]).0 <= names[k].1 <= chars.len()
                    && chars@.subrange(names[k].0 as int, names[k].1 as int) == kept[k],
            texts(out@) =~= lead(path@) + kept.take(i as int),
        decreases names.len() - i,
    {
        let r: (usize, usize) = names[i];
        let ghost before = texts(out@);
        out.push(cut(path, r.0, r.1));
        assert(texts(out@) =~= before.push(kept[i as int]));
        assert(kept.take(i + 1) =~= kept.take(i as int).push(kept[i as int]));
        i = i + 1;
    }
    assert(kept.take(names.len() as int) =~= kept);
    out
}

/// The first component of `path` below `root`: the component that follows
/// those of `root`, where `path` begins with all of them and goes on.
pub open spec fn first_below(root: Seq<char>, path: Seq<char>) -> Option<Seq<char>> {
    let above = components(root);
    let all = components(path);
    if above.len() < all.len() && all.take(above.len() as int) == above {
        Some(all[above.len() as int])
    } else {
        None
    }
}

pub fn path_first_below(root: &str, path: &str) -> (found: Option<String>)
    ensures
        opt_text(found) == first_below(root@, path@),
{
    let above = path_components(root);
    let all = path_components(path);
    if above.len() >= all.len() {
        return None;
    }
    let mut i: usize = 0;
    while i < above.len()
        invariant
            i <= above.len() < all.len(),
            texts(above@) == components(root@),
            texts(all@) == components(path@),
            forall|k: int| 0 <= k < i ==> texts(above@)[k] == texts(all@)[k],
        decreases above.len() - i,
    {
        let same: bool = above[i] == all[i];
        assert(texts(above@)[i as int] == above[i as int]@);
        assert(texts(all@)[i as int] == all[i as int]@);
        if !same {
            assert(texts(all@).take(above.len() as int)[i as int] != texts(above@)[i as int]);
            return None;
        }
        i = i + 1;
    }
    assert(texts(all@).take(above.len() as int) =~= texts(above@));
    assert(texts(all@)[above.len() as int] == all[above.len() as int]@);
    Some(all[above.len()].clone())
}

/// `base` extended by `name`: a separator is put between the two unless
/// `base` is empty or ends in one; an absolute `name` stands for itself.
pub open spec fn join(base: Seq<char>, name: Seq<char>) -> Seq<char> {
    if name.len() > 0 && name[0] == '/' {
        name
    } else if base.len() == 0 || base.last() == '/' {
        base + name
    } else {
        base + slash() + name
    }
}

pub fn path_join(base: &str, name: &str) -> (out: String)
    ensures
        out@ == join(base@, name@),
{
    let base_len: usize = base.unicode_len();
    if name.unicode_len() > 0 && name.get_char(0) == '/' {
        return name.to_owned();
    }
    let mut out: String = base.to_owned();
    if base_len > 0 && base.get_char(base_len - 1) != '/' {
        proof {
            reveal_strlit("/");
            assert("/"@ =~= slash());
        }
        out.append("/");
    }
    out.append(name);
    out
}

} // verus!
