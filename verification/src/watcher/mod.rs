//! From raw change notifications to enriched activity events.

pub mod branch_cache;
pub mod debounce;
pub mod file_watcher;
pub mod window_tracker;

use vstd::prelude::*;
use crate::text::{holds_text, same_text, texts};

verus! {

/// A change of the set of watched roots, asked for at run time.
#[derive(Debug, Clone)]
pub enum WatcherCommand {
    Watch(String),
    Unwatch(String),
}

/// The mathematical content of a [`WatcherCommand`].
pub enum WatcherCommandView {
    Watch(Seq<char>),
    Unwatch(Seq<char>),
}

impl View for WatcherCommand {
    type V = WatcherCommandView;

    open spec fn view(&self) -> WatcherCommandView {
        match *self {
            WatcherCommand::Watch(path) => WatcherCommandView::Watch(path@),
            WatcherCommand::Unwatch(path) => WatcherCommandView::Unwatch(path@),
        }
    }
}

/// `roots` without every occurrence of `path`.
pub open spec fn without(roots: Seq<Seq<char>>, path: Seq<char>) -> Seq<Seq<char>>
    decreases roots.len(),
{
    if roots.len() == 0 {
        roots
    } else if roots.last() == path {
        without(roots.drop_last(), path)
    } else {
        without(roots.drop_last(), path).push(roots.last())
    }
}

/// The watched roots after a command: `Watch` adds a root that is not
/// watched yet, `Unwatch` removes a root; watching what is watched and
/// unwatching what is not change nothing.
pub open spec fn after_command(roots: Seq<Seq<char>>, command: WatcherCommandView) -> Seq<Seq<char>> {
    match command {
        WatcherCommandView::Watch(path) => if roots.contains(path) {
            roots
        } else {
            roots.push(path)
        },
        WatcherCommandView::Unwatch(path) => without(roots, path),
    }
}

/// Removing a root leaves the others, and only them.
pub proof fn lemma_without(roots: Seq<Seq<char>>, path: Seq<char>)
    ensures
        !without(roots, path).contains(path),
        forall|p: Seq<char>| p != path ==> (without(roots, path).contains(p) <==> roots.contains(p)),
        !roots.contains(path) ==> without(roots, path) == roots,
    decreases roots.len(),
{
    if roots.len() > 0 {
        let head = roots.drop_last();
        lemma_without(head, path);
        let out = without(roots, path);
        assert(roots =~= head.push(roots.last()));
        assert forall|p: Seq<char>| p != path implies (out.contains(p) <==> roots.contains(p)) by {
            if roots.contains(p) {
                let i = choose|i: int| 0 <= i < roots.len() && roots[i] == p;
                if i < head.len() {
                    assert(head[i] == p);
                    assert(head.contains(p));
                    assert(without(head, path).contains(p));
                    let j = choose|j: int| 0 <= j < without(head, path).len() && without(head, path)[j] == p;
                    assert(out[j] == p);
                } else {
                    assert(out[out.len() - 1] == p);
                }
            }
            if out.contains(p) {
                let j = choose|j: int| 0 <= j < out.len() && out[j] == p;
                if j < without(head, path).len() {
                    assert(without(head, path)[j] == p);
                    assert(without(head, path).contains(p));
                    assert(head.contains(p));
                    let i = choose|i: int| 0 <= i < head.len() && head[i] == p;
                    assert(roots[i] == p);
                } else {
                    assert(roots[roots.len() - 1] == p);
                }
            }
        }
        if out.contains(path) {
            let j = choose|j: int| 0 <= j < out.len() && out[j] == path;
            if j < without(head, path).len() {
                assert(without(head, path)[j] == path);
                assert(without(head, path).contains(path));
            }
        }
        if !roots.contains(path) {
            assert(roots[roots.len() - 1] != path);
            assert(!head.contains(path)) by {
                if head.contains(path) {
                    let i = choose|i: int| 0 <= i < head.len() && head[i] == path;
                    assert(roots[i] == path);
                }
            }
        }
    }
}

/// Applies a watch or unwatch command to the list of watched roots.
pub fn apply_command(roots: &mut Vec<String>, command: &WatcherCommand)
    ensures
        texts(final(roots)@) == after_command(texts(old(roots)@), command@),
{
    match command {
        WatcherCommand::Watch(path) => {
            if !holds_text(roots, path.as_str()) {
                let ghost before = texts(roots@);
                roots.push(path.clone());
                assert(texts(roots@) =~= before.push(path@));
            }
        },
        WatcherCommand::Unwatch(path) => {
            let mut kept: Vec<String> = Vec::new();
            let mut i: usize = 0;
            while i < roots.len()
                invariant
                    i <= roots.len(),
                    texts(kept@) =~= without(texts(roots@).take(i as int), path@),
                decreases roots.len() - i,
            {
                assert(texts(roots@).take(i + 1).drop_last() =~= texts(roots@).take(i as int));
                assert(texts(roots@).take(i + 1).last() == roots[i as int]@);
                if !same_text(roots[i].as_str(), path.as_str()) {
                    let ghost before = texts(kept@);
                    kept.push(roots[i].clone());
                    assert(texts(kept@) =~= before.push(roots[i as int]@));
                }
                i = i + 1;
            }
            assert(texts(roots@).take(roots.len() as int) =~= texts(roots@));
            *roots = kept;
        },
    }
}

/// The kind of a raw notification of the file system.
#[derive(Debug, Clone, Copy, PartialEq, Eq, Structural)]
pub enum ChangeKind {
    Access,
    Create,
    Modify,
    Remove,
    Other,
}

/// Whether a raw notification counts as activity: only what creates or
/// modifies does.
pub fn is_activity(kind: ChangeKind) -> (yes: bool)
    ensures
        yes == (kind == ChangeKind::Create || kind == ChangeKind::Modify),
{
    match kind {
        ChangeKind::Create => true,
        ChangeKind::Modify => true,
        _ => false,
    }
}

} // verus!
