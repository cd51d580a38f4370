//! Registering and deregistering watched directories.

use vstd::prelude::*;
use crate::api::{WatchActionResponse, WatchedDirResponse, WatchedResponse};
use crate::config::{dir_paths, dirs_without, WatchedRegistry};
use crate::error::{AppError, AppErrorView};
use crate::watcher::WatcherCommand;

verus! {

fn told(what: &str, path: &str) -> (out: String)
    ensures
        out@ == what@ + path@,
{
    let mut out: String = what.to_owned();
    out.append(path);
    out
}

/// What a watch request leads to: the answer for the caller, and the command
/// for the watcher where the directory was not watched before.
pub struct WatchOutcome {
    pub response: WatchActionResponse,
    pub command: Option<WatcherCommand>,
}

/// Registers the directory `path`, already made canonical, as watched since
/// `now`. A directory that is registered already stays as it is and leads to
/// no command.
pub fn do_watch(registry: &mut WatchedRegistry, path: &str, now: i64) -> (outcome: WatchOutcome)
    ensures
        dir_paths(old(registry).dirs@).contains(path@) ==> final(registry).dirs@ == old(
            registry,
        ).dirs@ && outcome.command is None && outcome.response.message@ == "already watching "@
            + path@,
        !dir_paths(old(registry).dirs@).contains(path@) ==> dir_paths(final(registry).dirs@)
            == dir_paths(old(registry).dirs@).push(path@) && final(registry).dirs@.last().added_at
            == now && outcome.response.message@ == "now watching "@ + path@ && (
        outcome.command matches Some(WatcherCommand::Watch(p)) && p@ == path@),
{
    let ghost before = registry.dirs@;
    if registry.add_at(path.to_owned(), now) {
        assert(dir_paths(registry.dirs@) =~= dir_paths(before).push(path@));
        WatchOutcome {
            response: WatchActionResponse { message: told("now watching ", path) },
            command: Some(WatcherCommand::Watch(path.to_owned())),
        }
    } else {
        WatchOutcome {
            response: WatchActionResponse { message: told("already watching ", path) },
            command: None,
        }
    }
}

/// What an unwatch request leads to.
pub struct UnwatchOutcome {
    pub response: WatchActionResponse,
    pub command: WatcherCommand,
}

/// Deregisters the directory `path`. A directory that is not registered is
/// an error, and the registry stays as it is.
pub fn do_unwatch(registry: &mut WatchedRegistry, path: &str) -> (outcome: Result<
    UnwatchOutcome,
    AppError,
>)
    ensures
        final(registry).dirs@ == dirs_without(old(registry).dirs@, path@),
        dir_paths(old(registry).dirs@).contains(path@) <==> outcome is Ok,
        outcome matches Ok(o) ==> o.response.message@ == "stopped watching "@ + path@ && (
        o.command matches WatcherCommand::Unwatch(p) && p@ == path@),
        outcome matches Err(e) ==> e@ == AppErrorView::NotFound(path@ + " is not being watched"@),
{
    if registry.remove(path) {
        Ok(
            UnwatchOutcome {
                response: WatchActionResponse { message: told("stopped watching ", path) },
                command: WatcherCommand::Unwatch(path.to_owned()),
            },
        )
    } else {
        let mut message: String = path.to_owned();
        message.append(" is not being watched");
        Err(AppError::NotFound(message))
    }
}

/// The registered directories as they are listed for a caller.
pub fn list(registry: &WatchedRegistry) -> (response: WatchedResponse)
    ensures
        response.dirs@.len() == registry.dirs@.len(),
        forall|k: int|
            0 <= k < registry.dirs@.len() ==> (#[trigger] response.dirs@[k]).path@
                == registry.dirs@[k].path@ && response.dirs@[k].added_at
                == registry.dirs@[k].added_at,
{
    let mut dirs: Vec<WatchedDirResponse> = Vec::new();
    let mut i: usize = 0;
    while i < registry.dirs.len()
        invariant
            i <= registry.dirs.len(),
            dirs.len() == i,
            forall|k: int|
                0 <= k < i ==> (#[trigger] dirs@[k]).path@ == registry.dirs@[k].path@
                    && dirs@[k].added_at == registry.dirs@[k].added_at,
        decreases registry.dirs.len() - i,
    {
        let d = &registry.dirs[i];
        dirs.push(WatchedDirResponse { path: d.path.clone(), added_at: d.added_at });
        i = i + 1;
    }
    WatchedResponse { dirs }
}

} // verus!
