//! Settings of the daemon, the command line and the watcher, and the
//! registry of watched directories.
//!
//! Nothing here reads the environment or a file: the values found there are
//! handed in, and what they amount to is worked out here.

use vstd::prelude::*;
use crate::clock::now_millis;
use crate::numbers::{decimal, parse_unsigned, to_decimal, unsigned_value};
use crate::text::{cut, opt_str_text, opt_text, same_text, spells, to_chars};

verus! {

pub const DEFAULT_PORT: u16 = 6175;

pub const DEFAULT_IDLE_TIMEOUT: u64 = 300;

/// What the environment says about the daemon, one entry per variable:
/// host, port, database, idle timeout and log level as `TF_HOST`, `TF_PORT`,
/// `TF_DATABASE_URL`, `TF_IDLE_TIMEOUT` and `TF_LOG_LEVEL` give them, and
/// the home directory.
#[derive(Debug, Clone)]
pub struct Environment {
    pub host: Option<String>,
    pub port: Option<String>,
    pub database_url: Option<String>,
    pub idle_timeout: Option<String>,
    pub log_level: Option<String>,
    pub home: Option<String>,
}

/// The mathematical content of an [`Environment`].
pub struct EnvironmentView {
    pub host: Option<Seq<char>>,
    pub port: Option<Seq<char>>,
    pub database_url: Option<Seq<char>>,
    pub idle_timeout: Option<Seq<char>>,
    pub log_level: Option<Seq<char>>,
    pub home: Option<Seq<char>>,
}

impl View for Environment {
    type V = EnvironmentView;

    open spec fn view(&self) -> EnvironmentView {
        EnvironmentView {
            host: opt_text(self.host),
            port: opt_text(self.port),
            database_url: opt_text(self.database_url),
            idle_timeout: opt_text(self.idle_timeout),
            log_level: opt_text(self.log_level),
            home: opt_text(self.home),
        }
    }
}

/// The settings of the daemon.
#[derive(Debug, Clone)]
pub struct AppConfig {
    pub host: String,
    pub port: u16,
    pub database_url: String,
    pub idle_timeout: u64,
    pub log_level: String,
}

/// The mathematical content of an [`AppConfig`].
pub struct AppConfigView {
    pub host: Seq<char>,
    pub port: u16,
    pub database_url: Seq<char>,
    pub idle_timeout: u64,
    pub log_level: Seq<char>,
}

impl View for AppConfig {
    type V = AppConfigView;

    open spec fn view(&self) -> AppConfigView {
        AppConfigView {
            host: self.host@,
            port: self.port,
            database_url: self.database_url@,
            idle_timeout: self.idle_timeout,
            log_level: self.log_level@,
        }
    }
}

/// The directory of the daemon's data: below the home directory where one is
/// known, else below `/tmp`.
pub open spec fn data_dir(home: Option<Seq<char>>) -> Seq<char> {
    match home {
        Some(h) => h + "/.local/share/timeforged"@,
        None => "/tmp/timeforged"@,
    }
}

/// The directory of the configuration files: below the home directory where
/// one is known, else below `/tmp`.
pub open spec fn config_path(home: Option<Seq<char>>) -> Seq<char> {
    match home {
        Some(h) => h + "/.config/timeforged"@,
        None => "/tmp"@ + "/.config/timeforged"@,
    }
}

/// The database that is used where none is named.
pub open spec fn default_database(home: Option<Seq<char>>) -> Seq<char> {
    "sqlite:"@ + data_dir(home) + "/timeforged.db?mode=rwc"@
}

/// The number that a setting spells, or `fallback` where it is absent or
/// spells none that fits.
pub open spec fn number_or(setting: Option<Seq<char>>, max: nat, fallback: nat) -> nat {
    match setting {
        Some(text) => match unsigned_value(text, max) {
            Some(n) => n,
            None => fallback,
        },
        None => fallback,
    }
}

/// The text of a setting, or `fallback` where it is absent.
pub open spec fn text_or(setting: Option<Seq<char>>, fallback: Seq<char>) -> Seq<char> {
    match setting {
        Some(text) => text,
        None => fallback,
    }
}

/// The settings that an environment amounts to.
pub open spec fn settings_of(env: EnvironmentView) -> AppConfigView {
    AppConfigView {
        host: text_or(env.host, "127.0.0.1"@),
        port: number_or(env.port, 65_535, DEFAULT_PORT as nat) as u16,
        database_url: text_or(env.database_url, default_database(env.home)),
        idle_timeout: number_or(env.idle_timeout, u64::MAX as nat, DEFAULT_IDLE_TIMEOUT as nat) as u64,
        log_level: text_or(env.log_level, "info"@),
    }
}

fn setting_or(setting: &Option<String>, fallback: &str) -> (out: String)
    ensures
        out@ == text_or(opt_text(*setting), fallback@),
{
    match setting {
        Some(text) => text.clone(),
        None => fallback.to_owned(),
    }
}

fn setting_number(setting: &Option<String>, max: u64, fallback: u64) -> (out: u64)
    requires
        fallback <= max,
    ensures
        out == number_or(opt_text(*setting), max as nat, fallback as nat),
        out <= max,
{
    match setting {
        Some(text) => match parse_unsigned(text.as_str(), max) {
            Some(n) => n,
            None => fallback,
        },
        None => fallback,
    }
}

/// The directory of the daemon's data.
pub fn dirs_or_default(home: Option<&str>) -> (dir: String)
    ensures
        dir@ == data_dir(opt_str_text(home)),
{
    match home {
        Some(h) => {
            let mut dir: String = h.to_owned();
            dir.append("/.local/share/timeforged");
            dir
        },
        None => "/tmp/timeforged".to_owned(),
    }
}

/// The directory of the configuration files.
pub fn config_dir(home: Option<&str>) -> (dir: String)
    ensures
        dir@ == config_path(opt_str_text(home)),
{
    let mut dir: String = match home {
        Some(h) => h.to_owned(),
        None => "/tmp".to_owned(),
    };
    dir.append("/.config/timeforged");
    dir
}

fn home_of(env: &Environment) -> (home: Option<&str>)
    ensures
        opt_str_text(home) == opt_text(env.home),
{
    match &env.home {
        Some(h) => Some(h.as_str()),
        None => None,
    }
}

impl AppConfig {
    /// The settings of the daemon under an environment: every variable that
    /// is set and well-formed counts, the rest fall back to their defaults.
    pub fn from_environment(env: &Environment) -> (config: AppConfig)
        ensures
            config@ == settings_of(env@),
    {
        let database_url: String = match &env.database_url {
            Some(url) => url.clone(),
            None => {
                let mut url: String = "sqlite:".to_owned();
                let dir = dirs_or_default(home_of(env));
                url.append(dir.as_str());
                url.append("/timeforged.db?mode=rwc");
                url
            },
        };
        AppConfig {
            host: setting_or(&env.host, "127.0.0.1"),
            port: setting_number(&env.port, 65_535, DEFAULT_PORT as u64) as u16,
            database_url,
            idle_timeout: setting_number(&env.idle_timeout, u64::MAX, DEFAULT_IDLE_TIMEOUT),
            log_level: setting_or(&env.log_level, "info"),
        }
    }

    /// The address the daemon listens on: host, a colon, the port.
    pub open spec fn address(self) -> Seq<char> {
        self.host@ + ":"@ + decimal(self.port as nat)
    }

    pub fn bind_addr(&self) -> (addr: String)
        ensures
            addr@ == self.address(),
    {
        let mut addr: String = self.host.clone();
        addr.append(":");
        let port = to_decimal(self.port as u64);
        addr.append(port.as_str());
        addr
    }
}

/// The settings of the command line.
#[derive(Debug, Clone)]
pub struct CliConfig {
    pub server_url: String,
    pub api_key: Option<String>,
}

impl CliConfig {
    /// The settings of the command line under the values of `TF_SERVER_URL`
    /// and `TF_API_KEY`.
    pub fn from_environment(server_url: Option<String>, api_key: Option<String>) -> (config: CliConfig)
        ensures
            config.server_url@ == text_or(opt_text(server_url), "http://127.0.0.1:6175"@),
            config.api_key == api_key,
    {
        CliConfig { server_url: setting_or(&server_url, "http://127.0.0.1:6175"), api_key }
    }

    /// The server's address without the slashes it ends in.
    pub open spec fn base(url: Seq<char>) -> Seq<char>
        decreases url.len(),
    {
        if url.len() > 0 && url.last() == '/' {
            CliConfig::base(url.drop_last())
        } else {
            url
        }
    }

    /// The address of an endpoint: the server's address without trailing
    /// slashes, then the endpoint's path.
    pub fn endpoint(&self, path: &str) -> (url: String)
        ensures
            url@ == CliConfig::base(self.server_url@) + path@,
    {
        let chars = crate::text::to_chars(self.server_url.as_str());
        let mut end: usize = chars.len();
        assert(chars@.subrange(0, end as int) =~= self.server_url@);
        while end > 0 && chars[end - 1] == '/'
            invariant
                end <= chars.len(),
                CliConfig::base(chars@.subrange(0, end as int)) == CliConfig::base(self.server_url@),
            decreases end,
        {
            assert(chars@.subrange(0, end as int).drop_last() =~= chars@.subrange(0, end - 1));
            end = end - 1;
        }
        let mut url: String = crate::text::cut(self.server_url.as_str(), 0, end);
        url.append(path);
        url
    }
}

pub fn default_debounce_secs() -> (secs: u64)
    ensures
        secs == 30,
{
    30
}

pub fn default_window_poll_secs() -> (secs: u64)
    ensures
        secs == 15,
{
    15
}

/// The settings of the watcher.
#[derive(Debug, Clone)]
pub struct WatcherConfig {
    pub debounce_secs: u64,
    pub ignore_patterns: Vec<String>,
    pub window_poll_secs: u64,
    pub enable_window_tracker: bool,
}

impl Default for WatcherConfig {
    fn default() -> (config: WatcherConfig)
        ensures
            config.debounce_secs == 30,
            config.ignore_patterns@.len() == 0,
            config.window_poll_secs == 15,
            !config.enable_window_tracker,
    {
        WatcherConfig {
            debounce_secs: default_debounce_secs(),
            ignore_patterns: Vec::new(),
            window_poll_secs: default_window_poll_secs(),
            enable_window_tracker: false,
        }
    }
}

/// A directory that is watched, and since when (milliseconds since the Unix
/// epoch).
#[derive(Debug, Clone)]
pub struct WatchedDir {
    pub path: String,
    pub added_at: i64,
}

/// The durable list of watched directories.
#[derive(Debug, Clone)]
pub struct WatchedRegistry {
    pub dirs: Vec<WatchedDir>,
}

/// The paths of a list of watched directories.
pub open spec fn dir_paths(dirs: Seq<WatchedDir>) -> Seq<Seq<char>> {
    Seq::new(dirs.len(), |k: int| dirs[k].path@)
}

/// `dirs` without every entry of the path `path`.
pub open spec fn dirs_without(dirs: Seq<WatchedDir>, path: Seq<char>) -> Seq<WatchedDir>
    decreases dirs.len(),
{
    if dirs.len() == 0 {
        dirs
    } else if dirs.last().path@ == path {
        dirs_without(dirs.drop_last(), path)
    } else {
        dirs_without(dirs.drop_last(), path).push(dirs.last())
    }
}

/// What is left of a list is no longer than the list, and shorter exactly
/// where something was taken out.
pub proof fn lemma_dirs_without(dirs: Seq<WatchedDir>, path: Seq<char>)
    ensures
        dirs_without(dirs, path).len() <= dirs.len(),
        dirs_without(dirs, path).len() < dirs.len() <==> dir_paths(dirs).contains(path),
        !dir_paths(dirs_without(dirs, path)).contains(path),
    decreases dirs.len(),
{
    if dirs.len() > 0 {
        let head = dirs.drop_last();
        lemma_dirs_without(head, path);
        let paths = dir_paths(dirs);
        let out = dirs_without(dirs, path);
        if dir_paths(head).contains(path) {
            let i = choose|i: int| 0 <= i < head.len() && dir_paths(head)[i] == path;
            assert(paths[i] == path);
        }
        if dirs.last().path@ == path {
            assert(paths[dirs.len() - 1] == path);
        }
        if paths.contains(path) {
            let i = choose|i: int| 0 <= i < paths.len() && paths[i] == path;
            if i < head.len() {
                assert(dir_paths(head)[i] == path);
            }
        }
        if dir_paths(out).contains(path) {
            let j = choose|j: int| 0 <= j < out.len() && dir_paths(out)[j] == path;
            if dirs.last().path@ != path && j < out.len() - 1 {
                assert(dir_paths(dirs_without(head, path))[j] == path);
            }
        }
    }
}

impl WatchedRegistry {
    /// A registry without directories.
    pub fn new() -> (registry: WatchedRegistry)
        ensures
            registry.dirs@.len() == 0,
    {
        WatchedRegistry { dirs: Vec::new() }
    }

    /// Whether `path` is registered.
    pub fn contains(&self, path: &str) -> (yes: bool)
        ensures
            yes == dir_paths(self.dirs@).contains(path@),
    {
        let mut i: usize = 0;
        while i < self.dirs.len()
            invariant
                i <= self.dirs.len(),
                forall|k: int| 0 <= k < i ==> dir_paths(self.dirs@)[k] != path@,
            decreases self.dirs.len() - i,
        {
            if same_text(self.dirs[i].path.as_str(), path) {
                assert(dir_paths(self.dirs@)[i as int] == path@);
                return true;
            }
            i = i + 1;
        }
        false
    }

    /// Registers `path` as watched since `now`, unless it is registered
    /// already; tells whether it was added.
    pub fn add_at(&mut self, path: String, now: i64) -> (added: bool)
        ensures
            added == !dir_paths(old(self).dirs@).contains(path@),
            added ==> final(self).dirs@ == old(self).dirs@.push(WatchedDir { path, added_at: now }),
            !added ==> final(self).dirs@ == old(self).dirs@,
    {
        if self.contains(path.as_str()) {
            return false;
        }
        self.dirs.push(WatchedDir { path, added_at: now });
        true
    }

    /// Registers `path` as watched since now, unless it is registered
    /// already; tells whether it was added.
    pub fn add(&mut self, path: String) -> (added: bool)
        ensures
            added == !dir_paths(old(self).dirs@).contains(path@),
            added ==> final(self).dirs@.len() == old(self).dirs@.len() + 1,
            added ==> final(self).dirs@.drop_last() == old(self).dirs@,
            added ==> final(self).dirs@.last().path == path,
            !added ==> final(self).dirs@ == old(self).dirs@,
    {
        if self.contains(path.as_str()) {
            return false;
        }
        let now: i64 = now_millis();
        let ghost before = self.dirs@;
        let added = self.add_at(path, now);
        assert(self.dirs@.drop_last() =~= before);
        added
    }

    /// Takes `path` out of the registry; tells whether it was in it.
    pub fn remove(&mut self, path: &str) -> (removed: bool)
        ensures
            removed == dir_paths(old(self).dirs@).contains(path@),
            final(self).dirs@ == dirs_without(old(self).dirs@, path@),
    {
        let before: usize = self.dirs.len();
        let mut i: usize = 0;
        let ghost start = self.dirs@;
        let ghost mut seen: int = 0;
        while i < self.dirs.len()
            invariant
                i <= self.dirs.len(),
                0 <= seen <= start.len(),
                self.dirs@.len() - i == start.len() - seen,
                self.dirs@.take(i as int) == dirs_without(start.take(seen), path@),
                self.dirs@.skip(i as int) == start.skip(seen),
            decreases self.dirs.len() - i,
        {
            proof {
                assert(start.take(seen + 1).drop_last() =~= start.take(seen));
                assert(start.take(seen + 1).last() == start[seen]);
                assert(self.dirs@[i as int] == self.dirs@.skip(i as int)[0]);
                assert(start[seen] == start.skip(seen)[0]);
            }
            let ghost cur = self.dirs@;
            if same_text(self.dirs[i].path.as_str(), path) {
                self.dirs.remove(i);
                proof {
                    assert(self.dirs@.take(i as int) =~= cur.take(i as int));
                    assert(self.dirs@.skip(i as int) =~= cur.skip(i as int).skip(1));
                    assert(start.skip(seen).skip(1) =~= start.skip(seen + 1));
                    seen = seen + 1;
                }
            } else {
                proof {
                    assert(cur.take(i + 1) =~= cur.take(i as int).push(cur[i as int]));
                    assert(cur.skip(i as int).skip(1) =~= cur.skip(i + 1));
                    assert(start.skip(seen).skip(1) =~= start.skip(seen + 1));
                    seen = seen + 1;
                }
                i = i + 1;
            }
        }
        proof {
            assert(seen == start.len());
            assert(start.take(seen) =~= start);
            assert(self.dirs@.take(i as int) =~= self.dirs@);
            lemma_dirs_without(start, path@);
        }
        self.dirs.len() < before
    }

    /// The registered directories, in the order in which they were added.
    pub fn list(&self) -> (dirs: &Vec<WatchedDir>)
        ensures
            dirs@ == self.dirs@,
    {
        &self.dirs
    }
}

/// The position of the first `?` in `s`, or its length.
pub open spec fn query_start(s: Seq<char>) -> int
    decreases s.len(),
{
    if s.len() == 0 {
        0
    } else if s[0] == '?' {
        0
    } else {
        1 + query_start(s.skip(1))
    }
}

/// The file of an SQLite database address: what stands between `sqlite:`
/// and the first `?`. Other addresses name no file.
pub open spec fn database_file(url: Seq<char>) -> Option<Seq<char>> {
    if url.len() >= 7 && url.take(7) == "sqlite:"@ {
        let rest = url.skip(7);
        Some(rest.take(query_start(rest)))
    } else {
        None
    }
}

proof fn lemma_query_start(s: Seq<char>, at: int)
    requires
        0 <= at <= s.len(),
        forall|k: int| 0 <= k < at ==> s[k] != '?',
        at == s.len() || s[at] == '?',
    ensures
        query_start(s) == at,
    decreases s.len(),
{
    if at > 0 {
        assert forall|k: int| 0 <= k < at - 1 implies s.skip(1)[k] != '?' by {
            assert(s.skip(1)[k] == s[k + 1]);
        }
        lemma_query_start(s.skip(1), at - 1);
    }
}

/// The file of an SQLite database address, whose directory has to exist
/// before the database is opened.
pub fn sqlite_file(url: &str) -> (file: Option<String>)
    ensures
        opt_text(file) == database_file(url@),
{
    let chars = to_chars(url);
    if chars.len() < 7 {
        return None;
    }
    assert(chars@.subrange(0, 7) =~= url@.take(7));
    if !spells(&chars, 0, 7, "sqlite:") {
        return None;
    }
    let ghost rest = url@.skip(7);
    let mut end: usize = 7;
    while end < chars.len() && chars[end] != '?'
        invariant
            7 <= end <= chars.len(),
            chars@ == url@,
            rest == url@.skip(7),
            forall|k: int| 0 <= k < end - 7 ==> rest[k] != '?',
        decreases chars.len() - end,
    {
        end = end + 1;
    }
    proof {
        lemma_query_start(rest, end - 7);
        assert(rest.take(end - 7) =~= url@.subrange(7, end as int));
    }
    Some(cut(url, 7, end))
}

} // verus!
