//! The launcher's directories, its fixed settings and the state that it keeps.

use vstd::prelude::*;

verus! {

/// The movie that the game starts with.
pub const GAME_URL: &'static str = "https://play.dragonfable.com/game/DFLoader.swf";

/// The host that the game is loaded from.
pub const BASE_DOMAIN: &'static str = "play.dragonfable.com";

/// How large the game's cache may grow.
pub const CACHE_MAX_BYTES: u64 = 536870912;

/// The directories that a platform has for its applications.
#[derive(Debug, Clone, Copy, PartialEq, Eq, Structural)]
pub enum PlatformDirectory {
    Cache,
    DataLocal,
    ConfigLocal,
}

/// A directory of the launcher: a path below one of the platform's.
#[derive(Debug, Clone, Copy)]
pub struct AppDirectory {
    pub base: PlatformDirectory,
    pub path: &'static str,
}

/// Where the game's cache is kept.
pub fn cache_dir() -> (dir: AppDirectory)
    ensures
        dir.base == PlatformDirectory::Cache,
        dir.path@ == "itmr-dragonfable-launcher"@,
{
    AppDirectory { base: PlatformDirectory::Cache, path: "itmr-dragonfable-launcher" }
}

/// Where the game's saves are kept.
pub fn save_dir() -> (dir: AppDirectory)
    ensures
        dir.base == PlatformDirectory::DataLocal,
        dir.path@ == "itmr-dragonfable-launcher/SharedObjects"@,
{
    AppDirectory {
        base: PlatformDirectory::DataLocal,
        path: "itmr-dragonfable-launcher/SharedObjects",
    }
}

/// Where the launcher's state is kept.
pub fn config_dir() -> (dir: AppDirectory)
    ensures
        dir.base == PlatformDirectory::ConfigLocal,
        dir.path@ == "itmr-dragonfable-launcher"@,
{
    AppDirectory { base: PlatformDirectory::ConfigLocal, path: "itmr-dragonfable-launcher" }
}

/// Where the launcher's own log is kept.
pub fn log_dir() -> (dir: AppDirectory)
    ensures
        dir.base == PlatformDirectory::DataLocal,
        dir.path@ == "itmr-dragonfable-launcher/log"@,
{
    AppDirectory { base: PlatformDirectory::DataLocal, path: "itmr-dragonfable-launcher/log" }
}

/// What the user has chosen about data of other launchers.
#[derive(Debug, PartialEq, Eq)]
pub struct MigrationChoice {
    /// Where data was copied from; `None` where the user wanted none.
    pub source: Option<String>,
    pub copied_at_unix: i64,
}

/// What the launcher remembers from one run to the next.
#[derive(Debug, PartialEq, Eq)]
pub struct State {
    pub disclaimer_accepted: bool,
    pub migration: Option<MigrationChoice>,
}

impl Clone for MigrationChoice {
    fn clone(&self) -> (choice: Self)
        ensures
            choice == *self,
    {
        MigrationChoice {
            source: match &self.source {
                Some(text) => Some(text.clone()),
                None => None,
            },
            copied_at_unix: self.copied_at_unix,
        }
    }
}

impl Clone for State {
    fn clone(&self) -> (state: Self)
        ensures
            state == *self,
    {
        State {
            disclaimer_accepted: self.disclaimer_accepted,
            migration: match &self.migration {
                Some(choice) => Some(choice.clone()),
                None => None,
            },
        }
    }
}

/// The state of the first run.
pub open spec fn first_state() -> State {
    State { disclaimer_accepted: false, migration: None }
}

impl Default for State {
    fn default() -> (state: Self)
        ensures
            state == first_state(),
    {
        State { disclaimer_accepted: false, migration: None }
    }
}

impl State {
    /// The state that a run starts with: the one that was kept, or that of the
    /// first run where none was or none could be read.
    pub fn load(kept: Option<State>) -> (state: Self)
        ensures
            state == (match kept {
                Some(read) => read,
                None => first_state(),
            }),
    {
        match kept {
            Some(read) => read,
            None => State::default(),
        }
    }

    /// Notes that the user accepts the disclaimer.
    pub fn accept_disclaimer(&mut self)
        ensures
            *final(self) == (State { disclaimer_accepted: true, ..*old(self) }),
    {
        self.disclaimer_accepted = true;
    }

    /// Notes the user's choice about data of other launchers.
    pub fn record_migration(&mut self, source: Option<String>, copied_at_unix: i64)
        ensures
            *final(self) == (State {
                migration: Some(MigrationChoice { source, copied_at_unix }),
                ..*old(self)
            }),
    {
        self.migration = Some(MigrationChoice { source, copied_at_unix });
    }
}

/// The first run has neither an accepted disclaimer nor a choice.
pub proof fn first_runs_have_everything_to_ask()
    ensures
        !first_state().disclaimer_accepted,
        first_state().migration is None,
{
}

/// A run starts with what was kept, or with everything to ask; accepting and
/// choosing are kept apart from each other.
pub proof fn states_keep_what_was_noted(kept: Option<State>, state: State)
    requires
        call_ensures(State::load, (kept,), state),
    ensures
        kept is Some ==> state == kept->0,
        kept is None ==> !state.disclaimer_accepted && state.migration is None,
        forall|s: &mut State| #[trigger]
            call_ensures(State::accept_disclaimer, (s,), ()) ==> final(s).disclaimer_accepted
                && final(s).migration == s.migration,
        forall|s: &mut State, source: Option<String>, at: i64| #[trigger]
            call_ensures(State::record_migration, (s, source, at), ()) ==> final(s).migration is Some && final(s).migration->0.source == source && final(s).migration->0.copied_at_unix == at && final(s).disclaimer_accepted
                == s.disclaimer_accepted,
{
}

/// The launcher's directories are its own: what is kept in one is not in another.
pub proof fn directories_are_apart(
    cache: AppDirectory,
    save: AppDirectory,
    config: AppDirectory,
    log: AppDirectory,
)
    requires
        call_ensures(cache_dir, (), cache),
        call_ensures(save_dir, (), save),
        call_ensures(config_dir, (), config),
        call_ensures(log_dir, (), log),
    ensures
        cache.base == PlatformDirectory::Cache,
        config.base == PlatformDirectory::ConfigLocal,
        save.base == PlatformDirectory::DataLocal,
        log.base == PlatformDirectory::DataLocal,
        cache.path@ == config.path@,
        save.path@ == cache.path@ + "/SharedObjects"@,
        log.path@ == cache.path@ + "/log"@,
{
    reveal_strlit("itmr-dragonfable-launcher");
    reveal_strlit("itmr-dragonfable-launcher/SharedObjects");
    reveal_strlit("/SharedObjects");
    reveal_strlit("itmr-dragonfable-launcher/log");
    reveal_strlit("/log");
    assert(save.path@ =~= cache.path@ + "/SharedObjects"@);
    assert(log.path@ =~= cache.path@ + "/log"@);
}

} // verus!
