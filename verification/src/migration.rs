//! Taking over save data from other launchers of the game on the first run.
//!
//! Flash keeps shared objects as `#SharedObjects/<id>/<domain>/...`; the player
//! keeps them as `<save directory>/<domain>/...` and reads the same files, so
//! that each domain's directory is copied as it is.

use vstd::prelude::*;
use vstd::slice::slice_subrange;

use crate::text::same_text;

verus! {

/// A directory of the user that others lie in.
#[derive(Debug, Clone, Copy, PartialEq, Eq, Structural)]
pub enum BaseDirectory {
    Home,
    XdgConfig,
    AppData,
}

/// A directory in which a launcher may have kept data.
pub struct Root {
    pub base: BaseDirectory,
    /// The names that lead to it, one after the other.
    pub path: Vec<&'static str>,
}

/// A launcher that may have left data.
pub struct MigrationSource {
    pub id: &'static str,
    pub name: &'static str,
    /// Whether directories of the proxy count as the game's data.
    pub include_proxy_host: bool,
    pub roots: Vec<Root>,
}

/// Where a directory lies.
#[verifier::ext_equal]
pub struct Place {
    pub base: BaseDirectory,
    pub path: Seq<Seq<char>>,
}

/// What is known of a launcher.
#[verifier::ext_equal]
pub struct Launcher {
    pub id: Seq<char>,
    pub name: Seq<char>,
    pub include_proxy_host: bool,
    pub roots: Seq<Place>,
}

impl View for Root {
    type V = Place;

    open spec fn view(&self) -> Place {
        Place { base: self.base, path: self.path@.map_values(|name: &'static str| name@) }
    }
}

impl View for MigrationSource {
    type V = Launcher;

    open spec fn view(&self) -> Launcher {
        Launcher {
            id: self.id@,
            name: self.name@,
            include_proxy_host: self.include_proxy_host,
            roots: self.roots@.map_values(|root: Root| root@),
        }
    }
}

/// What a list holds where a condition is met, and nothing where it is not.
pub open spec fn only_if<T>(condition: bool, list: Seq<T>) -> Seq<T> {
    if condition {
        list
    } else {
        seq![]
    }
}

/// Where Flash Player keeps its data, where the user has a home or an
/// application data directory.
pub open spec fn flash_roots(home: bool, appdata: bool) -> Seq<Place> {
    only_if(
        home,
        seq![Place { base: BaseDirectory::Home, path: seq![".macromedia"@, "Flash_Player"@] }],
    ) + only_if(
        appdata,
        seq![Place { base: BaseDirectory::AppData, path: seq!["Macromedia"@, "Flash Player"@] }],
    )
}

/// Where a launcher keeps Flash's data: in the configuration directory, which
/// lies in the home directory unless the user has set another, and in the
/// application data directory.
pub open spec fn launcher_roots(
    name: Seq<char>,
    home: bool,
    xdg_config: bool,
    appdata: bool,
) -> Seq<Place> {
    let data = "Pepper Data/Shockwave Flash/WritableRoot"@;
    (if xdg_config {
        seq![Place { base: BaseDirectory::XdgConfig, path: seq![name, data] }]
    } else {
        only_if(
            home,
            seq![Place { base: BaseDirectory::Home, path: seq![".config"@, name, data] }],
        )
    }) + only_if(appdata, seq![Place { base: BaseDirectory::AppData, path: seq![name, data] }])
}

/// The launchers that are looked for.
pub open spec fn launchers(home: bool, xdg_config: bool, appdata: bool) -> Seq<Launcher> {
    seq![
        Launcher {
            id: "flash-player"@,
            name: "Adobe Flash Player"@,
            include_proxy_host: false,
            roots: flash_roots(home, appdata),
        },
        Launcher {
            id: "artix-game-launcher"@,
            name: "Artix Game Launcher"@,
            include_proxy_host: false,
            roots: launcher_roots("Artix Game Launcher"@, home, xdg_config, appdata),
        },
        Launcher {
            id: "evolved-dragonfable-launcher"@,
            name: "Evolved DragonFable Launcher"@,
            include_proxy_host: true,
            roots: launcher_roots("evolved-dragonfable-launcher"@, home, xdg_config, appdata),
        },
    ]
}

fn root_at(base: BaseDirectory, first: &'static str, second: &'static str) -> (root: Root)
    ensures
        root@ == (Place { base, path: seq![first@, second@] }),
{
    let mut path: Vec<&'static str> = Vec::new();
    path.push(first);
    path.push(second);
    let root = Root { base, path };
    assert(root@.path =~= seq![first@, second@]);
    root
}

fn push_root(roots: &mut Vec<Root>, root: Root)
    ensures
        final(roots)@.map_values(|r: Root| r@) == old(roots)@.map_values(|r: Root| r@).push(root@),
{
    roots.push(root);
    assert(roots@.map_values(|r: Root| r@) =~= old(roots)@.map_values(|r: Root| r@).push(root@));
}

fn find_flash_roots(home: bool, appdata: bool) -> (roots: Vec<Root>)
    ensures
        roots@.map_values(|r: Root| r@) == flash_roots(home, appdata),
{
    let mut roots: Vec<Root> = Vec::new();
    assert(roots@.map_values(|r: Root| r@) =~= seq![]);
    if home {
        push_root(&mut roots, root_at(BaseDirectory::Home, ".macromedia", "Flash_Player"));
    }
    if appdata {
        push_root(&mut roots, root_at(BaseDirectory::AppData, "Macromedia", "Flash Player"));
    }
    assert(roots@.map_values(|r: Root| r@) =~= flash_roots(home, appdata));
    roots
}

fn find_launcher_roots(name: &'static str, home: bool, xdg_config: bool, appdata: bool) -> (roots:
    Vec<Root>)
    ensures
        roots@.map_values(|r: Root| r@) == launcher_roots(name@, home, xdg_config, appdata),
{
    let data = "Pepper Data/Shockwave Flash/WritableRoot";
    let mut roots: Vec<Root> = Vec::new();
    assert(roots@.map_values(|r: Root| r@) =~= seq![]);
    if xdg_config {
        push_root(&mut roots, root_at(BaseDirectory::XdgConfig, name, data));
    } else if home {
        let mut path: Vec<&'static str> = Vec::new();
        path.push(".config");
        path.push(name);
        path.push(data);
        let root = Root { base: BaseDirectory::Home, path };
        assert(root@.path =~= seq![".config"@, name@, data@]);
        push_root(&mut roots, root);
    }
    if appdata {
        push_root(&mut roots, root_at(BaseDirectory::AppData, name, data));
    }
    assert(roots@.map_values(|r: Root| r@) =~= launcher_roots(name@, home, xdg_config, appdata));
    roots
}

/// The launchers that are looked for, by which of the user's directories are
/// known.
pub fn sources(home: bool, xdg_config: bool, appdata: bool) -> (sources: Vec<MigrationSource>)
    ensures
        sources@.map_values(|source: MigrationSource| source@) == launchers(
            home,
            xdg_config,
            appdata,
        ),
{
    let mut sources: Vec<MigrationSource> = Vec::new();
    sources.push(
        MigrationSource {
            id: "flash-player",
            name: "Adobe Flash Player",
            include_proxy_host: false,
            roots: find_flash_roots(home, appdata),
        },
    );
    sources.push(
        MigrationSource {
            id: "artix-game-launcher",
            name: "Artix Game Launcher",
            include_proxy_host: false,
            roots: find_launcher_roots("Artix Game Launcher", home, xdg_config, appdata),
        },
    );
    sources.push(
        MigrationSource {
            id: "evolved-dragonfable-launcher",
            name: "Evolved DragonFable Launcher",
            include_proxy_host: true,
            roots: find_launcher_roots("evolved-dragonfable-launcher", home, xdg_config, appdata),
        },
    );
    assert(sources@.map_values(|source: MigrationSource| source@) =~= launchers(
        home,
        xdg_config,
        appdata,
    ));
    sources
}

/// What stands in a directory. A directory that cannot be read is as good as
/// empty.
pub enum Entry {
    File,
    Directory(Vec<Entry>),
    Other,
}

/// The entry is a file, or holds one somewhere below it.
pub open spec fn holds_data(entry: Entry) -> bool
    decreases entry,
{
    match entry {
        Entry::File => true,
        Entry::Directory(entries) => exists|i: int|
            0 <= i < entries@.len() && holds_data(#[trigger] entries@[i]),
        Entry::Other => false,
    }
}

/// One of the entries is a file, or holds one somewhere below it.
pub open spec fn any_data(entries: Seq<Entry>) -> bool {
    exists|i: int| 0 <= i < entries.len() && holds_data(#[trigger] entries[i])
}

/// Whether there is a file in a directory or somewhere below it.
pub fn has_data(entries: &Vec<Entry>) -> (yes: bool)
    ensures
        yes == any_data(entries@),
    decreases entries,
{
    let mut i: usize = 0;
    while i < entries.len()
        invariant
            i <= entries@.len(),
            forall|j: int| 0 <= j < i ==> !holds_data(#[trigger] entries@[j]),
        decreases entries@.len() - i,
    {
        let found = match &entries[i] {
            Entry::File => true,
            Entry::Directory(inner) => has_data(inner),
            Entry::Other => false,
        };
        if found {
            assert(holds_data(entries@[i as int]));
            return true;
        }
        i += 1;
    }
    false
}

/// What a session's directory holds for a host.
pub struct HostDirectory {
    pub host: String,
    pub entries: Vec<Entry>,
}

/// An entry of `#SharedObjects`.
pub struct Session {
    pub is_dir: bool,
    pub hosts: Vec<HostDirectory>,
}

/// The session holds data for the host.
pub open spec fn session_has(session: Session, host: Seq<char>) -> bool {
    session.is_dir && exists|i: int|
        0 <= i < session.hosts@.len() && (#[trigger] session.hosts@[i]).host@ == host && any_data(
            session.hosts@[i].entries@,
        )
}

/// A host that is looked for, and the domain that its data goes to.
#[derive(Clone, Copy)]
pub struct Wanted {
    pub host: &'static str,
    pub domain: &'static str,
}

/// A host's data that was found: in which session.
#[derive(Clone, Copy)]
pub struct Found {
    pub wanted: Wanted,
    pub session: usize,
}

/// The hosts that are looked for. The proxy's data goes to the domain that the
/// game is played at.
pub open spec fn wanted_list(include_proxy_host: bool) -> Seq<Wanted> {
    seq![
        Wanted { host: "play.dragonfable.com", domain: "play.dragonfable.com" },
        Wanted { host: "dragonlord.battleon.com", domain: "dragonlord.battleon.com" },
        Wanted { host: "dragonfable.battleon.com", domain: "dragonfable.battleon.com" },
    ] + only_if(
        include_proxy_host,
        seq![Wanted { host: "127.0.0.1", domain: "play.dragonfable.com" }],
    )
}

/// The hosts that are looked for.
pub fn wanted_hosts(include_proxy_host: bool) -> (wanted: Vec<Wanted>)
    ensures
        wanted@ == wanted_list(include_proxy_host),
{
    let mut wanted: Vec<Wanted> = Vec::new();
    wanted.push(Wanted { host: "play.dragonfable.com", domain: "play.dragonfable.com" });
    wanted.push(Wanted { host: "dragonlord.battleon.com", domain: "dragonlord.battleon.com" });
    wanted.push(Wanted { host: "dragonfable.battleon.com", domain: "dragonfable.battleon.com" });
    if include_proxy_host {
        wanted.push(Wanted { host: "127.0.0.1", domain: "play.dragonfable.com" });
    }
    assert(wanted@ =~= wanted_list(include_proxy_host));
    wanted
}

/// What is found of the hosts that are still looked for from session `k` on:
/// each host's data in the first session that holds any, and of one session in
/// the order in which the hosts are looked for.
pub open spec fn found_from(sessions: Seq<Session>, k: int, wanted: Seq<Wanted>) -> Seq<Found>
    decreases sessions.len() - k,
{
    if k < 0 || k >= sessions.len() {
        seq![]
    } else {
        let here = |w: Wanted| session_has(sessions[k], w.host@);
        wanted.filter(here).map_values(|w: Wanted| Found { wanted: w, session: k as usize })
            + found_from(sessions, k + 1, wanted.filter(|w: Wanted| !here(w)))
    }
}

fn session_holds(session: &Session, host: &str) -> (yes: bool)
    ensures
        yes == session_has(*session, host@),
{
    if !session.is_dir {
        return false;
    }
    let mut i: usize = 0;
    while i < session.hosts.len()
        invariant
            i <= session.hosts@.len(),
            session.is_dir,
            forall|j: int|
                0 <= j < i ==> !((#[trigger] session.hosts@[j]).host@ == host@ && any_data(
                    session.hosts@[j].entries@,
                )),
        decreases session.hosts@.len() - i,
    {
        if same_text(session.hosts[i].host.as_str(), host) && has_data(&session.hosts[i].entries) {
            assert(session.hosts@[i as int].host@ == host@);
            return true;
        }
        i += 1;
    }
    false
}

proof fn filter_of_longer_start<T>(list: Seq<T>, j: int, p: spec_fn(T) -> bool)
    requires
        0 <= j < list.len(),
    ensures
        list.take(j + 1).filter(p) == (if p(list[j]) {
            list.take(j).filter(p).push(list[j])
        } else {
            list.take(j).filter(p)
        }),
{
    reveal(Seq::filter);
    assert(list.take(j + 1).drop_last() =~= list.take(j));
}

/// Looks for the data of hosts in the sessions of one source. `None` stands for
/// a `#SharedObjects` directory that cannot be read.
pub fn detect(sessions: Option<&Vec<Session>>, include_proxy_host: bool) -> (found: Vec<Found>)
    ensures
        sessions is None ==> found@.len() == 0,
        sessions matches Some(list) ==> found@ == found_from(
            list@,
            0,
            wanted_list(include_proxy_host),
        ),
{
    match sessions {
        None => Vec::new(),
        Some(list) => {
            let wanted = wanted_hosts(include_proxy_host);
            detect_hosts(list, wanted)
        },
    }
}

/// Looks for the data of the given hosts in the sessions of one source.
pub fn detect_hosts(sessions: &Vec<Session>, wanted: Vec<Wanted>) -> (found: Vec<Found>)
    ensures
        found@ == found_from(sessions@, 0, wanted@),
{
    let mut found: Vec<Found> = Vec::new();
    let mut missing: Vec<Wanted> = wanted;
    let mut k: usize = 0;
    while k < sessions.len()
        invariant
            k <= sessions@.len(),
            found_from(sessions@, 0, wanted@) == found@ + found_from(
                sessions@,
                k as int,
                missing@,
            ),
        decreases sessions@.len() - k,
    {
        let ghost here = |w: Wanted| session_has(sessions@[k as int], w.host@);
        let ghost there = |w: Wanted| !here(w);
        let ghost before = found@;
        let ghost looked = missing@;
        let mut rest: Vec<Wanted> = Vec::new();
        let mut i: usize = 0;
        assert(looked.take(0) =~= seq![]);
        assert(looked.take(0).filter(here) =~= seq![]) by {
            reveal(Seq::filter);
        }
        assert(looked.take(0).filter(there) =~= seq![]) by {
            reveal(Seq::filter);
        }
        assert(found@ =~= before + looked.take(0).filter(here).map_values(
            |w: Wanted| Found { wanted: w, session: k },
        ));
        while i < missing.len()
            invariant
                i <= missing@.len(),
                k < sessions@.len(),
                missing@ == looked,
                here == (|w: Wanted| session_has(sessions@[k as int], w.host@)),
                there == (|w: Wanted| !here(w)),
                found@ == before + looked.take(i as int).filter(here).map_values(
                    |w: Wanted| Found { wanted: w, session: k },
                ),
                rest@ == looked.take(i as int).filter(there),
            decreases missing@.len() - i,
        {
            proof {
                filter_of_longer_start(looked, i as int, here);
                filter_of_longer_start(looked, i as int, there);
            }
            let next = missing[i];
            let ghost map = |w: Wanted| Found { wanted: w, session: k };
            let ghost taken = looked.take(i as int).filter(here);
            if session_holds(&sessions[k], next.host) {
                found.push(Found { wanted: next, session: k });
                assert(taken.push(next).map_values(map) =~= taken.map_values(map).push(map(next)));
                assert(found@ =~= before + taken.push(next).map_values(map));
            } else {
                rest.push(next);
            }
            i += 1;
        }
        proof {
            assert(looked.take(looked.len() as int) =~= looked);
            let map = |w: Wanted| Found { wanted: w, session: k };
            let tail = found_from(sessions@, k + 1, rest@);
            assert(before + (looked.filter(here).map_values(map) + tail) =~= found@ + tail);
        }
        missing = rest;
        k += 1;
    }
    assert(found@ + found_from(sessions@, k as int, missing@) =~= found@);
    found
}

proof fn filter_keeps_members<T>(list: Seq<T>, p: spec_fn(T) -> bool)
    ensures
        forall|x: T| #[trigger] list.filter(p).contains(x) <==> list.contains(x) && p(x),
    decreases list.len(),
{
    reveal(Seq::filter);
    if list.len() > 0 {
        let start = list.drop_last();
        filter_keeps_members(start, p);
        assert forall|x: T| #[trigger] list.filter(p).contains(x) <==> list.contains(x) && p(x) by {
            assert(list =~= start.push(list.last()));
            assert(list.contains(x) <==> start.contains(x) || x == list.last()) by {
                if list.contains(x) {
                    let i = choose|i: int| 0 <= i < list.len() && list[i] == x;
                    if i < start.len() {
                        assert(start[i] == x);
                    }
                }
                if start.contains(x) {
                    let i = choose|i: int| 0 <= i < start.len() && start[i] == x;
                    assert(list[i] == x);
                }
                assert(list[list.len() - 1] == list.last());
            }
            let kept = start.filter(p);
            if p(list.last()) {
                assert(list.filter(p) == kept.push(list.last()));
                assert(kept.push(list.last())[kept.len() as int] == list.last());
                if kept.contains(x) {
                    let i = choose|i: int| 0 <= i < kept.len() && kept[i] == x;
                    assert(kept.push(list.last())[i] == x);
                }
                if kept.push(list.last()).contains(x) && x != list.last() {
                    let i = choose|i: int|
                        0 <= i < kept.push(list.last()).len() && kept.push(list.last())[i] == x;
                    assert(kept[i] == x);
                }
            }
        }
    }
}

proof fn filter_keeps_distinct<T>(list: Seq<T>, p: spec_fn(T) -> bool)
    requires
        list.no_duplicates(),
    ensures
        list.filter(p).no_duplicates(),
    decreases list.len(),
{
    reveal(Seq::filter);
    if list.len() > 0 {
        let start = list.drop_last();
        filter_keeps_distinct(start, p);
        filter_keeps_members(start, p);
        let kept = start.filter(p);
        if p(list.last()) {
            assert forall|i: int| 0 <= i < kept.len() implies kept[i] != list.last() by {
                assert(kept.contains(kept[i]));
                assert(start.contains(kept[i]));
            }
        }
    }
}

/// Whatever is found was looked for, and lies in the first session that holds
/// data for its host.
pub proof fn found_data_is_there(sessions: Seq<Session>, k: int, wanted: Seq<Wanted>, i: int)
    requires
        0 <= k,
        sessions.len() <= usize::MAX,
        0 <= i < found_from(sessions, k, wanted).len(),
    ensures
        ({
            let found = found_from(sessions, k, wanted)[i];
            &&& wanted.contains(found.wanted)
            &&& k <= found.session < sessions.len()
            &&& session_has(sessions[found.session as int], found.wanted.host@)
            &&& forall|j: int|
                k <= j < found.session ==> !session_has(#[trigger] sessions[j], found.wanted.host@)
        }),
    decreases sessions.len() - k,
{
    if k < sessions.len() {
        let here = |w: Wanted| session_has(sessions[k], w.host@);
        let there = |w: Wanted| !here(w);
        let first = wanted.filter(here);
        filter_keeps_members(wanted, here);
        filter_keeps_members(wanted, there);
        if i < first.len() {
            assert(first.contains(first[i]));
        } else {
            let rest = wanted.filter(there);
            found_data_is_there(sessions, k + 1, rest, i - first.len());
            let found = found_from(sessions, k + 1, rest)[i - first.len()];
            assert(rest.contains(found.wanted));
        }
    }
}

/// Data of a host that is looked for is found wherever a session holds any.
pub proof fn data_that_is_there_is_found(
    sessions: Seq<Session>,
    k: int,
    wanted: Seq<Wanted>,
    w: Wanted,
    s: int,
)
    requires
        0 <= k <= s < sessions.len(),
        wanted.contains(w),
        session_has(sessions[s], w.host@),
    ensures
        exists|i: int|
            0 <= i < found_from(sessions, k, wanted).len() && (#[trigger] found_from(
                sessions,
                k,
                wanted,
            )[i]).wanted == w,
    decreases sessions.len() - k,
{
    let here = |v: Wanted| session_has(sessions[k], v.host@);
    let there = |v: Wanted| !here(v);
    let first = wanted.filter(here);
    let rest = wanted.filter(there);
    filter_keeps_members(wanted, here);
    filter_keeps_members(wanted, there);
    let all = found_from(sessions, k, wanted);
    if here(w) {
        assert(first.contains(w));
        let i = choose|i: int| 0 <= i < first.len() && first[i] == w;
        assert(all[i].wanted == w);
    } else {
        assert(rest.contains(w));
        data_that_is_there_is_found(sessions, k + 1, rest, w, s);
        let later = found_from(sessions, k + 1, rest);
        let i = choose|i: int| 0 <= i < later.len() && (#[trigger] later[i]).wanted == w;
        assert(all[first.len() + i] == later[i]);
    }
}

/// No host is found twice.
pub proof fn hosts_are_found_once(sessions: Seq<Session>, k: int, wanted: Seq<Wanted>)
    requires
        0 <= k,
        sessions.len() <= usize::MAX,
        wanted.no_duplicates(),
    ensures
        forall|i: int, j: int|
            0 <= i < j < found_from(sessions, k, wanted).len() ==> (#[trigger] found_from(
                sessions,
                k,
                wanted,
            )[i]).wanted != (#[trigger] found_from(sessions, k, wanted)[j]).wanted,
    decreases sessions.len() - k,
{
    if k < sessions.len() {
        let here = |w: Wanted| session_has(sessions[k], w.host@);
        let there = |w: Wanted| !here(w);
        let first = wanted.filter(here);
        let rest = wanted.filter(there);
        let later = found_from(sessions, k + 1, rest);
        let all = found_from(sessions, k, wanted);
        filter_keeps_distinct(wanted, here);
        filter_keeps_distinct(wanted, there);
        filter_keeps_members(wanted, here);
        filter_keeps_members(wanted, there);
        hosts_are_found_once(sessions, k + 1, rest);
        assert forall|i: int, j: int| 0 <= i < j < all.len() implies (#[trigger] all[i]).wanted != (
        #[trigger] all[j]).wanted by {
            if j < first.len() {
                assert(all[i].wanted == first[i] && all[j].wanted == first[j]);
            } else if i < first.len() {
                assert(first.contains(first[i]));
                assert(all[j] == later[j - first.len()]);
                found_data_is_there(sessions, k + 1, rest, j - first.len());
                assert(rest.contains(all[j].wanted));
            } else {
                assert(all[i] == later[i - first.len()]);
                assert(all[j] == later[j - first.len()]);
            }
        }
    }
}

/// What the copying of directories waits for.
#[derive(Debug, Clone, Copy, PartialEq, Eq, Structural)]
pub enum CopyPhase {
    /// The directory at the run's path is opened.
    Listing,
    /// The next entry of the directory at the run's path is read.
    Reading,
    /// It is looked whether the file at the run's path exists among the targets.
    Checking,
    /// The target's directory is created and the file is copied.
    Copying,
    Finished,
    Failed,
}

/// What comes of it. Entries come with their names.
#[derive(Debug)]
pub enum CopyEvent<N> {
    Listed,
    Directory(N),
    File(N),
    EndOfDirectory,
    TargetExists,
    TargetMissing,
    Copied,
    Error,
}

/// The copying of each domain's directory into the save directory.
#[derive(Debug)]
pub struct CopyRun<N> {
    pub phase: CopyPhase,
    /// The domains whose directories are still to come.
    pub left: Vec<N>,
    /// Where the run is: the domain, the names of the open directories below
    /// its directory, and the name of the entry that is looked at. Below the
    /// save directory these lead to the target; below the domain's directory
    /// all but the first lead to what is copied.
    pub path: Vec<N>,
    pub copied: usize,
}

/// The state of a run.
#[verifier::ext_equal]
pub struct CopyState<N> {
    pub phase: CopyPhase,
    pub left: Seq<N>,
    pub path: Seq<N>,
    pub copied: nat,
}

impl<N> View for CopyRun<N> {
    type V = CopyState<N>;

    open spec fn view(&self) -> CopyState<N> {
        CopyState {
            phase: self.phase,
            left: self.left@,
            path: self.path@,
            copied: self.copied as nat,
        }
    }
}

impl<N> CopyState<N> {
    /// A run that goes on is in a domain's directory, and a file lies in one.
    pub open spec fn wf(self) -> bool {
        match self.phase {
            CopyPhase::Listing => self.path.len() > 0,
            CopyPhase::Reading => self.path.len() > 0,
            CopyPhase::Checking => self.path.len() > 1,
            CopyPhase::Copying => self.path.len() > 1,
            _ => true,
        }
    }
}

/// A run that has gone through all directories.
pub open spec fn copy_end<N>(copied: nat) -> CopyState<N> {
    CopyState { phase: CopyPhase::Finished, left: seq![], path: seq![], copied }
}

/// The run at its start: at the first domain's directory.
pub open spec fn copy_start<N>(domains: Seq<N>) -> CopyState<N> {
    if domains.len() == 0 {
        copy_end(0)
    } else {
        CopyState {
            phase: CopyPhase::Listing,
            left: domains.drop_first(),
            path: seq![domains[0]],
            copied: 0,
        }
    }
}

/// The run once `event` has come. Directories are copied depth first, a file
/// whose target exists is passed over, and any error ends the run.
pub open spec fn copy_after<N>(run: CopyState<N>, event: CopyEvent<N>) -> CopyState<N> {
    match (run.phase, event) {
        (CopyPhase::Listing, CopyEvent::Listed) => CopyState { phase: CopyPhase::Reading, ..run },
        (CopyPhase::Reading, CopyEvent::Directory(name)) => CopyState {
            phase: CopyPhase::Listing,
            path: run.path.push(name),
            ..run
        },
        (CopyPhase::Reading, CopyEvent::File(name)) => CopyState {
            phase: CopyPhase::Checking,
            path: run.path.push(name),
            ..run
        },
        (CopyPhase::Reading, CopyEvent::EndOfDirectory) => if run.path.len() > 1 {
            CopyState { path: run.path.drop_last(), ..run }
        } else if run.left.len() > 0 {
            CopyState {
                phase: CopyPhase::Listing,
                left: run.left.drop_first(),
                path: seq![run.left[0]],
                ..run
            }
        } else {
            copy_end(run.copied)
        },
        (CopyPhase::Checking, CopyEvent::TargetExists) => CopyState {
            phase: CopyPhase::Reading,
            path: run.path.drop_last(),
            ..run
        },
        (CopyPhase::Checking, CopyEvent::TargetMissing) => CopyState {
            phase: CopyPhase::Copying,
            ..run
        },
        (CopyPhase::Copying, CopyEvent::Copied) => CopyState {
            phase: CopyPhase::Reading,
            path: run.path.drop_last(),
            copied: run.copied + 1,
            ..run
        },
        (CopyPhase::Listing, CopyEvent::Error) => CopyState { phase: CopyPhase::Failed, ..run },
        (CopyPhase::Reading, CopyEvent::Error) => CopyState { phase: CopyPhase::Failed, ..run },
        (CopyPhase::Copying, CopyEvent::Error) => CopyState { phase: CopyPhase::Failed, ..run },
        _ => run,
    }
}

/// Begins to copy the directories of the given domains, in their order.
pub fn copy_source<N>(domains: Vec<N>) -> (run: CopyRun<N>)
    ensures
        run@ == copy_start(domains@),
        run@.wf(),
{
    let mut left: Vec<N> = domains;
    let mut path: Vec<N> = Vec::new();
    if left.len() == 0 {
        let run = CopyRun { phase: CopyPhase::Finished, left, path, copied: 0 };
        assert(run@ =~= copy_start(domains@));
        return run;
    }
    let first = left.remove(0);
    path.push(first);
    let run = CopyRun { phase: CopyPhase::Listing, left, path, copied: 0 };
    assert(run@.left =~= domains@.drop_first());
    assert(run@ =~= copy_start(domains@));
    run
}

impl<N> CopyRun<N> {
    /// Takes in what has come of the current phase.
    pub fn advance(&mut self, event: CopyEvent<N>)
        requires
            old(self)@.wf(),
            old(self)@.copied < usize::MAX,
        ensures
            final(self)@ == copy_after(old(self)@, event),
            final(self)@.wf(),
    {
        match self.phase {
            CopyPhase::Listing => match event {
                CopyEvent::Listed => {
                    self.phase = CopyPhase::Reading;
                },
                CopyEvent::Error => {
                    self.phase = CopyPhase::Failed;
                },
                _ => {},
            },
            CopyPhase::Reading => match event {
                CopyEvent::Directory(name) => {
                    self.phase = CopyPhase::Listing;
                    self.path.push(name);
                },
                CopyEvent::File(name) => {
                    self.phase = CopyPhase::Checking;
                    self.path.push(name);
                },
                CopyEvent::EndOfDirectory => {
                    let _ = self.path.pop();
                    if self.path.len() == 0 {
                        if self.left.len() > 0 {
                            let next = self.left.remove(0);
                            self.path.push(next);
                            self.phase = CopyPhase::Listing;
                            assert(self@.left =~= old(self)@.left.drop_first());
                            assert(self@.path =~= seq![old(self)@.left[0]]);
                        } else {
                            self.phase = CopyPhase::Finished;
                        }
                    }
                },
                CopyEvent::Error => {
                    self.phase = CopyPhase::Failed;
                },
                _ => {},
            },
            CopyPhase::Checking => match event {
                CopyEvent::TargetExists => {
                    self.phase = CopyPhase::Reading;
                    let _ = self.path.pop();
                },
                CopyEvent::TargetMissing => {
                    self.phase = CopyPhase::Copying;
                },
                _ => {},
            },
            CopyPhase::Copying => match event {
                CopyEvent::Copied => {
                    self.phase = CopyPhase::Reading;
                    let _ = self.path.pop();
                    self.copied = self.copied + 1;
                },
                CopyEvent::Error => {
                    self.phase = CopyPhase::Failed;
                },
                _ => {},
            },
            CopyPhase::Finished => {},
            CopyPhase::Failed => {},
        }
        assert(self@ =~= copy_after(old(self)@, event));
    }

    /// The names that lead from the save directory to the target of the file
    /// that is looked at or copied.
    pub fn target(&self) -> (target: Option<&Vec<N>>)
        ensures
            match target {
                Some(names) => (self.phase == CopyPhase::Checking || self.phase
                    == CopyPhase::Copying) && names@ == self@.path,
                None => self.phase != CopyPhase::Checking && self.phase != CopyPhase::Copying,
            },
    {
        match self.phase {
            CopyPhase::Checking => Some(&self.path),
            CopyPhase::Copying => Some(&self.path),
            _ => None,
        }
    }

    /// The names that lead from the domain's directory to what is opened, looked
    /// at or copied.
    pub fn source(&self) -> (names: &[N])
        requires
            self@.path.len() > 0,
        ensures
            names@ == self@.path.drop_first(),
    {
        let names = slice_subrange(self.path.as_slice(), 1, self.path.len());
        assert(names@ =~= self@.path.drop_first());
        names
    }

    /// How many files were copied, once all is done; `Err` where the run has
    /// failed, and `None` while it goes on.
    pub fn outcome(&self) -> (outcome: Option<Result<usize, ()>>)
        ensures
            outcome == (match self.phase {
                CopyPhase::Finished => Some(Ok::<usize, ()>(self.copied)),
                CopyPhase::Failed => Some(Err::<usize, ()>(())),
                _ => None,
            }),
    {
        match self.phase {
            CopyPhase::Finished => Some(Ok(self.copied)),
            CopyPhase::Failed => Some(Err(())),
            _ => None,
        }
    }
}

/// A file is only ever copied where its target was just seen to be missing: no
/// file that exists is overwritten.
pub proof fn files_are_never_overwritten<N>(run: CopyState<N>, event: CopyEvent<N>)
    requires
        run.phase != CopyPhase::Copying,
        copy_after(run, event).phase == CopyPhase::Copying,
    ensures
        run.phase == CopyPhase::Checking,
        event is TargetMissing,
        copy_after(run, event).path == run.path,
{
}

/// The run after a number of events.
pub open spec fn copy_run<N>(run: CopyState<N>, events: Seq<CopyEvent<N>>) -> CopyState<N>
    decreases events.len(),
{
    if events.len() == 0 {
        run
    } else {
        copy_after(copy_run(run, events.drop_last()), events.last())
    }
}

/// Whenever a run is about to copy a file, the last thing that counted was that
/// this file's target was seen to be missing.
pub proof fn copies_follow_a_look<N>(domains: Seq<N>, events: Seq<CopyEvent<N>>) -> (at: int)
    requires
        copy_run(copy_start(domains), events).phase == CopyPhase::Copying,
    ensures
        0 <= at < events.len(),
        events[at] is TargetMissing,
        copy_run(copy_start(domains), events.take(at)).phase == CopyPhase::Checking,
        copy_run(copy_start(domains), events.take(at)).path == copy_run(
            copy_start(domains),
            events,
        ).path,
        forall|k: int|
            at < k <= events.len() ==> copy_run(copy_start(domains), #[trigger] events.take(k))
                == copy_run(copy_start(domains), events),
    decreases events.len(),
{
    let start = copy_start(domains);
    let before = events.drop_last();
    let last = events.len() - 1;
    assert(events.take(events.len() as int) =~= events);
    assert(events.take(last) =~= before);
    if copy_run(start, before).phase == CopyPhase::Copying {
        let at = copies_follow_a_look(domains, before);
        assert(events.take(at) =~= before.take(at));
        assert forall|k: int| at < k <= events.len() implies copy_run(
            start,
            #[trigger] events.take(k),
        ) == copy_run(start, events) by {
            if k <= last {
                assert(events.take(k) =~= before.take(k));
            }
        }
        at
    } else {
        files_are_never_overwritten(copy_run(start, before), events.last());
        last
    }
}

/// The targets that files were copied to, one after the other.
pub open spec fn copied_to<N>(run: CopyState<N>, events: Seq<CopyEvent<N>>) -> Seq<Seq<N>>
    decreases events.len(),
{
    if events.len() == 0 {
        seq![]
    } else {
        let before = copy_run(run, events.drop_last());
        copied_to(run, events.drop_last()) + if before.phase == CopyPhase::Copying
            && events.last() is Copied {
            seq![before.path]
        } else {
            seq![]
        }
    }
}

/// The number that a run reports is that of the files that were copied, and a
/// run that has ended stays as it is.
pub proof fn copies_are_counted<N>(run: CopyState<N>, events: Seq<CopyEvent<N>>)
    ensures
        copy_run(run, events).copied == run.copied + copied_to(run, events).len(),
        run.phase == CopyPhase::Finished || run.phase == CopyPhase::Failed ==> copy_run(run, events)
            == run,
    decreases events.len(),
{
    if events.len() > 0 {
        copies_are_counted(run, events.drop_last());
    }
}

/// A directory's entry, by its name: a file, or a directory with its entries.
pub struct Named<N> {
    pub name: N,
    pub tree: Tree<N>,
}

/// What is to be copied: a file with what it holds, or a directory.
pub enum Tree<N> {
    File(Seq<u8>),
    Directory(Seq<Named<N>>),
}

/// The files below the save directory, by their paths and with what they hold,
/// and the paths of those that were copied there. No path is that of a file in
/// one place and of a directory in another.
#[verifier::ext_equal]
#[verifier::reject_recursive_types(N)]
pub struct Saved<N> {
    pub existing: Map<Seq<N>, Seq<u8>>,
    pub added: Seq<Seq<N>>,
}

/// What copying the entries from the one at `i` on into the directory at `path`
/// comes to: every file whose target does not exist is copied, one after the
/// other, to its own name in that directory.
pub open spec fn saved_entries<N>(
    entries: Seq<Named<N>>,
    i: nat,
    path: Seq<N>,
    existing: Map<Seq<N>, Seq<u8>>,
) -> Saved<N>
    decreases entries, entries.len() - i,
{
    if i >= entries.len() {
        Saved { existing, added: seq![] }
    } else {
        let target = path.push(entries[i as int].name);
        match entries[i as int].tree {
            Tree::Directory(inner) => {
                let within = saved_entries(inner, 0, target, existing);
                let after = saved_entries(entries, i + 1, path, within.existing);
                Saved { existing: after.existing, added: within.added + after.added }
            },
            Tree::File(content) => if existing.contains_key(target) {
                saved_entries(entries, i + 1, path, existing)
            } else {
                let after = saved_entries(entries, i + 1, path, existing.insert(target, content));
                Saved { existing: after.existing, added: seq![target] + after.added }
            },
        }
    }
}

/// What comes of the phases of a run that copies those entries.
pub open spec fn entry_events<N>(
    entries: Seq<Named<N>>,
    i: nat,
    path: Seq<N>,
    existing: Map<Seq<N>, Seq<u8>>,
) -> Seq<CopyEvent<N>>
    decreases entries, entries.len() - i,
{
    if i >= entries.len() {
        seq![]
    } else {
        let name = entries[i as int].name;
        let target = path.push(name);
        match entries[i as int].tree {
            Tree::Directory(inner) => {
                let within = saved_entries(inner, 0, target, existing);
                seq![CopyEvent::Directory(name), CopyEvent::Listed] + entry_events(
                    inner,
                    0,
                    target,
                    existing,
                ) + seq![CopyEvent::EndOfDirectory] + entry_events(
                    entries,
                    i + 1,
                    path,
                    within.existing,
                )
            },
            Tree::File(content) => if existing.contains_key(target) {
                seq![CopyEvent::File(name), CopyEvent::TargetExists] + entry_events(
                    entries,
                    i + 1,
                    path,
                    existing,
                )
            } else {
                seq![CopyEvent::File(name), CopyEvent::TargetMissing, CopyEvent::Copied]
                    + entry_events(entries, i + 1, path, existing.insert(target, content))
            },
        }
    }
}

/// The targets of the files among the entries from the one at `i` on, and what
/// each gets: where two files have one target, the first one.
pub open spec fn targets<N>(entries: Seq<Named<N>>, i: nat, path: Seq<N>) -> Map<Seq<N>, Seq<u8>>
    decreases entries, entries.len() - i,
{
    if i >= entries.len() {
        Map::empty()
    } else {
        let target = path.push(entries[i as int].name);
        targets(entries, i + 1, path).union_prefer_right(
            match entries[i as int].tree {
                Tree::Directory(inner) => targets(inner, 0, target),
                Tree::File(content) => Map::empty().insert(target, content),
            },
        )
    }
}

/// The targets of the files of the domains' directories from the one at `k` on,
/// and what each gets: where two files have one target, the one of the first
/// listed directory.
pub open spec fn all_targets<N>(sources: Seq<(N, Seq<Named<N>>)>, k: nat) -> Map<Seq<N>, Seq<u8>>
    decreases sources.len() - k,
{
    if k >= sources.len() {
        Map::empty()
    } else {
        let (domain, entries) = sources[k as int];
        all_targets(sources, k + 1).union_prefer_right(targets(entries, 0, seq![domain]))
    }
}

proof fn runs_follow_each_other<N>(
    run: CopyState<N>,
    first: Seq<CopyEvent<N>>,
    second: Seq<CopyEvent<N>>,
)
    ensures
        copy_run(run, first + second) == copy_run(copy_run(run, first), second),
        copied_to(run, first + second) == copied_to(run, first) + copied_to(
            copy_run(run, first),
            second,
        ),
    decreases second.len(),
{
    if second.len() == 0 {
        assert(first + second =~= first);
        assert(copied_to(run, first) + seq![] =~= copied_to(run, first));
    } else {
        let before = second.drop_last();
        assert((first + second).drop_last() =~= first + before);
        runs_follow_each_other(run, first, before);
        let state = copy_run(run, first + before);
        let last = if state.phase == CopyPhase::Copying && second.last() is Copied {
            seq![state.path]
        } else {
            seq![]
        };
        let early = copied_to(run, first);
        let late = copied_to(copy_run(run, first), before);
        assert((early + late) + last =~= early + (late + last));
    }
}

proof fn runs_of_one_event<N>(run: CopyState<N>, event: CopyEvent<N>)
    ensures
        copy_run(run, seq![event]) == copy_after(run, event),
        copied_to(run, seq![event]) == (if run.phase == CopyPhase::Copying && event is Copied {
            seq![run.path]
        } else {
            seq![]
        }),
{
    reveal_with_fuel(copy_run, 2);
    reveal_with_fuel(copied_to, 2);
    assert(seq![event].drop_last() =~= seq![]);
    let last = if run.phase == CopyPhase::Copying && event is Copied {
        seq![run.path]
    } else {
        seq![]
    };
    assert(Seq::<Seq<N>>::empty() + last =~= last);
}

proof fn runs_of_two_events<N>(run: CopyState<N>, a: CopyEvent<N>, b: CopyEvent<N>)
    requires
        run.phase != CopyPhase::Copying,
        copy_after(run, a).phase != CopyPhase::Copying,
    ensures
        copy_run(run, seq![a, b]) == copy_after(copy_after(run, a), b),
        copied_to(run, seq![a, b]) == Seq::<Seq<N>>::empty(),
{
    assert(seq![a, b] =~= seq![a] + seq![b]);
    runs_follow_each_other(run, seq![a], seq![b]);
    runs_of_one_event(run, a);
    runs_of_one_event(copy_after(run, a), b);
}

/// A run that comes to a file whose target is missing copies it there.
proof fn missing_files_are_copied<N>(run: CopyState<N>, name: N)
    requires
        run.phase == CopyPhase::Reading,
    ensures
        ({
            let events = seq![CopyEvent::File(name), CopyEvent::TargetMissing, CopyEvent::Copied];
            &&& copy_run(run, events) == (CopyState { copied: run.copied + 1, ..run })
            &&& copied_to(run, events) == seq![run.path.push(name)]
        }),
{
    let found = seq![CopyEvent::File(name), CopyEvent::TargetMissing];
    let done = seq![CopyEvent::Copied];
    assert(seq![CopyEvent::File(name), CopyEvent::TargetMissing, CopyEvent::Copied] =~= found
        + done);
    runs_follow_each_other(run, found, done);
    runs_of_two_events(run, CopyEvent::File(name), CopyEvent::TargetMissing);
    let copying = copy_run(run, found);
    runs_of_one_event(copying, CopyEvent::Copied);
    assert(run.path.push(name).drop_last() =~= run.path);
    let target = seq![run.path.push(name)];
    assert(Seq::<Seq<N>>::empty() + target =~= target);
}

/// Within an open directory, a run goes through its entries and copies each file
/// whose target is missing to that target.
pub proof fn entries_are_copied<N>(
    run: CopyState<N>,
    entries: Seq<Named<N>>,
    i: nat,
    existing: Map<Seq<N>, Seq<u8>>,
)
    requires
        run.phase == CopyPhase::Reading,
        run.path.len() > 0,
    ensures
        ({
            let events = entry_events(entries, i, run.path, existing);
            let added = saved_entries(entries, i, run.path, existing).added;
            &&& copy_run(run, events) == (CopyState { copied: run.copied + added.len(), ..run })
            &&& copied_to(run, events) == added
        }),
    decreases entries, entries.len() - i,
{
    let path = run.path;
    if i < entries.len() {
        let name = entries[i as int].name;
        let target = path.push(name);
        match entries[i as int].tree {
            Tree::Directory(inner) => {
                let within = saved_entries(inner, 0, target, existing);
                let after = saved_entries(entries, i + 1, path, within.existing);
                let opened = seq![CopyEvent::Directory(name), CopyEvent::Listed];
                let inside = entry_events(inner, 0, target, existing);
                let closed = seq![CopyEvent::EndOfDirectory];
                let rest = entry_events(entries, i + 1, path, within.existing);
                runs_of_two_events(run, CopyEvent::Directory(name), CopyEvent::Listed);
                let below = copy_run(run, opened);
                entries_are_copied(below, inner, 0, existing);
                let counted = copy_run(below, inside);
                runs_of_one_event(counted, CopyEvent::EndOfDirectory);
                assert(target.drop_last() =~= path);
                let back = copy_run(counted, closed);
                entries_are_copied(back, entries, i + 1, within.existing);
                runs_follow_each_other(run, opened, inside);
                runs_follow_each_other(run, opened + inside, closed);
                runs_follow_each_other(run, opened + inside + closed, rest);
                let none = Seq::<Seq<N>>::empty();
                assert(none + within.added + none + after.added =~= within.added + after.added);
            },
            Tree::File(content) => if existing.contains_key(target) {
                let passed = seq![CopyEvent::File(name), CopyEvent::TargetExists];
                runs_of_two_events(run, CopyEvent::File(name), CopyEvent::TargetExists);
                assert(target.drop_last() =~= path);
                entries_are_copied(run, entries, i + 1, existing);
                runs_follow_each_other(run, passed, entry_events(entries, i + 1, path, existing));
                let after = saved_entries(entries, i + 1, path, existing);
                assert(Seq::<Seq<N>>::empty() + after.added =~= after.added);
            } else {
                let start = seq![CopyEvent::File(name), CopyEvent::TargetMissing, CopyEvent::Copied];
                missing_files_are_copied(run, name);
                let counted = copy_run(run, start);
                entries_are_copied(counted, entries, i + 1, existing.insert(target, content));
                runs_follow_each_other(
                    run,
                    start,
                    entry_events(entries, i + 1, path, existing.insert(target, content)),
                );
            },
        }
    } else {
        assert(entry_events(entries, i, path, existing) =~= seq![]);
    }
}

/// What was added is what exists now and did not before, each path once.
pub open spec fn adds_each_once<N>(saved: Saved<N>, existing: Map<Seq<N>, Seq<u8>>) -> bool {
    &&& saved.added.no_duplicates()
    &&& forall|path: Seq<N>| #[trigger]
        saved.added.contains(path) <==> saved.existing.contains_key(path)
            && !existing.contains_key(path)
}

proof fn additions_follow_each_other<N>(
    first: Saved<N>,
    second: Saved<N>,
    existing: Map<Seq<N>, Seq<u8>>,
)
    requires
        adds_each_once(first, existing),
        adds_each_once(second, first.existing),
        existing.dom().subset_of(first.existing.dom()),
        first.existing.dom().subset_of(second.existing.dom()),
    ensures
        adds_each_once(
            Saved { existing: second.existing, added: first.added + second.added },
            existing,
        ),
{
    let added = first.added + second.added;
    let n = first.added.len() as int;
    assert forall|path: Seq<N>| #[trigger] added.contains(path) <==> second.existing.contains_key(
        path,
    ) && !existing.contains_key(path) by {
        if added.contains(path) {
            let i = choose|i: int| 0 <= i < added.len() && added[i] == path;
            if i < n {
                assert(first.added[i] == path);
                assert(first.added.contains(path));
            } else {
                assert(second.added[i - n] == path);
                assert(second.added.contains(path));
            }
        }
        if second.existing.contains_key(path) && !existing.contains_key(path) {
            if first.existing.contains_key(path) {
                assert(first.added.contains(path));
                let i = choose|i: int| 0 <= i < n && first.added[i] == path;
                assert(added[i] == path);
            } else {
                assert(second.added.contains(path));
                let i = choose|i: int| 0 <= i < second.added.len() && second.added[i] == path;
                assert(added[n + i] == path);
            }
        }
    }
    assert forall|i: int, j: int| 0 <= i < j < added.len() implies added[i] != added[j] by {
        if i < n && n <= j {
            assert(first.added.contains(first.added[i]));
            assert(second.added.contains(second.added[j - n]));
        } else if j < n {
            assert(first.added[i] != first.added[j]);
        } else {
            assert(second.added[i - n] != second.added[j - n]);
        }
    }
}

/// What was there stays as it was, every other target gets its file, nothing
/// else is added, and what is added is added once.
pub proof fn saved_files_are_there<N>(
    entries: Seq<Named<N>>,
    i: nat,
    path: Seq<N>,
    existing: Map<Seq<N>, Seq<u8>>,
)
    ensures
        saved_entries(entries, i, path, existing).existing == targets(
            entries,
            i,
            path,
        ).union_prefer_right(existing),
        adds_each_once(saved_entries(entries, i, path, existing), existing),
    decreases entries, entries.len() - i,
{
    if i < entries.len() {
        let target = path.push(entries[i as int].name);
        let rest = targets(entries, i + 1, path);
        match entries[i as int].tree {
            Tree::Directory(inner) => {
                let within = saved_entries(inner, 0, target, existing);
                let after = saved_entries(entries, i + 1, path, within.existing);
                let own = targets(inner, 0, target);
                saved_files_are_there(inner, 0, target, existing);
                saved_files_are_there(entries, i + 1, path, within.existing);
                assert(rest.union_prefer_right(own.union_prefer_right(existing))
                    =~= rest.union_prefer_right(own).union_prefer_right(existing));
                additions_follow_each_other(within, after, existing);
            },
            Tree::File(content) => {
                let own = Map::empty().insert(target, content);
                if existing.contains_key(target) {
                    saved_files_are_there(entries, i + 1, path, existing);
                    assert(rest.union_prefer_right(existing) =~= rest.union_prefer_right(
                        own,
                    ).union_prefer_right(existing));
                } else {
                    let with_it = existing.insert(target, content);
                    let after = saved_entries(entries, i + 1, path, with_it);
                    saved_files_are_there(entries, i + 1, path, with_it);
                    assert(rest.union_prefer_right(with_it) =~= rest.union_prefer_right(
                        own,
                    ).union_prefer_right(existing));
                    let first = Saved { existing: with_it, added: seq![target] };
                    assert(adds_each_once(first, existing)) by {
                        assert(first.added[0] == target);
                    }
                    additions_follow_each_other(first, after, existing);
                }
            },
        }
    } else {
        assert(targets(entries, i, path).union_prefer_right(existing) =~= existing);
    }
}

/// What copying the domains' directories from the one at `k` on comes to: each
/// into the directory of its domain.
pub open spec fn saved_sources<N>(
    sources: Seq<(N, Seq<Named<N>>)>,
    k: nat,
    existing: Map<Seq<N>, Seq<u8>>,
) -> Saved<N>
    decreases sources.len() - k,
{
    if k >= sources.len() {
        Saved { existing, added: seq![] }
    } else {
        let (domain, entries) = sources[k as int];
        let first = saved_entries(entries, 0, seq![domain], existing);
        let after = saved_sources(sources, k + 1, first.existing);
        Saved { existing: after.existing, added: first.added + after.added }
    }
}

/// Copying the domains' directories keeps what was there as it was, gives every
/// other target the file of the first listed directory that has one for it, adds
/// nothing else, and adds each once.
pub proof fn saved_sources_are_there<N>(
    sources: Seq<(N, Seq<Named<N>>)>,
    k: nat,
    existing: Map<Seq<N>, Seq<u8>>,
)
    ensures
        saved_sources(sources, k, existing).existing == all_targets(
            sources,
            k,
        ).union_prefer_right(existing),
        adds_each_once(saved_sources(sources, k, existing), existing),
    decreases sources.len() - k,
{
    if k < sources.len() {
        let (domain, entries) = sources[k as int];
        let first = saved_entries(entries, 0, seq![domain], existing);
        let after = saved_sources(sources, k + 1, first.existing);
        let own = targets(entries, 0, seq![domain]);
        let rest = all_targets(sources, k + 1);
        saved_files_are_there(entries, 0, seq![domain], existing);
        saved_sources_are_there(sources, k + 1, first.existing);
        assert(rest.union_prefer_right(own.union_prefer_right(existing))
            =~= rest.union_prefer_right(own).union_prefer_right(existing));
        additions_follow_each_other(first, after, existing);
    } else {
        assert(all_targets(sources, k).union_prefer_right(existing) =~= existing);
    }
}

proof fn present_files_are_passed_over<N>(
    entries: Seq<Named<N>>,
    i: nat,
    path: Seq<N>,
    existing: Map<Seq<N>, Seq<u8>>,
)
    requires
        targets(entries, i, path).dom().subset_of(existing.dom()),
    ensures
        saved_entries(entries, i, path, existing) == (Saved { existing, added: seq![] }),
    decreases entries, entries.len() - i,
{
    if i < entries.len() {
        let target = path.push(entries[i as int].name);
        let all = targets(entries, i, path);
        let rest = targets(entries, i + 1, path);
        assert forall|other: Seq<N>| rest.contains_key(other) implies existing.contains_key(
            other,
        ) by {
            assert(all.contains_key(other));
        }
        match entries[i as int].tree {
            Tree::Directory(inner) => {
                let own = targets(inner, 0, target);
                assert forall|other: Seq<N>| own.contains_key(other) implies existing.contains_key(
                    other,
                ) by {
                    assert(all.contains_key(other));
                }
                present_files_are_passed_over(inner, 0, target, existing);
            },
            Tree::File(content) => {
                assert(all.contains_key(target));
            },
        }
        present_files_are_passed_over(entries, i + 1, path, existing);
    }
}

proof fn present_sources_are_passed_over<N>(
    sources: Seq<(N, Seq<Named<N>>)>,
    k: nat,
    existing: Map<Seq<N>, Seq<u8>>,
)
    requires
        all_targets(sources, k).dom().subset_of(existing.dom()),
    ensures
        saved_sources(sources, k, existing) == (Saved { existing, added: seq![] }),
    decreases sources.len() - k,
{
    if k < sources.len() {
        let (domain, entries) = sources[k as int];
        let all = all_targets(sources, k);
        let own = targets(entries, 0, seq![domain]);
        let rest = all_targets(sources, k + 1);
        assert forall|other: Seq<N>| own.contains_key(other) || rest.contains_key(
            other,
        ) implies existing.contains_key(other) by {
            assert(all.contains_key(other));
        }
        present_files_are_passed_over(entries, 0, seq![domain], existing);
        present_sources_are_passed_over(sources, k + 1, existing);
    }
}

/// What comes of the phases of a run that copies those directories.
pub open spec fn source_events<N>(
    sources: Seq<(N, Seq<Named<N>>)>,
    k: nat,
    existing: Map<Seq<N>, Seq<u8>>,
) -> Seq<CopyEvent<N>>
    decreases sources.len() - k,
{
    if k >= sources.len() {
        seq![]
    } else {
        let (domain, entries) = sources[k as int];
        let first = saved_entries(entries, 0, seq![domain], existing);
        seq![CopyEvent::Listed] + entry_events(entries, 0, seq![domain], existing)
            + seq![CopyEvent::EndOfDirectory] + source_events(sources, k + 1, first.existing)
    }
}

/// The domains whose directories are copied.
pub open spec fn domains_of<N>(sources: Seq<(N, Seq<Named<N>>)>) -> Seq<N> {
    sources.map_values(|source: (N, Seq<Named<N>>)| source.0)
}

proof fn later_sources_are_copied<N>(
    run: CopyState<N>,
    sources: Seq<(N, Seq<Named<N>>)>,
    k: nat,
    existing: Map<Seq<N>, Seq<u8>>,
)
    requires
        k < sources.len(),
        run.phase == CopyPhase::Listing,
        run.path == seq![sources[k as int].0],
        run.left == domains_of(sources).skip(k as int + 1),
    ensures
        ({
            let events = source_events(sources, k, existing);
            let added = saved_sources(sources, k, existing).added;
            &&& copy_run(run, events) == copy_end::<N>(run.copied + added.len())
            &&& copied_to(run, events) == added
        }),
    decreases sources.len() - k,
{
    let (domain, entries) = sources[k as int];
    let path = seq![domain];
    let first = saved_entries(entries, 0, path, existing);
    let after = saved_sources(sources, k + 1, first.existing);
    let opened = seq![CopyEvent::Listed];
    let inside = entry_events(entries, 0, path, existing);
    let closed = seq![CopyEvent::EndOfDirectory];
    let rest = source_events(sources, k + 1, first.existing);
    runs_of_one_event(run, CopyEvent::Listed);
    let below = copy_run(run, opened);
    entries_are_copied(below, entries, 0, existing);
    let counted = copy_run(below, inside);
    runs_of_one_event(counted, CopyEvent::EndOfDirectory);
    let back = copy_run(counted, closed);
    runs_follow_each_other(run, opened, inside);
    runs_follow_each_other(run, opened + inside, closed);
    runs_follow_each_other(run, opened + inside + closed, rest);
    let none = Seq::<Seq<N>>::empty();
    assert(none + first.added + none + after.added =~= first.added + after.added);
    if k + 1 < sources.len() {
        assert(run.left[0] == sources[k as int + 1].0);
        assert(run.left.drop_first() =~= domains_of(sources).skip(k as int + 2));
        later_sources_are_copied(back, sources, k + 1, first.existing);
    } else {
        assert(rest =~= seq![]);
    }
}

/// A run that meets no error copies every file of every domain whose target does
/// not exist, to that target and in order, and reports how many those are.
pub proof fn sources_are_copied<N>(
    sources: Seq<(N, Seq<Named<N>>)>,
    existing: Map<Seq<N>, Seq<u8>>,
)
    ensures
        ({
            let start = copy_start(domains_of(sources));
            let events = source_events(sources, 0, existing);
            let added = saved_sources(sources, 0, existing).added;
            &&& copy_run(start, events) == copy_end::<N>(added.len())
            &&& copied_to(start, events) == added
        }),
{
    let start = copy_start(domains_of(sources));
    if sources.len() > 0 {
        assert(domains_of(sources).drop_first() =~= domains_of(sources).skip(1));
        assert(start.path =~= seq![sources[0].0]);
        later_sources_are_copied(start, sources, 0, existing);
    } else {
        assert(source_events(sources, 0, existing) =~= seq![]);
    }
}

/// Copying again what a run has copied copies nothing and changes nothing: the
/// second run ends with no file copied. Nor does a run over no directories copy
/// any.
pub proof fn copying_again_copies_nothing<N>(
    sources: Seq<(N, Seq<Named<N>>)>,
    existing: Map<Seq<N>, Seq<u8>>,
)
    ensures
        ({
            let left = saved_sources(sources, 0, existing).existing;
            let start = copy_start(domains_of(sources));
            let events = source_events(sources, 0, left);
            &&& saved_sources(sources, 0, left) == (Saved { existing: left, added: seq![] })
            &&& copy_run(start, events) == copy_end::<N>(0)
            &&& copied_to(start, events) == Seq::<Seq<N>>::empty()
        }),
        copy_start(Seq::<N>::empty()) == copy_end::<N>(0),
{
    let left = saved_sources(sources, 0, existing).existing;
    saved_sources_are_there(sources, 0, existing);
    present_sources_are_passed_over(sources, 0, left);
    sources_are_copied(sources, left);
}

/// Flash Player's data lies in the user's home, and in the application data
/// directory, as far as the user has them.
pub proof fn flash_data_lies_in_known_places(home: bool, appdata: bool)
    ensures
        ({
            let roots = flash_roots(home, appdata);
            let homes = if home {
                1int
            } else {
                0
            };
            &&& roots.len() == homes + if appdata {
                1int
            } else {
                0
            }
            &&& home ==> roots[0].base == BaseDirectory::Home && roots[0].path == seq![
                ".macromedia"@,
                "Flash_Player"@,
            ]
            &&& appdata ==> roots[homes].base == BaseDirectory::AppData && roots[homes].path == seq![
                "Macromedia"@,
                "Flash Player"@,
            ]
        }),
{
}

/// A launcher's data lies in the configuration directory that the user has set,
/// or else in the one in their home, and in the application data directory, as
/// far as the user has them: each time under the launcher's name.
pub proof fn launcher_data_lies_in_known_places(
    name: Seq<char>,
    home: bool,
    xdg_config: bool,
    appdata: bool,
)
    ensures
        ({
            let roots = launcher_roots(name, home, xdg_config, appdata);
            let data = "Pepper Data/Shockwave Flash/WritableRoot"@;
            let configs = if xdg_config || home {
                1int
            } else {
                0
            };
            &&& roots.len() == configs + if appdata {
                1int
            } else {
                0
            }
            &&& xdg_config ==> roots[0].base == BaseDirectory::XdgConfig && roots[0].path == seq![
                name,
                data,
            ]
            &&& home && !xdg_config ==> roots[0].base == BaseDirectory::Home && roots[0].path
                == seq![".config"@, name, data]
            &&& appdata ==> roots[configs].base == BaseDirectory::AppData && roots[configs].path
                == seq![name, data]
        }),
{
}

/// Three launchers are looked for, in this order, each in its own places; only
/// the last has put a proxy before the game.
pub proof fn known_launchers_are_looked_for(home: bool, xdg_config: bool, appdata: bool)
    ensures
        ({
            let known = launchers(home, xdg_config, appdata);
            &&& known.len() == 3
            &&& known[0].id == "flash-player"@
            &&& known[0].name == "Adobe Flash Player"@
            &&& known[0].roots == flash_roots(home, appdata)
            &&& known[1].id == "artix-game-launcher"@
            &&& known[1].name == "Artix Game Launcher"@
            &&& known[1].roots == launcher_roots(
                "Artix Game Launcher"@,
                home,
                xdg_config,
                appdata,
            )
            &&& known[2].id == "evolved-dragonfable-launcher"@
            &&& known[2].name == "Evolved DragonFable Launcher"@
            &&& known[2].roots == launcher_roots(
                "evolved-dragonfable-launcher"@,
                home,
                xdg_config,
                appdata,
            )
            &&& forall|i: int|
                0 <= i < 3 ==> ((#[trigger] known[i]).include_proxy_host <==> i == 2)
        }),
{
}

/// Every place that is looked into lies below a directory that the user has.
pub proof fn only_directories_that_are_there_are_looked_into(
    home: bool,
    xdg_config: bool,
    appdata: bool,
    i: int,
    j: int,
)
    requires
        0 <= i < launchers(home, xdg_config, appdata).len(),
        0 <= j < launchers(home, xdg_config, appdata)[i].roots.len(),
    ensures
        match launchers(home, xdg_config, appdata)[i].roots[j].base {
            BaseDirectory::Home => home,
            BaseDirectory::XdgConfig => xdg_config,
            BaseDirectory::AppData => appdata,
        },
{
    known_launchers_are_looked_for(home, xdg_config, appdata);
    flash_data_lies_in_known_places(home, appdata);
    launcher_data_lies_in_known_places("Artix Game Launcher"@, home, xdg_config, appdata);
    launcher_data_lies_in_known_places("evolved-dragonfable-launcher"@, home, xdg_config, appdata);
}

/// A file is data, and so is every directory that holds data, at whatever depth;
/// a directory that holds none is not, nor is anything else.
pub proof fn files_are_data_at_any_depth(entry: Entry, i: int)
    ensures
        entry is File ==> holds_data(entry),
        entry is Other ==> !holds_data(entry),
        entry matches Entry::Directory(entries) ==> {
            &&& 0 <= i < entries@.len() && holds_data(entries@[i]) ==> holds_data(entry)
            &&& (forall|j: int| 0 <= j < entries@.len() ==> !holds_data(#[trigger] entries@[j]))
                ==> !holds_data(entry)
        },
{
}

/// There is data among entries exactly where one of them is or holds some.
pub proof fn data_lies_in_some_entry(entries: Seq<Entry>, i: int)
    ensures
        0 <= i < entries.len() && holds_data(entries[i]) ==> any_data(entries),
        (forall|j: int| 0 <= j < entries.len() ==> !holds_data(#[trigger] entries[j]))
            ==> !any_data(entries),
{
}

/// A session that is a directory has a host's data exactly where a directory of
/// that host in it holds some; one that is none has nothing.
pub proof fn sessions_have_their_hosts_data(session: Session, host: Seq<char>, i: int)
    ensures
        !session.is_dir ==> !session_has(session, host),
        session.is_dir && 0 <= i < session.hosts@.len() && session.hosts@[i].host@ == host
            && any_data(session.hosts@[i].entries@) ==> session_has(session, host),
        (forall|j: int|
            0 <= j < session.hosts@.len() && (#[trigger] session.hosts@[j]).host@ == host
                ==> !any_data(session.hosts@[j].entries@)) ==> !session_has(session, host),
{
}

/// The game's three hosts are looked for, and their data goes to their own
/// domains; the proxy is looked for where it is to be, and its data goes to the
/// domain at which the game is played.
pub proof fn hosts_go_to_their_domains(include_proxy_host: bool)
    ensures
        ({
            let wanted = wanted_list(include_proxy_host);
            &&& wanted.len() == 3 + if include_proxy_host {
                1int
            } else {
                0
            }
            &&& wanted[0].host@ == "play.dragonfable.com"@
            &&& wanted[1].host@ == "dragonlord.battleon.com"@
            &&& wanted[2].host@ == "dragonfable.battleon.com"@
            &&& forall|i: int| 0 <= i < 3 ==> (#[trigger] wanted[i]).domain@ == wanted[i].host@
            &&& include_proxy_host ==> wanted[3].host@ == "127.0.0.1"@ && wanted[3].domain@
                == "play.dragonfable.com"@
        }),
{
}

proof fn filter_keeps_order<T>(list: Seq<T>, p: spec_fn(T) -> bool) -> (places: Seq<int>)
    ensures
        places.len() == list.filter(p).len(),
        forall|i: int|
            0 <= i < places.len() ==> 0 <= #[trigger] places[i] < list.len() && list[places[i]]
                == list.filter(p)[i],
        forall|i: int, j: int| 0 <= i < j < places.len() ==> places[i] < places[j],
    decreases list.len(),
{
    reveal(Seq::filter);
    if list.len() == 0 {
        seq![]
    } else {
        let start = list.drop_last();
        let places = filter_keeps_order(start, p);
        if p(list.last()) {
            places.push(list.len() - 1)
        } else {
            places
        }
    }
}

/// What is found comes in the order of the sessions, and what is found in one
/// session in the order in which it was looked for.
pub proof fn finds_come_in_order(
    sessions: Seq<Session>,
    k: int,
    wanted: Seq<Wanted>,
    i: int,
    j: int,
) -> (places: (int, int))
    requires
        0 <= k,
        sessions.len() <= usize::MAX,
        0 <= i < j < found_from(sessions, k, wanted).len(),
    ensures
        ({
            let found = found_from(sessions, k, wanted);
            &&& found[i].session <= found[j].session
            &&& 0 <= places.0 < wanted.len()
            &&& 0 <= places.1 < wanted.len()
            &&& wanted[places.0] == found[i].wanted
            &&& wanted[places.1] == found[j].wanted
            &&& found[i].session == found[j].session ==> places.0 < places.1
        }),
    decreases sessions.len() - k,
{
    let here = |w: Wanted| session_has(sessions[k], w.host@);
    let there = |w: Wanted| !here(w);
    let first = wanted.filter(here);
    let rest = wanted.filter(there);
    let first_places = filter_keeps_order(wanted, here);
    let rest_places = filter_keeps_order(wanted, there);
    let found = found_from(sessions, k, wanted);
    let later = found_from(sessions, k + 1, rest);
    let n = first.len() as int;
    if j < n {
        assert(found[i].wanted == first[i] && found[j].wanted == first[j]);
        (first_places[i], first_places[j])
    } else {
        assert(found[j] == later[j - n]);
        found_data_is_there(sessions, k + 1, rest, j - n);
        let q = choose|q: int| 0 <= q < rest.len() && rest[q] == found[j].wanted;
        if i < n {
            assert(found[i].wanted == first[i]);
            assert(found[i].session == k);
            (first_places[i], rest_places[q])
        } else {
            assert(found[i] == later[i - n]);
            let places = finds_come_in_order(sessions, k + 1, rest, i - n, j - n);
            (rest_places[places.0], rest_places[places.1])
        }
    }
}

/// A run goes into each directory as it comes to it, copies each file whose
/// target is missing and passes the others over, leaves a directory at its end,
/// goes on to the next domain from the last, and ends behind the last domain.
pub proof fn runs_go_depth_first<N>(run: CopyState<N>, name: N)
    ensures
        run.phase == CopyPhase::Listing ==> copy_after(run, CopyEvent::Listed) == (CopyState {
            phase: CopyPhase::Reading,
            ..run
        }),
        run.phase == CopyPhase::Reading ==> {
            let left = copy_after(run, CopyEvent::EndOfDirectory);
            &&& copy_after(run, CopyEvent::Directory(name)) == (CopyState {
                phase: CopyPhase::Listing,
                path: run.path.push(name),
                ..run
            })
            &&& copy_after(run, CopyEvent::File(name)) == (CopyState {
                phase: CopyPhase::Checking,
                path: run.path.push(name),
                ..run
            })
            &&& left.copied == run.copied
            &&& run.path.len() > 1 ==> left.phase == CopyPhase::Reading && left.path
                == run.path.drop_last() && left.left == run.left
            &&& run.path.len() <= 1 && run.left.len() > 0 ==> left.phase == CopyPhase::Listing
                && left.path == seq![run.left[0]] && left.left == run.left.skip(1)
            &&& run.path.len() <= 1 && run.left.len() == 0 ==> left.phase == CopyPhase::Finished
        },
        run.phase == CopyPhase::Checking ==> copy_after(run, CopyEvent::TargetMissing) == (
        CopyState { phase: CopyPhase::Copying, ..run }) && copy_after(run, CopyEvent::TargetExists)
            == (CopyState { phase: CopyPhase::Reading, path: run.path.drop_last(), ..run }),
        run.phase == CopyPhase::Copying ==> copy_after(run, CopyEvent::Copied) == (CopyState {
            phase: CopyPhase::Reading,
            path: run.path.drop_last(),
            copied: run.copied + 1,
            ..run
        }),
{
    if run.left.len() > 0 {
        assert(run.left.drop_first() =~= run.left.skip(1));
    }
}

/// An error while a directory is opened or read, or a file is copied, ends the
/// run as failed, whatever comes after it; and only an error does.
pub proof fn errors_end_runs<N>(run: CopyState<N>, event: CopyEvent<N>, events: Seq<CopyEvent<N>>)
    ensures
        run.phase == CopyPhase::Listing || run.phase == CopyPhase::Reading || run.phase
            == CopyPhase::Copying ==> copy_run(copy_after(run, CopyEvent::Error), events).phase
            == CopyPhase::Failed,
        run.phase != CopyPhase::Failed && copy_after(run, event).phase == CopyPhase::Failed
            ==> event is Error,
{
    copies_are_counted(copy_after(run, CopyEvent::Error), events);
}

/// Each file has a target, under its own name in the directory's, and each file
/// in a directory below has the one that it has there.
pub proof fn every_file_has_a_target<N>(entries: Seq<Named<N>>, i: nat, path: Seq<N>, k: int)
    requires
        i <= k < entries.len(),
    ensures
        ({
            let target = path.push(entries[k].name);
            match entries[k].tree {
                Tree::File(content) => targets(entries, i, path).contains_key(target),
                Tree::Directory(inner) => forall|other: Seq<N>| #[trigger]
                    targets(inner, 0, target).contains_key(other) ==> targets(
                        entries,
                        i,
                        path,
                    ).contains_key(other),
            }
        }),
    decreases entries.len() - i,
{
    if i < k {
        every_file_has_a_target(entries, i + 1, path, k);
        let target = path.push(entries[k].name);
        if let Tree::Directory(inner) = entries[k].tree {
            assert forall|other: Seq<N>| #[trigger]
                targets(inner, 0, target).contains_key(other) implies targets(
                entries,
                i,
                path,
            ).contains_key(other) by {
                assert(targets(entries, i + 1, path).contains_key(other));
            }
        }
    }
}

/// Each target is that of a file, which it gets: the first one that there is for
/// it.
pub proof fn every_target_gets_its_first_file<N>(
    entries: Seq<Named<N>>,
    i: nat,
    path: Seq<N>,
    target: Seq<N>,
) -> (k: int)
    requires
        targets(entries, i, path).contains_key(target),
    ensures
        i <= k < entries.len(),
        ({
            let own = path.push(entries[k].name);
            let got = targets(entries, i, path)[target];
            match entries[k].tree {
                Tree::File(content) => target == own && got == content,
                Tree::Directory(inner) => targets(inner, 0, own).contains_key(target) && got
                    == targets(inner, 0, own)[target],
            }
        }),
        forall|j: int|
            i <= j < k ==> (match (#[trigger] entries[j]).tree {
                Tree::File(content) => target != path.push(entries[j].name),
                Tree::Directory(inner) => !targets(
                    inner,
                    0,
                    path.push(entries[j].name),
                ).contains_key(target),
            }),
    decreases entries.len() - i,
{
    let own = path.push(entries[i as int].name);
    let first = match entries[i as int].tree {
        Tree::File(content) => target == own,
        Tree::Directory(inner) => targets(inner, 0, own).contains_key(target),
    };
    if first {
        i as int
    } else {
        every_target_gets_its_first_file(entries, i + 1, path, target)
    }
}

/// The targets of several domains are those of each domain, below its name; where
/// two have the same one, it gets the first domain's file.
pub proof fn every_domain_has_its_targets<N>(
    sources: Seq<(N, Seq<Named<N>>)>,
    k: nat,
    target: Seq<N>,
)
    ensures
        all_targets(sources, k).contains_key(target) <==> exists|j: int|
            k <= j < sources.len() && #[trigger] targets(
                sources[j].1,
                0,
                seq![sources[j].0],
            ).contains_key(target),
        forall|j: int|
            k <= j < sources.len() && (#[trigger] targets(
                sources[j].1,
                0,
                seq![sources[j].0],
            )).contains_key(target) && (forall|l: int|
                k <= l < j ==> !(#[trigger] targets(
                    sources[l].1,
                    0,
                    seq![sources[l].0],
                )).contains_key(target)) ==> all_targets(sources, k)[target] == targets(
                sources[j].1,
                0,
                seq![sources[j].0],
            )[target],
    decreases sources.len() - k,
{
    if k < sources.len() {
        every_domain_has_its_targets(sources, k + 1, target);
        let own = targets(sources[k as int].1, 0, seq![sources[k as int].0]);
        let rest = all_targets(sources, k + 1);
        assert(all_targets(sources, k) == rest.union_prefer_right(own));
        if own.contains_key(target) {
            assert(targets(sources[k as int].1, 0, seq![sources[k as int].0]).contains_key(target));
        }
    }
}

/// A directory has data exactly where a file lies in it or in one of its
/// directories that has data.
pub proof fn directories_have_data_by_their_files(entries: &Vec<Entry>, yes: bool)
    requires
        call_ensures(has_data, (entries,), yes),
    ensures
        yes <==> exists|i: int|
            0 <= i < entries@.len() && ((#[trigger] entries@[i]) is File || (
            entries@[i] is Directory && any_data(entries@[i]->Directory_0@))),
{
    if yes {
        let i = choose|i: int| 0 <= i < entries@.len() && holds_data(#[trigger] entries@[i]);
        assert(entries@[i] is File || entries@[i] is Directory);
    }
    if exists|i: int|
        0 <= i < entries@.len() && ((#[trigger] entries@[i]) is File || (entries@[i] is Directory
            && any_data(entries@[i]->Directory_0@))) {
        let i = choose|i: int|
            0 <= i < entries@.len() && ((#[trigger] entries@[i]) is File || (
            entries@[i] is Directory && any_data(entries@[i]->Directory_0@)));
        assert(holds_data(entries@[i]));
    }
}

/// The data of each host that is looked for is found once, in the first session
/// that has any, and goes to its own domain, the proxy's to the game's; where
/// there are no sessions, nothing is found.
pub proof fn each_hosts_data_is_found(
    sessions: &Vec<Session>,
    proxy: bool,
    found: Vec<Found>,
    i: int,
)
    requires
        sessions@.len() <= usize::MAX,
        call_ensures(detect, (Some(sessions), proxy), found),
        0 <= i < found@.len(),
    ensures
        ({
            let f = found@[i];
            &&& f.session < sessions@.len()
            &&& session_has(sessions@[f.session as int], f.wanted.host@)
            &&& forall|j: int|
                0 <= j < f.session ==> !session_has(#[trigger] sessions@[j], f.wanted.host@)
            &&& f.wanted.host@ == "play.dragonfable.com"@ || f.wanted.host@
                == "dragonlord.battleon.com"@ || f.wanted.host@ == "dragonfable.battleon.com"@ || (
            proxy && f.wanted.host@ == "127.0.0.1"@)
            &&& f.wanted.domain@ == f.wanted.host@ || (proxy && f.wanted.host@ == "127.0.0.1"@
                && f.wanted.domain@ == "play.dragonfable.com"@)
        }),
{
    let wanted = wanted_list(proxy);
    found_data_is_there(sessions@, 0, wanted, i);
    hosts_go_to_their_domains(proxy);
    let k = choose|k: int| 0 <= k < wanted.len() && wanted[k] == found@[i].wanted;
    assert(k == 0 || k == 1 || k == 2 || k == 3);
}

/// Where a session has data of a host that is looked for, that host's data is
/// found.
pub proof fn no_hosts_data_is_missed(
    sessions: &Vec<Session>,
    proxy: bool,
    found: Vec<Found>,
    k: int,
    s: int,
)
    requires
        call_ensures(detect, (Some(sessions), proxy), found),
        0 <= k < wanted_list(proxy).len(),
        0 <= s < sessions@.len(),
        session_has(sessions@[s], wanted_list(proxy)[k].host@),
    ensures
        exists|i: int|
            0 <= i < found@.len() && (#[trigger] found@[i]).wanted == wanted_list(proxy)[k],
{
    let w = wanted_list(proxy)[k];
    assert(wanted_list(proxy).contains(w));
    data_that_is_there_is_found(sessions@, 0, wanted_list(proxy), w, s);
    let all = found_from(sessions@, 0, wanted_list(proxy));
    let i = choose|i: int| 0 <= i < all.len() && (#[trigger] all[i]).wanted == w;
    assert(found@[i].wanted == w);
}

/// A run that is begun stands at the first domain's directory; without a domain
/// it is done and has copied nothing.
pub proof fn runs_begin_at_the_first_domain<N>(domains: Vec<N>, run: CopyRun<N>)
    requires
        call_ensures(copy_source::<N>, (domains,), run),
    ensures
        run.copied == 0,
        domains@.len() == 0 ==> run.phase == CopyPhase::Finished,
        domains@.len() > 0 ==> run.phase == CopyPhase::Listing && run.path@ == seq![domains@[0]]
            && run.left@ == domains@.subrange(1, domains@.len() as int),
{
    if domains@.len() > 0 {
        assert(domains@.drop_first() =~= domains@.subrange(1, domains@.len() as int));
    }
}

/// A file is copied to the place that was looked at, below the domain's name,
/// from the place below the domain's directory that the same names lead to; it is
/// then counted, and the run is where it was before it came to the file.
pub proof fn files_are_copied_where_they_were_missing<N>()
    ensures
        forall|a: &mut CopyRun<N>, b: &mut CopyRun<N>, c: &mut CopyRun<N>, name: N| #[trigger]
            call_ensures(CopyRun::<N>::advance, (a, CopyEvent::File(name)), ()) && #[trigger]
                call_ensures(CopyRun::<N>::advance, (b, CopyEvent::<N>::TargetMissing), ())
                && #[trigger] call_ensures(
                CopyRun::<N>::advance,
                (c, CopyEvent::<N>::Copied),
                (),
            ) && *b == *final(a) && *c == *final(b) && a.phase == CopyPhase::Reading ==> {
                &&& b.phase == CopyPhase::Checking
                &&& b.path@ == a.path@.push(name)
                &&& c.phase == CopyPhase::Copying
                &&& c.path@ == b.path@
                &&& final(c).phase == CopyPhase::Reading
                &&& final(c).path@ == a.path@
                &&& final(c).left@ == a.left@
                &&& final(c).copied == a.copied + 1
            },
        forall|a: &mut CopyRun<N>, b: &mut CopyRun<N>, name: N| #[trigger]
            call_ensures(CopyRun::<N>::advance, (a, CopyEvent::File(name)), ()) && #[trigger]
                call_ensures(CopyRun::<N>::advance, (b, CopyEvent::<N>::TargetExists), ()) && *b
                == *final(a) && a.phase == CopyPhase::Reading ==> {
                &&& final(b).phase == CopyPhase::Reading
                &&& final(b).path@ == a.path@
                &&& final(b).left@ == a.left@
                &&& final(b).copied == a.copied
            },
{
    assert forall|path: Seq<N>, name: N| #[trigger] path.push(name).drop_last() == path by {
        assert(path.push(name).drop_last() =~= path);
    }
    assert forall|a: &mut CopyRun<N>, event: CopyEvent<N>| #[trigger]
        call_ensures(CopyRun::<N>::advance, (a, event), ()) implies final(a)@ == copy_after(
        a@,
        event,
    ) by {}
}

/// The run's target is the domain and the names below it; its source is what the
/// same names without the domain lead to; and it has an outcome once it is done
/// or has failed.
pub proof fn runs_name_their_places<N>(
    run: &CopyRun<N>,
    target: Option<&Vec<N>>,
    source: &[N],
    outcome: Option<Result<usize, ()>>,
)
    requires
        run.path@.len() > 0,
        call_ensures(CopyRun::<N>::target, (run,), target),
        call_ensures(CopyRun::<N>::source, (run,), source),
        call_ensures(CopyRun::<N>::outcome, (run,), outcome),
    ensures
        target is Some <==> run.phase == CopyPhase::Checking || run.phase == CopyPhase::Copying,
        target matches Some(names) ==> names@ == run.path@ && names@ == seq![run.path@[0]]
            + source@,
        run.path@ == seq![run.path@[0]] + source@,
        outcome is None <==> run.phase != CopyPhase::Finished && run.phase != CopyPhase::Failed,
        outcome == Some(Err::<usize, ()>(())) <==> run.phase == CopyPhase::Failed,
        run.phase == CopyPhase::Finished ==> outcome == Some(Ok::<usize, ()>(run.copied)),
{
    assert(run.path@ =~= seq![run.path@[0]] + source@);
}

/// Sessions that cannot be read hold nothing.
pub proof fn unreadable_sessions_hold_nothing(proxy: bool, found: Vec<Found>)
    requires
        call_ensures(detect, (None::<&Vec<Session>>, proxy), found),
    ensures
        found@.len() == 0,
{
}

} // verus!
