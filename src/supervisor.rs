use vstd::prelude::*;
use crate::instances::{index_of, Instance, ModLoader};
use crate::sessions::{cap_u64, clear_active_session, credit_instance, elapsed, other_instance, DailyActivity, GameSession, SessionRecord};
use crate::text::str_eq;

verus! {

/// A game process that the launcher watches.
#[derive(Clone, Copy, Debug, PartialEq, Eq, Structural)]
pub struct RunningProcessInfo {
    pub pid: u32,
    pub start_time: u64,
}

/// The games that run now, by instance id; no instance appears twice.
#[derive(Clone, Debug)]
pub struct RunningProcesses {
    pub entries: Vec<(String, RunningProcessInfo)>,
}

/// The instance ids and processes that are running, as a map.
pub open spec fn running_map(entries: Seq<(String, RunningProcessInfo)>) -> Map<Seq<char>, RunningProcessInfo>
    decreases entries.len(),
{
    if entries.len() == 0 {
        Map::empty()
    } else {
        running_map(entries.drop_last()).insert(entries.last().0@, entries.last().1)
    }
}

/// No instance id appears twice.
pub open spec fn ids_unique(entries: Seq<(String, RunningProcessInfo)>) -> bool {
    forall|i: int, j: int|
        0 <= i < entries.len() && 0 <= j < entries.len() && i != j ==> (#[trigger] entries[i]).0@ != (#[trigger] entries[j]).0@
}

impl RunningProcesses {
    /// The running games as a map from instance id to process.
    pub open spec fn view(&self) -> Map<Seq<char>, RunningProcessInfo> {
        running_map(self.entries@)
    }

    /// Every instance appears once.
    pub open spec fn wf(&self) -> bool {
        ids_unique(self.entries@)
    }

    /// No game runs.
    pub fn new() -> (r: RunningProcesses)
        ensures
            r.wf(),
            r.view() == Map::<Seq<char>, RunningProcessInfo>::empty(),
    {
        RunningProcesses { entries: Vec::new() }
    }
}

proof fn lemma_map_has(entries: Seq<(String, RunningProcessInfo)>, id: Seq<char>)
    requires
        ids_unique(entries),
    ensures
        running_map(entries).contains_key(id) <==> exists|i: int| 0 <= i < entries.len() && entries[i].0@ == id,
        forall|i: int| 0 <= i < entries.len() && entries[i].0@ == id ==> running_map(entries)[id] == entries[i].1,
    decreases entries.len(),
{
    if entries.len() > 0 {
        let prev = entries.drop_last();
        assert forall|i: int, j: int| 0 <= i < prev.len() && 0 <= j < prev.len() && i != j implies (#[trigger] prev[i]).0@ != (#[trigger] prev[j]).0@ by {
            assert(prev[i] == entries[i] && prev[j] == entries[j]);
        }
        lemma_map_has(prev, id);
        if exists|i: int| 0 <= i < entries.len() && entries[i].0@ == id {
            let i = choose|i: int| 0 <= i < entries.len() && entries[i].0@ == id;
            if i < entries.len() - 1 {
                assert(prev[i] == entries[i]);
            }
        }
        assert forall|i: int| 0 <= i < entries.len() && entries[i].0@ == id implies running_map(entries)[id] == entries[i].1 by {
            if i < entries.len() - 1 {
                assert(prev[i] == entries[i]);
                assert(entries[entries.len() - 1].0@ != id);
            }
        }
        if running_map(prev).contains_key(id) {
            let i = choose|i: int| 0 <= i < prev.len() && prev[i].0@ == id;
            assert(entries[i] == prev[i]);
        }
    }
}

/// Finds the entry of an instance.
fn find_running(entries: &Vec<(String, RunningProcessInfo)>, id: &str) -> (r: Option<usize>)
    ensures
        match r {
            Some(i) => i < entries@.len() && entries@[i as int].0@ == id@,
            None => forall|j: int| 0 <= j < entries@.len() ==> entries@[j].0@ != id@,
        },
{
    let mut i: usize = 0;
    while i < entries.len()
        invariant
            i <= entries@.len(),
            forall|j: int| 0 <= j < i ==> entries@[j].0@ != id@,
        decreases entries.len() - i,
    {
        if str_eq(entries[i].0.as_str(), id) {
            return Some(i);
        }
        i = i + 1;
    }
    None
}

/// Why a launch was refused.
#[derive(Clone, Copy, Debug, PartialEq, Eq, Structural)]
pub enum LaunchError {
    /// The instance's game already runs.
    AlreadyRunning,
}

/// Whether the instance's game runs.
pub fn is_running(running: &RunningProcesses, id: &str) -> (r: bool)
    requires
        running.wf(),
    ensures
        r == running.view().contains_key(id@),
{
    proof {
        lemma_map_has(running.entries@, id@);
    }
    find_running(&running.entries, id).is_some()
}

/// Registers a spawned game; refused when the instance's game already runs.
pub fn register_process(running: &mut RunningProcesses, id: &str, info: RunningProcessInfo) -> (r: Result<(), LaunchError>)
    requires
        old(running).wf(),
    ensures
        final(running).wf(),
        match r {
            Ok(()) => !old(running).view().contains_key(id@) && final(running).view() == old(running).view().insert(id@, info),
            Err(e) => e == LaunchError::AlreadyRunning && old(running).view().contains_key(id@) && final(running).view() == old(running).view(),
        },
{
    proof {
        lemma_map_has(running.entries@, id@);
    }
    match find_running(&running.entries, id) {
        Some(_) => Err(LaunchError::AlreadyRunning),
        None => {
            let ghost before = running.entries@;
            running.entries.push((id.to_owned(), info));
            proof {
                assert(running.entries@.drop_last() =~= before);
                assert forall|i: int, j: int|
                    0 <= i < running.entries@.len() && 0 <= j < running.entries@.len() && i != j implies (#[trigger] running.entries@[i]).0@
                    != (#[trigger] running.entries@[j]).0@ by {
                    if i < before.len() && j < before.len() {
                        assert(running.entries@[i] == before[i] && running.entries@[j] == before[j]);
                    } else if i < before.len() {
                        assert(running.entries@[i] == before[i]);
                    } else {
                        assert(running.entries@[j] == before[j]);
                    }
                }
            }
            Ok(())
        },
    }
}

proof fn lemma_map_remove(entries: Seq<(String, RunningProcessInfo)>, k: int)
    requires
        ids_unique(entries),
        0 <= k < entries.len(),
    ensures
        ids_unique(entries.remove(k)),
        running_map(entries.remove(k)) == running_map(entries).remove(entries[k].0@),
    decreases entries.len(),
{
    let r = entries.remove(k);
    assert forall|i: int, j: int| 0 <= i < r.len() && 0 <= j < r.len() && i != j implies (#[trigger] r[i]).0@ != (#[trigger] r[j]).0@ by {
        let a = if i < k { i } else { i + 1 };
        let b = if j < k { j } else { j + 1 };
        assert(r[i] == entries[a] && r[j] == entries[b]);
    }
    let id = entries[k].0@;
    assert forall|key: Seq<char>| #[trigger] running_map(r).contains_key(key) <==> running_map(entries).remove(id).contains_key(key) by {
        lemma_map_has(r, key);
        lemma_map_has(entries, key);
        if running_map(r).contains_key(key) {
            let i = choose|i: int| 0 <= i < r.len() && r[i].0@ == key;
            let a = if i < k { i } else { i + 1 };
            assert(r[i] == entries[a]);
        }
        if running_map(entries).contains_key(key) && key != id {
            let a = choose|a: int| 0 <= a < entries.len() && entries[a].0@ == key;
            if a < k {
                assert(r[a] == entries[a]);
            } else {
                assert(a != k);
                assert(r[a - 1] == entries[a]);
            }
        }
    }
    assert forall|key: Seq<char>| running_map(r).contains_key(key) implies running_map(r)[key] == running_map(entries).remove(id)[key] by {
        lemma_map_has(r, key);
        lemma_map_has(entries, key);
        let i = choose|i: int| 0 <= i < r.len() && r[i].0@ == key;
        let a = if i < k { i } else { i + 1 };
        assert(r[i] == entries[a]);
    }
    assert(running_map(r) =~= running_map(entries).remove(id));
}

/// Forgets a game that exited or was killed, and returns its process.
pub fn unregister_process(running: &mut RunningProcesses, id: &str) -> (r: Option<RunningProcessInfo>)
    requires
        old(running).wf(),
    ensures
        final(running).wf(),
        final(running).view() == old(running).view().remove(id@),
        match r {
            Some(info) => old(running).view().contains_key(id@) && old(running).view()[id@] == info,
            None => !old(running).view().contains_key(id@),
        },
{
    proof {
        lemma_map_has(running.entries@, id@);
    }
    match find_running(&running.entries, id) {
        Some(k) => {
            let ghost before = running.entries@;
            let (_, info) = running.entries.remove(k);
            proof {
                lemma_map_remove(before, k as int);
            }
            Some(info)
        },
        None => {
            proof {
                assert(running.view() =~= running.view().remove(id@));
            }
            None
        },
    }
}

/// Handles the exit of a watched game: forgets its process and session,
/// credits the time since it started to its instance, and returns the
/// session record (none when the game was not registered).
pub fn on_game_exit(
    running: &mut RunningProcesses,
    sessions: &mut Vec<GameSession>,
    instances: &mut Vec<Instance>,
    id: &str,
    now: u64,
) -> (r: Option<SessionRecord>)
    requires
        old(running).wf(),
    ensures
        final(running).wf(),
        final(running).view() == old(running).view().remove(id@),
        final(sessions)@ == old(sessions)@.filter(other_instance(id@)),
        final(instances)@.len() == old(instances)@.len(),
        match r {
            Some(rec) => old(running).view().contains_key(id@) && rec.duration_seconds == elapsed(old(running).view()[id@].start_time, now)
                && rec.instance_id@ == id@ && rec.timestamp == now,
            None => !old(running).view().contains_key(id@),
        },
        forall|k: int|
            0 <= k < final(instances)@.len() ==> {
                let o = #[trigger] old(instances)@[k];
                let m = final(instances)@[k];
                m.id == o.id && m.total_launches == o.total_launches && m.playtime_seconds == if r is Some && index_of(old(instances)@, id@, k) {
                    cap_u64(o.playtime_seconds + r->0.duration_seconds)
                } else {
                    o.playtime_seconds as int
                }
            },
{
    clear_active_session(sessions, id);
    match unregister_process(running, id) {
        None => None,
        Some(info) => {
            let duration = now.saturating_sub(info.start_time);
            let credited = credit_instance(instances, id, duration);
            let name = match credited {
                Some((_, n)) => n,
                None => String::new(),
            };
            Some(SessionRecord { instance_id: id.to_owned(), instance_name: name, timestamp: now, duration_seconds: duration })
        },
    }
}

/// A registered game counts as running until its exit is handled, and no
/// longer after: registering adds exactly its instance, and handling the
/// exit removes exactly that instance.
pub proof fn running_until_exit(running: Map<Seq<char>, RunningProcessInfo>, id: Seq<char>, info: RunningProcessInfo)
    requires
        !running.contains_key(id),
    ensures
        running.insert(id, info).contains_key(id),
        !running.insert(id, info).remove(id).contains_key(id),
        running.insert(id, info).remove(id) =~= running,
{
}

/// The signed-in user as the launcher keeps it.
#[derive(Clone, Debug)]
pub struct AppState {
    pub username: String,
    pub uuid: String,
    pub access_token: String,
    pub is_microsoft_auth: bool,
    pub refresh_token: Option<String>,
}

impl AppState {
    /// An offline user `Player` with the given synthetic UUID and the
    /// offline access token `0`.
    pub fn offline(uuid: String) -> (r: AppState)
        ensures
            r.username@ == "Player"@,
            r.uuid == uuid,
            r.access_token@ == "0"@,
            !r.is_microsoft_auth,
            r.refresh_token is None,
    {
        AppState {
            username: "Player".to_owned(),
            uuid,
            access_token: "0".to_owned(),
            is_microsoft_auth: false,
            refresh_token: None,
        }
    }
}

#[derive(Clone, Debug)]
pub struct VersionListItem {
    pub id: String,
    pub version_type: String,
    pub release_time: String,
}

/// A loader version; `version_type` is `release`, `beta`, `recommended` or
/// `latest`.
#[derive(Clone, Debug)]
pub struct LoaderVersion {
    pub version: String,
    pub release_time: Option<String>,
    pub version_type: String,
}

#[derive(Clone, Debug)]
pub struct RecentInstance {
    pub name: String,
    pub version_id: String,
    pub last_played: Option<String>,
    pub playtime_seconds: u64,
}

#[derive(Clone, Debug)]
pub struct TopInstance {
    pub name: String,
    pub version_id: String,
    pub mod_loader: ModLoader,
    pub logo_filename: Option<String>,
    pub playtime_seconds: u64,
    pub total_launches: u64,
}

#[derive(Clone, Debug)]
pub struct GlobalStats {
    pub total_playtime_seconds: u64,
    pub total_launches: u64,
    pub instance_count: u32,
    pub most_played_instance: Option<String>,
    pub most_played_playtime_seconds: u64,
    pub favorite_version: Option<String>,
    pub favorite_version_count: u32,
    pub last_played_instance: Option<String>,
    pub last_played_date: Option<String>,
    pub recent_instances: Vec<RecentInstance>,
    pub daily_activity_week: Vec<DailyActivity>,
    pub daily_activity_month: Vec<DailyActivity>,
    pub top_instances: Vec<TopInstance>,
}

#[derive(Clone, Debug)]
pub struct ShareItem {
    pub project_id: String,
    pub version_id: Option<String>,
    pub filename: Option<String>,
    pub name: Option<String>,
    pub icon_url: Option<String>,
    pub version_name: Option<String>,
}

#[derive(Clone, Debug)]
pub struct InstanceShareCode {
    pub name: String,
    pub version: String,
    pub loader: String,
    pub loader_version: Option<String>,
    pub mods: Vec<ShareItem>,
    pub resourcepacks: Vec<ShareItem>,
    pub shaders: Vec<ShareItem>,
    pub datapacks: Vec<ShareItem>,
}

#[derive(Clone, Debug)]
pub struct GitHubRelease {
    pub tag_name: String,
    pub name: Option<String>,
    pub body: Option<String>,
    pub prerelease: bool,
    pub published_at: Option<String>,
    pub html_url: String,
}

} // verus!
