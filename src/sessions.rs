use vstd::prelude::*;
use crate::instances::{add_playtime, find_instance, index_of, Instance};
use crate::text::str_eq;

verus! {

/// A running game as the session file records it.
#[derive(Clone, Debug)]
pub struct GameSession {
    pub instance_id: String,
    pub start_time: u64,
    pub pid: Option<u32>,
    pub launch_username: Option<String>,
}

/// One completed play session.
#[derive(Clone, Debug)]
pub struct SessionRecord {
    pub instance_id: String,
    pub instance_name: String,
    pub timestamp: u64,
    pub duration_seconds: u64,
}

/// Play time of one day.
#[derive(Clone, Debug)]
pub struct DailyActivity {
    pub date: String,
    pub seconds: u64,
}

/// The longest interval, in seconds, credited for a session found after a
/// restart.
pub const SESSION_CAP_SECONDS: u64 = 86400;

/// No two sessions belong to the same instance.
pub open spec fn sessions_unique(s: Seq<GameSession>) -> bool {
    forall|i: int, j: int|
        0 <= i < s.len() && 0 <= j < s.len() && i != j ==> (#[trigger] s[i]).instance_id@ != (
        #[trigger] s[j]).instance_id@
}

/// Finds the session of an instance.
pub fn find_session(sessions: &Vec<GameSession>, instance_id: &str) -> (r: Option<usize>)
    ensures
        match r {
            Some(i) => i < sessions@.len() && sessions@[i as int].instance_id@ == instance_id@,
            None => forall|j: int| 0 <= j < sessions@.len() ==> sessions@[j].instance_id@ != instance_id@,
        },
{
    let mut i: usize = 0;
    while i < sessions.len()
        invariant
            i <= sessions@.len(),
            forall|j: int| 0 <= j < i ==> sessions@[j].instance_id@ != instance_id@,
        decreases sessions.len() - i,
    {
        if str_eq(sessions[i].instance_id.as_str(), instance_id) {
            return Some(i);
        }
        i = i + 1;
    }
    None
}

/// Records the session of a game that was just launched, replacing an
/// earlier session of the same instance.
pub fn write_active_session(
    sessions: &mut Vec<GameSession>,
    instance_id: &str,
    start_time: u64,
    pid: Option<u32>,
    launch_username: Option<String>,
)
    requires
        sessions_unique(old(sessions)@),
    ensures
        sessions_unique(final(sessions)@),
        exists|i: int|
            0 <= i < final(sessions)@.len() && #[trigger] final(sessions)@[i].instance_id@ == instance_id@
                && final(sessions)@[i].start_time == start_time && final(sessions)@[i].pid == pid
                && final(sessions)@[i].launch_username == launch_username,
        forall|j: int|
            0 <= j < old(sessions)@.len() && #[trigger] old(sessions)@[j].instance_id@ != instance_id@
                ==> final(sessions)@.contains(old(sessions)@[j]),
        forall|j: int|
            0 <= j < final(sessions)@.len() && #[trigger] final(sessions)@[j].instance_id@ != instance_id@
                ==> old(sessions)@.contains(final(sessions)@[j]),
{
    let s = GameSession { instance_id: instance_id.to_owned(), start_time, pid, launch_username };
    match find_session(sessions, instance_id) {
        Some(i) => {
            sessions.set(i, s);
            proof {
                assert forall|j: int|
                    0 <= j < old(sessions)@.len() && #[trigger] old(sessions)@[j].instance_id@ != instance_id@
                        implies sessions@.contains(old(sessions)@[j]) by {
                    assert(sessions@[j] == old(sessions)@[j]);
                }
                assert forall|j: int|
                    0 <= j < sessions@.len() && #[trigger] sessions@[j].instance_id@ != instance_id@
                        implies old(sessions)@.contains(sessions@[j]) by {
                    assert(sessions@[j] == old(sessions)@[j]);
                }
                assert(sessions@[i as int].instance_id@ == instance_id@);
            }
        },
        None => {
            sessions.push(s);
            proof {
                let n = old(sessions)@.len();
                assert forall|j: int|
                    0 <= j < old(sessions)@.len() && #[trigger] old(sessions)@[j].instance_id@ != instance_id@
                        implies sessions@.contains(old(sessions)@[j]) by {
                    assert(sessions@[j] == old(sessions)@[j]);
                }
                assert forall|j: int|
                    0 <= j < sessions@.len() && #[trigger] sessions@[j].instance_id@ != instance_id@
                        implies old(sessions)@.contains(sessions@[j]) by {
                    assert(sessions@[j] == old(sessions)@[j]);
                }
                assert(sessions@[n as int].instance_id@ == instance_id@);
            }
        },
    }
}

/// Whether a session belongs to another instance than `id`.
pub open spec fn other_instance(id: Seq<char>) -> spec_fn(GameSession) -> bool {
    |s: GameSession| s.instance_id@ != id
}

/// Removes the session of an instance whose game has exited.
pub fn clear_active_session(sessions: &mut Vec<GameSession>, instance_id: &str)
    ensures
        final(sessions)@ == old(sessions)@.filter(other_instance(instance_id@)),
{
    let ghost orig = sessions@;
    let mut kept: Vec<GameSession> = Vec::new();
    let n = sessions.len();
    let mut j: usize = 0;
    assert(orig.subrange(0, 0).filter(other_instance(instance_id@)) =~= Seq::<GameSession>::empty()) by {
        reveal(Seq::filter);
    }
    while sessions.len() > 0
        invariant
            orig.len() == n,
            j <= n,
            sessions@ == orig.subrange(j as int, n as int),
            kept@ == orig.subrange(0, j as int).filter(other_instance(instance_id@)),
        decreases sessions.len(),
    {
        let s = sessions.remove(0);
        assert(s == orig[j as int]);
        proof {
            assert(orig.subrange(0, j + 1) =~= orig.subrange(0, j as int).push(s));
            orig.subrange(0, j as int).lemma_filter_push(s, other_instance(instance_id@));
        }
        if !str_eq(s.instance_id.as_str(), instance_id) {
            kept.push(s);
        }
        j = j + 1;
        assert(sessions@ =~= orig.subrange(j as int, n as int));
    }
    assert(orig.subrange(0, n as int) =~= orig);
    *sessions = kept;
}

/// What a restart does with a session found in the session file.
#[derive(Clone, Copy, Debug, PartialEq, Eq, Structural)]
pub enum Recovery {
    /// The game still runs: watch it again.
    Reattach,
    /// The game has exited: credit this many seconds.
    Credit(u64),
    /// The session is older than the cap: drop it without credit.
    Discard,
}

/// The interval since a session started, zero if the clock went back.
pub open spec fn elapsed(start_time: u64, now: u64) -> u64 {
    if now >= start_time { (now - start_time) as u64 } else { 0 }
}

/// What a restart does with a session: reattach when its process is still
/// alive, else credit the elapsed time when it is within the cap, else
/// discard it.
pub open spec fn recovery_of(session: GameSession, now: u64, alive: bool) -> Recovery {
    if session.pid is Some && alive {
        Recovery::Reattach
    } else if elapsed(session.start_time, now) <= SESSION_CAP_SECONDS {
        Recovery::Credit(elapsed(session.start_time, now))
    } else {
        Recovery::Discard
    }
}

/// Decides what a restart does with a session; `alive` tells whether the
/// operating system reports the session's process as running.
pub fn recovery_action(session: &GameSession, now: u64, alive: bool) -> (r: Recovery)
    ensures
        r == recovery_of(*session, now, alive),
{
    if session.pid.is_some() && alive {
        return Recovery::Reattach;
    }
    let duration = now.saturating_sub(session.start_time);
    if duration <= SESSION_CAP_SECONDS {
        Recovery::Credit(duration)
    } else {
        Recovery::Discard
    }
}

/// A session dealt with at a restart: the instance, the session's start time
/// (reattached) or the credited seconds, the process id when reattached, the
/// instance's playtime before, and the account that launched it.
#[derive(Clone, Debug)]
pub struct RecoveredSession {
    pub instance_id: String,
    pub start_or_credit: u64,
    pub pid: Option<u32>,
    pub playtime_before: u64,
    pub launch_username: Option<String>,
}

/// The seconds credited to instance `id` by recovering `sessions`.
pub open spec fn credit_total(sessions: Seq<GameSession>, alive: Seq<bool>, now: u64, id: Seq<char>) -> int
    decreases sessions.len(),
{
    if sessions.len() == 0 {
        0
    } else {
        let k = sessions.len() - 1;
        credit_total(sessions.drop_last(), alive.subrange(0, k), now, id) + match recovery_of(sessions[k], now, alive[k]) {
            Recovery::Credit(d) => if sessions[k].instance_id@ == id { d as int } else { 0 },
            _ => 0,
        }
    }
}

/// The view of an optional string.
pub open spec fn user_view(u: Option<String>) -> Option<Seq<char>> {
    match u {
        Some(x) => Some(x@),
        None => None,
    }
}

/// The playtime of the first instance with identifier `id`, or 0 if none.
pub open spec fn playtime_of(instances: Seq<Instance>, id: Seq<char>) -> u64 {
    if exists|k: int| index_of(instances, id, k) {
        instances[choose|k: int| index_of(instances, id, k)].playtime_seconds
    } else {
        0
    }
}

/// The sessions that a restart keeps: those whose game still runs.
pub open spec fn kept_sessions(sessions: Seq<GameSession>, alive: Seq<bool>, now: u64) -> Seq<GameSession>
    decreases sessions.len(),
{
    if sessions.len() == 0 {
        Seq::empty()
    } else {
        let k = sessions.len() - 1;
        kept_sessions(sessions.drop_last(), alive.subrange(0, k), now) + if recovery_of(sessions[k], now, alive[k]) == Recovery::Reattach {
            seq![sessions[k]]
        } else {
            Seq::empty()
        }
    }
}

/// The session records that a restart appends, as (instance, time, seconds):
/// one for each credit of more than zero seconds.
pub open spec fn record_entries(sessions: Seq<GameSession>, alive: Seq<bool>, now: u64) -> Seq<(Seq<char>, u64, u64)>
    decreases sessions.len(),
{
    if sessions.len() == 0 {
        Seq::empty()
    } else {
        let k = sessions.len() - 1;
        record_entries(sessions.drop_last(), alive.subrange(0, k), now) + match recovery_of(sessions[k], now, alive[k]) {
            Recovery::Credit(d) => if d > 0 { seq![(sessions[k].instance_id@, now, d)] } else { Seq::empty() },
            _ => Seq::empty(),
        }
    }
}

/// The sessions that a restart reports, as (instance, start time or credited
/// seconds, process id when reattached, instance playtime before, account):
/// all but the discarded ones, in order.
pub open spec fn recovered_entries(sessions: Seq<GameSession>, alive: Seq<bool>, now: u64, instances: Seq<Instance>)
    -> Seq<(Seq<char>, u64, Option<u32>, u64, Option<Seq<char>>)>
    decreases sessions.len(),
{
    if sessions.len() == 0 {
        Seq::empty()
    } else {
        let k = sessions.len() - 1;
        let s = sessions[k];
        recovered_entries(sessions.drop_last(), alive.subrange(0, k), now, instances) + match recovery_of(s, now, alive[k]) {
            Recovery::Reattach => seq![(s.instance_id@, s.start_time, s.pid, playtime_of(instances, s.instance_id@), user_view(s.launch_username))],
            Recovery::Credit(d) => seq![(s.instance_id@, d, None::<u32>, playtime_of(instances, s.instance_id@), user_view(s.launch_username))],
            Recovery::Discard => Seq::empty(),
        }
    }
}

/// The views of session records.
pub open spec fn record_views(v: Seq<SessionRecord>) -> Seq<(Seq<char>, u64, u64)> {
    v.map_values(|r: SessionRecord| (r.instance_id@, r.timestamp, r.duration_seconds))
}

/// The views of recovered sessions.
pub open spec fn recovered_views(v: Seq<RecoveredSession>) -> Seq<(Seq<char>, u64, Option<u32>, u64, Option<Seq<char>>)> {
    v.map_values(|e: RecoveredSession| (e.instance_id@, e.start_or_credit, e.pid, e.playtime_before, user_view(e.launch_username)))
}

proof fn lemma_credit_zero(sessions: Seq<GameSession>, alive: Seq<bool>, now: u64, id: Seq<char>)
    requires
        forall|i: int| 0 <= i < sessions.len() ==> (#[trigger] sessions[i]).instance_id@ != id,
    ensures
        credit_total(sessions, alive, now, id) == 0,
    decreases sessions.len(),
{
    if sessions.len() > 0 {
        let prev = sessions.drop_last();
        assert forall|i: int| 0 <= i < prev.len() implies (#[trigger] prev[i]).instance_id@ != id by {
            assert(prev[i] == sessions[i]);
        }
        lemma_credit_zero(prev, alive.subrange(0, sessions.len() - 1), now, id);
        assert(sessions[sessions.len() - 1].instance_id@ != id);
    }
}

proof fn lemma_index_unique(instances: Seq<Instance>, id: Seq<char>, a: int, b: int)
    requires
        index_of(instances, id, a),
        index_of(instances, id, b),
    ensures
        a == b,
{
    if a < b {
        assert(instances[a].id@ == id);
    } else if b < a {
        assert(instances[b].id@ == id);
    }
}

fn clone_user(u: &Option<String>) -> (r: Option<String>)
    ensures
        r == *u,
{
    match u {
        Some(x) => Some(x.clone()),
        None => None,
    }
}

/// `x` capped at the largest `u64`.
pub open spec fn cap_u64(x: int) -> int {
    if x > u64::MAX { u64::MAX as int } else { x }
}

/// Credits `seconds` to the first instance with identifier `id`, and returns
/// its playtime before and its name.
pub fn credit_instance(instances: &mut Vec<Instance>, id: &str, seconds: u64) -> (r: Option<(u64, String)>)
    ensures
        final(instances)@.len() == old(instances)@.len(),
        forall|k: int|
            0 <= k < final(instances)@.len() ==> {
                let o = #[trigger] old(instances)@[k];
                let m = final(instances)@[k];
                m.id == o.id && m.total_launches == o.total_launches && m.playtime_seconds == if index_of(old(instances)@, id@, k) {
                    cap_u64(o.playtime_seconds + seconds)
                } else {
                    o.playtime_seconds as int
                }
            },
        match r {
            Some((p, _)) => exists|k: int| index_of(old(instances)@, id@, k) && p == old(instances)@[k].playtime_seconds,
            None => forall|k: int| 0 <= k < old(instances)@.len() ==> !index_of(old(instances)@, id@, k),
        },
{
    match find_instance(instances, id) {
        Some(k) => {
            let before_credit = instances[k].playtime_seconds;
            let name = instances[k].name.clone();
            let mut inst = instances.remove(k);
            add_playtime(&mut inst, seconds);
            instances.insert(k, inst);
            proof {
                assert forall|q: int| 0 <= q < instances@.len() && q != k implies !index_of(old(instances)@, id@, q) by {
                    if q > k {
                        assert(old(instances)@[k as int].id@ == id@);
                    }
                }
                assert forall|q: int| 0 <= q < instances@.len() && q != k implies instances@[q] == old(instances)@[q] by {}
            }
            Some((before_credit, name))
        },
        None => None,
    }
}

proof fn lemma_cap_add(a: int, c: int, d: int)
    requires
        0 <= a <= u64::MAX,
        c >= 0,
        d >= 0,
    ensures
        cap_u64(cap_u64(a + c) + d) == cap_u64(a + c + d),
{
}

/// Recovers the sessions found at a restart. Each is reattached, credited to
/// its instance, or discarded (see `recovery_of`): only the reattached ones
/// stay in `sessions`; each credit of more than zero seconds yields a session
/// record; every session but the discarded ones is reported with its
/// instance's playtime before the restart.
#[verifier::spinoff_prover]
#[verifier::rlimit(50)]
pub fn recover_orphaned_sessions(
    sessions: &mut Vec<GameSession>,
    alive: &Vec<bool>,
    now: u64,
    instances: &mut Vec<Instance>,
) -> (r: (Vec<RecoveredSession>, Vec<SessionRecord>))
    requires
        alive@.len() == old(sessions)@.len(),
        sessions_unique(old(sessions)@),
    ensures
        final(sessions)@ == kept_sessions(old(sessions)@, alive@, now),
        record_views(r.1@) == record_entries(old(sessions)@, alive@, now),
        recovered_views(r.0@) == recovered_entries(old(sessions)@, alive@, now, old(instances)@),
        final(instances)@.len() == old(instances)@.len(),
        forall|k: int|
            0 <= k < final(instances)@.len() ==> {
                let o = #[trigger] old(instances)@[k];
                let m = final(instances)@[k];
                m.id == o.id && m.total_launches == o.total_launches && m.playtime_seconds == if index_of(old(instances)@, o.id@, k) {
                    cap_u64(o.playtime_seconds + credit_total(old(sessions)@, alive@, now, o.id@))
                } else {
                    o.playtime_seconds as int
                }
            },
{
    let ghost orig = sessions@;
    let ghost insts = instances@;
    let n = sessions.len();
    let mut still: Vec<GameSession> = Vec::new();
    let mut recovered: Vec<RecoveredSession> = Vec::new();
    let mut records: Vec<SessionRecord> = Vec::new();
    let mut j: usize = 0;
    assert(orig.subrange(0, 0) =~= Seq::<GameSession>::empty());
    assert(record_views(records@) =~= Seq::<(Seq<char>, u64, u64)>::empty());
    assert(recovered_views(recovered@) =~= Seq::<(Seq<char>, u64, Option<u32>, u64, Option<Seq<char>>)>::empty());
    while sessions.len() > 0
        invariant
            orig.len() == n,
            alive@.len() == n,
            sessions_unique(orig),
            j <= n,
            sessions@ == orig.subrange(j as int, n as int),
            still@ == kept_sessions(orig.subrange(0, j as int), alive@.subrange(0, j as int), now),
            record_views(records@) == record_entries(orig.subrange(0, j as int), alive@.subrange(0, j as int), now),
            recovered_views(recovered@) == recovered_entries(orig.subrange(0, j as int), alive@.subrange(0, j as int), now, insts),
            instances@.len() == insts.len(),
            forall|k: int|
                0 <= k < instances@.len() ==> {
                    let o = #[trigger] insts[k];
                    let m = instances@[k];
                    m.id == o.id && m.total_launches == o.total_launches && m.playtime_seconds == if index_of(insts, o.id@, k) {
                        cap_u64(o.playtime_seconds + credit_total(orig.subrange(0, j as int), alive@.subrange(0, j as int), now, o.id@))
                    } else {
                        o.playtime_seconds as int
                    }
                },
        decreases sessions.len(),
    {
        let s = sessions.remove(0);
        assert(s == orig[j as int]);
        let ghost pre = orig.subrange(0, j as int);
        let ghost next = orig.subrange(0, j + 1);
        let ghost apre = alive@.subrange(0, j as int);
        let ghost anext = alive@.subrange(0, j + 1);
        proof {
            assert(next.drop_last() =~= pre);
            assert(anext.subrange(0, j as int) =~= apre);
            assert(next[j as int] == s);
            assert(anext[j as int] == alive@[j as int]);
            assert forall|i: int| 0 <= i < pre.len() implies (#[trigger] pre[i]).instance_id@ != s.instance_id@ by {
                assert(pre[i] == orig[i]);
                assert(orig[i] != orig[j as int] || i == j);
            }
            lemma_credit_zero(pre, apre, now, s.instance_id@);
        }
        let ghost before = instances@;
        let ghost rec_before = recovered_views(recovered@);
        let ghost recs_before = record_views(records@);
        let action = recovery_action(&s, now, alive[j]);
        // the instance's playtime before this restart
        let found = crate::instances::find_instance(instances, s.instance_id.as_str());
        let playtime_before = match found {
            Some(k) => instances[k].playtime_seconds,
            None => 0,
        };
        proof {
            match found {
                Some(k) => {
                    assert forall|q: int| 0 <= q < k implies insts[q].id@ != s.instance_id@ by {
                        assert(before[q].id == insts[q].id);
                    }
                    assert(before[k as int].id == insts[k as int].id);
                    assert(index_of(insts, s.instance_id@, k as int));
                    assert forall|q: int| index_of(insts, s.instance_id@, q) implies q == k by {
                        lemma_index_unique(insts, s.instance_id@, q, k as int);
                    }
                    assert(playtime_before == playtime_of(insts, s.instance_id@));
                },
                None => {
                    assert forall|q: int| !index_of(insts, s.instance_id@, q) by {
                        if 0 <= q < insts.len() {
                            assert(before[q].id == insts[q].id);
                        }
                    }
                    assert(playtime_before == playtime_of(insts, s.instance_id@));
                },
            }
        }
        match action {
            Recovery::Reattach => {
                recovered.push(RecoveredSession {
                    instance_id: s.instance_id.clone(),
                    start_or_credit: s.start_time,
                    pid: s.pid,
                    playtime_before,
                    launch_username: clone_user(&s.launch_username),
                });
                let ghost still_before = still@;
                still.push(s);
                proof {
                    assert(recovered_views(recovered@) =~= rec_before.push((s.instance_id@, s.start_time, s.pid, playtime_before, user_view(s.launch_username))));
                    assert(still@ =~= still_before + seq![s]);
                    assert(record_views(records@) =~= recs_before + Seq::<(Seq<char>, u64, u64)>::empty());
                    assert forall|k: int| 0 <= k < instances@.len() implies credit_total(next, anext, now, (#[trigger] insts[k]).id@)
                        == credit_total(pre, apre, now, insts[k].id@) by {}
                }
            },
            Recovery::Credit(d) => {
                let credited = credit_instance(instances, s.instance_id.as_str(), d);
                proof {
                    assert forall|k: int| 0 <= k < instances@.len() implies {
                        let o = #[trigger] insts[k];
                        let m = instances@[k];
                        m.id == o.id && m.total_launches == o.total_launches && m.playtime_seconds == if index_of(insts, o.id@, k) {
                            cap_u64(o.playtime_seconds + credit_total(next, anext, now, o.id@))
                        } else {
                            o.playtime_seconds as int
                        }
                    } by {
                        let o = insts[k];
                        assert(before[k].id == o.id);
                        lemma_credit_nonneg(pre, apre, now, o.id@);
                        if index_of(insts, o.id@, k) {
                            if s.instance_id@ == o.id@ {
                                assert forall|q: int| 0 <= q < k implies before[q].id@ != s.instance_id@ by {
                                    assert(before[q].id == insts[q].id);
                                }
                                assert(index_of(before, s.instance_id@, k));
                                lemma_cap_add(o.playtime_seconds as int, credit_total(pre, apre, now, o.id@), d as int);
                            } else {
                                assert(!index_of(before, s.instance_id@, k));
                            }
                        } else {
                            if index_of(before, s.instance_id@, k) {
                                assert forall|q: int| 0 <= q < k implies insts[q].id@ != o.id@ by {
                                    assert(before[q].id == insts[q].id);
                                }
                                assert(false);
                            }
                        }
                    }
                }
                let name = match credited {
                    Some((_, nm)) => nm,
                    None => String::new(),
                };
                if d > 0 {
                    records.push(SessionRecord {
                        instance_id: s.instance_id.clone(),
                        instance_name: name,
                        timestamp: now,
                        duration_seconds: d,
                    });
                    assert(record_views(records@) =~= recs_before.push((s.instance_id@, now, d)));
                } else {
                    assert(record_views(records@) =~= recs_before + Seq::<(Seq<char>, u64, u64)>::empty());
                }
                recovered.push(RecoveredSession {
                    instance_id: s.instance_id.clone(),
                    start_or_credit: d,
                    pid: None,
                    playtime_before,
                    launch_username: clone_user(&s.launch_username),
                });
                proof {
                    assert(recovered_views(recovered@) =~= rec_before.push((s.instance_id@, d, None::<u32>, playtime_before, user_view(s.launch_username))));
                    assert(still@ =~= still@ + Seq::<GameSession>::empty());
                }
            },
            Recovery::Discard => {
                proof {
                    assert(recovered_views(recovered@) =~= rec_before + Seq::<(Seq<char>, u64, Option<u32>, u64, Option<Seq<char>>)>::empty());
                    assert(record_views(records@) =~= recs_before + Seq::<(Seq<char>, u64, u64)>::empty());
                    assert(still@ =~= still@ + Seq::<GameSession>::empty());
                    assert forall|k: int| 0 <= k < instances@.len() implies credit_total(next, anext, now, (#[trigger] insts[k]).id@)
                        == credit_total(pre, apre, now, insts[k].id@) by {}
                }
            },
        }
        j = j + 1;
        assert(sessions@ =~= orig.subrange(j as int, n as int));
    }
    assert(orig.subrange(0, n as int) =~= orig);
    assert(alive@.subrange(0, n as int) =~= alive@);
    *sessions = still;
    (recovered, records)
}

/// Crash recovery never lowers an instance's playtime.
pub proof fn recovery_keeps_playtime_monotone(
    old_playtime: u64,
    sessions: Seq<GameSession>,
    alive: Seq<bool>,
    now: u64,
    id: Seq<char>,
)
    requires
        alive.len() == sessions.len(),
    ensures
        cap_u64(old_playtime + credit_total(sessions, alive, now, id)) >= old_playtime,
{
    lemma_credit_nonneg(sessions, alive, now, id);
}

proof fn lemma_credit_nonneg(sessions: Seq<GameSession>, alive: Seq<bool>, now: u64, id: Seq<char>)
    ensures
        credit_total(sessions, alive, now, id) >= 0,
    decreases sessions.len(),
{
    if sessions.len() > 0 {
        lemma_credit_nonneg(sessions.drop_last(), alive.subrange(0, sessions.len() - 1), now, id);
    }
}

/// A session found at a restart that started more than the cap ago and whose
/// process is gone is discarded: nothing is credited.
pub proof fn stale_session_not_credited(session: GameSession, now: u64, alive: bool)
    requires
        now >= session.start_time,
        now - session.start_time > SESSION_CAP_SECONDS,
        !(session.pid is Some && alive),
    ensures
        recovery_of(session, now, alive) == Recovery::Discard,
{
}

/// A stale session found at a restart leaves the session file, gives no
/// record and is not reported.
pub proof fn stale_session_cleared(session: GameSession, now: u64, alive: bool, instances: Seq<Instance>)
    requires
        now >= session.start_time,
        now - session.start_time > SESSION_CAP_SECONDS,
        !(session.pid is Some && alive),
    ensures
        kept_sessions(seq![session], seq![alive], now).len() == 0,
        record_entries(seq![session], seq![alive], now).len() == 0,
        recovered_entries(seq![session], seq![alive], now, instances).len() == 0,
{
    assert(seq![session].drop_last() =~= Seq::<GameSession>::empty());
    assert(seq![alive].subrange(0, 0) =~= Seq::<bool>::empty());
    assert(seq![session][0] == session);
    assert(seq![alive][0] == alive);
    assert(kept_sessions(Seq::<GameSession>::empty(), Seq::<bool>::empty(), now).len() == 0);
    assert(record_entries(Seq::<GameSession>::empty(), Seq::<bool>::empty(), now).len() == 0);
    assert(recovered_entries(Seq::<GameSession>::empty(), Seq::<bool>::empty(), now, instances).len() == 0);
}

/// A session whose game still runs stays in the session file, gives no
/// record, and is reported with its start time, process and the instance's
/// playtime before, so that its time is credited once, when it exits.
pub proof fn running_session_reattached(session: GameSession, now: u64, instances: Seq<Instance>)
    requires
        session.pid is Some,
    ensures
        kept_sessions(seq![session], seq![true], now) == seq![session],
        record_entries(seq![session], seq![true], now).len() == 0,
        recovered_entries(seq![session], seq![true], now, instances) == seq![(
            session.instance_id@,
            session.start_time,
            session.pid,
            playtime_of(instances, session.instance_id@),
            user_view(session.launch_username),
        )],
{
    assert(seq![session].drop_last() =~= Seq::<GameSession>::empty());
    assert(seq![true].subrange(0, 0) =~= Seq::<bool>::empty());
    assert(seq![session][0] == session);
    assert(seq![true][0] == true);
    assert(kept_sessions(Seq::<GameSession>::empty(), Seq::<bool>::empty(), now).len() == 0);
    assert(record_entries(Seq::<GameSession>::empty(), Seq::<bool>::empty(), now).len() == 0);
    assert(recovered_entries(Seq::<GameSession>::empty(), Seq::<bool>::empty(), now, instances).len() == 0);
    assert(kept_sessions(seq![session], seq![true], now) =~= seq![session]);
    assert(recovered_entries(seq![session], seq![true], now, instances) =~= seq![(
        session.instance_id@,
        session.start_time,
        session.pid,
        playtime_of(instances, session.instance_id@),
        user_view(session.launch_username),
    )]);
}

/// A session whose game exited within the cap leaves the session file,
/// gives one record of the elapsed time, and is reported as that credit.
pub proof fn exited_session_recorded(session: GameSession, now: u64, alive: bool, instances: Seq<Instance>)
    requires
        now > session.start_time,
        now - session.start_time <= SESSION_CAP_SECONDS,
        !(session.pid is Some && alive),
    ensures
        kept_sessions(seq![session], seq![alive], now).len() == 0,
        record_entries(seq![session], seq![alive], now) == seq![(session.instance_id@, now, (now - session.start_time) as u64)],
        recovered_entries(seq![session], seq![alive], now, instances) == seq![(
            session.instance_id@,
            (now - session.start_time) as u64,
            None::<u32>,
            playtime_of(instances, session.instance_id@),
            user_view(session.launch_username),
        )],
{
    assert(seq![session].drop_last() =~= Seq::<GameSession>::empty());
    assert(seq![alive].subrange(0, 0) =~= Seq::<bool>::empty());
    assert(seq![session][0] == session);
    assert(seq![alive][0] == alive);
    assert(kept_sessions(Seq::<GameSession>::empty(), Seq::<bool>::empty(), now).len() == 0);
    assert(record_entries(Seq::<GameSession>::empty(), Seq::<bool>::empty(), now).len() == 0);
    assert(recovered_entries(Seq::<GameSession>::empty(), Seq::<bool>::empty(), now, instances).len() == 0);
    assert(recovery_of(session, now, alive) == Recovery::Credit((now - session.start_time) as u64));
    assert(record_entries(seq![session], seq![alive], now) =~= seq![(session.instance_id@, now, (now - session.start_time) as u64)]);
    assert(recovered_entries(seq![session], seq![alive], now, instances) =~= seq![(
        session.instance_id@,
        (now - session.start_time) as u64,
        None::<u32>,
        playtime_of(instances, session.instance_id@),
        user_view(session.launch_username),
    )]);
}

/// A session whose process is gone and that started within the cap is
/// credited exactly the wall time since it started.
pub proof fn exited_session_credited_elapsed(session: GameSession, now: u64, alive: bool)
    requires
        now >= session.start_time,
        now - session.start_time <= SESSION_CAP_SECONDS,
        !(session.pid is Some && alive),
    ensures
        recovery_of(session, now, alive) == Recovery::Credit((now - session.start_time) as u64),
{
}

} // verus!
