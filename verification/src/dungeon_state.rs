use vstd::prelude::*;
use vstd::string::StringExecFns;

use crate::dungeon::DungeonState;
use crate::text::{decimal, push_decimal, spec_decimal, string_views};

verus! {

/// Ticks of the countdown between everyone being ready and the run starting.
pub const STARTING_TIME: usize = 100;

/// What a tick of the run's state asks the world to do.
#[derive(Clone, Copy, Debug, PartialEq, Eq, Structural)]
pub enum DungeonEvent {
    Nothing,
    /// The countdown ended: open the entrance and start the run.
    Start,
    /// Tell every player how many seconds are left.
    Announce { seconds_remaining: usize },
}

pub open spec fn spec_state_tick(s: DungeonState) -> (DungeonState, DungeonEvent) {
    match s {
        DungeonState::Starting { starts_in_ticks } => {
            let t = (starts_in_ticks - 1) as usize;
            if t == 0 {
                (DungeonState::Started { ticks: 0 }, DungeonEvent::Start)
            } else if t % 20 == 0 {
                (
                    DungeonState::Starting { starts_in_ticks: t },
                    DungeonEvent::Announce { seconds_remaining: t / 20 },
                )
            } else {
                (DungeonState::Starting { starts_in_ticks: t }, DungeonEvent::Nothing)
            }
        },
        DungeonState::Started { ticks } => (
            DungeonState::Started { ticks: (ticks + 1) as usize },
            DungeonEvent::Nothing,
        ),
        DungeonState::NotStarted => (s, DungeonEvent::Nothing),
    }
}

/// A countdown still has a tick to count, and a run's clock has room to count.
pub open spec fn state_can_tick(s: DungeonState) -> bool {
    match s {
        DungeonState::Starting { starts_in_ticks } => starts_in_ticks >= 1,
        DungeonState::Started { ticks } => ticks < usize::MAX,
        DungeonState::NotStarted => true,
    }
}

impl DungeonState {
    /// One server tick of the run's progress: the countdown runs down, with a
    /// message every second and the start at zero; a started run counts ticks.
    pub fn tick(&mut self) -> (r: DungeonEvent)
        requires
            state_can_tick(*old(self)),
        ensures
            (*final(self), r) == spec_state_tick(*old(self)),
    {
        match *self {
            DungeonState::Starting { starts_in_ticks } => {
                let t = starts_in_ticks - 1;
                if t == 0 {
                    *self = DungeonState::Started { ticks: 0 };
                    DungeonEvent::Start
                } else if t % 20 == 0 {
                    *self = DungeonState::Starting { starts_in_ticks: t };
                    DungeonEvent::Announce { seconds_remaining: t / 20 }
                } else {
                    *self = DungeonState::Starting { starts_in_ticks: t };
                    DungeonEvent::Nothing
                }
            },
            DungeonState::Started { ticks } => {
                *self = DungeonState::Started { ticks: ticks + 1 };
                DungeonEvent::Nothing
            },
            DungeonState::NotStarted => DungeonEvent::Nothing,
        }
    }
}

/// The state after `n` ticks.
pub open spec fn spec_after_ticks(s: DungeonState, n: nat) -> DungeonState
    decreases n,
{
    if n == 0 {
        s
    } else {
        spec_after_ticks(spec_state_tick(s).0, (n - 1) as nat)
    }
}

/// A countdown of `t` ticks is still counting, with `t - k` ticks to go, after
/// `k < t` ticks.
pub proof fn lemma_countdown_runs_down(t: usize, k: nat)
    requires
        k < t,
    ensures
        spec_after_ticks(DungeonState::Starting { starts_in_ticks: t }, k) == (DungeonState::Starting {
            starts_in_ticks: (t - k) as usize,
        }),
    decreases k,
{
    if k > 0 {
        lemma_countdown_runs_down((t - 1) as usize, (k - 1) as nat);
    }
}

/// A countdown of `t >= 1` ticks has started the run, with its clock at zero,
/// after exactly `t` ticks; the last of them is the one that says `Start`.
pub proof fn lemma_countdown_starts(t: usize)
    requires
        t >= 1,
    ensures
        spec_after_ticks(DungeonState::Starting { starts_in_ticks: t }, t as nat) == (DungeonState::Started {
            ticks: 0,
        }),
        spec_state_tick(DungeonState::Starting { starts_in_ticks: 1 }).1 == DungeonEvent::Start,
    decreases t,
{
    let s = DungeonState::Starting { starts_in_ticks: t };
    if t > 1 {
        assert(spec_state_tick(s).0 == DungeonState::Starting { starts_in_ticks: (t - 1) as usize });
        lemma_countdown_starts((t - 1) as usize);
    } else {
        assert(spec_state_tick(s).0 == DungeonState::Started { ticks: 0 });
        assert(spec_after_ticks(DungeonState::Started { ticks: 0 }, 0) == DungeonState::Started { ticks: 0 });
    }
    assert(spec_after_ticks(s, t as nat) == spec_after_ticks(spec_state_tick(s).0, (t - 1) as nat));
}

/// The countdown message: `§aStarting in N second(s).`
pub open spec fn spec_starting_message(seconds: nat) -> Seq<char> {
    seq!['§', 'a'] + "Starting in "@ + spec_decimal(seconds) + " second"@ + (if seconds == 1 {
        seq![]
    } else {
        seq!['s']
    }) + seq!['.']
}

pub fn starting_message(seconds: u64) -> (r: String)
    ensures
        r@ == spec_starting_message(seconds as nat),
{
    proof {
        reveal_strlit("§a");
        reveal_strlit("Starting in ");
        reveal_strlit(" second");
        reveal_strlit("s");
        reveal_strlit(".");
        reveal_strlit("");
    }
    let mut s = String::from_str("§a");
    s.append("Starting in ");
    let n = decimal(seconds);
    s.append(n.as_str());
    s.append(" second");
    if seconds != 1 {
        s.append("s");
    }
    s.append(".");
    assert(s@ =~= spec_starting_message(seconds as nat));
    s
}


/// The announcement of a player's new ready status.
pub open spec fn spec_ready_message(username: Seq<char>, is_ready: bool) -> Seq<char> {
    seq!['§', '7'] + username + seq![' '] + (if is_ready {
        "§ais now ready"@
    } else {
        "§cis no longer ready"@
    }) + seq!['!']
}

pub fn ready_message(username: &str, is_ready: bool) -> (r: String)
    ensures
        r@ == spec_ready_message(username@, is_ready),
{
    proof {
        reveal_strlit("§7");
        reveal_strlit(" ");
        reveal_strlit("!");
        reveal_strlit("§ais now ready");
        reveal_strlit("§cis no longer ready");
    }
    let mut s = String::from_str("§7");
    s.append(username);
    s.append(" ");
    if is_ready {
        s.append("§ais now ready");
    } else {
        s.append("§cis no longer ready");
    }
    s.append("!");
    assert(s@ =~= spec_ready_message(username@, is_ready));
    s
}

/// Ready flags after `entity` toggles its own.
pub open spec fn spec_toggled(entities: Seq<u64>, ready: Seq<bool>, entity: u64) -> Seq<bool> {
    Seq::new(ready.len(), |i: int| if entities[i] == entity { !ready[i] } else { ready[i] })
}

/// A player who readies up and then changes their mind leaves every ready flag
/// as it was.
pub proof fn lemma_toggle_twice_restores(entities: Seq<u64>, ready: Seq<bool>, entity: u64)
    requires
        entities.len() == ready.len(),
    ensures
        spec_toggled(entities, spec_toggled(entities, ready, entity), entity) == ready,
{
    assert(spec_toggled(entities, spec_toggled(entities, ready, entity), entity) =~= ready);
}

pub open spec fn all_ready(ready: Seq<bool>) -> bool {
    forall|i: int| 0 <= i < ready.len() ==> ready[i]
}

/// The announcements made while the first `n` players are looked at: one for
/// each of them that is `entity`, with its new status.
pub open spec fn spec_ready_messages(
    entities: Seq<u64>,
    usernames: Seq<String>,
    ready: Seq<bool>,
    entity: u64,
    n: nat,
) -> Seq<Seq<char>>
    decreases n,
{
    if n == 0 {
        seq![]
    } else {
        let k = (n - 1) as nat;
        spec_ready_messages(entities, usernames, ready, entity, k) + (if entities[k as int]
            == entity {
            seq![spec_ready_message(usernames[k as int]@, !ready[k as int])]
        } else {
            seq![]
        })
    }
}

/// The player `entity` toggles their ready status: every toggle is announced,
/// and the countdown starts when everyone is ready and stops otherwise.
pub fn on_player_ready(
    entities: &Vec<u64>,
    usernames: &Vec<String>,
    ready: &mut Vec<bool>,
    entity: u64,
    messages: &mut Vec<String>,
) -> (r: DungeonState)
    requires
        entities.len() == usernames.len(),
        entities.len() == old(ready).len(),
    ensures
        final(ready)@ == spec_toggled(entities@, old(ready)@, entity),
        all_ready(final(ready)@) ==> r == (DungeonState::Starting { starts_in_ticks: STARTING_TIME }),
        !all_ready(final(ready)@) ==> r == DungeonState::NotStarted,
        string_views(final(messages)@) == string_views(old(messages)@) + spec_ready_messages(
            entities@,
            usernames@,
            old(ready)@,
            entity,
            entities.len() as nat,
        ),
{
    let mut should_start = true;
    let mut i: usize = 0;
    while i < entities.len()
        invariant
            i <= entities.len(),
            entities.len() == usernames.len(),
            entities.len() == ready.len(),
            forall|k: int|
                0 <= k < i ==> ready@[k] == (if entities@[k] == entity {
                    !old(ready)@[k]
                } else {
                    old(ready)@[k]
                }),
            forall|k: int| i <= k < ready.len() ==> ready@[k] == old(ready)@[k],
            should_start == (forall|k: int| 0 <= k < i ==> ready@[k]),
            string_views(messages@) == string_views(old(messages)@) + spec_ready_messages(
                entities@,
                usernames@,
                old(ready)@,
                entity,
                i as nat,
            ),
        decreases entities.len() - i,
    {
        let ghost before = messages@;
        let ghost ready_before = ready@;
        if entities[i] == entity {
            let is_ready = !ready[i];
            let message = ready_message(usernames[i].as_str(), is_ready);
            messages.push(message);
            ready.set(i, is_ready);
            assert(string_views(messages@) =~= string_views(before).push(message@));
        } else {
            assert(string_views(messages@) =~= string_views(before));
        }
        assert(string_views(messages@) =~= string_views(old(messages)@) + spec_ready_messages(
            entities@,
            usernames@,
            old(ready)@,
            entity,
            (i + 1) as nat,
        ));
        assert(forall|k: int| 0 <= k < i ==> ready@[k] == ready_before[k]);
        if !ready[i] {
            should_start = false;
        }
        i = i + 1;
    }
    assert(ready@ =~= spec_toggled(entities@, old(ready)@, entity));
    if should_start {
        DungeonState::Starting { starts_in_ticks: STARTING_TIME }
    } else {
        DungeonState::NotStarted
    }
}

/// Where the run stands, with the ticks counted by a separate timer.
#[derive(Clone, Copy, Debug, PartialEq, Eq, Structural)]
pub enum DungeonPhase {
    NotStarted,
    Starting,
    Started,
}

/// Seconds left in the countdown after `elapsed` ticks, the quotient
/// truncated towards zero as integer division does.
pub open spec fn spec_seconds_remaining(elapsed: int) -> int {
    if elapsed <= 100 {
        (100 - elapsed) / 20
    } else {
        -((elapsed - 100) / 20)
    }
}

/// A whole number in decimal, with a minus sign when negative.
pub open spec fn spec_signed_decimal(v: int) -> Seq<char> {
    if v < 0 {
        seq!['-'] + spec_decimal((-v) as nat)
    } else {
        spec_decimal(v as nat)
    }
}

/// The countdown message of the timed countdown.
pub open spec fn spec_countdown_message(seconds: int) -> Seq<char> {
    seq!['§', 'a'] + "Starting in "@ + spec_signed_decimal(seconds) + " second"@ + (if seconds == 1 {
        seq![]
    } else {
        seq!['s']
    }) + seq!['.']
}

/// The run's phase after a tick, `elapsed` ticks after the countdown began:
/// at a hundred ticks the run starts (and the timer is to be reset); before
/// that, every twentieth tick announces the seconds left.
pub fn update_dungeon_state(phase: DungeonPhase, elapsed: i64) -> (r: (DungeonPhase, bool, Option<String>))
    requires
        elapsed >= 0,
    ensures
        phase != DungeonPhase::Starting ==> r.0 == phase && !r.1 && r.2 is None,
        phase == DungeonPhase::Starting && elapsed == 100 ==> r.0 == DungeonPhase::Started && r.1
            && r.2 is None,
        phase == DungeonPhase::Starting && elapsed != 100 ==> r.0 == DungeonPhase::Starting && !r.1
            && (elapsed % 20 == 0 ==> (r.2 matches Some(m) && m@ == spec_countdown_message(
            spec_seconds_remaining(elapsed as int),
        ))) && (elapsed % 20 != 0 ==> r.2 is None),
{
    if phase != DungeonPhase::Starting {
        return (phase, false, None);
    }
    if elapsed == 100 {
        return (DungeonPhase::Started, true, None);
    }
    if elapsed % 20 != 0 {
        return (DungeonPhase::Starting, false, None);
    }
    proof {
        reveal_strlit("§a");
        reveal_strlit("Starting in ");
        reveal_strlit("-");
        reveal_strlit(" second");
        reveal_strlit("s");
        reveal_strlit(".");
        reveal_strlit("");
    }
    let mut s = String::from_str("§a");
    s.append("Starting in ");
    let seconds_remaining: i64;
    if elapsed <= 100 {
        let q: u64 = ((100 - elapsed) / 20) as u64;
        seconds_remaining = q as i64;
        push_decimal(&mut s, q);
    } else {
        let q: u64 = ((elapsed - 100) / 20) as u64;
        seconds_remaining = -(q as i64);
        s.append("-");
        push_decimal(&mut s, q);
    }
    assert(seconds_remaining as int == spec_seconds_remaining(elapsed as int));
    s.append(" second");
    if seconds_remaining != 1 {
        s.append("s");
    }
    s.append(".");
    proof {
        if elapsed > 100 && seconds_remaining == 0 {
            assert(false);
        }
    }
    assert(s@ =~= spec_countdown_message(seconds_remaining as int));
    (DungeonPhase::Starting, false, Some(s))
}

} // verus!
