use vstd::prelude::*;
use vstd::string::StringExecFns;

use crate::dungeon::DungeonState;
use crate::text::{push_decimal, spec_decimal, string_views};

verus! {

/// When the skyblock calendar began, in milliseconds since the Unix epoch.
pub const SKYBLOCK_EPOCH_START_MILLIS: u64 = 1_559_829_300_000;

/// A skyblock year: 124 hours.
pub const SKYBLOCK_YEAR_MILLIS: u64 = 446_400_000;

/// A skyblock day: a twelfth of a year split in 31 days.
pub const SKYBLOCK_DAY_MILLIS: u64 = 1_200_000;

pub open spec fn spec_month_name(month: int) -> Seq<char> {
    if month == 0 {
        "Early Spring"@
    } else if month == 1 {
        "Spring"@
    } else if month == 2 {
        "Late Spring"@
    } else if month == 3 {
        "Early Summer"@
    } else if month == 4 {
        "Summer"@
    } else if month == 5 {
        "Late Summer"@
    } else if month == 6 {
        "Early Autumn"@
    } else if month == 7 {
        "Autumn"@
    } else if month == 8 {
        "Late Autumn"@
    } else if month == 9 {
        "Early Winter"@
    } else if month == 10 {
        "Winter"@
    } else {
        "Late Winter"@
    }
}

/// The twelve months of the skyblock year, in order.
pub open spec fn skyblock_months() -> Seq<Seq<char>> {
    seq![
        "Early Spring"@,
        "Spring"@,
        "Late Spring"@,
        "Early Summer"@,
        "Summer"@,
        "Late Summer"@,
        "Early Autumn"@,
        "Autumn"@,
        "Late Autumn"@,
        "Early Winter"@,
        "Winter"@,
        "Late Winter"@,
    ]
}

/// Every time falls on one of the 372 days of a skyblock year.
proof fn lemma_sb_day_in_year(now_millis: int)
    ensures
        0 <= spec_sb_day(now_millis) < 372,
        0 <= spec_sb_day(now_millis) / 31 < 12,
{
    let elapsed = if now_millis > SKYBLOCK_EPOCH_START_MILLIS {
        now_millis - SKYBLOCK_EPOCH_START_MILLIS
    } else {
        0
    };
    let in_year = elapsed % 446_400_000;
    assert(0 <= in_year < 446_400_000);
    let day = in_year / 1_200_000;
    assert(0 <= day < 372) by (nonlinear_arith)
        requires
            0 <= in_year < 446_400_000,
            day == in_year / 1_200_000,
    ;
    assert(spec_sb_day(now_millis) == day);
}

/// The month of a skyblock date is named by the calendar: month `k` of the
/// year (from 0) is the `k`-th of Early Spring, Spring, Late Spring, Early
/// Summer, Summer, Late Summer, Early Autumn, Autumn, Late Autumn, Early
/// Winter, Winter and Late Winter; and the date at any time names the month
/// of its day of the year, 31 days to a month.
pub proof fn lemma_month_names_follow_the_calendar(month: int, now_millis: int)
    requires
        0 <= month < 12,
    ensures
        spec_month_name(month) == skyblock_months()[month],
        spec_month_name(spec_sb_day(now_millis) / 31) == skyblock_months()[spec_sb_day(now_millis) / 31],
{
    lemma_sb_day_in_year(now_millis);
}

/// The ordinal suffix of a day of the month.
pub open spec fn spec_day_suffix(day: int) -> Seq<char> {
    if 11 <= day % 100 <= 13 {
        "th"@
    } else if day % 10 == 1 {
        "st"@
    } else if day % 10 == 2 {
        "nd"@
    } else if day % 10 == 3 {
        "rd"@
    } else {
        "th"@
    }
}

/// The suffixes of the days of a month, from the 1st to the 31st.
pub open spec fn day_suffix_table() -> Seq<Seq<char>> {
    seq![
        "st"@,
        "nd"@,
        "rd"@,
        "th"@,
        "th"@,
        "th"@,
        "th"@,
        "th"@,
        "th"@,
        "th"@,
        "th"@,
        "th"@,
        "th"@,
        "th"@,
        "th"@,
        "th"@,
        "th"@,
        "th"@,
        "th"@,
        "th"@,
        "st"@,
        "nd"@,
        "rd"@,
        "th"@,
        "th"@,
        "th"@,
        "th"@,
        "th"@,
        "th"@,
        "th"@,
        "st"@,
    ]
}

/// Every day of a month is written with its English ordinal suffix: the
/// 1st, 2nd and 3rd, the 4th to the 20th, the 21st, 22nd, 23rd, the 24th to
/// the 30th and the 31st.
pub proof fn lemma_day_suffixes(day: int)
    requires
        1 <= day <= 31,
    ensures
        spec_day_suffix(day) == day_suffix_table()[day - 1],
{
    if day == 1 {
    } else if day == 2 {
    } else if day == 3 {
    } else if day == 4 {
    } else if day == 5 {
    } else if day == 6 {
    } else if day == 7 {
    } else if day == 8 {
    } else if day == 9 {
    } else if day == 10 {
    } else if day == 11 {
    } else if day == 12 {
    } else if day == 13 {
    } else if day == 14 {
    } else if day == 15 {
    } else if day == 16 {
    } else if day == 17 {
    } else if day == 18 {
    } else if day == 19 {
    } else if day == 20 {
    } else if day == 21 {
    } else if day == 22 {
    } else if day == 23 {
    } else if day == 24 {
    } else if day == 25 {
    } else if day == 26 {
    } else if day == 27 {
    } else if day == 28 {
    } else if day == 29 {
    } else if day == 30 {
    } else {
        assert(day == 31);
    }
}

/// Day of the skyblock year at `now_millis` (0 before the calendar began).
pub open spec fn spec_sb_day(now_millis: int) -> int {
    let elapsed = if now_millis > SKYBLOCK_EPOCH_START_MILLIS {
        now_millis - SKYBLOCK_EPOCH_START_MILLIS
    } else {
        0
    };
    (elapsed % SKYBLOCK_YEAR_MILLIS as int) / SKYBLOCK_DAY_MILLIS as int
}

fn month_name(month: u64) -> (r: &'static str)
    requires
        month < 12,
    ensures
        r@ == spec_month_name(month as int),
{
    proof {
        reveal_strlit("Early Spring");
        reveal_strlit("Spring");
        reveal_strlit("Late Spring");
        reveal_strlit("Early Summer");
        reveal_strlit("Summer");
        reveal_strlit("Late Summer");
        reveal_strlit("Early Autumn");
        reveal_strlit("Autumn");
        reveal_strlit("Late Autumn");
        reveal_strlit("Early Winter");
        reveal_strlit("Winter");
        reveal_strlit("Late Winter");
    }
    if month == 0 {
        "Early Spring"
    } else if month == 1 {
        "Spring"
    } else if month == 2 {
        "Late Spring"
    } else if month == 3 {
        "Early Summer"
    } else if month == 4 {
        "Summer"
    } else if month == 5 {
        "Late Summer"
    } else if month == 6 {
        "Early Autumn"
    } else if month == 7 {
        "Autumn"
    } else if month == 8 {
        "Late Autumn"
    } else if month == 9 {
        "Early Winter"
    } else if month == 10 {
        "Winter"
    } else {
        "Late Winter"
    }
}

fn day_suffix(day: u64) -> (r: &'static str)
    ensures
        r@ == spec_day_suffix(day as int),
{
    proof {
        reveal_strlit("th");
        reveal_strlit("st");
        reveal_strlit("nd");
        reveal_strlit("rd");
    }
    let m = day % 100;
    if 11 <= m && m <= 13 {
        "th"
    } else if day % 10 == 1 {
        "st"
    } else if day % 10 == 2 {
        "nd"
    } else if day % 10 == 3 {
        "rd"
    } else {
        "th"
    }
}

/// The skyblock date at `now_millis`: the month's name, the day of the month
/// (from 1) and its ordinal suffix.
pub fn get_sb_date(now_millis: u64) -> (r: (&'static str, u64, &'static str))
    ensures
        r.0@ == spec_month_name(spec_sb_day(now_millis as int) / 31),
        r.1 == spec_sb_day(now_millis as int) % 31 + 1,
        r.2@ == spec_day_suffix(r.1 as int),
        1 <= r.1 <= 31,
{
    let elapsed = now_millis.saturating_sub(SKYBLOCK_EPOCH_START_MILLIS);
    let day = (elapsed % SKYBLOCK_YEAR_MILLIS) / SKYBLOCK_DAY_MILLIS;
    assert(day < 372);
    let month = day / 31;
    let day_of_month = day % 31 + 1;
    (month_name(month), day_of_month, day_suffix(day_of_month))
}

/// A number shown with at least two digits.
pub open spec fn spec_two_digits(n: nat) -> Seq<char> {
    (if n < 10 {
        "0"@
    } else {
        ""@
    }) + spec_decimal(n)
}

/// Time since the run started, `MMmSSs` from a minute on, else `SSs`.
pub open spec fn spec_elapsed(ticks: nat) -> Seq<char> {
    let seconds = ticks / 20;
    if seconds >= 60 {
        spec_two_digits(seconds / 60) + "m"@ + spec_two_digits(seconds % 60) + "s"@
    } else {
        spec_two_digits(seconds % 60) + "s"@
    }
}

fn push_two_digits(s: &mut String, n: u64)
    ensures
        final(s)@ == old(s)@ + spec_two_digits(n as nat),
{
    proof {
        reveal_strlit("0");
        reveal_strlit("");
    }
    if n < 10 {
        s.append("0");
    }
    push_decimal(s, n);
    assert(final(s)@ =~= old(s)@ + spec_two_digits(n as nat));
}

/// Formats the time since the run started, from its tick count.
pub fn format_elapsed(ticks: usize) -> (r: String)
    ensures
        r@ == spec_elapsed(ticks as nat),
{
    proof {
        reveal_strlit("m");
        reveal_strlit("s");
        reveal_strlit("");
    }
    let seconds: u64 = (ticks / 20) as u64;
    let mut r = String::new();
    if seconds >= 60 {
        push_two_digits(&mut r, seconds / 60);
        r.append("m");
        push_two_digits(&mut r, seconds % 60);
        r.append("s");
    } else {
        push_two_digits(&mut r, seconds % 60);
        r.append("s");
    }
    assert(r@ =~= spec_elapsed(ticks as nat));
    r
}

/// A player on the sidebar: the entity, the name and whether they are ready.
pub type SidebarPlayer = (u64, String, bool);

/// The line of a player before the run: green when ready, red otherwise.
pub open spec fn spec_ready_line(p: SidebarPlayer) -> Seq<char> {
    (if p.2 {
        "§a"@
    } else {
        "§c"@
    }) + "[M] §7"@ + p.1@
}

/// The line of a teammate during the run.
pub open spec fn spec_teammate_line(p: SidebarPlayer) -> Seq<char> {
    "§e[M] §7"@ + p.1@
}

/// The date block under the title.
pub open spec fn spec_date_block(
    date: Seq<char>,
    time: Seq<char>,
    room_id: Seq<char>,
    now_millis: int,
) -> Seq<char> {
    let day = spec_sb_day(now_millis);
    let day_of_month = day % 31 + 1;
    "§7"@ + date + " §8local "@ + room_id + "\n\n"@ + spec_month_name(day / 31) + " "@ + spec_decimal(
        day_of_month as nat,
    ) + spec_day_suffix(day_of_month) + "\n§7"@ + time + "\n §7⏣ §cThe Catacombs §7(F7)\n\n"@
}

/// The run block: keys, time elapsed and how much is cleared.
pub open spec fn spec_run_block(ticks: nat) -> Seq<char> {
    "Keys: §c■ §a✓ §8■ §a0x\nTime elapsed: §a§a"@ + spec_elapsed(ticks) + "\nCleared: §c0% §r§8(0)\n\n"@
}

/// The players other than `client`.
pub open spec fn others(client: u64) -> spec_fn(SidebarPlayer) -> bool {
    |p: SidebarPlayer| p.0 != client
}

pub open spec fn teammate_lines() -> spec_fn(SidebarPlayer) -> Seq<char> {
    |p: SidebarPlayer| spec_teammate_line(p)
}

/// What the sidebar shows between the date block and the last lines.
pub open spec fn spec_state_lines(state: DungeonState, players: Seq<SidebarPlayer>, client: u64) -> Seq<
    Seq<char>,
> {
    match state {
        DungeonState::Started { ticks } => seq![spec_run_block(ticks as nat)] + if players.len() == 1 {
            seq!["§3§lSolo\n\n"@]
        } else {
            players.filter(others(client)).map_values(teammate_lines()) + seq![""@]
        },
        DungeonState::Starting { starts_in_ticks } => players.map_values(
            |p: SidebarPlayer| spec_ready_line(p),
        ) + seq![""@] + seq![
            "Starting in: §a0§a:0"@ + spec_decimal((starts_in_ticks / 20 + 1) as nat),
            ""@,
        ],
        DungeonState::NotStarted => players.map_values(|p: SidebarPlayer| spec_ready_line(p)) + seq![
            ""@,
        ],
    }
}

/// Every entry of a player's sidebar, top to bottom (an empty entry is a blank line).
pub open spec fn spec_sidebar(
    date: Seq<char>,
    time: Seq<char>,
    room_id: Seq<char>,
    now_millis: int,
    state: DungeonState,
    players: Seq<SidebarPlayer>,
    client: u64,
    secrets: Option<(usize, usize)>,
) -> Seq<Seq<char>> {
    seq!["§e§lSKYBLOCK"@, spec_date_block(date, time, room_id, now_millis)] + spec_state_lines(
        state,
        players,
        client,
    ) + match secrets {
        Some((found, total)) => seq![
            "secrets: "@ + spec_decimal(found as nat) + "/"@ + spec_decimal(total as nat),
        ],
        None => seq![],
    } + seq!["§emc.hypixel.net"@]
}

fn push_line(lines: &mut Vec<String>, line: String)
    ensures
        string_views(final(lines)@) == string_views(old(lines)@).push(line@),
{
    lines.push(line);
    assert(string_views(final(lines)@) =~= string_views(old(lines)@).push(line@));
}

fn ready_line(p: &SidebarPlayer) -> (r: String)
    ensures
        r@ == spec_ready_line(*p),
{
    proof {
        reveal_strlit("§a");
        reveal_strlit("§c");
        reveal_strlit("[M] §7");
    }
    let mut s = if p.2 {
        String::from_str("§a")
    } else {
        String::from_str("§c")
    };
    s.append("[M] §7");
    s.append(p.1.as_str());
    assert(s@ =~= spec_ready_line(*p));
    s
}

fn teammate_line(p: &SidebarPlayer) -> (r: String)
    ensures
        r@ == spec_teammate_line(*p),
{
    proof {
        reveal_strlit("§e[M] §7");
    }
    let mut s = String::from_str("§e[M] §7");
    s.append(p.1.as_str());
    s
}

/// The sidebar of player `client`: the date and place (the local date and
/// time, the current room's id), then the ready status of every player before
/// the run or the run's keys, time and teammates during it, the secrets of the
/// current room if any, and the server's address.
pub fn sidebar_lines(
    date: &str,
    time: &str,
    room_id: &str,
    now_millis: u64,
    state: DungeonState,
    players: &Vec<SidebarPlayer>,
    client: u64,
    secrets: Option<(usize, usize)>,
) -> (r: Vec<String>)
    ensures
        string_views(r@) == spec_sidebar(
            date@,
            time@,
            room_id@,
            now_millis as int,
            state,
            players@,
            client,
            secrets,
        ),
{
    proof {
        reveal_strlit("§e§lSKYBLOCK");
        reveal_strlit("§7");
        reveal_strlit(" §8local ");
        reveal_strlit("\n\n");
        reveal_strlit(" ");
        reveal_strlit("\n§7");
        reveal_strlit("\n §7⏣ §cThe Catacombs §7(F7)\n\n");
        reveal_strlit("Keys: §c■ §a✓ §8■ §a0x\nTime elapsed: §a§a");
        reveal_strlit("\nCleared: §c0% §r§8(0)\n\n");
        reveal_strlit("§3§lSolo\n\n");
        reveal_strlit("");
        reveal_strlit("Starting in: §a0§a:0");
        reveal_strlit("secrets: ");
        reveal_strlit("/");
        reveal_strlit("§emc.hypixel.net");
    }
    let mut lines: Vec<String> = Vec::new();
    push_line(&mut lines, String::from_str("§e§lSKYBLOCK"));
    let (month, day, suffix) = get_sb_date(now_millis);
    let mut header = String::from_str("§7");
    header.append(date);
    header.append(" §8local ");
    header.append(room_id);
    header.append("\n\n");
    header.append(month);
    header.append(" ");
    push_decimal(&mut header, day);
    header.append(suffix);
    header.append("\n§7");
    header.append(time);
    header.append("\n §7⏣ §cThe Catacombs §7(F7)\n\n");
    assert(header@ =~= spec_date_block(date@, time@, room_id@, now_millis as int));
    push_line(&mut lines, header);
    let ghost top = string_views(lines@);
    assert(top =~= seq!["§e§lSKYBLOCK"@, spec_date_block(date@, time@, room_id@, now_millis as int)]);
    match state {
        DungeonState::NotStarted | DungeonState::Starting { .. } => {
            let mut i: usize = 0;
            while i < players.len()
                invariant
                    i <= players@.len(),
                    string_views(lines@) == top + players@.take(i as int).map_values(
                        |p: SidebarPlayer| spec_ready_line(p),
                    ),
                decreases players@.len() - i,
            {
                let line = ready_line(&players[i]);
                push_line(&mut lines, line);
                assert(players@.take(i + 1).map_values(|p: SidebarPlayer| spec_ready_line(p))
                    =~= players@.take(i as int).map_values(|p: SidebarPlayer| spec_ready_line(p)).push(
                    spec_ready_line(players@[i as int]),
                ));
                i = i + 1;
            }
            assert(players@.take(i as int) =~= players@);
            let ghost listed = string_views(lines@);
            assert(listed =~= top + players@.map_values(|p: SidebarPlayer| spec_ready_line(p)));
            let blank = String::new();
            assert(blank@ == ""@);
            push_line(&mut lines, blank);
            let ghost ready = string_views(lines@);
            assert(ready =~= listed.push(""@));
            assert(ready =~= top + players@.map_values(|p: SidebarPlayer| spec_ready_line(p)) + seq![""@]);
            if let DungeonState::Starting { starts_in_ticks } = state {
                let mut line = String::from_str("Starting in: §a0§a:0");
                push_decimal(&mut line, (starts_in_ticks / 20) as u64 + 1);
                push_line(&mut lines, line);
                push_line(&mut lines, String::new());
                assert(string_views(lines@) =~= ready + seq![
                    "Starting in: §a0§a:0"@ + spec_decimal((starts_in_ticks / 20 + 1) as nat),
                    ""@,
                ]);
            }
            assert(string_views(lines@) =~= top + spec_state_lines(state, players@, client));
        },
        DungeonState::Started { ticks } => {
            let mut block = String::from_str("Keys: §c■ §a✓ §8■ §a0x\nTime elapsed: §a§a");
            let elapsed = format_elapsed(ticks);
            block.append(elapsed.as_str());
            block.append("\nCleared: §c0% §r§8(0)\n\n");
            assert(block@ =~= spec_run_block(ticks as nat));
            push_line(&mut lines, block);
            let ghost with_block = string_views(lines@);
            assert(with_block =~= top + seq![spec_run_block(ticks as nat)]);
            if players.len() == 1 {
                push_line(&mut lines, String::from_str("§3§lSolo\n\n"));
                assert(string_views(lines@) =~= with_block + seq!["§3§lSolo\n\n"@]);
            } else {
                let ghost f = others(client);
                let ghost g = teammate_lines();
                let ghost run = string_views(lines@);
                let mut i: usize = 0;
                while i < players.len()
                    invariant
                        i <= players@.len(),
                        f == others(client),
                        g == teammate_lines(),
                        string_views(lines@) == run + players@.take(i as int).filter(f).map_values(g),
                    decreases players@.len() - i,
                {
                    assert(players@.take(i + 1).drop_last() =~= players@.take(i as int));
                    let ghost before = players@.take(i as int).filter(f);
                    assert(players@.take(i + 1) =~= players@.take(i as int).push(players@[i as int]));
                    proof { players@.take(i as int).lemma_filter_push(players@[i as int], f); }
                    if players[i].0 != client {
                        let line = teammate_line(&players[i]);
                        push_line(&mut lines, line);
                        assert(players@.take(i + 1).filter(f) == before.push(players@[i as int]));
                        assert(before.push(players@[i as int]).map_values(g) =~= before.map_values(g).push(
                            g(players@[i as int]),
                        ));
                    } else {
                        assert(players@.take(i + 1).filter(f) == before);
                    }
                    i = i + 1;
                }
                assert(players@.take(i as int) =~= players@);
                let ghost listed = string_views(lines@);
                let blank = String::new();
                assert(blank@ == ""@);
                push_line(&mut lines, blank);
                assert(string_views(lines@) =~= with_block + (players@.filter(f).map_values(g) + seq![""@]));
            }
            assert(string_views(lines@) =~= top + spec_state_lines(state, players@, client));
        },
    }
    assert(string_views(lines@) =~= top + spec_state_lines(state, players@, client));
    let ghost middle = string_views(lines@);
    if let Some((found, total)) = secrets {
        let mut line = String::from_str("secrets: ");
        push_decimal(&mut line, found as u64);
        line.append("/");
        push_decimal(&mut line, total as u64);
        push_line(&mut lines, line);
    }
    assert(string_views(lines@) =~= middle + match secrets {
        Some((found, total)) => seq![
            "secrets: "@ + spec_decimal(found as nat) + "/"@ + spec_decimal(total as nat),
        ],
        None => Seq::<Seq<char>>::empty(),
    });
    push_line(&mut lines, String::from_str("§emc.hypixel.net"));
    assert(string_views(lines@) =~= spec_sidebar(
        date@,
        time@,
        room_id@,
        now_millis as int,
        state,
        players@,
        client,
        secrets,
    ));
    lines
}

} // verus!
