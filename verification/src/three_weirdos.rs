use vstd::prelude::*;
use vstd::string::StringExecFns;
use std::collections::HashMap;
use rand::rngs::StdRng;

use crate::geometry::{pos_in_range, BlockPos};
use crate::rng::{choose_distinct, choose_index, shuffle};
use crate::room::{spec_relative_to_world, Room, RoomStatus};

verus! {

/// How many names the weirdos can be given.
pub const WEIRDO_NAME_COUNT: usize = 21;

/// How many sets of sayings there are.
pub const DIALOGUE_COUNT: usize = 6;

pub open spec fn spec_weirdo_name(i: int) -> Seq<char> {
    if i == 0 {
        "§cArdis"@
    } else if i == 1 {
        "§cBaxter"@
    } else if i == 2 {
        "§cBenson"@
    } else if i == 3 {
        "§cCarver"@
    } else if i == 4 {
        "§cElmo"@
    } else if i == 5 {
        "§cEveleth"@
    } else if i == 6 {
        "§cHope"@
    } else if i == 7 {
        "§cHugo"@
    } else if i == 8 {
        "§cLino"@
    } else if i == 9 {
        "§cLuverne"@
    } else if i == 10 {
        "§cMadelia"@
    } else if i == 11 {
        "§cMarshall"@
    } else if i == 12 {
        "§cMelrose"@
    } else if i == 13 {
        "§cMontgomery"@
    } else if i == 14 {
        "§cMorris"@
    } else if i == 15 {
        "§cRamsey"@
    } else if i == 16 {
        "§cRose"@
    } else if i == 17 {
        "§cVictoria"@
    } else if i == 18 {
        "§cVirginia"@
    } else if i == 19 {
        "§cWillmar"@
    } else {
        "§cWinona"@
    }
}

/// The name of weirdo `i` of the list.
pub fn weirdo_name(i: usize) -> (r: &'static str)
    requires
        i < WEIRDO_NAME_COUNT,
    ensures
        r@ == spec_weirdo_name(i as int),
{
    proof {
        reveal_strlit("§cArdis");
        reveal_strlit("§cBaxter");
        reveal_strlit("§cBenson");
        reveal_strlit("§cCarver");
        reveal_strlit("§cElmo");
        reveal_strlit("§cEveleth");
        reveal_strlit("§cHope");
        reveal_strlit("§cHugo");
        reveal_strlit("§cLino");
        reveal_strlit("§cLuverne");
        reveal_strlit("§cMadelia");
        reveal_strlit("§cMarshall");
        reveal_strlit("§cMelrose");
        reveal_strlit("§cMontgomery");
        reveal_strlit("§cMorris");
        reveal_strlit("§cRamsey");
        reveal_strlit("§cRose");
        reveal_strlit("§cVictoria");
        reveal_strlit("§cVirginia");
        reveal_strlit("§cWillmar");
        reveal_strlit("§cWinona");
    }
    if i == 0 {
        "§cArdis"
    } else if i == 1 {
        "§cBaxter"
    } else if i == 2 {
        "§cBenson"
    } else if i == 3 {
        "§cCarver"
    } else if i == 4 {
        "§cElmo"
    } else if i == 5 {
        "§cEveleth"
    } else if i == 6 {
        "§cHope"
    } else if i == 7 {
        "§cHugo"
    } else if i == 8 {
        "§cLino"
    } else if i == 9 {
        "§cLuverne"
    } else if i == 10 {
        "§cMadelia"
    } else if i == 11 {
        "§cMarshall"
    } else if i == 12 {
        "§cMelrose"
    } else if i == 13 {
        "§cMontgomery"
    } else if i == 14 {
        "§cMorris"
    } else if i == 15 {
        "§cRamsey"
    } else if i == 16 {
        "§cRose"
    } else if i == 17 {
        "§cVictoria"
    } else if i == 18 {
        "§cVirginia"
    } else if i == 19 {
        "§cWillmar"
    } else {
        "§cWinona"
    }
}

/// What weirdo `speaker` says in set `d`, after `§e[NPC] §c` and its own
/// name: a text, and possibly another weirdo's name followed by more text.
pub open spec fn spec_template(d: int, speaker: int) -> (Seq<char>, Option<(int, Seq<char>)>) {
    if d == 0 && speaker == 0 {
        ("§r: The reward is not in my chest!"@, None)
    } else if d == 0 && speaker == 1 {
        ("§r: One of us is telling the truth!"@, None)
    } else if d == 0 && speaker == 2 {
        ("§r: They are both telling the truth. The reward isn't in §c"@, Some((0, "'s§r chest."@)))
    } else if d == 1 && speaker == 0 {
        ("§r: The reward isn't in any of our chests."@, None)
    } else if d == 1 && speaker == 1 {
        ("§r: The reward is not in my chest. They are both lying."@, None)
    } else if d == 1 && speaker == 2 {
        ("§r: The reward is in my chest!"@, None)
    } else if d == 2 && speaker == 0 {
        ("§r: My chest doesn't have the reward. We are all telling the truth."@, None)
    } else if d == 2 && speaker == 1 {
        ("§r: My chest doesn't have the reward. At least one of the others is telling the truth!"@, None)
    } else if d == 2 && speaker == 2 {
        ("§r: One of the others is lying!"@, None)
    } else if d == 3 && speaker == 0 {
        ("§r: My chest has the reward and I'm telling the truth!"@, None)
    } else if d == 3 && speaker == 1 {
        ("§r: They are both lying, the reward is in my chest!"@, None)
    } else if d == 3 && speaker == 2 {
        ("§r: They are both telling the truth, the reward is in §c"@, Some((1, "'s§r chest!"@)))
    } else if d == 4 && speaker == 0 {
        ("§r: At least one of them is lying, and the reward is not in §c"@, Some((2, "'s§r chest!"@)))
    } else if d == 4 && speaker == 1 {
        ("§r: We are all telling the truth!"@, None)
    } else if d == 4 && speaker == 2 {
        ("§r: §c"@, Some((1, "§r is telling the truth and the reward is in his chest."@)))
    } else if d == 5 && speaker == 0 {
        ("§r: Both of them are telling the truth. Also, §c"@, Some((1, "§r has the reward in their chest!"@)))
    } else if d == 5 && speaker == 1 {
        ("§r: §c"@, Some((2, "§r is telling the truth."@)))
    } else {
        ("§r: My chest has the reward!"@, None)
    }
}

fn template(d: usize, speaker: usize) -> (r: (&'static str, Option<(usize, &'static str)>))
    requires
        d < DIALOGUE_COUNT,
        speaker < 3,
    ensures
        r.0@ == spec_template(d as int, speaker as int).0,
        match spec_template(d as int, speaker as int).1 {
            Some((k, b)) => r.1 matches Some((k2, b2)) && k2 == k && b2@ == b,
            None => r.1 is None,
        },
{
    proof {
        reveal_strlit("'s§r chest!");
        reveal_strlit("'s§r chest.");
        reveal_strlit("§r has the reward in their chest!");
        reveal_strlit("§r is telling the truth and the reward is in his chest.");
        reveal_strlit("§r is telling the truth.");
        reveal_strlit("§r: At least one of them is lying, and the reward is not in §c");
        reveal_strlit("§r: Both of them are telling the truth. Also, §c");
        reveal_strlit("§r: My chest doesn't have the reward. At least one of the others is telling the truth!");
        reveal_strlit("§r: My chest doesn't have the reward. We are all telling the truth.");
        reveal_strlit("§r: My chest has the reward and I'm telling the truth!");
        reveal_strlit("§r: My chest has the reward!");
        reveal_strlit("§r: One of the others is lying!");
        reveal_strlit("§r: One of us is telling the truth!");
        reveal_strlit("§r: The reward is in my chest!");
        reveal_strlit("§r: The reward is not in my chest!");
        reveal_strlit("§r: The reward is not in my chest. They are both lying.");
        reveal_strlit("§r: The reward isn't in any of our chests.");
        reveal_strlit("§r: They are both lying, the reward is in my chest!");
        reveal_strlit("§r: They are both telling the truth, the reward is in §c");
        reveal_strlit("§r: They are both telling the truth. The reward isn't in §c");
        reveal_strlit("§r: We are all telling the truth!");
        reveal_strlit("§r: §c");
    }
    if d == 0 && speaker == 0 {
        ("§r: The reward is not in my chest!", None)
    } else if d == 0 && speaker == 1 {
        ("§r: One of us is telling the truth!", None)
    } else if d == 0 && speaker == 2 {
        ("§r: They are both telling the truth. The reward isn't in §c", Some((0, "'s§r chest.")))
    } else if d == 1 && speaker == 0 {
        ("§r: The reward isn't in any of our chests.", None)
    } else if d == 1 && speaker == 1 {
        ("§r: The reward is not in my chest. They are both lying.", None)
    } else if d == 1 && speaker == 2 {
        ("§r: The reward is in my chest!", None)
    } else if d == 2 && speaker == 0 {
        ("§r: My chest doesn't have the reward. We are all telling the truth.", None)
    } else if d == 2 && speaker == 1 {
        ("§r: My chest doesn't have the reward. At least one of the others is telling the truth!", None)
    } else if d == 2 && speaker == 2 {
        ("§r: One of the others is lying!", None)
    } else if d == 3 && speaker == 0 {
        ("§r: My chest has the reward and I'm telling the truth!", None)
    } else if d == 3 && speaker == 1 {
        ("§r: They are both lying, the reward is in my chest!", None)
    } else if d == 3 && speaker == 2 {
        ("§r: They are both telling the truth, the reward is in §c", Some((1, "'s§r chest!")))
    } else if d == 4 && speaker == 0 {
        ("§r: At least one of them is lying, and the reward is not in §c", Some((2, "'s§r chest!")))
    } else if d == 4 && speaker == 1 {
        ("§r: We are all telling the truth!", None)
    } else if d == 4 && speaker == 2 {
        ("§r: §c", Some((1, "§r is telling the truth and the reward is in his chest.")))
    } else if d == 5 && speaker == 0 {
        ("§r: Both of them are telling the truth. Also, §c", Some((1, "§r has the reward in their chest!")))
    } else if d == 5 && speaker == 1 {
        ("§r: §c", Some((2, "§r is telling the truth.")))
    } else {
        ("§r: My chest has the reward!", None)
    }
}

pub open spec fn spec_finished_ending(k: int) -> Seq<char> {
    if k == 0 {
        "§f: You're free to leave.§7"@
    } else if k == 1 {
        "§f: You can leave now! Bye!§7"@
    } else if k == 2 {
        "§f: Thanks for playing! Now get out!§7"@
    } else {
        "§f: Scram!§7"@
    }
}

fn finished_ending(k: usize) -> (r: &'static str)
    requires
        k < 4,
    ensures
        r@ == spec_finished_ending(k as int),
{
    proof {
        reveal_strlit("§f: You're free to leave.§7");
        reveal_strlit("§f: You can leave now! Bye!§7");
        reveal_strlit("§f: Thanks for playing! Now get out!§7");
        reveal_strlit("§f: Scram!§7");
    }
    if k == 0 {
        "§f: You're free to leave.§7"
    } else if k == 1 {
        "§f: You can leave now! Bye!§7"
    } else if k == 2 {
        "§f: Thanks for playing! Now get out!§7"
    } else {
        "§f: Scram!§7"
    }
}

/// The names of the speakers of a set of sayings, from the names picked.
pub open spec fn picked_names(chosen: Seq<usize>) -> Seq<Seq<char>> {
    chosen.map_values(|i: usize| spec_weirdo_name(i as int))
}

/// What weirdo `speaker` of set `d` says, with the picked names filled in.
pub open spec fn spec_dialogue(d: int, speaker: int, names: Seq<Seq<char>>) -> Seq<char> {
    let t = spec_template(d, speaker);
    "§e[NPC] §c"@ + names[speaker] + t.0 + match t.1 {
        Some((k, b)) => names[k] + b,
        None => seq![],
    }
}

/// A valid pick: three different names of the list, a set of sayings, and an
/// order of the three speakers over the three places.
pub open spec fn valid_pick(chosen: Seq<usize>, d: int, order: Seq<usize>) -> bool {
    &&& chosen.len() == 3
    &&& chosen.no_duplicates()
    &&& forall|i: int| 0 <= i < 3 ==> #[trigger] chosen[i] < WEIRDO_NAME_COUNT
    &&& 0 <= d < DIALOGUE_COUNT
    &&& order.len() == 3
    &&& order.no_duplicates()
    &&& forall|i: int| 0 <= i < 3 ==> #[trigger] order[i] < 3
}

/// The three weirdos puzzle: three weirdos stand before three chests, each
/// says something, and the player must open the one chest with the reward.
pub struct ThreeWeirdosPuzzle {
    /// Which weirdos each player has talked to.
    pub clicked_weirdos: HashMap<u64, [bool; 3]>,
    pub has_clicked_any_chest: bool,
    /// The name of the weirdo at each place.
    pub names: Vec<String>,
    /// What the weirdo at each place says.
    pub dialogues: Vec<String>,
    /// The place whose chest has the reward.
    pub correct_index: usize,
}

/// `p` is the puzzle set up from this pick, before anyone played.
pub open spec fn arranged_as(p: ThreeWeirdosPuzzle, chosen: Seq<usize>, d: int, order: Seq<usize>) -> bool {
    let names = picked_names(chosen);
    &&& p.names@.len() == 3
    &&& p.dialogues@.len() == 3
    &&& forall|i: int|
        0 <= i < 3 ==> (#[trigger] p.names@[i])@ == names[order[i] as int]
            && p.dialogues@[i]@ == spec_dialogue(d, order[i] as int, names)
    &&& p.correct_index < 3
    &&& order[p.correct_index as int] == 0
    &&& p.clicked_weirdos@ == Map::<u64, [bool; 3]>::empty()
    &&& !p.has_clicked_any_chest
}

fn dialogue(d: usize, speaker: usize, chosen: &Vec<usize>) -> (r: String)
    requires
        d < DIALOGUE_COUNT,
        speaker < 3,
        chosen@.len() == 3,
        forall|i: int| 0 <= i < 3 ==> #[trigger] chosen@[i] < WEIRDO_NAME_COUNT,
    ensures
        r@ == spec_dialogue(d as int, speaker as int, picked_names(chosen@)),
{
    proof {
        reveal_strlit("§e[NPC] §c");
    }
    let (a, reference) = template(d, speaker);
    let mut r = String::from_str("§e[NPC] §c");
    r.append(weirdo_name(chosen[speaker]));
    r.append(a);
    match reference {
        Some((k, b)) => {
            r.append(weirdo_name(chosen[k]));
            r.append(b);
        },
        None => {},
    }
    assert(r@ =~= spec_dialogue(d as int, speaker as int, picked_names(chosen@)));
    r
}

impl ThreeWeirdosPuzzle {
    /// Sets the puzzle up from a pick of names, sayings and order: the weirdo
    /// at place `i` is speaker `order[i]` of the sayings, and the reward is in
    /// the chest of the place of the first speaker.
    pub fn arrange(chosen: &Vec<usize>, d: usize, order: &Vec<usize>) -> (r: ThreeWeirdosPuzzle)
        requires
            valid_pick(chosen@, d as int, order@),
        ensures
            arranged_as(r, chosen@, d as int, order@),
    {
        let mut names: Vec<String> = Vec::new();
        let mut dialogues: Vec<String> = Vec::new();
        let mut correct_index: usize = 0;
        let mut index: usize = 0;
        while index < 3
            invariant
                index <= 3,
                valid_pick(chosen@, d as int, order@),
                names@.len() == index,
                dialogues@.len() == index,
                forall|i: int|
                    0 <= i < index ==> (#[trigger] names@[i])@ == picked_names(chosen@)[order@[i] as int]
                        && dialogues@[i]@ == spec_dialogue(d as int, order@[i] as int, picked_names(chosen@)),
                correct_index < 3,
                (exists|i: int| 0 <= i < index && order@[i] == 0) ==> order@[correct_index as int] == 0,
            decreases 3 - index,
        {
            let shuffled_index = order[index];
            let ghost names_before = names@;
            let ghost dialogues_before = dialogues@;
            let name = String::from_str(weirdo_name(chosen[shuffled_index]));
            assert(name@ == picked_names(chosen@)[shuffled_index as int]);
            names.push(name);
            dialogues.push(dialogue(d, shuffled_index, chosen));
            assert forall|i: int|
                0 <= i < index + 1 implies (#[trigger] names@[i])@ == picked_names(chosen@)[order@[i] as int]
                    && dialogues@[i]@ == spec_dialogue(d as int, order@[i] as int, picked_names(chosen@)) by {
                if i < index {
                    assert(names@[i] == names_before[i]);
                    assert(dialogues@[i] == dialogues_before[i]);
                }
            }
            if shuffled_index == 0 {
                correct_index = index;
            }
            index = index + 1;
        }
        proof {
            // the order is a permutation of the three speakers, so speaker 0 has a place
            assert(order@.contains(0)) by {
                if !order@.contains(0) {
                    assert(forall|i: int| 0 <= i < 3 ==> 1 <= #[trigger] order@[i] < 3);
                    assert(order@[0] != order@[1] && order@[0] != order@[2] && order@[1] != order@[2]);
                }
            }
            let i = choose|i: int| 0 <= i < order@.len() && order@[i] == 0;
            assert(0 <= i < 3 && order@[i] == 0);
            assert(order@[correct_index as int] == 0);
        }
        let clicked_weirdos = HashMap::new();
        assert(clicked_weirdos@ == Map::<u64, [bool; 3]>::empty());
        ThreeWeirdosPuzzle {
            clicked_weirdos,
            has_clicked_any_chest: false,
            names,
            dialogues,
            correct_index,
        }
    }

    /// A puzzle with three different names, a set of sayings and an order of
    /// the speakers picked at random.
    pub fn new(rng: &mut StdRng) -> (r: ThreeWeirdosPuzzle)
        ensures
            exists|chosen: Seq<usize>, d: int, order: Seq<usize>|
                valid_pick(chosen, d, order) && #[trigger] arranged_as(r, chosen, d, order),
    {
        let mut all_names: Vec<usize> = Vec::new();
        let mut i: usize = 0;
        while i < WEIRDO_NAME_COUNT
            invariant
                i <= WEIRDO_NAME_COUNT,
                all_names@.len() == i,
                forall|k: int| 0 <= k < i ==> #[trigger] all_names@[k] == k,
            decreases WEIRDO_NAME_COUNT - i,
        {
            all_names.push(i);
            i = i + 1;
        }
        assert(all_names@.no_duplicates());
        let chosen = choose_distinct(&all_names, 3, rng);
        let mut all_sets: Vec<usize> = Vec::new();
        let mut i: usize = 0;
        while i < DIALOGUE_COUNT
            invariant
                i <= DIALOGUE_COUNT,
                all_sets@.len() == i,
                forall|k: int| 0 <= k < i ==> #[trigger] all_sets@[k] == k,
            decreases DIALOGUE_COUNT - i,
        {
            all_sets.push(i);
            i = i + 1;
        }
        let d = match choose_index(&all_sets, rng) {
            Some(d) => d,
            None => 0,
        };
        let mut order: Vec<usize> = vec![0, 1, 2];
        let ghost unshuffled = order@;
        shuffle(&mut order, rng);
        proof {
            assert forall|k: int| 0 <= k < 3 implies #[trigger] chosen@[k] < WEIRDO_NAME_COUNT by {
                assert(all_names@.contains(chosen@[k]));
            }
            assert(unshuffled =~= seq![0usize, 1usize, 2usize]);
            assert(unshuffled.no_duplicates());
            assert forall|k: int| 0 <= k < 3 implies #[trigger] order@[k] < 3 by {
                assert(order@.contains(order@[k]));
                vstd::seq_lib::to_multiset_contains(order@, order@[k]);
                vstd::seq_lib::to_multiset_contains(unshuffled, order@[k]);
            }
            assert(order@.no_duplicates()) by {
                assert forall|a: int, b: int| 0 <= a < b < 3 implies order@[a] != order@[b] by {
                    if order@[a] == order@[b] {
                        // a value met twice in the order would be met twice before shuffling
                        let v = order@[a];
                        assert(order@ =~= seq![order@[0], order@[1], order@[2]]);
                        assert(order@.to_multiset().count(v) >= 2) by {
                            broadcast use vstd::seq_lib::group_to_multiset_ensures;
                            broadcast use vstd::multiset::group_multiset_axioms;
                            assert(order@ =~= seq![order@[0]].push(order@[1]).push(order@[2]));
                            assert(seq![order@[0]] =~= Seq::<usize>::empty().push(order@[0]));
                        }
                        assert(unshuffled.to_multiset().count(v) <= 1) by {
                            broadcast use vstd::seq_lib::group_to_multiset_ensures;
                            broadcast use vstd::multiset::group_multiset_axioms;
                            assert(unshuffled =~= Seq::<usize>::empty().push(0usize).push(1usize).push(2usize));
                        }
                    }
                }
            }
        }
        let r = ThreeWeirdosPuzzle::arrange(&chosen, d, &order);
        r
    }

    pub open spec fn wf(&self) -> bool {
        &&& self.names@.len() == 3
        &&& self.dialogues@.len() == 3
        &&& self.correct_index < 3
    }

    /// A player talks to the weirdo at place `index`: it is marked as talked
    /// to, and the weirdo says its saying, or, once a chest was opened, one of
    /// its goodbyes at random.
    pub fn interact_weirdo(&mut self, player: u64, index: usize, rng: &mut StdRng) -> (r: String)
        requires
            old(self).wf(),
            index < 3,
        ensures
            final(self).wf(),
            final(self).names@ == old(self).names@,
            final(self).dialogues@ == old(self).dialogues@,
            final(self).correct_index == old(self).correct_index,
            final(self).has_clicked_any_chest == old(self).has_clicked_any_chest,
            final(self).clicked_weirdos@.contains_key(player),
            final(self).clicked_weirdos@[player]@ == talked_to(old(self).clicked_weirdos@, player).update(
                index as int,
                true,
            ),
            final(self).clicked_weirdos@.remove(player) == old(self).clicked_weirdos@.remove(player),
            !old(self).has_clicked_any_chest ==> r@ == old(self).dialogues@[index as int]@,
            old(self).has_clicked_any_chest ==> exists|k: int|
                0 <= k < 4 && r@ == "§e[NPC] §c"@ + old(self).names@[index as int]@
                    + #[trigger] spec_finished_ending(k),
    {
        broadcast use vstd::std_specs::hash::group_hash_axioms;

        let mut talked: [bool; 3] = match self.clicked_weirdos.get(&player) {
            Some(a) => *a,
            None => [false, false, false],
        };
        assert(talked@ == talked_to(old(self).clicked_weirdos@, player));
        talked[index] = true;
        self.clicked_weirdos.insert(player, talked);
        proof {
            assert(self.clicked_weirdos@.remove(player) =~= old(self).clicked_weirdos@.remove(player));
        }
        if !self.has_clicked_any_chest {
            self.dialogues[index].clone()
        } else {
            proof {
                reveal_strlit("§e[NPC] §c");
            }
            let mut endings: Vec<usize> = Vec::new();
            endings.push(0);
            endings.push(1);
            endings.push(2);
            endings.push(3);
            let k = match choose_index(&endings, rng) {
                Some(k) => k,
                None => 0,
            };
            assert(k < 4) by {
                if k != 0 {
                    assert(endings@.contains(k));
                }
            }
            let mut r = String::from_str("§e[NPC] §c");
            r.append(self.names[index].as_str());
            r.append(finished_ending(k));
            r
        }
    }

    /// A player opens chest `chest` (`None` for a block that is no chest of
    /// the puzzle) in a room with `status`. Nothing happens once the puzzle is
    /// over, for other blocks, or for a player who talked to nobody; a player
    /// who did not talk to all three is told to; otherwise the chest of the
    /// place with the reward solves the puzzle and any other fails it.
    pub fn interact_chest(&mut self, status: RoomStatus, player: u64, chest: Option<usize>) -> (r: (
        ChestOutcome,
        RoomStatus,
    ))
        requires
            old(self).wf(),
            chest matches Some(c) ==> c < 3,
        ensures
            final(self).wf(),
            final(self).names@ == old(self).names@,
            final(self).dialogues@ == old(self).dialogues@,
            final(self).correct_index == old(self).correct_index,
            final(self).clicked_weirdos@ == old(self).clicked_weirdos@,
            r == spec_chest_click(*old(self), status, player, chest),
            final(self).has_clicked_any_chest == (old(self).has_clicked_any_chest || r.0 is Solved
                || r.0 is Fooled),
    {
        broadcast use vstd::std_specs::hash::group_hash_axioms;

        if status == RoomStatus::Complete || status == RoomStatus::Failed {
            return (ChestOutcome::Ignored, status);
        }
        let index = match chest {
            Some(c) => c,
            None => {
                return (ChestOutcome::Ignored, status);
            },
        };
        match self.clicked_weirdos.get(&player) {
            Some(talked) => {
                if !talked[0] || !talked[1] || !talked[2] {
                    return (ChestOutcome::TalkToUs, status);
                }
                let r = if self.correct_index == index {
                    (ChestOutcome::Solved { index }, RoomStatus::Complete)
                } else {
                    (ChestOutcome::Fooled { index }, RoomStatus::Failed)
                };
                self.has_clicked_any_chest = true;
                r
            },
            None => (ChestOutcome::Ignored, status),
        }
    }
}

/// The weirdos a player has talked to so far (none for a new player).
pub open spec fn talked_to(clicked: Map<u64, [bool; 3]>, player: u64) -> Seq<bool> {
    if clicked.contains_key(player) {
        clicked[player]@
    } else {
        seq![false, false, false]
    }
}

/// What opening a chest comes to.
#[derive(Clone, Copy, Debug, PartialEq, Eq, Structural)]
pub enum ChestOutcome {
    Ignored,
    /// `talk to us`: the player has not talked to all three weirdos.
    TalkToUs,
    /// The reward was in the chest at place `index`.
    Solved { index: usize },
    /// The chest at place `index` was the wrong one.
    Fooled { index: usize },
}

pub open spec fn spec_chest_click(
    p: ThreeWeirdosPuzzle,
    status: RoomStatus,
    player: u64,
    chest: Option<usize>,
) -> (ChestOutcome, RoomStatus) {
    if status == RoomStatus::Complete || status == RoomStatus::Failed {
        (ChestOutcome::Ignored, status)
    } else {
        match chest {
            None => (ChestOutcome::Ignored, status),
            Some(index) => if !p.clicked_weirdos@.contains_key(player) {
                (ChestOutcome::Ignored, status)
            } else if !(p.clicked_weirdos@[player]@[0] && p.clicked_weirdos@[player]@[1]
                && p.clicked_weirdos@[player]@[2]) {
                (ChestOutcome::TalkToUs, status)
            } else if p.correct_index == index {
                (ChestOutcome::Solved { index }, RoomStatus::Complete)
            } else {
                (ChestOutcome::Fooled { index }, RoomStatus::Failed)
            },
        }
    }
}

/// The chests of the puzzle, in the room's own frame, by place.
pub open spec fn spec_chest_position(i: int) -> BlockPos {
    if i == 0 {
        BlockPos { x: 18, y: 69, z: 24 }
    } else if i == 1 {
        BlockPos { x: 16, y: 69, z: 25 }
    } else {
        BlockPos { x: 14, y: 69, z: 24 }
    }
}

fn chest_position(i: usize) -> (r: BlockPos)
    requires
        i < 3,
    ensures
        r == spec_chest_position(i as int),
{
    if i == 0 {
        BlockPos::new(18, 69, 24)
    } else if i == 1 {
        BlockPos::new(16, 69, 25)
    } else {
        BlockPos::new(14, 69, 24)
    }
}

/// The place of the chest at world block `position` of the room, if any.
pub fn chest_at(room: &Room, position: BlockPos) -> (r: Option<usize>)
    requires
        pos_in_range(room.corner),
    ensures
        match r {
            Some(i) => i < 3 && spec_relative_to_world(room.rotation, room.corner, spec_chest_position(i as int))
                == position && forall|j: int|
                0 <= j < i ==> spec_relative_to_world(room.rotation, room.corner, #[trigger] spec_chest_position(j))
                    != position,
            None => forall|j: int|
                0 <= j < 3 ==> spec_relative_to_world(room.rotation, room.corner, #[trigger] spec_chest_position(j))
                    != position,
        },
{
    let mut i: usize = 0;
    while i < 3
        invariant
            i <= 3,
            pos_in_range(room.corner),
            forall|j: int|
                0 <= j < i ==> spec_relative_to_world(room.rotation, room.corner, #[trigger] spec_chest_position(j))
                    != position,
        decreases 3 - i,
    {
        if room.relative_to_world(chest_position(i)) == position {
            return Some(i);
        }
        i = i + 1;
    }
    None
}

/// A chest decides the puzzle only for a player who has talked to all three
/// weirdos: opening a chest in an undecided room, a player the puzzle knows
/// who has not yet heard one of them is told to talk to them and nothing
/// changes; one who has heard all three solves the puzzle at the rewarding
/// chest (the room is complete) and is fooled at any other (the room fails).
pub proof fn lemma_chest_needs_all_three(p: ThreeWeirdosPuzzle, status: RoomStatus, player: u64, index: usize)
    requires
        status != RoomStatus::Complete,
        status != RoomStatus::Failed,
        p.clicked_weirdos@.contains_key(player),
    ensures
        ({
            let r = spec_chest_click(p, status, player, Some(index));
            let heard = talked_to(p.clicked_weirdos@, player);
            let all_three = heard[0] && heard[1] && heard[2];
            &&& !all_three ==> r == (ChestOutcome::TalkToUs, status)
            &&& all_three && index == p.correct_index ==> r == (ChestOutcome::Solved { index }, RoomStatus::Complete)
            &&& all_three && index != p.correct_index ==> r == (ChestOutcome::Fooled { index }, RoomStatus::Failed)
        }),
{
}

/// Whatever is opened, a decided puzzle comes only from a player who heard
/// all three weirdos.
pub proof fn lemma_decided_only_after_all_three(
    p: ThreeWeirdosPuzzle,
    status: RoomStatus,
    player: u64,
    chest: Option<usize>,
)
    ensures
        ({
            let r = spec_chest_click(p, status, player, chest);
            let heard = talked_to(p.clicked_weirdos@, player);
            (r.0 is Solved || r.0 is Fooled) ==> heard[0] && heard[1] && heard[2]
        }),
{
}

/// The puzzle is decided by the first chest opened by a player who talked to
/// all three: after it, whoever opens whichever chest, nothing happens.
pub proof fn lemma_decided_once(
    p: ThreeWeirdosPuzzle,
    q: ThreeWeirdosPuzzle,
    status: RoomStatus,
    player: u64,
    chest: Option<usize>,
    other_player: u64,
    other_chest: Option<usize>,
)
    requires
        spec_chest_click(p, status, player, chest).0 is Solved || spec_chest_click(p, status, player, chest).0 is Fooled,
    ensures
        spec_chest_click(q, spec_chest_click(p, status, player, chest).1, other_player, other_chest) == (
            ChestOutcome::Ignored,
            spec_chest_click(p, status, player, chest).1,
        ),
{
}

/// The message everyone sees when `username` solves the puzzle by opening the
/// chest of the weirdo called `name`.
pub fn solved_message(username: &str, name: &str) -> (r: String)
    ensures
        r@ == "§aPUZZLE SOLVED! §7"@ + username@ + " §ewasn't fooled by §c"@ + name@
            + "§e! §4G§co§6o§ed §2j§bo§3b§5!"@,
{
    let mut r = String::from_str("§aPUZZLE SOLVED! §7");
    r.append(username);
    r.append(" §ewasn't fooled by §c");
    r.append(name);
    r.append("§e! §4G§co§6o§ed §2j§bo§3b§5!");
    r
}

/// What the weirdo called `name` tells the player who opened its chest wrongly.
pub fn fool_message(name: &str) -> (r: String)
    ensures
        r@ == "§e[NPC] §c"@ + name@ + "§f: You fool!"@,
{
    let mut r = String::from_str("§e[NPC] §c");
    r.append(name);
    r.append("§f: You fool!");
    r
}

/// The message everyone sees when `username` fails the puzzle at the chest of
/// the weirdo called `name`.
pub fn fail_message(username: &str, name: &str) -> (r: String)
    ensures
        r@ == "§cPUZZLE FAIL! §7"@ + username@ + " §ewas fooled by §c"@ + name@ + "§e! §4Y§ci§6k§ee§as§2!"@,
{
    let mut r = String::from_str("§cPUZZLE FAIL! §7");
    r.append(username);
    r.append(" §ewas fooled by §c");
    r.append(name);
    r.append("§e! §4Y§ci§6k§ee§as§2!");
    r
}

/// Where the weirdo of place `i` stands, in the room's own frame: each beside
/// its chest.
pub open spec fn spec_weirdo_position(i: int) -> BlockPos {
    if i == 0 {
        BlockPos { x: 17, y: 69, z: 24 }
    } else if i == 1 {
        BlockPos { x: 15, y: 69, z: 25 }
    } else {
        BlockPos { x: 13, y: 69, z: 24 }
    }
}

/// The world block where the weirdo of place `i` stands.
pub fn weirdo_block(room: &Room, i: usize) -> (r: BlockPos)
    requires
        i < 3,
        pos_in_range(room.corner),
    ensures
        r == spec_relative_to_world(room.rotation, room.corner, spec_weirdo_position(i as int)),
{
    let p = if i == 0 {
        BlockPos::new(17, 69, 24)
    } else if i == 1 {
        BlockPos::new(15, 69, 25)
    } else {
        BlockPos::new(13, 69, 24)
    };
    room.relative_to_world(p)
}

/// The world blocks of the three chests, by place (they become air when the
/// puzzle is failed).
pub fn chest_blocks(room: &Room) -> (r: Vec<BlockPos>)
    requires
        pos_in_range(room.corner),
    ensures
        r@.len() == 3,
        forall|i: int|
            0 <= i < 3 ==> #[trigger] r@[i] == spec_relative_to_world(room.rotation, room.corner, spec_chest_position(i)),
{
    let mut r: Vec<BlockPos> = Vec::new();
    let mut i: usize = 0;
    while i < 3
        invariant
            i <= 3,
            pos_in_range(room.corner),
            r@.len() == i,
            forall|k: int|
                0 <= k < i ==> #[trigger] r@[k] == spec_relative_to_world(room.rotation, room.corner, spec_chest_position(k)),
        decreases 3 - i,
    {
        r.push(room.relative_to_world(chest_position(i)));
        i = i + 1;
    }
    r
}

} // verus!
