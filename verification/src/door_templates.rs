use vstd::prelude::*;
use rand::rngs::StdRng;
use vstd::string::StringSliceAdditionalSpecFns;

use crate::block_data::{hex_group, spec_hex_group};
use crate::door::{door_in_range, spec_fill_regions, spec_template_block_position, Door, DoorBlock, DoorType};
use crate::geometry::BlockPos;
use crate::rng::choose_index;

verus! {

/// The block states of one line of the door template file, read from byte
/// `at`: four hexadecimal digits per block, up to the line's last byte, which
/// is left out (it is the line's carriage return).
pub open spec fn spec_line_groups(l: Seq<u8>, at: int) -> Option<Seq<u16>>
    decreases l.len() - at,
{
    if at < 0 || at >= l.len() - 1 {
        Some(seq![])
    } else if at + 4 > l.len() {
        None
    } else {
        match (spec_hex_group(l, at), spec_line_groups(l, at + 4)) {
            (Some(v), Some(rest)) => Some(seq![v] + rest),
            _ => None,
        }
    }
}

/// One template: the states of an empty line cannot be read.
pub open spec fn spec_template_line(l: Seq<u8>) -> Option<Seq<u16>> {
    if l.len() == 0 {
        None
    } else {
        spec_line_groups(l, 0)
    }
}

/// The templates of the lines of `b`, split at each newline byte, from the
/// line that starts at `start` and has been scanned up to `i`.
pub open spec fn spec_template_lines(b: Seq<u8>, start: int, i: int) -> Option<Seq<Seq<u16>>>
    decreases b.len() - i,
{
    if i >= b.len() || i < start || start < 0 {
        match spec_template_line(b.subrange(start, b.len() as int)) {
            Some(g) => Some(seq![g]),
            None => None,
        }
    } else if b[i] == 10 {
        match (spec_template_line(b.subrange(start, i)), spec_template_lines(b, i + 1, i + 1)) {
            (Some(g), Some(rest)) => Some(seq![g] + rest),
            _ => None,
        }
    } else {
        spec_template_lines(b, start, i + 1)
    }
}

pub open spec fn rows(v: Seq<Vec<u16>>) -> Seq<Seq<u16>> {
    v.map_values(|t: Vec<u16>| t@)
}

pub open spec fn prepend_rows(done: Seq<Seq<u16>>, rest: Option<Seq<Seq<u16>>>) -> Option<Seq<Seq<u16>>> {
    match rest {
        Some(r) => Some(done + r),
        None => None,
    }
}

/// The block templates that doors are built from, by the kind of template.
#[derive(Clone, Debug)]
pub struct DoorTemplates {
    pub blood: Vec<Vec<u16>>,
    pub entrance: Vec<Vec<u16>>,
    pub normal: Vec<Vec<u16>>,
}

fn parse_line(b: &[u8], start: usize, end: usize) -> (r: Option<Vec<u16>>)
    requires
        start <= end <= b@.len(),
    ensures
        match spec_template_line(b@.subrange(start as int, end as int)) {
            Some(g) => r matches Some(v) && v@ == g,
            None => r is None,
        },
{
    let ghost l = b@.subrange(start as int, end as int);
    if start == end {
        return None;
    }
    let mut groups: Vec<u16> = Vec::new();
    let mut at: usize = 0;
    let len = end - start;
    assert(Seq::<u16>::empty() + spec_line_groups(l, 0)->Some_0 =~= spec_line_groups(l, 0)->Some_0);
    while at < len - 1
        invariant
            start < end <= b@.len(),
            len == end - start,
            l == b@.subrange(start as int, end as int),
            at % 4 == 0,
            at <= len + 3,
            spec_line_groups(l, 0) == (match spec_line_groups(l, at as int) {
                Some(rest) => Some(groups@ + rest),
                None => None::<Seq<u16>>,
            }),
        decreases len + 3 - at,
    {
        if len - at < 4 {
            return None;
        }
        assert(spec_hex_group(l, at as int) == spec_hex_group(b@, start + at)) by {
            assert(l[at as int] == b@[start + at]);
            assert(l[at + 1] == b@[start + at + 1]);
            assert(l[at + 2] == b@[start + at + 2]);
            assert(l[at + 3] == b@[start + at + 3]);
        }
        let v = match hex_group(b, start + at) {
            Some(v) => v,
            None => {
                return None;
            },
        };
        proof {
            match spec_line_groups(l, at + 4) {
                Some(rest) => {
                    assert(groups@.push(v) + rest =~= groups@ + (seq![v] + rest));
                },
                None => {},
            }
        }
        groups.push(v);
        at = at + 4;
    }
    assert(groups@ + Seq::<u16>::empty() =~= groups@);
    Some(groups)
}

/// The door templates that a template file holds: a template per line, the
/// first for blood doors, the second for entrance doors and the second to
/// eighth for normal (and wither) doors. `None` when a line cannot be read or
/// there are fewer than eight lines.
pub fn parse_door_templates(text: &str) -> (r: Option<DoorTemplates>)
    ensures
        match spec_template_lines(text.spec_bytes(), 0, 0) {
            Some(lines) => if lines.len() >= 8 {
                r matches Some(t) && rows(t.blood@) == seq![lines[0]] && rows(t.entrance@) == seq![
                    lines[1],
                ] && rows(t.normal@) == lines.subrange(1, 8)
            } else {
                r is None
            },
            None => r is None,
        },
{
    let bytes = text.as_bytes();
    let ghost b = text.spec_bytes();
    let mut lines: Vec<Vec<u16>> = Vec::new();
    let mut start: usize = 0;
    let mut i: usize = 0;
    while i < bytes.len()
        invariant
            bytes@ == b,
            b == text.spec_bytes(),
            start <= i <= b.len(),
            spec_template_lines(b, 0, 0) == prepend_rows(rows(lines@), spec_template_lines(b, start as int, i as int)),
        decreases b.len() - i,
    {
        if bytes[i] == 10 {
            match parse_line(bytes, start, i) {
                None => {
                    assert(spec_template_lines(b, start as int, i as int) is None);
                    return None;
                },
                Some(g) => {
                    proof {
                        match spec_template_lines(b, i + 1, i + 1) {
                            Some(rest) => {
                                assert(rows(lines@.push(g)) =~= rows(lines@).push(g@));
                                assert(rows(lines@.push(g)) + rest =~= rows(lines@) + (seq![g@] + rest));
                            },
                            None => {},
                        }
                    }
                    lines.push(g);
                    start = i + 1;
                },
            }
        }
        i = i + 1;
    }
    let last = match parse_line(bytes, start, bytes.len()) {
        None => {
            return None;
        },
        Some(g) => g,
    };
    proof {
        assert(rows(lines@.push(last)) =~= rows(lines@) + seq![last@]);
    }
    lines.push(last);
    let ghost all = rows(lines@);
    assert(spec_template_lines(b, 0, 0) == Some(all));
    if lines.len() < 8 {
        return None;
    }
    let first = lines[0].clone();
    let second = lines[1].clone();
    assert(first@ =~= lines@[0]@);
    assert(second@ =~= lines@[1]@);
    let blood = vec![first];
    let entrance = vec![second];
    let mut normal: Vec<Vec<u16>> = Vec::new();
    let mut k: usize = 1;
    while k < 8
        invariant
            1 <= k <= 8,
            lines@.len() >= 8,
            all == rows(lines@),
            rows(normal@) == all.subrange(1, k as int),
        decreases 8 - k,
    {
        let t = lines[k].clone();
        proof {
            assert(t@ =~= lines@[k as int]@);
            assert(all[k as int] == lines@[k as int]@);
            assert(rows(normal@.push(t)) =~= rows(normal@).push(t@));
            assert(rows(normal@.push(t)) =~= all.subrange(1, k + 1));
        }
        normal.push(t);
        k = k + 1;
    }
    proof {
        assert(rows(blood@) =~= seq![all[0]]);
        assert(rows(entrance@) =~= seq![all[1]]);
    }
    Some(DoorTemplates { blood, entrance, normal })
}

impl DoorTemplates {
    /// The templates that a door of this type is built from: a wither door is
    /// built as a normal door.
    pub fn templates_for(&self, door_type: DoorType) -> (r: &Vec<Vec<u16>>)
        ensures
            *r == match door_type {
                DoorType::Blood => self.blood,
                DoorType::Entrance => self.entrance,
                _ => self.normal,
            },
    {
        match door_type {
            DoorType::Blood => &self.blood,
            DoorType::Entrance => &self.entrance,
            DoorType::Wither | DoorType::Normal => &self.normal,
        }
    }

    /// Picks the template for `door` at random among those of its type:
    /// `None` when there is none, else the index of one.
    pub fn choose_template(&self, door: &Door, rng: &mut StdRng) -> (r: Option<usize>)
        ensures
            r is None <==> self.templates_for_spec(door.door_type).len() == 0,
            r matches Some(i) ==> i < self.templates_for_spec(door.door_type).len(),
    {
        let count = self.templates_for(door.door_type).len();
        let mut indices: Vec<usize> = Vec::new();
        let mut i: usize = 0;
        while i < count
            invariant
                i <= count,
                indices@ == Seq::new(i as nat, |k: int| k as usize),
            decreases count - i,
        {
            indices.push(i);
            i = i + 1;
            assert(indices@ =~= Seq::new(i as nat, |k: int| k as usize));
        }
        let r = choose_index(&indices, rng);
        proof {
            if let Some(c) = r {
                let k = indices@.index_of(c);
                assert(indices@[k] == c);
            }
        }
        r
    }

    pub open spec fn templates_for_spec(&self, door_type: DoorType) -> Seq<Vec<u16>> {
        match door_type {
            DoorType::Blood => self.blood@,
            DoorType::Entrance => self.entrance@,
            _ => self.normal@,
        }
    }
}

/// Where each block of a door's template goes, with its state: block `i` at
/// the template position `i` of the door.
pub fn template_placements(door: &Door, template: &Vec<u16>) -> (r: Vec<(BlockPos, u16)>)
    requires
        door_in_range(door.x, door.z),
        template@.len() < 0x1000_0000,
    ensures
        r@.len() == template@.len(),
        forall|i: int|
            0 <= i < r@.len() ==> #[trigger] r@[i] == (spec_template_block_position(*door, i), template@[i]),
{
    let mut r: Vec<(BlockPos, u16)> = Vec::new();
    let mut i: usize = 0;
    while i < template.len()
        invariant
            i <= template@.len(),
            template@.len() < 0x1000_0000,
            door_in_range(door.x, door.z),
            r@.len() == i,
            forall|k: int|
                0 <= k < i ==> #[trigger] r@[k] == (spec_template_block_position(*door, k), template@[k]),
        decreases template@.len() - i,
    {
        r.push((door.template_block_position(i), template[i]));
        i = i + 1;
    }
    r
}

/// A write into the world: a box filled with a door block, or one block set
/// to a block state.
#[derive(Clone, Copy, Debug, PartialEq, Eq, Structural)]
pub enum DoorWrite {
    Fill { from: BlockPos, to: BlockPos, block: DoorBlock },
    Place { position: BlockPos, state: u16 },
}

pub open spec fn fill_write(f: (BlockPos, BlockPos, DoorBlock)) -> DoorWrite {
    DoorWrite::Fill { from: f.0, to: f.1, block: f.2 }
}

/// The writes of loading `door` with `template`: its floor, strip and air,
/// then the template's blocks, then the door's own blocks over its inner part.
pub open spec fn spec_door_writes(door: Door, template: Seq<u16>) -> Seq<DoorWrite> {
    let f = spec_fill_regions(door);
    seq![fill_write(f[0]), fill_write(f[1]), fill_write(f[2])] + Seq::new(
        template.len(),
        |i: int| DoorWrite::Place { position: spec_template_block_position(door, i), state: template[i] },
    ) + seq![fill_write(f[3])]
}

impl Door {
    /// Loads the door into the world with one of the templates of its type,
    /// picked at random: gives the template's index and the writes, in order.
    pub fn load_into_world(&self, templates: &DoorTemplates, rng: &mut StdRng) -> (r: (usize, Vec<DoorWrite>))
        requires
            door_in_range(self.x, self.z),
            templates.templates_for_spec(self.door_type).len() > 0,
            forall|i: int|
                0 <= i < templates.templates_for_spec(self.door_type).len() ==> (#[trigger] templates.templates_for_spec(
                    self.door_type,
                )[i])@.len() < 0x1000_0000,
        ensures
            r.0 < templates.templates_for_spec(self.door_type).len(),
            r.1@ == spec_door_writes(*self, templates.templates_for_spec(self.door_type)[r.0 as int]@),
    {
        let index = match templates.choose_template(self, rng) {
            Some(i) => i,
            None => {
                return (0, Vec::new());
            },
        };
        let list = templates.templates_for(self.door_type);
        let template = &list[index];
        let fills = self.fill_regions();
        let mut writes: Vec<DoorWrite> = Vec::new();
        writes.push(DoorWrite::Fill { from: fills[0].0, to: fills[0].1, block: fills[0].2 });
        writes.push(DoorWrite::Fill { from: fills[1].0, to: fills[1].1, block: fills[1].2 });
        writes.push(DoorWrite::Fill { from: fills[2].0, to: fills[2].1, block: fills[2].2 });
        let placements = template_placements(self, template);
        let mut i: usize = 0;
        while i < placements.len()
            invariant
                i <= placements@.len(),
                placements@.len() == template@.len(),
                forall|k: int|
                    0 <= k < placements@.len() ==> #[trigger] placements@[k] == (
                        spec_template_block_position(*self, k),
                        template@[k],
                    ),
                fills@ == spec_fill_regions(*self),
                writes@.len() == 3 + i,
                writes@.take(3) == seq![fill_write(fills@[0]), fill_write(fills@[1]), fill_write(fills@[2])],
                forall|k: int|
                    0 <= k < i ==> #[trigger] writes@[3 + k] == (DoorWrite::Place {
                        position: spec_template_block_position(*self, k),
                        state: template@[k],
                    }),
            decreases placements@.len() - i,
        {
            let (position, state) = placements[i];
            writes.push(DoorWrite::Place { position, state });
            i = i + 1;
        }
        let ghost middle = writes@;
        writes.push(DoorWrite::Fill { from: fills[3].0, to: fills[3].1, block: fills[3].2 });
        proof {
            let s = spec_door_writes(*self, template@);
            let n = template@.len() as int;
            assert(s.len() == writes@.len());
            assert forall|k: int| 0 <= k < s.len() implies writes@[k] == s[k] by {
                if k < 3 {
                    assert(middle.take(3)[k] == middle[k]);
                    assert(writes@[k] == middle[k]);
                } else if k < 3 + n {
                    assert(writes@[k] == middle[3 + (k - 3)]);
                } else {
                    assert(k == 3 + n);
                }
            }
            assert(writes@ =~= s);
        }
        (index, writes)
    }
}

} // verus!
