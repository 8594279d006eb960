use vstd::prelude::*;
use vstd::string::StrSliceExecFns;
use crate::entity::{all_entities, known_code, Entity, ENTITY_COUNT};

verus! {

/// The pieces of `s` between commas, in order: one more piece than `s` has
/// commas, empty pieces included.
pub open spec fn split_commas(s: Seq<char>) -> Seq<Seq<char>>
    decreases s.len(),
{
    if s.len() == 0 {
        seq![Seq::empty()]
    } else {
        let rest = split_commas(s.drop_last());
        if s.last() == ',' {
            rest.push(Seq::empty())
        } else {
            rest.update(rest.len() - 1, rest.last().push(s.last()))
        }
    }
}

proof fn lemma_split_nonempty(s: Seq<char>)
    ensures
        split_commas(s).len() >= 1,
    decreases s.len(),
{
    if s.len() > 0 {
        lemma_split_nonempty(s.drop_last());
    }
}

/// A park as the provider lists it.
#[derive(Debug)]
pub struct Park {
    /// The codes of the states the park lies in, separated by commas.
    pub states: String,
    pub park_code: String,
    pub designation: String,
}

impl Park {
    /// The state codes of the park, split at each comma.
    pub fn get_states(&self) -> (r: Vec<&str>)
        ensures
            r@.len() == split_commas(self.states@).len(),
            forall|i: int| 0 <= i < r@.len() ==> #[trigger] r@[i]@ == split_commas(self.states@)[i],
    {
        let s = self.states.as_str();
        let n = s.unicode_len();
        let mut out: Vec<&str> = Vec::new();
        let mut start: usize = 0;
        let mut i: usize = 0;
        while i < n
            invariant
                n == s@.len(),
                s@ == self.states@,
                start <= i <= n,
                split_commas(s@.subrange(0, i as int)).len() == out@.len() + 1,
                forall|j: int| 0 <= j < out@.len() ==> #[trigger] out@[j]@ == split_commas(
                    s@.subrange(0, i as int),
                )[j],
                split_commas(s@.subrange(0, i as int)).last() == s@.subrange(start as int, i as int),
            decreases n - i,
        {
            let c = s.get_char(i);
            proof {
                let pre = s@.subrange(0, i as int + 1);
                assert(pre.drop_last() =~= s@.subrange(0, i as int));
                assert(pre.last() == c);
                lemma_split_nonempty(s@.subrange(0, i as int));
            }
            if c == ',' {
                let piece = s.substring_char(start, i);
                out.push(piece);
                start = i + 1;
                assert(s@.subrange(start as int, i as int + 1) =~= Seq::<char>::empty());
            } else {
                assert(s@.subrange(start as int, i as int + 1) =~= s@.subrange(
                    start as int,
                    i as int,
                ).push(c));
            }
            i = i + 1;
        }
        let last = s.substring_char(start, n);
        out.push(last);
        assert(s@.subrange(0, n as int) =~= s@);
        out
    }
}

/// The codes of the distinct parks that lie in the state with code `code`.
pub open spec fn parks_in(parks: Seq<Park>, code: Seq<char>) -> Set<Seq<char>> {
    Set::new(
        |pc: Seq<char>|
            exists|i: int|
                0 <= i < parks.len() && #[trigger] parks[i].park_code@ == pc && split_commas(
                    parks[i].states@,
                ).contains(code),
    )
}

/// How many distinct parks lie in one state.
#[derive(Clone, Copy, Debug, PartialEq, Eq, Structural)]
pub struct StateParks {
    pub entity: Entity,
    pub count: usize,
}

/// Whether one of `pieces` is `code`.
fn lists_state(pieces: &Vec<&str>, code: &str) -> (r: bool)
    ensures
        r == exists|j: int| 0 <= j < pieces@.len() && (#[trigger] pieces@[j])@ == code@,
{
    let target = code.to_owned();
    let mut j: usize = 0;
    while j < pieces.len()
        invariant
            target@ == code@,
            j <= pieces@.len(),
            forall|k: int| 0 <= k < j ==> (#[trigger] pieces@[k])@ != code@,
        decreases pieces@.len() - j,
    {
        let piece = pieces[j].to_owned();
        if piece == target {
            return true;
        }
        j = j + 1;
    }
    false
}

/// Whether `codes` holds `code`.
fn holds_code(codes: &Vec<String>, code: &String) -> (r: bool)
    ensures
        r == exists|j: int| 0 <= j < codes@.len() && (#[trigger] codes@[j])@ == code@,
{
    let mut j: usize = 0;
    while j < codes.len()
        invariant
            j <= codes@.len(),
            forall|k: int| 0 <= k < j ==> (#[trigger] codes@[k])@ != code@,
        decreases codes@.len() - j,
    {
        if codes[j] == *code {
            return true;
        }
        j = j + 1;
    }
    false
}

/// The number of distinct parks (by park code) that lie in the state with
/// code `code`.
fn count_parks(parks: &Vec<Park>, code: &str) -> (r: usize)
    ensures
        exists|d: Seq<Seq<char>>|
            d.no_duplicates() && d.to_set() == parks_in(parks@, code@) && d.len() == r,
{
    let mut seen: Vec<String> = Vec::new();
    let mut i: usize = 0;
    while i < parks.len()
        invariant
            i <= parks@.len(),
            seen@.len() <= i,
            seen@.map_values(|c: String| c@).no_duplicates(),
            seen@.map_values(|c: String| c@).to_set() == parks_in(parks@.subrange(0, i as int), code@),
        decreases parks@.len() - i,
    {
        let park = &parks[i];
        let pieces = park.get_states();
        let inside = lists_state(&pieces, code);
        let known = holds_code(&seen, &park.park_code);
        let ghost old_seen = seen@.map_values(|c: String| c@);
        proof {
            assert(inside == split_commas(park.states@).contains(code@)) by {
                if inside {
                    let j = choose|j: int| 0 <= j < pieces@.len() && (#[trigger] pieces@[j])@ == code@;
                    assert(split_commas(park.states@)[j] == code@);
                }
                if split_commas(park.states@).contains(code@) {
                    let j = choose|j: int|
                        0 <= j < split_commas(park.states@).len() && split_commas(park.states@)[j]
                            == code@;
                    assert(pieces@[j]@ == code@);
                }
            }
            assert(known == old_seen.contains(park.park_code@)) by {
                if known {
                    let j = choose|j: int| 0 <= j < seen@.len() && (#[trigger] seen@[j])@ == park.park_code@;
                    assert(old_seen[j] == park.park_code@);
                }
                if old_seen.contains(park.park_code@) {
                    let j = choose|j: int| 0 <= j < old_seen.len() && old_seen[j] == park.park_code@;
                    assert(seen@[j]@ == park.park_code@);
                }
            }
        }
        if inside && !known {
            seen.push(park.park_code.clone());
            proof {
                assert(seen@.map_values(|c: String| c@) =~= old_seen.push(park.park_code@));
                old_seen.lemma_push_to_set_commute(park.park_code@);
            }
        }
        proof {
            let prev = parks@.subrange(0, i as int);
            let next = parks@.subrange(0, i as int + 1);
            let now = seen@.map_values(|c: String| c@);
            assert forall|pc: Seq<char>| parks_in(next, code@).contains(pc) <==> now.to_set().contains(pc) by {
                if parks_in(next, code@).contains(pc) {
                    let k = choose|k: int|
                        0 <= k < next.len() && #[trigger] next[k].park_code@ == pc && split_commas(
                            next[k].states@,
                        ).contains(code@);
                    if k < i {
                        assert(prev[k] == next[k]);
                        assert(parks_in(prev, code@).contains(pc));
                    }
                }
                if now.to_set().contains(pc) && !old_seen.to_set().contains(pc) {
                    assert(next[i as int] == park);
                }
                if old_seen.to_set().contains(pc) {
                    let k = choose|k: int|
                        0 <= k < prev.len() && #[trigger] prev[k].park_code@ == pc && split_commas(
                            prev[k].states@,
                        ).contains(code@);
                    assert(next[k] == prev[k]);
                }
            }
            assert(now.to_set() =~= parks_in(next, code@));
        }
        i = i + 1;
    }
    assert(parks@.subrange(0, parks@.len() as int) =~= parks@);
    proof {
        seen@.map_values(|c: String| c@).unique_seq_to_set();
    }
    seen.len()
}

/// For each known state, in table order, the number of distinct parks
/// (by park code) that list it among their states.
pub fn parks_per_state(parks: &Vec<Park>) -> (r: Vec<StateParks>)
    ensures
        r@.len() == ENTITY_COUNT,
        forall|i: int|
            0 <= i < ENTITY_COUNT ==> (#[trigger] r@[i]).entity.id() == i && exists|d: Seq<Seq<char>>|
                d.no_duplicates() && d.to_set() == parks_in(parks@, known_code(i)) && d.len()
                    == r@[i].count,
{
    let entities = all_entities();
    let mut out: Vec<StateParks> = Vec::new();
    let mut i: usize = 0;
    while i < entities.len()
        invariant
            entities@.len() == ENTITY_COUNT,
            forall|j: int| 0 <= j < ENTITY_COUNT ==> (#[trigger] entities@[j]).id() == j,
            i <= ENTITY_COUNT,
            out@.len() == i,
            forall|j: int|
                0 <= j < i ==> (#[trigger] out@[j]).entity.id() == j && exists|d: Seq<Seq<char>>|
                    d.no_duplicates() && d.to_set() == parks_in(parks@, known_code(j)) && d.len()
                        == out@[j].count,
        decreases ENTITY_COUNT - i,
    {
        let entity = entities[i];
        let code = entity.code();
        let count = count_parks(parks, code);
        let ghost prev = out@;
        out.push(StateParks { entity, count });
        proof {
            assert(code@ == known_code(i as int));
            assert forall|j: int|
                0 <= j < i + 1 implies (#[trigger] out@[j]).entity.id() == j && exists|d: Seq<Seq<char>>|
                d.no_duplicates() && d.to_set() == parks_in(parks@, known_code(j)) && d.len()
                    == out@[j].count by {
                if j < i {
                    assert(out@[j] == prev[j]);
                }
            }
        }
        i = i + 1;
    }
    out
}

} // verus!
