//! The spell model: a castable ability (`Spell`) made of ordered
//! damage-dealing sub-units (`SpellPart`), with identifier-based part
//! resolution, the class baselines, and the two verified decoders.

use vstd::prelude::*;
use crate::effect::DecodeError;
use crate::effect::Effect;
use crate::effect::EffectKey;
use crate::effect::EffectPartKey;
use crate::effect::EffectType;
use crate::effect::HitEntry;
use crate::effect::effect_type_code;
use crate::effect::hit_entry_ok;
use crate::effect::part_field_ok;
use crate::effect::field_count_ok;
use crate::effect::sub_stream;

verus! {

/// Abstract value of a `SpellPart`: every field as an unbounded integer and
/// the multiplier vector as a sequence.
#[verifier::ext_equal]
pub struct SpellPartView {
    pub id: int,
    pub mults: Seq<int>,
    pub hits: int,
    pub final_mult: int,
    pub power: int,
}

/// Abstract value of a `Spell`.
#[verifier::ext_equal]
pub struct SpellView {
    pub cost: int,
    pub parts: Seq<SpellPartView>,
}

/// One damage-dealing sub-unit of a spell.
///
/// `mults` holds one percentage multiplier per elemental channel, in
/// hundredths (100 = x1.00); it always has exactly six entries. `hits` is the
/// number of times the part's damage applies per cast. `final_mult` is an
/// overall percentage scalar on top of `mults` (not populated by the
/// decoders; stays at 100). `power` is a small signed modifier.
#[derive(PartialEq, Debug)]
pub struct SpellPart {
    pub id: u8,
    pub mults: Vec<i16>,
    pub hits: u8,
    pub final_mult: i32,
    pub power: i8,
}

/// A castable ability: a resource cost and an ordered list of parts, in
/// first-seen order, with at most one part per identifier.
#[derive(PartialEq, Debug)]
pub struct Spell {
    pub cost: i32,
    pub parts: Vec<SpellPart>,
}

/// A multiplier vector as a sequence of unbounded integers.
pub open spec fn mults_view(v: Seq<i16>) -> Seq<int> {
    v.map_values(|m: i16| m as int)
}

impl View for SpellPart {
    type V = SpellPartView;

    open spec fn view(&self) -> SpellPartView {
        SpellPartView {
            id: self.id as int,
            mults: mults_view(self.mults@),
            hits: self.hits as int,
            final_mult: self.final_mult as int,
            power: self.power as int,
        }
    }
}

/// The abstract values of a sequence of parts.
pub open spec fn parts_view(s: Seq<SpellPart>) -> Seq<SpellPartView> {
    s.map_values(|p: SpellPart| p@)
}

impl View for Spell {
    type V = SpellView;

    open spec fn view(&self) -> SpellView {
        SpellView { cost: self.cost as int, parts: parts_view(self.parts@) }
    }
}

impl SpellPartView {
    /// The representation ranges: six channels, each fitting a 16-bit value,
    /// an 8-bit identifier and hit count, an 8-bit signed power.
    pub open spec fn wf(self) -> bool {
        &&& self.mults.len() == 6
        &&& 0 <= self.id <= 255
        &&& forall|j: int| 0 <= j < 6 ==> -32768 <= #[trigger] self.mults[j] <= 32767
        &&& 0 <= self.hits <= 255
        &&& -0x8000_0000 <= self.final_mult <= 0x7fff_ffff
        &&& -128 <= self.power <= 127
    }
}

impl SpellView {
    /// Every part is well formed and carries a unique nonzero identifier.
    /// The part count bound restates what uniqueness of 8-bit identifiers
    /// gives, so that arithmetic over the parts stays in bounds.
    pub open spec fn wf(self) -> bool {
        &&& -0x8000_0000 <= self.cost <= 0x7fff_ffff
        &&& self.parts.len() <= 256
        &&& forall|i: int| 0 <= i < self.parts.len() ==> (#[trigger] self.parts[i]).wf()
        &&& forall|i: int| 0 <= i < self.parts.len() ==> (#[trigger] self.parts[i]).id != 0
        &&& forall|i: int, j: int|
            0 <= i < j < self.parts.len() ==> (#[trigger] self.parts[i]).id != (
            #[trigger] self.parts[j]).id
    }
}

/// A freshly created part: the given identifier, all channels zero, one hit,
/// full final multiplier, no power modifier.
pub open spec fn fresh_part(id: int) -> SpellPartView {
    SpellPartView { id, mults: seq![0, 0, 0, 0, 0, 0], hits: 1, final_mult: 100, power: 0 }
}

/// Index of the first part at or after `i` whose identifier is `id`, or the
/// number of parts when there is none.
pub open spec fn find_part_from(parts: Seq<SpellPartView>, id: int, i: int) -> int
    decreases parts.len() - i,
{
    if i < 0 || i >= parts.len() {
        parts.len() as int
    } else if parts[i].id == id {
        i
    } else {
        find_part_from(parts, id, i + 1)
    }
}

/// Index of the first part with identifier `id`, or the number of parts when
/// absent; the caller reads "number of parts" as "append a new entry here".
pub open spec fn find_part(parts: Seq<SpellPartView>, id: int) -> int {
    find_part_from(parts, id, 0)
}

pub proof fn lemma_find_part_from(parts: Seq<SpellPartView>, id: int, i: int)
    requires
        0 <= i <= parts.len(),
    ensures
        i <= find_part_from(parts, id, i) <= parts.len(),
        forall|j: int| i <= j < find_part_from(parts, id, i) ==> (#[trigger] parts[j]).id != id,
        find_part_from(parts, id, i) < parts.len() ==> parts[find_part_from(parts, id, i)].id
            == id,
    decreases parts.len() - i,
{
    if i < parts.len() && parts[i].id != id {
        lemma_find_part_from(parts, id, i + 1);
    }
}

/// `find_part` returns the least index holding `id`, or the length.
pub proof fn lemma_find_part(parts: Seq<SpellPartView>, id: int)
    ensures
        0 <= find_part(parts, id) <= parts.len(),
        forall|j: int| 0 <= j < find_part(parts, id) ==> (#[trigger] parts[j]).id != id,
        find_part(parts, id) < parts.len() ==> parts[find_part(parts, id)].id == id,
{
    lemma_find_part_from(parts, id, 0);
}

pub proof fn lemma_parts_view_push(s: Seq<SpellPart>, p: SpellPart)
    ensures
        parts_view(s.push(p)) == parts_view(s).push(p@),
{
    assert(parts_view(s.push(p)) =~= parts_view(s).push(p@));
}

pub proof fn lemma_parts_view_update(s: Seq<SpellPart>, i: int, p: SpellPart)
    requires
        0 <= i < s.len(),
    ensures
        parts_view(s.update(i, p)) == parts_view(s).update(i, p@),
{
    assert(parts_view(s.update(i, p)) =~= parts_view(s).update(i, p@));
}

impl SpellPart {
    /// A fresh part with the given identifier and baseline values.
    pub fn new(id: u8) -> (r: SpellPart)
        ensures
            r@ == fresh_part(id as int),
    {
        let r = SpellPart {
            id,
            mults: vec![0i16, 0, 0, 0, 0, 0],
            hits: 1,
            final_mult: 100,
            power: 0,
        };
        proof {
            assert(r@.mults =~= fresh_part(id as int).mults);
            assert(r@ =~= fresh_part(id as int));
        }
        r
    }

    /// The part's identifier within its class's vocabulary.
    pub fn id(&self) -> (r: u8)
        ensures
            r as int == self@.id,
    {
        self.id
    }
}

/// An element-for-element copy of a part.
fn copy_part(p: &SpellPart) -> (r: SpellPart)
    ensures
        r@ == p@,
{
    let n = p.mults.len();
    let mut mults: Vec<i16> = Vec::new();
    let mut j: usize = 0;
    while j < n
        invariant
            j <= n,
            n == p.mults@.len(),
            mults@ == p.mults@.subrange(0, j as int),
        decreases n - j,
    {
        mults.push(p.mults[j]);
        proof {
            assert(mults@ =~= p.mults@.subrange(0, j + 1 as int));
        }
        j += 1;
    }
    proof {
        assert(mults@ =~= p.mults@);
    }
    let r = SpellPart { id: p.id, mults, hits: p.hits, final_mult: p.final_mult, power: p.power };
    proof {
        assert(r@ =~= p@);
    }
    r
}

/// A copy of a part vector, equal to its source part for part.
fn copy_parts(v: &Vec<SpellPart>) -> (r: Vec<SpellPart>)
    ensures
        parts_view(r@) == parts_view(v@),
{
    let n = v.len();
    let mut r: Vec<SpellPart> = Vec::new();
    let mut i: usize = 0;
    while i < n
        invariant
            i <= n,
            n == v@.len(),
            r@.len() == i,
            forall|k: int| 0 <= k < i ==> (#[trigger] r@[k])@ == v@[k]@,
        decreases n - i,
    {
        r.push(copy_part(&v[i]));
        i += 1;
    }
    proof {
        assert(parts_view(r@) =~= parts_view(v@));
    }
    r
}

/// Linear search for `id` over a part vector, as `find_part` specifies.
fn find_part_idx(parts: &Vec<SpellPart>, id: i32) -> (r: usize)
    ensures
        r as int == find_part(parts_view(parts@), id as int),
{
    let n = parts.len();
    let mut k: usize = 0;
    while k < n
        invariant
            k <= n,
            n == parts@.len(),
            find_part(parts_view(parts@), id as int) == find_part_from(
                parts_view(parts@),
                id as int,
                k as int,
            ),
        decreases n - k,
    {
        if parts[k].id as i32 == id {
            proof {
                assert(parts_view(parts@)[k as int] == parts@[k as int]@);
                assert(find_part_from(parts_view(parts@), id as int, k as int) == k);
            }
            return k;
        }
        proof {
            assert(parts_view(parts@)[k as int] == parts@[k as int]@);
            assert(find_part_from(parts_view(parts@), id as int, k as int) == find_part_from(
                parts_view(parts@),
                id as int,
                k as int + 1,
            ));
        }
        k += 1;
    }
    n
}

/// Apply the hit-table sub-stream at `pos` of length `count` to `parts`:
/// overwrite each referenced part's hit count, creating absent parts.
fn apply_hits_exec(parts: &mut Vec<SpellPart>, e: &Effect, pos: usize, count: usize)
    requires
        e.wf(),
    ensures
        parts_view(final(parts)@) == crate::decode::apply_hits(
            parts_view(old(parts)@),
            sub_stream(e.hit_entries@, pos as int, count as int),
        ),
{
    let ghost entries = sub_stream(e.hit_entries@, pos as int, count as int);
    let ghost target = crate::decode::apply_hits(parts_view(old(parts)@), entries);
    let tlen = e.hit_entries.len();
    let start = if pos >= tlen {
        tlen
    } else {
        pos
    };
    let end = if count >= tlen - start {
        tlen
    } else {
        start + count
    };
    proof {
        assert(entries =~= e.hit_entries@.subrange(start as int, end as int));
        assert(entries.subrange(0, entries.len() as int) =~= entries);
    }
    let mut k = start;
    while k < end
        invariant
            start <= k <= end <= tlen,
            tlen == e.hit_entries@.len(),
            e.wf(),
            entries == e.hit_entries@.subrange(start as int, end as int),
            target == crate::decode::apply_hits(
                parts_view(parts@),
                entries.subrange((k - start) as int, entries.len() as int),
            ),
        decreases end - k,
    {
        let ghost pv0 = parts_view(parts@);
        let ghost rest = entries.subrange((k - start) as int, entries.len() as int);
        let et = e.hit_entries[k];
        proof {
            assert(rest[0] == e.hit_entries@[k as int]);
            assert(hit_entry_ok(e.hit_entries@[k as int]));
        }
        let idx = find_part_idx(parts, et.part_id);
        proof {
            lemma_find_part(pv0, et.part_id as int);
        }
        let h = et.num_hits as u8;
        let ghost before = parts@;
        if idx < parts.len() {
            let pr = &mut parts[idx];
            pr.hits = h;
            proof {
                let newp = parts@[idx as int];
                lemma_parts_view_update(before, idx as int, newp);
                assert(parts_view(parts@) =~= pv0.update(
                    idx as int,
                    (SpellPartView { hits: et.num_hits as int, ..pv0[idx as int] }),
                ));
            }
        } else {
            let mut np = SpellPart::new(et.part_id as u8);
            np.hits = h;
            proof {
                assert(np@ =~= (SpellPartView {
                    hits: et.num_hits as int,
                    ..fresh_part(et.part_id as int)
                }));
            }
            parts.push(np);
            proof {
                lemma_parts_view_push(before, np);
            }
        }
        proof {
            assert(crate::decode::apply_hits(pv0, rest) == crate::decode::apply_hits(
                parts_view(parts@),
                rest.drop_first(),
            ));
            assert(rest.drop_first() =~= entries.subrange((k + 1 - start) as int,
                entries.len() as int));
        }
        k += 1;
    }
    proof {
        assert(entries.subrange((k - start) as int, entries.len() as int) =~= Seq::<
            HitEntry,
        >::empty());
        assert(crate::decode::apply_hits(parts_view(parts@), entries.subrange((k - start) as int,
            entries.len() as int)) == parts_view(parts@));
    }
}

/// The five character classes.
#[derive(Clone, Copy, PartialEq, Eq, Structural, Debug)]
pub enum Class {
    Archer,
    Warrior,
    Mage,
    Assassin,
    Shaman,
}

/// The designated baseline part identifier of each class's vocabulary, as
/// this model assigns raw 8-bit identifiers to the per-class part names.
pub const ARCHER_SINGLE_SHOT: u8 = 1;

pub const WARRIOR_MELEE: u8 = 2;

pub const MAGE_TOTAL: u8 = 3;

pub const ASSASSIN_MELEE: u8 = 4;

pub const SHAMAN_SINGLE_BEAM: u8 = 5;

/// The identifier of the part that carries a class's basic attack.
pub open spec fn melee_part_id(class: Class) -> int {
    match class {
        Class::Archer => ARCHER_SINGLE_SHOT as int,
        Class::Warrior => WARRIOR_MELEE as int,
        Class::Mage => MAGE_TOTAL as int,
        Class::Assassin => ASSASSIN_MELEE as int,
        Class::Shaman => SHAMAN_SINGLE_BEAM as int,
    }
}

/// The single part of a class's baseline spell: the class's basic-attack
/// part at full strength on the first channel, one hit per cast.
pub open spec fn melee_part(class: Class) -> SpellPartView {
    SpellPartView {
        id: melee_part_id(class),
        mults: seq![100, 0, 0, 0, 0, 0],
        hits: 1,
        final_mult: 100,
        power: 0,
    }
}

/// Sum over the parts of channel `j`'s multiplier weighted by the part's hit
/// count: the spell's net contribution on that channel, in hundredths.
pub open spec fn channel_total(parts: Seq<SpellPartView>, j: int) -> int
    decreases parts.len(),
{
    if parts.len() == 0 {
        0
    } else {
        channel_total(parts.drop_last(), j) + parts.last().mults[j] * parts.last().hits
    }
}

impl Spell {
    /// The baseline spell every character of `class` has before any ability
    /// or gear modification: cost zero and exactly the class's basic-attack
    /// part, multipliers `[100, 0, 0, 0, 0, 0]`, one hit per cast.
    pub fn melee_default(class: Class) -> (r: Spell)
        ensures
            r@.wf(),
            r@.cost == 0,
            r@.parts.len() == 1,
            r@.parts[0] == melee_part(class),
    {
        let id: u8 = match class {
            Class::Archer => ARCHER_SINGLE_SHOT,
            Class::Warrior => WARRIOR_MELEE,
            Class::Mage => MAGE_TOTAL,
            Class::Assassin => ASSASSIN_MELEE,
            Class::Shaman => SHAMAN_SINGLE_BEAM,
        };
        let part = SpellPart {
            id,
            mults: vec![100i16, 0, 0, 0, 0, 0],
            hits: 1,
            final_mult: 100,
            power: 0,
        };
        proof {
            assert(part@.mults =~= melee_part(class).mults);
            assert(part@ =~= melee_part(class));
        }
        let mut parts: Vec<SpellPart> = Vec::new();
        parts.push(part);
        let r = Spell { cost: 0, parts };
        proof {
            assert(r@.parts.len() == 1);
            assert(r@.parts[0] == melee_part(class));
        }
        r
    }

    /// The spell's resource cost.
    pub fn cost(&self) -> (r: i32)
        ensures
            r as int == self@.cost,
    {
        self.cost
    }

    /// The number of parts.
    pub fn num_parts(&self) -> (r: usize)
        ensures
            r as int == self@.parts.len(),
    {
        self.parts.len()
    }

    /// The part at index `i`, in first-seen order.
    pub fn part(&self, i: usize) -> (r: &SpellPart)
        requires
            i < self@.parts.len(),
        ensures
            r@ == self@.parts[i as int],
    {
        &self.parts[i]
    }

    /// Resolve `target_id` in the part table: the index of the first part
    /// carrying that identifier, or the current number of parts when it is
    /// absent -- which callers read as "append a new entry here". This
    /// defines part identity for a whole decode session.
    pub fn get_target_part_idx(&self, target_id: u8) -> (r: usize)
        ensures
            r as int == find_part(self@.parts, target_id as int),
            r <= self@.parts.len(),
            r < self@.parts.len() ==> self@.parts[r as int].id == target_id as int,
            forall|j: int| 0 <= j < r ==> (#[trigger] self@.parts[j]).id != target_id as int,
    {
        proof {
            lemma_find_part(parts_view(self.parts@), target_id as int);
        }
        find_part_idx(&self.parts, target_id as i32)
    }

    /// Whether the spell's stored representation satisfies the invariant
    /// that the decoders maintain (`SpellView::wf`): six channels per part,
    /// nonzero identifiers, no identifier repeated, at most 256 parts.
    pub fn is_wf(&self) -> (r: bool)
        ensures
            r == self@.wf(),
    {
        let n = self.parts.len();
        if n > 256 {
            return false;
        }
        let mut i: usize = 0;
        while i < n
            invariant
                i <= n,
                n == self.parts@.len(),
                n <= 256,
                forall|x: int|
                    0 <= x < i ==> (#[trigger] self@.parts[x]).wf() && self@.parts[x].id != 0,
                forall|x: int, y: int|
                    0 <= x < y < i ==> (#[trigger] self@.parts[x]).id != (
                    #[trigger] self@.parts[y]).id,
            decreases n - i,
        {
            let pid = self.parts[i].id;
            if self.parts[i].mults.len() != 6 {
                proof {
                    assert(self@.parts[i as int].mults.len() != 6);
                }
                return false;
            }
            if pid == 0 {
                proof {
                    assert(self@.parts[i as int].id == 0);
                }
                return false;
            }
            let mut j: usize = 0;
            while j < i
                invariant
                    j <= i,
                    i < n,
                    n == self.parts@.len(),
                    pid as int == self@.parts[i as int].id,
                    forall|x: int|
                        0 <= x < j ==> (#[trigger] self@.parts[x]).id != self@.parts[i as int].id,
                decreases i - j,
            {
                if self.parts[j].id == pid {
                    proof {
                        assert(self@.parts[j as int].id == self@.parts[i as int].id);
                    }
                    return false;
                }
                j += 1;
            }
            proof {
                let pv = self@.parts[i as int];
                assert(pv.mults.len() == 6);
                assert forall|jx: int| 0 <= jx < 6 implies -32768 <= #[trigger] pv.mults[jx]
                    <= 32767 by {
                    assert(pv.mults[jx] == self.parts@[i as int].mults@[jx] as int);
                }
                assert(pv.wf());
            }
            i += 1;
        }
        true
    }

    /// The net multiplier of each of the six channels, in hundredths: every
    /// part's channel multiplier weighted by its hit count, summed.
    pub fn total_mult_hundredths(&self) -> (r: Vec<i32>)
        requires
            self@.wf(),
        ensures
            r@.len() == 6,
            forall|j: int| 0 <= j < 6 ==> r@[j] == channel_total(self@.parts, j),
    {
        let mut r: Vec<i32> = Vec::new();
        let mut j: usize = 0;
        while j < 6
            invariant
                self@.wf(),
                j <= 6,
                r@.len() == j,
                forall|jj: int| 0 <= jj < j ==> r@[jj] == channel_total(self@.parts, jj),
            decreases 6 - j,
    {
            let n = self.parts.len();
            let mut acc: i32 = 0;
            let mut k: usize = 0;
            while k < n
                invariant
                    self@.wf(),
                    j < 6,
                    k <= n,
                    n == self.parts@.len(),
                    acc as int == channel_total(self@.parts.subrange(0, k as int), j as int),
                    -32768 * 255 * (k as int) <= acc as int <= 32767 * 255 * (k as int),
                decreases n - k,
            {
                let p = &self.parts[k];
                proof {
                    assert(self@.parts[k as int].wf());
                    assert(self@.parts[k as int].mults.len() == 6);
                    assert(p.mults@.len() == 6);
                }
                let m = p.mults[j];
                let h = p.hits;
                proof {
                    assert(-32768 * 255 <= (m as int) * (h as int) <= 32767 * 255)
                        by (nonlinear_arith)
                        requires
                            -32768 <= m as int <= 32767,
                            0 <= h as int <= 255,
                    ;
                }
                let term: i32 = (m as i32) * (h as i32);
                proof {
                    assert(k as int + 1 <= 256);
                    assert(-32768 * 255 * (k as int) + -32768 * 255 <= acc as int + (m as int) * (
                    h as int) <= 32767 * 255 * (k as int) + 32767 * 255);
                    assert(-32768 * 255 * (k as int + 1) <= acc as int + (m as int) * (h as int)
                        <= 32767 * 255 * (k as int + 1)) by (nonlinear_arith)
                        requires
                            -32768 * 255 * (k as int) + -32768 * 255 <= acc as int + (m as int) * (
                            h as int) <= 32767 * 255 * (k as int) + 32767 * 255,
                    ;
                    assert(-32768 * 255 * 256 <= acc as int + (m as int) * (h as int) <= 32767
                        * 255 * 256) by (nonlinear_arith)
                        requires
                            -32768 * 255 * (k as int + 1) <= acc as int + (m as int) * (h as int)
                                <= 32767 * 255 * (k as int + 1),
                            0 <= k as int + 1 <= 256,
                    ;
                }
                acc = acc + term;
                proof {
                    let pre = self@.parts.subrange(0, k as int);
                    let post = self@.parts.subrange(0, k + 1 as int);
                    assert(post.drop_last() =~= pre);
                    assert(post.last() == self@.parts[k as int]);
                }
                k += 1;
            }
            proof {
                assert(self@.parts.subrange(0, n as int) =~= self@.parts);
            }
            r.push(acc);
            j += 1;
        }
        r
    }
}

impl Spell {
    /// Apply a modify record (mode "AddSpellProp") to this spell, walking
    /// the fields in stream order: `Cost` adds to the spell's cost,
    /// `TargetPart` retargets subsequent fields (appending the part when
    /// unseen), `Power` overwrites the target's power, `Multipliers` merges
    /// a multiplier vector additively into the target, and `Hits` overwrites
    /// hit counts through the hit table. Returns exactly what the decode
    /// semantics compute; on any error the spell is left exactly as it was.
    pub fn add_spell_prop(&mut self, effect: &Effect) -> (r: Result<(), DecodeError>)
        requires
            old(self)@.wf(),
            effect.wf(),
            crate::decode::spec_modify_fits(old(self)@, *effect),
        ensures
            match crate::decode::spec_add_spell_prop(old(self)@, *effect) {
                Ok(s) => r == Ok::<(), DecodeError>(()) && final(self)@ == s && s.wf(),
                Err(er) => r == Err::<(), DecodeError>(er) && final(self)@ == old(self)@,
            },
    {
        let ghost s0 = old(self)@;
        let ghost st0 = crate::decode::modify_start(s0);
        let mut cost = self.cost;
        let mut parts = copy_parts(&self.parts);
        let mut tidx: usize = 0;
        proof {
            assert((crate::decode::ModifyState {
                cost: cost as int,
                parts: parts_view(parts@),
                target: tidx as int,
            }) == st0);
        }
        let n = effect.fields.len();
        let mut i: usize = 0;
        while i < n
            invariant
                n == effect.fields@.len(),
                i <= n,
                effect.wf(),
                s0 == old(self)@,
                st0 == crate::decode::modify_start(s0),
                *self == *old(self),
                s0.wf(),
                (crate::decode::ModifyState {
                    cost: cost as int,
                    parts: parts_view(parts@),
                    target: tidx as int,
                }).wf(),
                crate::decode::modify_run(st0, *effect, 0) == crate::decode::modify_run(
                    (crate::decode::ModifyState {
                        cost: cost as int,
                        parts: parts_view(parts@),
                        target: tidx as int,
                    }),
                    *effect,
                    i as int,
                ),
                crate::decode::modify_fits(
                    (crate::decode::ModifyState {
                        cost: cost as int,
                        parts: parts_view(parts@),
                        target: tidx as int,
                    }),
                    *effect,
                    i as int,
                ),
            decreases n - i,
        {
            let ghost cur = crate::decode::ModifyState {
                cost: cost as int,
                parts: parts_view(parts@),
                target: tidx as int,
            };
            let f = effect.fields[i];
            proof {
                assert(f == effect.fields@[i as int]);
                assert(crate::decode::modify_fits(cur, *effect, i as int));
                assert(crate::decode::modify_step_ok(cur, f, *effect));
            }
            match f.key {
                EffectKey::Type => {
                    if f.value != effect_type_code(EffectType::AddSpellProp) {
                        proof {
                            assert(crate::decode::modify_run(cur, *effect, i as int) == Err::<
                                crate::decode::ModifyState,
                                DecodeError,
                            >(DecodeError::TypeMismatch));
                        }
                        return Err(DecodeError::TypeMismatch);
                    }
                    proof {
                        assert(crate::decode::modify_step(cur, f, *effect) == Ok::<
                            crate::decode::ModifyState,
                            DecodeError,
                        >(cur));
                    }
                },
                EffectKey::Name => {
                    proof {
                        assert(crate::decode::modify_step(cur, f, *effect) == Ok::<
                            crate::decode::ModifyState,
                            DecodeError,
                        >(cur));
                    }
                },
                EffectKey::Cost => {
                    let ghost st2 = crate::decode::ModifyState { cost: cur.cost + f.value, ..cur };
                    proof {
                        assert(crate::decode::modify_step(cur, f, *effect) == Ok::<
                            crate::decode::ModifyState,
                            DecodeError,
                        >(st2));
                        assert(st2.wf());
                        assert(-0x8000_0000 <= cost as int + f.value as int <= 0x7fff_ffff);
                    }
                    cost = cost + f.value;
                },
                EffectKey::TargetPart => {
                    let k = find_part_idx(&parts, f.value);
                    proof {
                        lemma_find_part(parts_view(parts@), f.value as int);
                    }
                    if k < parts.len() {
                        tidx = k;
                        proof {
                            assert(crate::decode::modify_step(cur, f, *effect) == Ok::<
                                crate::decode::ModifyState,
                                DecodeError,
                            >((crate::decode::ModifyState { target: k as int, ..cur })));
                        }
                    } else {
                        let ghost st2 = crate::decode::ModifyState {
                            parts: cur.parts.push(fresh_part(f.value as int)),
                            target: k as int,
                            ..cur
                        };
                        proof {
                            assert(crate::decode::modify_step(cur, f, *effect) == Ok::<
                                crate::decode::ModifyState,
                                DecodeError,
                            >(st2));
                            assert(st2.wf());
                            assert(st2.parts[cur.parts.len() as int] == fresh_part(
                                f.value as int,
                            ));
                            assert(1 <= f.value <= 255);
                        }
                        let ghost before = parts@;
                        let np = SpellPart::new(f.value as u8);
                        parts.push(np);
                        tidx = k;
                        proof {
                            lemma_parts_view_push(before, np);
                            assert(parts_view(parts@) == st2.parts);
                        }
                    }
                },
                EffectKey::Power => {
                    let ghost oldp = cur.parts[cur.target];
                    let ghost st2 = crate::decode::ModifyState {
                        parts: cur.parts.update(
                            cur.target,
                            SpellPartView { power: f.value as int, ..oldp },
                        ),
                        ..cur
                    };
                    proof {
                        assert(cur.target < cur.parts.len());
                        assert(crate::decode::modify_step(cur, f, *effect) == Ok::<
                            crate::decode::ModifyState,
                            DecodeError,
                        >(st2));
                        assert(st2.wf());
                        assert(st2.parts[cur.target] == (SpellPartView {
                            power: f.value as int,
                            ..oldp
                        }));
                        assert(-128 <= f.value <= 127);
                    }
                    let ghost before = parts@;
                    let pr = &mut parts[tidx];
                    pr.power = f.value as i8;
                    proof {
                        lemma_parts_view_update(before, tidx as int, parts@[tidx as int]);
                        assert(parts@[tidx as int]@ =~= (SpellPartView {
                            power: f.value as int,
                            ..oldp
                        }));
                        assert(parts_view(parts@) =~= st2.parts);
                    }
                },
                EffectKey::Multipliers => {
                    proof {
                        assert(cur.target < cur.parts.len());
                        assert(field_count_ok(effect.fields@[i as int]));
                    }
                    let mtlen = effect.mult_values.len();
                    let mpos = f.pos;
                    let mcnt = f.value as usize;
                    let ms = if mpos >= mtlen {
                        mtlen
                    } else {
                        mpos
                    };
                    let me_ = if mcnt >= mtlen - ms {
                        mtlen
                    } else {
                        ms + mcnt
                    };
                    let avail = me_ - ms;
                    let ghost vals = sub_stream(effect.mult_values@, f.pos as int, f.value as int);
                    let ghost oldp = cur.parts[cur.target];
                    let ghost newmults = crate::decode::add_mults(oldp.mults, vals);
                    let ghost st2 = crate::decode::ModifyState {
                        parts: cur.parts.update(
                            cur.target,
                            SpellPartView { mults: newmults, ..oldp },
                        ),
                        ..cur
                    };
                    proof {
                        assert(vals =~= effect.mult_values@.subrange(ms as int, me_ as int));
                        assert(crate::decode::modify_step(cur, f, *effect) == Ok::<
                            crate::decode::ModifyState,
                            DecodeError,
                        >(st2));
                        assert(st2.wf());
                        assert(st2.parts[cur.target] == (SpellPartView {
                            mults: newmults,
                            ..oldp
                        }));
                        assert(oldp.wf());
                        assert(forall|x: int|
                            0 <= x < 6 ==> -32768 <= #[trigger] newmults[x] <= 32767);
                    }
                    let mut newm: Vec<i16> = Vec::new();
                    let mut jj: usize = 0;
                    while jj < 6
                        invariant
                            jj <= 6,
                            newm@.len() == jj,
                            effect.wf(),
                            tidx < parts@.len(),
                            parts_view(parts@) == cur.parts,
                            cur.target == tidx as int,
                            oldp == cur.parts[cur.target],
                            oldp.wf(),
                            newmults == crate::decode::add_mults(oldp.mults, vals),
                            forall|x: int| 0 <= x < jj ==> #[trigger] newm@[x] as int == newmults[x],
                            forall|x: int|
                                0 <= x < 6 ==> -32768 <= #[trigger] newmults[x] <= 32767,
                            avail == vals.len(),
                            mtlen == effect.mult_values@.len(),
                            me_ == ms + avail,
                            me_ <= mtlen,
                            vals == effect.mult_values@.subrange(ms as int, me_ as int),
                        decreases 6 - jj,
                    {
                        proof {
                            assert(parts@[tidx as int]@ == oldp);
                            assert(parts@[tidx as int]@.mults.len() == 6);
                            assert(parts@[tidx as int].mults@.len() == 6);
                        }
                        let cur_m = parts[tidx].mults[jj];
                        proof {
                            assert(cur_m as int == oldp.mults[jj as int]);
                        }
                        let v: i16;
                        if jj < avail {
                            let m = effect.mult_values[ms + jj];
                            proof {
                                assert(vals[jj as int] == effect.mult_values@[(ms + jj) as int]);
                                assert(-32768 <= m <= 32767);
                                assert(newmults[jj as int] == cur_m as int + m as int);
                            }
                            v = (cur_m as i32 + m) as i16;
                        } else {
                            proof {
                                assert(newmults[jj as int] == cur_m as int);
                            }
                            v = cur_m;
                        }
                        newm.push(v);
                        jj += 1;
                    }
                    let ghost before = parts@;
                    let pr = &mut parts[tidx];
                    pr.mults = newm;
                    proof {
                        lemma_parts_view_update(before, tidx as int, parts@[tidx as int]);
                        assert(parts@[tidx as int]@.mults =~= newmults);
                        assert(parts@[tidx as int]@ =~= (SpellPartView { mults: newmults, ..oldp }));
                        assert(parts_view(parts@) =~= st2.parts);
                    }
                },
                EffectKey::Hits => {
                    let ghost st2 = crate::decode::ModifyState {
                        parts: crate::decode::apply_hits(
                            cur.parts,
                            sub_stream(effect.hit_entries@, f.pos as int, f.value as int),
                        ),
                        ..cur
                    };
                    proof {
                        assert(field_count_ok(effect.fields@[i as int]));
                        assert(crate::decode::modify_step(cur, f, *effect) == Ok::<
                            crate::decode::ModifyState,
                            DecodeError,
                        >(st2));
                    }
                    apply_hits_exec(&mut parts, effect, f.pos, f.value as usize);
                    proof {
                        assert(parts_view(parts@) == st2.parts);
                    }
                },
                EffectKey::UseAtkspd | EffectKey::Round | EffectKey::Behavior
                    | EffectKey::BaseSpell | EffectKey::SliderDefault | EffectKey::Hide => {
                    proof {
                        assert(crate::decode::modify_run(cur, *effect, i as int) == Err::<
                            crate::decode::ModifyState,
                            DecodeError,
                        >(DecodeError::UnsupportedField(f.key)));
                    }
                    return Err(DecodeError::UnsupportedField(f.key));
                },
                EffectKey::Parts | EffectKey::Scaling | EffectKey::Bonuses | EffectKey::Output
                    | EffectKey::Inputs | EffectKey::Max | EffectKey::Slider
                    | EffectKey::SliderName | EffectKey::SliderMax | EffectKey::SliderStep
                    | EffectKey::Toggle => {
                    proof {
                        assert(crate::decode::modify_run(cur, *effect, i as int) == Err::<
                            crate::decode::ModifyState,
                            DecodeError,
                        >(DecodeError::StructurallyInvalidField(f.key)));
                    }
                    return Err(DecodeError::StructurallyInvalidField(f.key));
                },
            }
            proof {
                let newcur = crate::decode::ModifyState {
                    cost: cost as int,
                    parts: parts_view(parts@),
                    target: tidx as int,
                };
                assert(crate::decode::modify_step(cur, f, *effect) == Ok::<
                    crate::decode::ModifyState,
                    DecodeError,
                >(newcur));
                assert(crate::decode::modify_run(cur, *effect, i as int)
                    == crate::decode::modify_run(newcur, *effect, i as int + 1));
                assert(crate::decode::modify_fits(newcur, *effect, i as int + 1));
                assert(newcur.wf());
            }
            i += 1;
        }
        let ghost fin = crate::decode::ModifyState {
            cost: cost as int,
            parts: parts_view(parts@),
            target: tidx as int,
        };
        proof {
            assert(crate::decode::modify_run(fin, *effect, n as int) == Ok::<
                crate::decode::ModifyState,
                DecodeError,
            >(fin));
            assert(crate::decode::spec_add_spell_prop(s0, *effect) == Ok::<SpellView, DecodeError>(
                fin.as_spell(),
            ));
        }
        self.cost = cost;
        self.parts = parts;
        proof {
            assert(self@ == fin.as_spell());
        }
        Ok(())
    }
}

impl Spell {
    /// Decode a replace record (mode "ReplaceSpell") into a brand-new spell:
    /// `Cost` overwrites the cost, and a `Parts` field opens a sub-stream of
    /// per-part sub-records, where a `Name` starts a new part (appending the
    /// one being accumulated), `Power` and `Multipliers` overwrite the
    /// accumulator, and `Hits` overwrites hit counts of the parts appended
    /// so far. Returns exactly what the decode semantics compute.
    pub fn make_spell(effect: &Effect) -> (r: Result<Spell, DecodeError>)
        requires
            effect.wf(),
            crate::decode::spec_replace_fits(*effect),
        ensures
            match crate::decode::spec_make_spell(*effect) {
                Ok(s) => r matches Ok(sp) && sp@ == s && s.wf(),
                Err(er) => r matches Err(e2) && e2 == er,
            },
    {
        let ghost st0 = crate::decode::replace_start();
        let mut cost: i32 = 0;
        let mut parts: Vec<SpellPart> = Vec::new();
        proof {
            assert(parts_view(parts@) =~= Seq::<SpellPartView>::empty());
            assert((crate::decode::ReplaceState { cost: cost as int, parts: parts_view(parts@) })
                == st0);
        }
        let n = effect.fields.len();
        let mut i: usize = 0;
        while i < n
            invariant
                n == effect.fields@.len(),
                i <= n,
                effect.wf(),
                st0 == crate::decode::replace_start(),
                (crate::decode::ReplaceState {
                    cost: cost as int,
                    parts: parts_view(parts@),
                }).wf(),
                crate::decode::replace_run(st0, *effect, 0) == crate::decode::replace_run(
                    (crate::decode::ReplaceState { cost: cost as int, parts: parts_view(parts@) }),
                    *effect,
                    i as int,
                ),
                crate::decode::replace_fits(
                    (crate::decode::ReplaceState { cost: cost as int, parts: parts_view(parts@) }),
                    *effect,
                    i as int,
                ),
            decreases n - i,
        {
            let ghost cur = crate::decode::ReplaceState {
                cost: cost as int,
                parts: parts_view(parts@),
            };
            let f = effect.fields[i];
            proof {
                assert(f == effect.fields@[i as int]);
                assert(crate::decode::replace_fits(cur, *effect, i as int));
                assert(crate::decode::replace_step_ok(cur, f, *effect));
            }
            match f.key {
                EffectKey::Type => {
                    if f.value != effect_type_code(EffectType::ReplaceSpell) {
                        proof {
                            assert(crate::decode::replace_run(cur, *effect, i as int) == Err::<
                                crate::decode::ReplaceState,
                                DecodeError,
                            >(DecodeError::TypeMismatch));
                        }
                        return Err(DecodeError::TypeMismatch);
                    }
                    proof {
                        assert(crate::decode::replace_step(cur, f, *effect) == Ok::<
                            crate::decode::ReplaceState,
                            DecodeError,
                        >(cur));
                    }
                },
                EffectKey::Name | EffectKey::BaseSpell | EffectKey::Max | EffectKey::UseAtkspd
                    | EffectKey::Scaling | EffectKey::Power => {
                    proof {
                        assert(crate::decode::replace_step(cur, f, *effect) == Ok::<
                            crate::decode::ReplaceState,
                            DecodeError,
                        >(cur));
                    }
                },
                EffectKey::Cost => {
                    proof {
                        assert(crate::decode::replace_step(cur, f, *effect) == Ok::<
                            crate::decode::ReplaceState,
                            DecodeError,
                        >((crate::decode::ReplaceState { cost: f.value as int, ..cur })));
                    }
                    cost = f.value;
                },
                EffectKey::Parts => {
                    proof {
                        assert(field_count_ok(effect.fields@[i as int]));
                    }
                    let tlen = effect.part_fields.len();
                    let ppos = f.pos;
                    let pcnt = f.value as usize;
                    let ps_ = if ppos >= tlen {
                        tlen
                    } else {
                        ppos
                    };
                    let pe_ = if pcnt >= tlen - ps_ {
                        tlen
                    } else {
                        ps_ + pcnt
                    };
                    let ghost pfs = sub_stream(effect.part_fields@, f.pos as int, f.value as int);
                    let ghost ps0 = crate::decode::PartAccState {
                        parts: cur.parts,
                        acc: fresh_part(0),
                    };
                    let ghost st2 = crate::decode::ReplaceState {
                        cost: cur.cost,
                        parts: crate::decode::run_parts(cur.parts, pfs, *effect),
                    };
                    proof {
                        assert(pfs =~= effect.part_fields@.subrange(ps_ as int, pe_ as int));
                        assert(crate::decode::replace_step(cur, f, *effect) == Ok::<
                            crate::decode::ReplaceState,
                            DecodeError,
                        >(st2));
                    }
                    let mut acc = SpellPart::new(0);
                    let mut k = ps_;
                    while k < pe_
                        invariant
                            ps_ <= k <= pe_ <= tlen,
                            tlen == effect.part_fields@.len(),
                            effect.wf(),
                            pfs == effect.part_fields@.subrange(ps_ as int, pe_ as int),
                            pfs.len() == pe_ - ps_,
                            acc@.mults.len() == 6,
                            crate::decode::part_run(ps0, pfs, *effect, 0)
                                == crate::decode::part_run(
                                (crate::decode::PartAccState {
                                    parts: parts_view(parts@),
                                    acc: acc@,
                                }),
                                pfs,
                                *effect,
                                (k - ps_) as int,
                            ),
                        decreases pe_ - k,
                    {
                        let ghost pcur = crate::decode::PartAccState {
                            parts: parts_view(parts@),
                            acc: acc@,
                        };
                        let pf = effect.part_fields[k];
                        proof {
                            assert(pf == effect.part_fields@[k as int]);
                            assert(pfs[(k - ps_) as int] == pf);
                            assert(part_field_ok(effect.part_fields@[k as int]));
                        }
                        match pf.key {
                            EffectPartKey::Name => {
                                if acc.id != 0 {
                                    let ghost before = parts@;
                                    let ghost accv = acc@;
                                    parts.push(acc);
                                    acc = SpellPart::new(0);
                                    proof {
                                        lemma_parts_view_push(before, parts@[before.len() as int]);
                                        assert(parts@[before.len() as int]@ == accv);
                                        assert(parts_view(parts@) == pcur.parts.push(accv));
                                    }
                                }
                                acc.id = pf.value as u8;
                                proof {
                                    let stepped = crate::decode::part_step(pcur, pf, *effect);
                                    if pcur.acc.id != 0 {
                                        assert(acc@ =~= (SpellPartView {
                                            id: pf.value as int,
                                            ..fresh_part(0)
                                        }));
                                    } else {
                                        assert(acc@ =~= (SpellPartView {
                                            id: pf.value as int,
                                            ..pcur.acc
                                        }));
                                    }
                                    assert((crate::decode::PartAccState {
                                        parts: parts_view(parts@),
                                        acc: acc@,
                                    }) == stepped);
                                }
                            },
                            EffectPartKey::Type => {
                                proof {
                                    assert(crate::decode::part_step(pcur, pf, *effect) == pcur);
                                }
                            },
                            EffectPartKey::Power => {
                                acc.power = pf.value as i8;
                                proof {
                                    assert(acc@ =~= (SpellPartView {
                                        power: pf.value as int,
                                        ..pcur.acc
                                    }));
                                }
                            },
                            EffectPartKey::Multipliers => {
                                let mtlen = effect.mult_values.len();
                                let mpos = pf.pos;
                                let mcnt = pf.value as usize;
                                let ms = if mpos >= mtlen {
                                    mtlen
                                } else {
                                    mpos
                                };
                                let me_ = if mcnt >= mtlen - ms {
                                    mtlen
                                } else {
                                    ms + mcnt
                                };
                                let avail = me_ - ms;
                                let ghost vals = sub_stream(
                                    effect.mult_values@,
                                    pf.pos as int,
                                    pf.value as int,
                                );
                                let ghost newmults = crate::decode::set_mults(pcur.acc.mults, vals);
                                proof {
                                    assert(vals =~= effect.mult_values@.subrange(
                                        ms as int,
                                        me_ as int,
                                    ));
                                }
                                let mut newm: Vec<i16> = Vec::new();
                                let mut jj: usize = 0;
                                while jj < 6
                                    invariant
                                        jj <= 6,
                                        newm@.len() == jj,
                                        effect.wf(),
                                        acc@ == pcur.acc,
                                        acc@.mults.len() == 6,
                                        newmults == crate::decode::set_mults(pcur.acc.mults, vals),
                                        forall|x: int|
                                            0 <= x < jj ==> #[trigger] newm@[x] as int
                                                == newmults[x],
                                        avail == vals.len(),
                                        mtlen == effect.mult_values@.len(),
                                        me_ == ms + avail,
                                        me_ <= mtlen,
                                        vals == effect.mult_values@.subrange(ms as int, me_ as int),
                                    decreases 6 - jj,
                                {
                                    proof {
                                        assert(acc.mults@.len() == 6);
                                    }
                                    let cur_m = acc.mults[jj];
                                    let v: i16;
                                    if jj < avail {
                                        let m = effect.mult_values[ms + jj];
                                        proof {
                                            assert(vals[jj as int] == effect.mult_values@[(ms + jj)
                                                as int]);
                                            assert(-32768 <= m <= 32767);
                                            assert(newmults[jj as int] == m as int);
                                        }
                                        v = m as i16;
                                    } else {
                                        proof {
                                            assert(newmults[jj as int] == cur_m as int);
                                        }
                                        v = cur_m;
                                    }
                                    newm.push(v);
                                    jj += 1;
                                }
                                acc.mults = newm;
                                proof {
                                    assert(acc@.mults =~= newmults);
                                    assert(acc@ =~= (SpellPartView {
                                        mults: newmults,
                                        ..pcur.acc
                                    }));
                                }
                            },
                            EffectPartKey::Hits => {
                                apply_hits_exec(&mut parts, effect, pf.pos, pf.value as usize);
                                proof {
                                    assert(parts_view(parts@) == crate::decode::apply_hits(
                                        pcur.parts,
                                        sub_stream(
                                            effect.hit_entries@,
                                            pf.pos as int,
                                            pf.value as int,
                                        ),
                                    ));
                                }
                            },
                        }
                        proof {
                            let pnew = crate::decode::PartAccState {
                                parts: parts_view(parts@),
                                acc: acc@,
                            };
                            assert(pnew == crate::decode::part_step(pcur, pf, *effect));
                            assert(crate::decode::part_run(pcur, pfs, *effect, (k - ps_) as int)
                                == crate::decode::part_run(
                                pnew,
                                pfs,
                                *effect,
                                (k - ps_) as int + 1,
                            ));
                        }
                        k += 1;
                    }
                    proof {
                        let pfin = crate::decode::PartAccState {
                            parts: parts_view(parts@),
                            acc: acc@,
                        };
                        assert(crate::decode::part_run(pfin, pfs, *effect, (k - ps_) as int)
                            == pfin);
                        assert(crate::decode::part_run(ps0, pfs, *effect, 0) == pfin);
                    }
                    if acc.id != 0 {
                        let ghost before = parts@;
                        let ghost accv = acc@;
                        parts.push(acc);
                        proof {
                            lemma_parts_view_push(before, parts@[before.len() as int]);
                            assert(parts@[before.len() as int]@ == accv);
                        }
                    }
                    proof {
                        assert(parts_view(parts@) == crate::decode::run_parts(
                            cur.parts,
                            pfs,
                            *effect,
                        ));
                        assert(parts_view(parts@) == st2.parts);
                    }
                },
                EffectKey::Hide | EffectKey::SliderDefault | EffectKey::Multipliers
                    | EffectKey::Bonuses | EffectKey::Output | EffectKey::Inputs
                    | EffectKey::Hits => {
                    proof {
                        assert(crate::decode::replace_run(cur, *effect, i as int) == Err::<
                            crate::decode::ReplaceState,
                            DecodeError,
                        >(DecodeError::UnsupportedField(f.key)));
                    }
                    return Err(DecodeError::UnsupportedField(f.key));
                },
                EffectKey::TargetPart | EffectKey::Toggle | EffectKey::Slider
                    | EffectKey::SliderName | EffectKey::SliderMax | EffectKey::SliderStep
                    | EffectKey::Behavior | EffectKey::Round => {
                    proof {
                        assert(crate::decode::replace_run(cur, *effect, i as int) == Err::<
                            crate::decode::ReplaceState,
                            DecodeError,
                        >(DecodeError::StructurallyInvalidField(f.key)));
                    }
                    return Err(DecodeError::StructurallyInvalidField(f.key));
                },
            }
            proof {
                let newcur = crate::decode::ReplaceState {
                    cost: cost as int,
                    parts: parts_view(parts@),
                };
                assert(crate::decode::replace_step(cur, f, *effect) == Ok::<
                    crate::decode::ReplaceState,
                    DecodeError,
                >(newcur));
                assert(crate::decode::replace_run(cur, *effect, i as int)
                    == crate::decode::replace_run(newcur, *effect, i as int + 1));
                assert(crate::decode::replace_fits(newcur, *effect, i as int + 1));
                assert(newcur.wf());
            }
            i += 1;
        }
        let ghost fin = crate::decode::ReplaceState { cost: cost as int, parts: parts_view(parts@) };
        proof {
            assert(crate::decode::replace_run(fin, *effect, n as int) == Ok::<
                crate::decode::ReplaceState,
                DecodeError,
            >(fin));
            assert(crate::decode::spec_make_spell(*effect) == Ok::<SpellView, DecodeError>(
                fin.as_spell(),
            ));
        }
        let r = Spell { cost, parts };
        proof {
            assert(r@ == fin.as_spell());
        }
        Ok(r)
    }
}

impl Default for Spell {
    /// An empty spell: no cost and no parts yet.
    fn default() -> (r: Spell)
        ensures
            r@.wf(),
            r@.cost == 0,
            r@.parts.len() == 0,
    {
        Spell { cost: 0, parts: Vec::new() }
    }
}

} // verus!
