//! Properties of the decoders that relate several operations, each stated
//! over the decode semantics and proved once and for all.

use vstd::prelude::*;
use crate::decode::ModifyState;
use crate::decode::ReplaceState;
use crate::decode::PartAccState;
use crate::decode::add_mults;
use crate::decode::set_mults;
use crate::decode::modify_run;
use crate::decode::modify_start;
use crate::decode::modify_step;
use crate::decode::modify_step_ok;
use crate::decode::modify_fits;
use crate::decode::part_run;
use crate::decode::part_step;
use crate::decode::replace_run;
use crate::decode::replace_start;
use crate::decode::replace_step;
use crate::decode::replace_step_ok;
use crate::decode::replace_fits;
use crate::decode::run_parts;
use crate::decode::spec_add_spell_prop;
use crate::decode::spec_make_spell;
use crate::decode::spec_modify_fits;
use crate::decode::spec_replace_fits;
use crate::effect::DecodeError;
use crate::effect::Effect;
use crate::effect::EffectKey;
use crate::effect::EffectPartKey;
use crate::effect::EffectType;
use crate::effect::Field;
use crate::effect::PartField;
use crate::effect::spec_effect_type_code;
use crate::effect::sub_stream;
use crate::spells::SpellPartView;
use crate::spells::SpellView;
use crate::spells::find_part;
use crate::spells::fresh_part;
use crate::spells::lemma_find_part;

verus! {

/// A modify record whose declared type (the leading `Type` field) is not
/// AddSpellProp fails with TypeMismatch, whatever else the record holds;
/// `add_spell_prop`'s contract then guarantees the target spell is left
/// unchanged.
pub proof fn lemma_modify_type_mismatch(s: SpellView, e: Effect)
    requires
        e.fields@.len() >= 1,
        e.fields@[0].key == EffectKey::Type,
        e.fields@[0].value != spec_effect_type_code(EffectType::AddSpellProp),
    ensures
        spec_add_spell_prop(s, e) == Err::<SpellView, DecodeError>(DecodeError::TypeMismatch),
{
    let st0 = modify_start(s);
    assert(modify_step(st0, e.fields@[0], e) == Err::<ModifyState, DecodeError>(
        DecodeError::TypeMismatch,
    ));
    assert(modify_run(st0, e, 0) == Err::<ModifyState, DecodeError>(DecodeError::TypeMismatch));
}

/// Applying a modify record that targets an unseen part `p` and then merges
/// the multiplier vector [10, 0, 0, 0, 0, 0] into it, to a spell with no
/// parts, creates exactly one part: identifier `p`, those multipliers, one
/// hit, and otherwise the fresh-part baseline. The cost is untouched.
pub proof fn lemma_modify_creates_part(s: SpellView, e: Effect, p: i32)
    requires
        s.wf(),
        s.parts.len() == 0,
        1 <= p <= 255,
        e.fields@ =~= seq![
            (Field { key: EffectKey::TargetPart, value: p, pos: 0 }),
            (Field { key: EffectKey::Multipliers, value: 6, pos: 0 }),
        ],
        e.mult_values@ =~= seq![10i32, 0i32, 0i32, 0i32, 0i32, 0i32],
    ensures
        spec_modify_fits(s, e),
        spec_add_spell_prop(s, e) matches Ok(s2) && s2.cost == s.cost && s2.parts.len() == 1
            && s2.parts[0] =~= (SpellPartView {
            id: p as int,
            mults: seq![10, 0, 0, 0, 0, 0],
            hits: 1,
            final_mult: 100,
            power: 0,
        }),
{
    let st0 = modify_start(s);
    let f0 = e.fields@[0];
    let f1 = e.fields@[1];
    lemma_find_part(st0.parts, p as int);
    let st1 = ModifyState { parts: st0.parts.push(fresh_part(p as int)), target: 0, ..st0 };
    assert(find_part(st0.parts, p as int) == 0);
    assert(modify_step(st0, f0, e) == Ok::<ModifyState, DecodeError>(st1));
    let vals = sub_stream(e.mult_values@, 0, 6);
    assert(vals =~= e.mult_values@);
    let p1 = st1.parts[0];
    assert(p1 == fresh_part(p as int));
    let newmults = add_mults(p1.mults, vals);
    assert(newmults =~= seq![10, 0, 0, 0, 0, 0]);
    let st2 = ModifyState {
        parts: st1.parts.update(0, SpellPartView { mults: newmults, ..p1 }),
        ..st1
    };
    assert(modify_step(st1, f1, e) == Ok::<ModifyState, DecodeError>(st2));
    assert(modify_run(st2, e, 2) == Ok::<ModifyState, DecodeError>(st2));
    assert(modify_run(st1, e, 1) == Ok::<ModifyState, DecodeError>(st2));
    assert(modify_run(st0, e, 0) == Ok::<ModifyState, DecodeError>(st2));
    assert(st1.wf());
    assert(st2.parts[0].wf());
    assert(st2.wf());
    assert(modify_step_ok(st0, f0, e));
    assert(modify_step_ok(st1, f1, e));
    assert(modify_fits(st2, e, 2));
    assert(modify_fits(st1, e, 1));
    assert(modify_fits(st0, e, 0));
}

/// Part identity is stable across records: applying the record of
/// `lemma_modify_creates_part` twice in succession still yields a single
/// part (not two), and its multipliers merge additively to [20, 0, 0, 0, 0,
/// 0].
pub proof fn lemma_modify_merges_additively(s: SpellView, e: Effect, p: i32)
    requires
        s.wf(),
        s.parts.len() == 0,
        1 <= p <= 255,
        e.fields@ =~= seq![
            (Field { key: EffectKey::TargetPart, value: p, pos: 0 }),
            (Field { key: EffectKey::Multipliers, value: 6, pos: 0 }),
        ],
        e.mult_values@ =~= seq![10i32, 0i32, 0i32, 0i32, 0i32, 0i32],
    ensures
        ({
            &&& spec_add_spell_prop(s, e) matches Ok(s1)
            &&& spec_modify_fits(s1, e)
            &&& spec_add_spell_prop(s1, e) matches Ok(s2)
            &&& s2.cost == s.cost
            &&& s2.parts.len() == 1
            &&& s2.parts[0] =~= (SpellPartView {
                id: p as int,
                mults: seq![20, 0, 0, 0, 0, 0],
                hits: 1,
                final_mult: 100,
                power: 0,
            })
        }),
{
    lemma_modify_creates_part(s, e, p);
    let s1 = spec_add_spell_prop(s, e)->Ok_0;
    let st0 = modify_start(s1);
    let f0 = e.fields@[0];
    let f1 = e.fields@[1];
    lemma_find_part(st0.parts, p as int);
    assert(st0.parts[0].id == p as int);
    assert(find_part(st0.parts, p as int) == 0);
    let st1 = ModifyState { target: 0, ..st0 };
    assert(modify_step(st0, f0, e) == Ok::<ModifyState, DecodeError>(st1));
    let vals = sub_stream(e.mult_values@, 0, 6);
    assert(vals =~= e.mult_values@);
    let p1 = st1.parts[0];
    let newmults = add_mults(p1.mults, vals);
    assert(newmults =~= seq![20, 0, 0, 0, 0, 0]);
    let st2 = ModifyState {
        parts: st1.parts.update(0, SpellPartView { mults: newmults, ..p1 }),
        ..st1
    };
    assert(modify_step(st1, f1, e) == Ok::<ModifyState, DecodeError>(st2));
    assert(modify_run(st2, e, 2) == Ok::<ModifyState, DecodeError>(st2));
    assert(modify_run(st1, e, 1) == Ok::<ModifyState, DecodeError>(st2));
    assert(modify_run(st0, e, 0) == Ok::<ModifyState, DecodeError>(st2));
    assert(st1.wf());
    assert(st2.parts[0].wf());
    assert(st2.wf());
    assert(modify_step_ok(st0, f0, e));
    assert(modify_step_ok(st1, f1, e));
    assert(modify_fits(st2, e, 2));
    assert(modify_fits(st1, e, 1));
    assert(modify_fits(st0, e, 0));
}

/// Under modify, `Cost` accumulates: a record holding a single `Cost = c`
/// field raises the cost by `c`, so applying it twice raises it by `2 * c`
/// and leaves the parts alone.
pub proof fn lemma_modify_cost_adds(s: SpellView, e: Effect, c: i32)
    requires
        s.wf(),
        e.fields@ =~= seq![(Field { key: EffectKey::Cost, value: c, pos: 0 })],
        -0x8000_0000 <= s.cost + c <= 0x7fff_ffff,
        -0x8000_0000 <= s.cost + 2 * c <= 0x7fff_ffff,
    ensures
        spec_modify_fits(s, e),
        ({
            &&& spec_add_spell_prop(s, e) matches Ok(s1)
            &&& s1.cost == s.cost + c
            &&& s1.parts == s.parts
            &&& spec_modify_fits(s1, e)
            &&& spec_add_spell_prop(s1, e) matches Ok(s2)
            &&& s2.cost == s.cost + 2 * c
            &&& s2.parts == s.parts
        }),
{
    let st0 = modify_start(s);
    let f0 = e.fields@[0];
    let st1 = ModifyState { cost: s.cost + c, ..st0 };
    assert(modify_step(st0, f0, e) == Ok::<ModifyState, DecodeError>(st1));
    assert(modify_run(st1, e, 1) == Ok::<ModifyState, DecodeError>(st1));
    assert(st1.wf());
    assert(modify_fits(st1, e, 1));
    assert(modify_fits(st0, e, 0));
    let s1 = spec_add_spell_prop(s, e)->Ok_0;
    assert(s1 == st1.as_spell());
    let st0b = modify_start(s1);
    let st1b = ModifyState { cost: s1.cost + c, ..st0b };
    assert(modify_step(st0b, f0, e) == Ok::<ModifyState, DecodeError>(st1b));
    assert(modify_run(st1b, e, 1) == Ok::<ModifyState, DecodeError>(st1b));
    assert(st1b.wf());
    assert(modify_fits(st1b, e, 1));
    assert(modify_fits(st0b, e, 0));
}

/// Under replace, `Cost` overwrites rather than accumulates: whatever was
/// decoded before, a replace record holding `Cost = c` yields a spell whose
/// cost is exactly `c` (the decode starts from scratch, so no prior state
/// can leak in).
pub proof fn lemma_replace_cost_overwrites(e: Effect, c: i32)
    requires
        e.fields@ =~= seq![(Field { key: EffectKey::Cost, value: c, pos: 0 })],
    ensures
        spec_replace_fits(e),
        spec_make_spell(e) matches Ok(s) && s.cost == c as int && s.parts.len() == 0,
{
    let st0 = replace_start();
    let f0 = e.fields@[0];
    let st1 = ReplaceState { cost: c as int, ..st0 };
    assert(replace_step(st0, f0, e) == Ok::<ReplaceState, DecodeError>(st1));
    assert(replace_run(st1, e, 1) == Ok::<ReplaceState, DecodeError>(st1));
    assert(st1.wf());
    assert(replace_fits(st1, e, 1));
    assert(replace_fits(st0, e, 0));
}

/// A replace record whose `Parts` sub-stream holds two per-part records --
/// Name `a` with multipliers [100, 0, 0, 0, 0, 0], then Name `b` with
/// [0, 100, 0, 0, 0, 0] -- yields the parts in encounter order: `a` first,
/// `b` second.
pub proof fn lemma_replace_part_order(e: Effect, a: i32, b: i32)
    requires
        1 <= a <= 255,
        1 <= b <= 255,
        a != b,
        e.fields@ =~= seq![(Field { key: EffectKey::Parts, value: 4, pos: 0 })],
        e.part_fields@ =~= seq![
            (PartField { key: EffectPartKey::Name, value: a, pos: 0 }),
            (PartField { key: EffectPartKey::Multipliers, value: 6, pos: 0 }),
            (PartField { key: EffectPartKey::Name, value: b, pos: 0 }),
            (PartField { key: EffectPartKey::Multipliers, value: 6, pos: 6 }),
        ],
        e.mult_values@ =~= seq![
            100i32,
            0i32,
            0i32,
            0i32,
            0i32,
            0i32,
            0i32,
            100i32,
            0i32,
            0i32,
            0i32,
            0i32,
        ],
    ensures
        spec_replace_fits(e),
        spec_make_spell(e) matches Ok(s) && s.parts.len() == 2 && s.parts[0].id == a as int
            && s.parts[1].id == b as int && s.parts[0].mults =~= seq![100, 0, 0, 0, 0, 0]
            && s.parts[1].mults =~= seq![0, 100, 0, 0, 0, 0],
{
    let st0 = replace_start();
    let f0 = e.fields@[0];
    let pfs = sub_stream(e.part_fields@, 0, 4);
    assert(pfs =~= e.part_fields@);
    let ps0 = PartAccState { parts: st0.parts, acc: fresh_part(0) };
    let ps1 = part_step(ps0, pfs[0], e);
    assert(ps1.parts =~= ps0.parts);
    assert(ps1.acc =~= (SpellPartView { id: a as int, ..fresh_part(0) }));
    let vals1 = sub_stream(e.mult_values@, 0, 6);
    assert(vals1 =~= seq![100i32, 0i32, 0i32, 0i32, 0i32, 0i32]);
    let ps2 = part_step(ps1, pfs[1], e);
    let ma = set_mults(ps1.acc.mults, vals1);
    assert(ma =~= seq![100, 0, 0, 0, 0, 0]);
    assert(ps2.parts == ps1.parts);
    assert(ps2.acc =~= (SpellPartView {
        id: a as int,
        mults: seq![100, 0, 0, 0, 0, 0],
        hits: 1,
        final_mult: 100,
        power: 0,
    }));
    let ps3 = part_step(ps2, pfs[2], e);
    assert(ps3.parts =~= ps2.parts.push(ps2.acc));
    assert(ps3.acc =~= (SpellPartView { id: b as int, ..fresh_part(0) }));
    let vals2 = sub_stream(e.mult_values@, 6, 6);
    assert(vals2 =~= seq![0i32, 100i32, 0i32, 0i32, 0i32, 0i32]);
    let ps4 = part_step(ps3, pfs[3], e);
    let mb = set_mults(ps3.acc.mults, vals2);
    assert(mb =~= seq![0, 100, 0, 0, 0, 0]);
    assert(ps4.parts == ps3.parts);
    assert(ps4.acc =~= (SpellPartView {
        id: b as int,
        mults: seq![0, 100, 0, 0, 0, 0],
        hits: 1,
        final_mult: 100,
        power: 0,
    }));
    assert(part_run(ps4, pfs, e, 4) == ps4);
    assert(part_run(ps3, pfs, e, 3) == ps4);
    assert(part_run(ps2, pfs, e, 2) == ps4);
    assert(part_run(ps1, pfs, e, 1) == ps4);
    assert(part_run(ps0, pfs, e, 0) == ps4);
    let newparts = run_parts(st0.parts, pfs, e);
    assert(newparts == ps4.parts.push(ps4.acc));
    assert(newparts.len() == 2);
    let st1 = ReplaceState { cost: st0.cost, parts: newparts };
    assert(replace_step(st0, f0, e) == Ok::<ReplaceState, DecodeError>(st1));
    assert(replace_run(st1, e, 1) == Ok::<ReplaceState, DecodeError>(st1));
    assert(st1.parts[0].wf());
    assert(st1.parts[1].wf());
    assert(st1.wf());
    assert(replace_step_ok(st0, f0, e));
    assert(replace_fits(st1, e, 1));
    assert(replace_fits(st0, e, 0));
}

} // verus!
