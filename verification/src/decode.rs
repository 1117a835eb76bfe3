//! The decode semantics, stated as spec functions: a fold over the record's
//! top-level fields. The executable decoders' contracts say that they return
//! exactly what these functions compute.
//!
//! The fold works over unbounded integers. The `*_fits` predicates say that
//! every intermediate state along the fold stays within the stored
//! representation's ranges (and keeps part identifiers unique); they are the
//! decoders' preconditions, and exclude exactly the records on which the
//! stored arithmetic would leave its width.

use vstd::prelude::*;
use crate::effect::DecodeError;
use crate::effect::Effect;
use crate::effect::EffectKey;
use crate::effect::EffectPartKey;
use crate::effect::EffectType;
use crate::effect::Field;
use crate::effect::HitEntry;
use crate::effect::PartField;
use crate::effect::spec_effect_type_code;
use crate::effect::sub_stream;
use crate::spells::SpellPartView;
use crate::spells::SpellView;
use crate::spells::find_part;
use crate::spells::fresh_part;

verus! {

/// `mults` with the sub-stream's values added channel by channel: how
/// stacking bonuses merge.
pub open spec fn add_mults(mults: Seq<int>, vals: Seq<i32>) -> Seq<int> {
    Seq::new(6, |j: int| mults[j] + if j < vals.len() { vals[j] as int } else { 0 })
}

/// `mults` with the first `vals.len()` channels overwritten positionally.
pub open spec fn set_mults(mults: Seq<int>, vals: Seq<i32>) -> Seq<int> {
    Seq::new(6, |j: int| if j < vals.len() { vals[j] as int } else { mults[j] })
}

/// Apply a hit table: resolve each referenced part in order, creating it
/// when absent, and overwrite its hit count.
pub open spec fn apply_hits(parts: Seq<SpellPartView>, entries: Seq<HitEntry>) -> Seq<
    SpellPartView,
>
    decreases entries.len(),
{
    if entries.len() == 0 {
        parts
    } else {
        let e = entries[0];
        let k = find_part(parts, e.part_id as int);
        let parts2 = if k < parts.len() {
            parts.update(k, SpellPartView { hits: e.num_hits as int, ..parts[k] })
        } else {
            parts.push(SpellPartView { hits: e.num_hits as int, ..fresh_part(e.part_id as int) })
        };
        apply_hits(parts2, entries.drop_first())
    }
}

/// Decoder state while walking a modify record: the working cost and parts,
/// and the index of the part that `Power` and `Multipliers` fields target.
pub struct ModifyState {
    pub cost: int,
    pub parts: Seq<SpellPartView>,
    pub target: int,
}

impl ModifyState {
    pub open spec fn as_spell(self) -> SpellView {
        SpellView { cost: self.cost, parts: self.parts }
    }

    pub open spec fn wf(self) -> bool {
        self.as_spell().wf() && 0 <= self.target
    }
}

/// One step of the modify walk, dispatching on the field's tag.
pub open spec fn modify_step(st: ModifyState, f: Field, e: Effect) -> Result<
    ModifyState,
    DecodeError,
> {
    match f.key {
        EffectKey::Type => if f.value == spec_effect_type_code(EffectType::AddSpellProp) {
            Ok(st)
        } else {
            Err(DecodeError::TypeMismatch)
        },
        EffectKey::Name => Ok(st),
        EffectKey::Cost => Ok(ModifyState { cost: st.cost + f.value, ..st }),
        EffectKey::TargetPart => {
            let k = find_part(st.parts, f.value as int);
            if k < st.parts.len() {
                Ok(ModifyState { target: k, ..st })
            } else {
                Ok(
                    ModifyState {
                        parts: st.parts.push(fresh_part(f.value as int)),
                        target: k,
                        ..st
                    },
                )
            }
        },
        EffectKey::Power => Ok(
            ModifyState {
                parts: st.parts.update(
                    st.target,
                    SpellPartView { power: f.value as int, ..st.parts[st.target] },
                ),
                ..st
            },
        ),
        EffectKey::Multipliers => {
            let vals = sub_stream(e.mult_values@, f.pos as int, f.value as int);
            let p = st.parts[st.target];
            Ok(
                ModifyState {
                    parts: st.parts.update(
                        st.target,
                        SpellPartView { mults: add_mults(p.mults, vals), ..p },
                    ),
                    ..st
                },
            )
        },
        EffectKey::Hits => Ok(
            ModifyState {
                parts: apply_hits(
                    st.parts,
                    sub_stream(e.hit_entries@, f.pos as int, f.value as int),
                ),
                ..st
            },
        ),
        EffectKey::UseAtkspd | EffectKey::Round | EffectKey::Behavior | EffectKey::BaseSpell
            | EffectKey::SliderDefault | EffectKey::Hide => Err(
            DecodeError::UnsupportedField(f.key),
        ),
        EffectKey::Parts | EffectKey::Scaling | EffectKey::Bonuses | EffectKey::Output
            | EffectKey::Inputs | EffectKey::Max | EffectKey::Slider | EffectKey::SliderName
            | EffectKey::SliderMax | EffectKey::SliderStep | EffectKey::Toggle => Err(
            DecodeError::StructurallyInvalidField(f.key),
        ),
    }
}

/// The side conditions of one modify step: a part-targeting field has a part
/// to target, and the step's result stays well formed.
pub open spec fn modify_step_ok(st: ModifyState, f: Field, e: Effect) -> bool {
    &&& match f.key {
        EffectKey::Power | EffectKey::Multipliers => st.target < st.parts.len(),
        _ => true,
    }
    &&& match modify_step(st, f, e) {
        Ok(st2) => st2.wf(),
        Err(_) => true,
    }
}

/// The modify walk from field `i` on.
pub open spec fn modify_run(st: ModifyState, e: Effect, i: int) -> Result<
    ModifyState,
    DecodeError,
>
    decreases e.fields@.len() - i,
{
    if i < 0 || i >= e.fields@.len() {
        Ok(st)
    } else {
        match modify_step(st, e.fields@[i], e) {
            Ok(st2) => modify_run(st2, e, i + 1),
            Err(er) => Err(er),
        }
    }
}

/// Every step of the modify walk from field `i` on meets its side
/// conditions, until the walk ends or fails.
pub open spec fn modify_fits(st: ModifyState, e: Effect, i: int) -> bool
    decreases e.fields@.len() - i,
{
    if i < 0 || i >= e.fields@.len() {
        true
    } else {
        &&& modify_step_ok(st, e.fields@[i], e)
        &&& match modify_step(st, e.fields@[i], e) {
            Ok(st2) => modify_fits(st2, e, i + 1),
            Err(_) => true,
        }
    }
}

/// The walk's starting state over an existing spell: the first part is the
/// initial target.
pub open spec fn modify_start(s: SpellView) -> ModifyState {
    ModifyState { cost: s.cost, parts: s.parts, target: 0 }
}

/// The full modify decode of spell `s` under record `e`.
pub open spec fn spec_add_spell_prop(s: SpellView, e: Effect) -> Result<SpellView, DecodeError> {
    match modify_run(modify_start(s), e, 0) {
        Ok(st) => Ok(st.as_spell()),
        Err(er) => Err(er),
    }
}

/// The modify decode of `s` under `e` stays within the representation.
pub open spec fn spec_modify_fits(s: SpellView, e: Effect) -> bool {
    modify_fits(modify_start(s), e, 0)
}

/// Decoder state while walking a replace record.
pub struct ReplaceState {
    pub cost: int,
    pub parts: Seq<SpellPartView>,
}

impl ReplaceState {
    pub open spec fn as_spell(self) -> SpellView {
        SpellView { cost: self.cost, parts: self.parts }
    }

    pub open spec fn wf(self) -> bool {
        self.as_spell().wf()
    }
}

/// State of a `Parts` sub-stream walk: the parts appended so far and the
/// part being accumulated. Identifier zero marks an empty accumulator.
pub struct PartAccState {
    pub parts: Seq<SpellPartView>,
    pub acc: SpellPartView,
}

/// One step of a per-part sub-record walk.
pub open spec fn part_step(ps: PartAccState, pf: PartField, e: Effect) -> PartAccState {
    match pf.key {
        EffectPartKey::Name => {
            let flushed = if ps.acc.id != 0 {
                PartAccState { parts: ps.parts.push(ps.acc), acc: fresh_part(0) }
            } else {
                ps
            };
            PartAccState {
                parts: flushed.parts,
                acc: SpellPartView { id: pf.value as int, ..flushed.acc },
            }
        },
        EffectPartKey::Type => ps,
        EffectPartKey::Power => PartAccState {
            acc: SpellPartView { power: pf.value as int, ..ps.acc },
            ..ps
        },
        EffectPartKey::Multipliers => PartAccState {
            acc: SpellPartView {
                mults: set_mults(
                    ps.acc.mults,
                    sub_stream(e.mult_values@, pf.pos as int, pf.value as int),
                ),
                ..ps.acc
            },
            ..ps
        },
        EffectPartKey::Hits => PartAccState {
            parts: apply_hits(ps.parts, sub_stream(e.hit_entries@, pf.pos as int, pf.value as int)),
            ..ps
        },
    }
}

/// The per-part walk from sub-field `i` on.
pub open spec fn part_run(ps: PartAccState, pfs: Seq<PartField>, e: Effect, i: int) -> PartAccState
    decreases pfs.len() - i,
{
    if i < 0 || i >= pfs.len() {
        ps
    } else {
        part_run(part_step(ps, pfs[i], e), pfs, e, i + 1)
    }
}

/// Decode one `Parts` sub-stream: run the per-part fields, then append a
/// pending accumulator with a nonzero identifier.
pub open spec fn run_parts(parts: Seq<SpellPartView>, pfs: Seq<PartField>, e: Effect) -> Seq<
    SpellPartView,
> {
    let ps = part_run(PartAccState { parts, acc: fresh_part(0) }, pfs, e, 0);
    if ps.acc.id != 0 {
        ps.parts.push(ps.acc)
    } else {
        ps.parts
    }
}

/// One step of the replace walk, dispatching on the field's tag.
pub open spec fn replace_step(st: ReplaceState, f: Field, e: Effect) -> Result<
    ReplaceState,
    DecodeError,
> {
    match f.key {
        EffectKey::Type => if f.value == spec_effect_type_code(EffectType::ReplaceSpell) {
            Ok(st)
        } else {
            Err(DecodeError::TypeMismatch)
        },
        EffectKey::Name | EffectKey::BaseSpell | EffectKey::Max | EffectKey::UseAtkspd
            | EffectKey::Scaling | EffectKey::Power => Ok(st),
        EffectKey::Cost => Ok(ReplaceState { cost: f.value as int, ..st }),
        EffectKey::Parts => Ok(
            ReplaceState {
                parts: run_parts(
                    st.parts,
                    sub_stream(e.part_fields@, f.pos as int, f.value as int),
                    e,
                ),
                ..st
            },
        ),
        EffectKey::TargetPart | EffectKey::Toggle | EffectKey::Slider | EffectKey::SliderName
            | EffectKey::SliderMax | EffectKey::SliderStep | EffectKey::Behavior
            | EffectKey::Round => Err(DecodeError::StructurallyInvalidField(f.key)),
        EffectKey::Hide | EffectKey::SliderDefault | EffectKey::Multipliers | EffectKey::Bonuses
            | EffectKey::Output | EffectKey::Inputs | EffectKey::Hits => Err(
            DecodeError::UnsupportedField(f.key),
        ),
    }
}

/// The side condition of one replace step: its result stays well formed.
pub open spec fn replace_step_ok(st: ReplaceState, f: Field, e: Effect) -> bool {
    match replace_step(st, f, e) {
        Ok(st2) => st2.wf(),
        Err(_) => true,
    }
}

/// The replace walk from field `i` on.
pub open spec fn replace_run(st: ReplaceState, e: Effect, i: int) -> Result<
    ReplaceState,
    DecodeError,
>
    decreases e.fields@.len() - i,
{
    if i < 0 || i >= e.fields@.len() {
        Ok(st)
    } else {
        match replace_step(st, e.fields@[i], e) {
            Ok(st2) => replace_run(st2, e, i + 1),
            Err(er) => Err(er),
        }
    }
}

/// Every step of the replace walk from field `i` on keeps the state well
/// formed, until the walk ends or fails.
pub open spec fn replace_fits(st: ReplaceState, e: Effect, i: int) -> bool
    decreases e.fields@.len() - i,
{
    if i < 0 || i >= e.fields@.len() {
        true
    } else {
        &&& replace_step_ok(st, e.fields@[i], e)
        &&& match replace_step(st, e.fields@[i], e) {
            Ok(st2) => replace_fits(st2, e, i + 1),
            Err(_) => true,
        }
    }
}

/// The replace walk's starting state: a brand-new spell.
pub open spec fn replace_start() -> ReplaceState {
    ReplaceState { cost: 0, parts: Seq::empty() }
}

/// The full replace decode of record `e` into a new spell.
pub open spec fn spec_make_spell(e: Effect) -> Result<SpellView, DecodeError> {
    match replace_run(replace_start(), e, 0) {
        Ok(st) => Ok(st.as_spell()),
        Err(er) => Err(er),
    }
}

/// The replace decode of `e` stays within the representation.
pub open spec fn spec_replace_fits(e: Effect) -> bool {
    replace_fits(replace_start(), e, 0)
}

} // verus!
