//! The effect-data record format.
//!
//! A record reaches the decoders as an `Effect`: an ordered sequence of
//! tagged top-level fields together with three randomly-addressable tables
//! (multiplier values, hit entries, per-part fields). A field whose tag opens
//! a sub-stream carries the sub-stream's starting position in the relevant
//! table; the field's value is the number of items to read from there. A
//! sub-stream is clipped at the table's end.

use vstd::prelude::*;

verus! {

/// Field tags that the record vocabulary defines for top-level fields.
#[derive(Clone, Copy, PartialEq, Eq, Structural, Debug)]
pub enum EffectKey {
    Type,
    Name,
    Cost,
    BaseSpell,
    TargetPart,
    UseAtkspd,
    Round,
    Behavior,
    Power,
    Multipliers,
    Hits,
    Parts,
    Scaling,
    Bonuses,
    Output,
    Inputs,
    Max,
    Slider,
    SliderName,
    SliderMax,
    SliderStep,
    SliderDefault,
    Toggle,
    Hide,
}

/// Field tags that may appear inside a per-part sub-record.
#[derive(Clone, Copy, PartialEq, Eq, Structural, Debug)]
pub enum EffectPartKey {
    Name,
    Type,
    Power,
    Multipliers,
    Hits,
}

/// The two record modes the decoders accept.
#[derive(Clone, Copy, PartialEq, Eq, Structural, Debug)]
pub enum EffectType {
    /// Incrementally modifies an existing spell (additive merge).
    AddSpellProp,
    /// Fully redefines a spell (overwrite).
    ReplaceSpell,
}

/// The numeric code a record's `Type` field holds for each mode.
pub open spec fn spec_effect_type_code(t: EffectType) -> i32 {
    match t {
        EffectType::AddSpellProp => 1,
        EffectType::ReplaceSpell => 2,
    }
}

/// The numeric code a record's `Type` field holds for each mode.
pub fn effect_type_code(t: EffectType) -> (r: i32)
    ensures
        r == spec_effect_type_code(t),
{
    match t {
        EffectType::AddSpellProp => 1,
        EffectType::ReplaceSpell => 2,
    }
}

/// One top-level field: a tag, a value, and the starting position of the
/// sub-stream the field addresses (meaningful only for tags that open one).
#[derive(Clone, Copy, PartialEq, Eq, Structural, Debug)]
pub struct Field {
    pub key: EffectKey,
    pub value: i32,
    pub pos: usize,
}

/// One field of a per-part sub-record, laid out like a top-level field.
#[derive(Clone, Copy, PartialEq, Eq, Structural, Debug)]
pub struct PartField {
    pub key: EffectPartKey,
    pub value: i32,
    pub pos: usize,
}

/// One entry of the hit table: a part reference and a hit count.
#[derive(Clone, Copy, PartialEq, Eq, Structural, Debug)]
pub struct HitEntry {
    pub part_id: i32,
    pub num_hits: i32,
}

/// An effect record, already materialized: the top-level fields in stream
/// order, and the three tables that sub-streams are read from.
pub struct Effect {
    pub fields: Vec<Field>,
    pub mult_values: Vec<i32>,
    pub hit_entries: Vec<HitEntry>,
    pub part_fields: Vec<PartField>,
}

/// Counts are non-negative, and a multiplier vector never addresses more than
/// the six channels.
pub open spec fn field_count_ok(f: Field) -> bool {
    match f.key {
        EffectKey::Multipliers => 0 <= f.value <= 6,
        EffectKey::Hits | EffectKey::Parts => 0 <= f.value,
        _ => true,
    }
}

/// The analogue of `field_count_ok` for per-part fields, plus the width of
/// the values a per-part field stores directly: a part name is an 8-bit
/// identifier and a power modifier is a signed 8-bit value.
pub open spec fn part_field_ok(f: PartField) -> bool {
    match f.key {
        EffectPartKey::Multipliers => 0 <= f.value <= 6,
        EffectPartKey::Hits => 0 <= f.value,
        EffectPartKey::Name => 0 <= f.value <= 255,
        EffectPartKey::Power => -128 <= f.value <= 127,
        EffectPartKey::Type => true,
    }
}

/// Hit entries reference parts by nonzero 8-bit identifier and store an
/// 8-bit hit count.
pub open spec fn hit_entry_ok(h: HitEntry) -> bool {
    1 <= h.part_id <= 255 && 0 <= h.num_hits <= 255
}

impl Effect {
    /// The structural constraints of the encoding: every stored value fits
    /// the width its field has in the decoded model.
    pub open spec fn wf(&self) -> bool {
        &&& forall|i: int|
            0 <= i < self.fields@.len() ==> field_count_ok(#[trigger] self.fields@[i])
        &&& forall|i: int|
            0 <= i < self.part_fields@.len() ==> part_field_ok(#[trigger] self.part_fields@[i])
        &&& forall|i: int|
            0 <= i < self.mult_values@.len() ==> -32768 <= #[trigger] self.mult_values@[i]
                <= 32767
        &&& forall|i: int|
            0 <= i < self.hit_entries@.len() ==> hit_entry_ok(#[trigger] self.hit_entries@[i])
    }
}

/// The `count` items of table `s` starting at `pos`, clipped to the table's
/// end: a bounded sub-iteration stops early when the table runs out.
pub open spec fn sub_stream<T>(s: Seq<T>, pos: int, count: int) -> Seq<T> {
    if pos < 0 || count < 0 || pos >= s.len() {
        Seq::empty()
    } else if pos + count <= s.len() {
        s.subrange(pos, pos + count)
    } else {
        s.subrange(pos, s.len() as int)
    }
}

/// How a decode fails. A failed decode leaves the caller's spell untouched.
#[derive(Clone, Copy, PartialEq, Eq, Structural, Debug)]
pub enum DecodeError {
    /// The record's declared type disagrees with the decoder invoked.
    TypeMismatch,
    /// The tag can never legally occur in this record mode: the record is
    /// corrupt or of an unrecognized layout.
    StructurallyInvalidField(EffectKey),
    /// The tag belongs to the vocabulary but its handling is intentionally
    /// not yet modeled; surfaced by name so callers can log or skip.
    UnsupportedField(EffectKey),
}

} // verus!
