use wynn_spells::effect::DecodeError;
use wynn_spells::effect::Effect;
use wynn_spells::effect::EffectKey;
use wynn_spells::effect::EffectPartKey;
use wynn_spells::effect::EffectType;
use wynn_spells::effect::Field;
use wynn_spells::effect::HitEntry;
use wynn_spells::effect::PartField;
use wynn_spells::effect::effect_type_code;
use wynn_spells::spells::Class;
use wynn_spells::spells::Spell;
use wynn_spells::spells::SpellPart;

fn eff(fields: Vec<Field>) -> Effect {
    Effect { fields, mult_values: Vec::new(), hit_entries: Vec::new(), part_fields: Vec::new() }
}

fn field(key: EffectKey, value: i32) -> Field {
    Field { key, value, pos: 0 }
}

#[test]
fn melee_default_baseline_every_class() {
    let classes = [Class::Archer, Class::Warrior, Class::Mage, Class::Assassin, Class::Shaman];
    for class in classes {
        let s = Spell::melee_default(class);
        assert_eq!(s.cost(), 0);
        assert_eq!(s.num_parts(), 1);
        assert_eq!(s.part(0).mults, vec![100i16, 0, 0, 0, 0, 0]);
        assert_eq!(s.part(0).hits, 1);
        assert_eq!(s.part(0).final_mult, 100);
        assert_eq!(s.part(0).power, 0);
    }
}

#[test]
fn melee_default_ids_distinct() {
    let classes = [Class::Archer, Class::Warrior, Class::Mage, Class::Assassin, Class::Shaman];
    for a in 0..classes.len() {
        let ia = Spell::melee_default(classes[a]).part(0).id();
        assert_ne!(ia, 0);
        for b in 0..a {
            let ib = Spell::melee_default(classes[b]).part(0).id();
            assert_ne!(ia, ib);
        }
    }
}

#[test]
fn total_mult_single_full_part() {
    let s = Spell::melee_default(Class::Warrior);
    let h = s.total_mult_hundredths();
    assert_eq!(h, vec![100, 0, 0, 0, 0, 0]);
    let f: Vec<f32> = h.iter().map(|v| *v as f32 / 100.0).collect();
    assert_eq!(f, vec![1.0, 0.0, 0.0, 0.0, 0.0, 0.0]);
}

#[test]
fn total_mult_two_hits_split_part() {
    let mut p = SpellPart::new(7);
    p.mults = vec![50, 50, 0, 0, 0, 0];
    p.hits = 2;
    let s = Spell { cost: 0, parts: vec![p] };
    let h = s.total_mult_hundredths();
    assert_eq!(h, vec![100, 100, 0, 0, 0, 0]);
    let f: Vec<f32> = h.iter().map(|v| *v as f32 / 100.0).collect();
    assert_eq!(f, vec![1.0, 1.0, 0.0, 0.0, 0.0, 0.0]);
}

#[test]
fn total_mult_sums_over_parts() {
    let mut a = SpellPart::new(1);
    a.mults = vec![10, -20, 0, 0, 0, 5];
    a.hits = 3;
    let mut b = SpellPart::new(2);
    b.mults = vec![100, 0, 1, 0, 0, 0];
    b.hits = 1;
    let s = Spell { cost: 0, parts: vec![a, b] };
    assert_eq!(s.total_mult_hundredths(), vec![130, -60, 1, 0, 0, 15]);
}

#[test]
fn modify_creates_unseen_target_part() {
    let mut s = Spell::default();
    let e = Effect {
        fields: vec![field(EffectKey::TargetPart, 9), field(EffectKey::Multipliers, 6)],
        mult_values: vec![10, 0, 0, 0, 0, 0],
        hit_entries: Vec::new(),
        part_fields: Vec::new(),
    };
    assert_eq!(s.add_spell_prop(&e), Ok(()));
    assert_eq!(s.num_parts(), 1);
    assert_eq!(s.part(0).id(), 9);
    assert_eq!(s.part(0).mults, vec![10i16, 0, 0, 0, 0, 0]);
    assert_eq!(s.part(0).hits, 1);
    assert_eq!(s.cost(), 0);
}

#[test]
fn modify_twice_merges_into_one_part() {
    let mut s = Spell::default();
    let e = Effect {
        fields: vec![field(EffectKey::TargetPart, 9), field(EffectKey::Multipliers, 6)],
        mult_values: vec![10, 0, 0, 0, 0, 0],
        hit_entries: Vec::new(),
        part_fields: Vec::new(),
    };
    assert_eq!(s.add_spell_prop(&e), Ok(()));
    assert_eq!(s.add_spell_prop(&e), Ok(()));
    assert_eq!(s.num_parts(), 1);
    assert_eq!(s.part(0).mults, vec![20i16, 0, 0, 0, 0, 0]);
}

#[test]
fn modify_cost_is_additive() {
    let mut s = Spell::default();
    let e = eff(vec![field(EffectKey::Cost, 5)]);
    assert_eq!(s.add_spell_prop(&e), Ok(()));
    assert_eq!(s.add_spell_prop(&e), Ok(()));
    assert_eq!(s.cost(), 10);
}

#[test]
fn replace_cost_overwrites() {
    let s = Spell::make_spell(&eff(vec![field(EffectKey::Cost, 7)])).unwrap();
    assert_eq!(s.cost(), 7);
    assert_eq!(s.num_parts(), 0);
}

#[test]
fn replace_keeps_part_order() {
    let e = Effect {
        fields: vec![field(EffectKey::Parts, 4)],
        mult_values: vec![100, 0, 0, 0, 0, 0, 0, 100, 0, 0, 0, 0],
        hit_entries: Vec::new(),
        part_fields: vec![
            PartField { key: EffectPartKey::Name, value: 3, pos: 0 },
            PartField { key: EffectPartKey::Multipliers, value: 6, pos: 0 },
            PartField { key: EffectPartKey::Name, value: 4, pos: 0 },
            PartField { key: EffectPartKey::Multipliers, value: 6, pos: 6 },
        ],
    };
    let s = Spell::make_spell(&e).unwrap();
    assert_eq!(s.num_parts(), 2);
    assert_eq!(s.part(0).id(), 3);
    assert_eq!(s.part(1).id(), 4);
    assert_eq!(s.part(0).mults, vec![100i16, 0, 0, 0, 0, 0]);
    assert_eq!(s.part(1).mults, vec![0i16, 100, 0, 0, 0, 0]);
}

#[test]
fn modify_type_mismatch_leaves_spell_unchanged() {
    let mut s = Spell::melee_default(Class::Mage);
    let e = eff(vec![
        field(EffectKey::Type, effect_type_code(EffectType::ReplaceSpell)),
        field(EffectKey::Cost, 42),
    ]);
    assert_eq!(s.add_spell_prop(&e), Err(DecodeError::TypeMismatch));
    assert_eq!(s.cost(), 0);
    assert_eq!(s.num_parts(), 1);
    assert_eq!(s.part(0).mults, vec![100i16, 0, 0, 0, 0, 0]);
}

#[test]
fn modify_accepts_matching_type() {
    let mut s = Spell::default();
    let e = eff(vec![
        field(EffectKey::Type, effect_type_code(EffectType::AddSpellProp)),
        field(EffectKey::Name, 1),
        field(EffectKey::Cost, 3),
    ]);
    assert_eq!(s.add_spell_prop(&e), Ok(()));
    assert_eq!(s.cost(), 3);
}

#[test]
fn replace_type_mismatch() {
    let e = eff(vec![field(EffectKey::Type, effect_type_code(EffectType::AddSpellProp))]);
    assert_eq!(Spell::make_spell(&e), Err(DecodeError::TypeMismatch));
}

#[test]
fn modify_rejects_structural_parts_field() {
    let mut s = Spell::melee_default(Class::Archer);
    let e = eff(vec![field(EffectKey::Cost, 1), field(EffectKey::Parts, 0)]);
    assert_eq!(
        s.add_spell_prop(&e),
        Err(DecodeError::StructurallyInvalidField(EffectKey::Parts))
    );
    // the failed decode discarded the cost it had read
    assert_eq!(s.cost(), 0);
}

#[test]
fn modify_surfaces_unsupported_field() {
    let mut s = Spell::melee_default(Class::Archer);
    let e = eff(vec![field(EffectKey::UseAtkspd, 1)]);
    assert_eq!(s.add_spell_prop(&e), Err(DecodeError::UnsupportedField(EffectKey::UseAtkspd)));
}

#[test]
fn replace_rejects_target_part() {
    let e = eff(vec![field(EffectKey::TargetPart, 1)]);
    assert_eq!(
        Spell::make_spell(&e),
        Err(DecodeError::StructurallyInvalidField(EffectKey::TargetPart))
    );
}

#[test]
fn replace_surfaces_unsupported_top_level_hits() {
    let e = eff(vec![field(EffectKey::Hits, 0)]);
    assert_eq!(Spell::make_spell(&e), Err(DecodeError::UnsupportedField(EffectKey::Hits)));
}

#[test]
fn replace_accepts_acknowledged_no_ops() {
    let e = eff(vec![
        field(EffectKey::Type, effect_type_code(EffectType::ReplaceSpell)),
        field(EffectKey::BaseSpell, 2),
        field(EffectKey::Max, 3),
        field(EffectKey::UseAtkspd, 1),
        field(EffectKey::Scaling, 0),
        field(EffectKey::Power, 5),
        field(EffectKey::Cost, 11),
    ]);
    let s = Spell::make_spell(&e).unwrap();
    assert_eq!(s.cost(), 11);
    assert_eq!(s.num_parts(), 0);
}

#[test]
fn modify_power_overwrites_target() {
    let mut s = Spell::melee_default(Class::Shaman);
    let e = eff(vec![field(EffectKey::Power, -3)]);
    assert_eq!(s.add_spell_prop(&e), Ok(()));
    assert_eq!(s.part(0).power, -3);
    let e2 = eff(vec![field(EffectKey::Power, 7)]);
    assert_eq!(s.add_spell_prop(&e2), Ok(()));
    assert_eq!(s.part(0).power, 7);
}

#[test]
fn modify_hit_table_overwrites_and_creates() {
    let mut s = Spell::melee_default(Class::Warrior);
    let melee_id = s.part(0).id() as i32;
    let e = Effect {
        fields: vec![Field { key: EffectKey::Hits, value: 2, pos: 0 }],
        mult_values: Vec::new(),
        hit_entries: vec![
            HitEntry { part_id: melee_id, num_hits: 4 },
            HitEntry { part_id: 200, num_hits: 9 },
        ],
        part_fields: Vec::new(),
    };
    assert_eq!(s.add_spell_prop(&e), Ok(()));
    assert_eq!(s.num_parts(), 2);
    assert_eq!(s.part(0).hits, 4);
    assert_eq!(s.part(1).id(), 200);
    assert_eq!(s.part(1).hits, 9);
    assert_eq!(s.part(1).mults, vec![0i16, 0, 0, 0, 0, 0]);
}

#[test]
fn modify_multiplier_sub_stream_clipped_at_table_end() {
    let mut s = Spell::melee_default(Class::Assassin);
    let e = Effect {
        fields: vec![Field { key: EffectKey::Multipliers, value: 6, pos: 4 }],
        mult_values: vec![0, 0, 0, 0, 25, -5],
        hit_entries: Vec::new(),
        part_fields: Vec::new(),
    };
    assert_eq!(s.add_spell_prop(&e), Ok(()));
    assert_eq!(s.part(0).mults, vec![125i16, -5, 0, 0, 0, 0]);
}

#[test]
fn replace_part_record_with_power_and_hits() {
    let e = Effect {
        fields: vec![
            field(EffectKey::Type, effect_type_code(EffectType::ReplaceSpell)),
            field(EffectKey::Cost, 20),
            Field { key: EffectKey::Parts, value: 6, pos: 0 },
        ],
        mult_values: vec![80, 0, 0, 0, 0, 20],
        hit_entries: vec![HitEntry { part_id: 6, num_hits: 3 }],
        part_fields: vec![
            PartField { key: EffectPartKey::Name, value: 6, pos: 0 },
            PartField { key: EffectPartKey::Type, value: 0, pos: 0 },
            PartField { key: EffectPartKey::Power, value: -2, pos: 0 },
            PartField { key: EffectPartKey::Multipliers, value: 6, pos: 0 },
            PartField { key: EffectPartKey::Name, value: 7, pos: 0 },
            // resolves against the parts appended so far, i.e. part 6,
            // which the second Name has just flushed out of the accumulator
            PartField { key: EffectPartKey::Hits, value: 1, pos: 0 },
        ],
    };
    let s = Spell::make_spell(&e).unwrap();
    assert_eq!(s.cost(), 20);
    assert_eq!(s.num_parts(), 2);
    assert_eq!(s.part(0).id(), 6);
    assert_eq!(s.part(0).power, -2);
    assert_eq!(s.part(0).mults, vec![80i16, 0, 0, 0, 0, 20]);
    assert_eq!(s.part(0).hits, 3);
    assert_eq!(s.part(1).id(), 7);
    assert_eq!(s.part(1).hits, 1);
}

#[test]
fn replace_name_zero_accumulates_nothing() {
    let e = Effect {
        fields: vec![Field { key: EffectKey::Parts, value: 2, pos: 0 }],
        mult_values: vec![50, 0, 0, 0, 0, 0],
        hit_entries: Vec::new(),
        part_fields: vec![
            PartField { key: EffectPartKey::Name, value: 0, pos: 0 },
            PartField { key: EffectPartKey::Multipliers, value: 6, pos: 0 },
        ],
    };
    let s = Spell::make_spell(&e).unwrap();
    assert_eq!(s.num_parts(), 0);
}

#[test]
fn get_target_part_idx_finds_or_appends() {
    let s = Spell::melee_default(Class::Warrior);
    let id = s.part(0).id();
    assert_eq!(s.get_target_part_idx(id), 0);
    assert_eq!(s.get_target_part_idx(id.wrapping_add(1)), 1);
    let empty = Spell::default();
    assert_eq!(empty.get_target_part_idx(id), 0);
}

#[test]
fn effect_type_codes_distinct() {
    assert_ne!(
        effect_type_code(EffectType::AddSpellProp),
        effect_type_code(EffectType::ReplaceSpell)
    );
}

#[test]
fn empty_modify_record_changes_nothing() {
    let mut s = Spell::melee_default(Class::Mage);
    let e = eff(Vec::new());
    assert_eq!(s.add_spell_prop(&e), Ok(()));
    assert_eq!(s.cost(), 0);
    assert_eq!(s.num_parts(), 1);
}

#[test]
fn spell_is_wf_accepts_decoder_output_and_rejects_duplicates() {
    let s = Spell::melee_default(Class::Archer);
    assert!(s.is_wf());
    let bad = Spell { cost: 0, parts: vec![SpellPart::new(5), SpellPart::new(5)] };
    assert!(!bad.is_wf());
    let zero = Spell { cost: 0, parts: vec![SpellPart::new(0)] };
    assert!(!zero.is_wf());
}
