use elfentier_core::prompt::interpret_normalized;
use elfentier_core::prompt::{
    interpret_prompt, mode_label, parse_floors, pseudo_random_seed, PlacementMode, PromptIntent,
    FEWER_WINDOWS_DELTA_BITS, MORE_WINDOWS_DELTA_BITS,
};

fn chars(s: &str) -> Vec<char> {
    s.chars().collect()
}

#[test]
fn interprets_shop_street_jp() {
    let intents = interpret_prompt("商店街にして");
    assert!(intents.iter().any(|i| matches!(i, PromptIntent::LoadPreset { .. })));
}

#[test]
fn interprets_floors() {
    let intents = interpret_prompt("階数を5に");
    assert!(intents.iter().any(|i| matches!(i, PromptIntent::SetFloors { floors: 5 })));
}

#[test]
fn interprets_smoke_jp() {
    let intents = interpret_prompt("煙のプレビュー");
    assert!(intents.iter().any(|i| matches!(
        i,
        PromptIntent::LoadPreset { preset_id } if preset_id == "smoke_puff"
    )));
}

#[test]
fn interprets_ocean_jp() {
    let intents = interpret_prompt("海のプレビュー");
    assert!(intents.iter().any(|i| matches!(
        i,
        PromptIntent::LoadPreset { preset_id } if preset_id == "ocean_patch"
    )));
}

#[test]
fn interprets_waterfall_en() {
    let intents = interpret_prompt("load waterfall preset");
    assert!(intents.iter().any(|i| matches!(
        i,
        PromptIntent::LoadPreset { preset_id } if preset_id == "waterfall"
    )));
}

#[test]
fn interprets_flood_jp() {
    let intents = interpret_prompt("洪水シミュレーション");
    assert!(intents.iter().any(|i| matches!(
        i,
        PromptIntent::LoadPreset { preset_id } if preset_id == "flood_basin"
    )));
}

#[test]
fn blank_prompt_has_no_intents() {
    assert!(interpret_prompt("   ").is_empty());
    assert!(interpret_prompt("").is_empty());
}

#[test]
fn unmatched_prompt_is_unknown_with_trimmed_text() {
    assert_eq!(
        interpret_prompt("  Hello There  "),
        vec![PromptIntent::Unknown { raw: "Hello There".to_string() }]
    );
}

#[test]
fn prompt_is_lower_cased_before_matching() {
    let intents = interpret_prompt("SHOP STREET");
    assert_eq!(
        intents,
        vec![
            PromptIntent::LoadPreset { preset_id: "shop_street".to_string() },
            PromptIntent::SwitchPlacement { mode: PlacementMode::AlongPath },
        ]
    );
}

#[test]
fn grid_wins_over_street() {
    let intents = interpret_prompt("grid street");
    assert_eq!(intents, vec![PromptIntent::SwitchPlacement { mode: PlacementMode::Grid }]);
}

#[test]
fn more_smoke_loads_preset_and_increases_emission() {
    let intents = interpret_prompt("もっと煙");
    assert_eq!(
        intents,
        vec![
            PromptIntent::LoadPreset { preset_id: "smoke_puff".to_string() },
            PromptIntent::IncreaseSmoke { emission_delta: 1.2f32.to_bits(), step_delta: 12 },
        ]
    );
}

#[test]
fn raise_water_takes_precedence_over_intensity() {
    let intents = interpret_prompt("more water, more intense");
    assert_eq!(
        intents,
        vec![PromptIntent::IncreaseLiquid { emission_delta: 4.0f32.to_bits(), wave_delta: 0, step_delta: 12 }]
    );
    let intense = interpret_prompt("もっと激しく");
    assert_eq!(
        intense,
        vec![PromptIntent::IncreaseLiquid {
            emission_delta: 2.0f32.to_bits(),
            wave_delta: 0.15f32.to_bits(),
            step_delta: 8
        }]
    );
}

#[test]
fn window_adjustments() {
    assert_eq!(interpret_prompt("more windows"), vec![PromptIntent::AdjustWindows { delta: MORE_WINDOWS_DELTA_BITS }]);
    assert_eq!(interpret_prompt("窓を減らす"), vec![PromptIntent::AdjustWindows { delta: FEWER_WINDOWS_DELTA_BITS }]);
    assert_eq!(f32::from_bits(FEWER_WINDOWS_DELTA_BITS), -0.12);
}

#[test]
fn seed_change_is_deterministic_and_nonzero() {
    let a = interpret_prompt("change seed");
    let b = interpret_prompt("Change Seed");
    assert_eq!(a, b);
    let seed = match &a[0] {
        PromptIntent::SetSeed { seed } => *seed,
        other => panic!("unexpected {other:?}"),
    };
    assert_eq!(seed, pseudo_random_seed("change seed"));
    assert!(seed >= 1);
}

#[test]
fn fnv1a_reference_values() {
    assert_eq!(pseudo_random_seed(""), 0xcbf29ce484222325);
    assert_eq!(pseudo_random_seed("a"), 0xaf63dc4c8601ec8c);
}

#[test]
fn floor_phrases() {
    assert_eq!(parse_floors(&chars("5階")), Some(5));
    assert_eq!(parse_floors(&chars("階数を12に")), Some(12));
    assert_eq!(parse_floors(&chars("5 floors")), Some(5));
    assert_eq!(parse_floors(&chars("floors 7")), Some(7));
    assert_eq!(parse_floors(&chars("floors +7")), Some(7));
    assert_eq!(parse_floors(&chars("65 floors")), None);
    assert_eq!(parse_floors(&chars("0 floors")), None);
    assert_eq!(parse_floors(&chars("5 windows")), None);
    assert_eq!(parse_floors(&chars("no numbers here")), None);
    assert_eq!(parse_floors(&chars("99999999999 floors")), None);
}

#[test]
fn mode_labels() {
    assert_eq!(mode_label(PlacementMode::AlongPath), "along path");
    assert_eq!(mode_label(PlacementMode::Grid), "grid");
}

#[test]
fn unknown_prompts_keep_their_trimmed_text() {
    let intents = interpret_prompt("\u{3000}\t zzz qqq \u{2003}\n");
    assert_eq!(intents, vec![PromptIntent::Unknown { raw: "zzz qqq".to_string() }]);
}

#[test]
fn unknown_prompt_keeps_the_trimmed_original_case() {
    let intents = interpret_prompt("  Hello ");
    assert_eq!(intents, vec![PromptIntent::Unknown { raw: "Hello".to_string() }]);
    assert!(interpret_prompt("   ").is_empty());
}

#[test]
fn normalized_interpretation_runs_the_rules_on_the_lower_cased_text() {
    let t: Vec<char> = "Smoke".chars().collect();
    let n: Vec<char> = "smoke".chars().collect();
    let intents = interpret_normalized(&t, &n);
    assert!(intents.iter().any(|i| matches!(i, PromptIntent::LoadPreset { preset_id } if preset_id == "smoke_puff")));
    assert!(interpret_normalized(&t, &[]).is_empty());
    let x: Vec<char> = "Qwerty".chars().collect();
    let y: Vec<char> = "qwerty".chars().collect();
    assert_eq!(interpret_normalized(&x, &y), vec![PromptIntent::Unknown { raw: "Qwerty".to_string() }]);
}
