//! Local natural-language prompt interpreter (Japanese and English, rule based).
//!
//! A prompt is trimmed and lower-cased, then matched against phrase lists; each rule that
//! fires contributes one intent, in a fixed order. The `f32` deltas that intents carry are
//! kept as their IEEE-754 bit patterns.

use crate::text::{
    all_digits, chars_of, contains_any, contains_text, digit_suffix, digit_suffix_chars, find_text,
    has_text, mentions_any, occurs_at, parse_u32, parse_u32_chars, remove_all, remove_all_chars,
    split_words, string_from_chars, trim_chars, trim_nondigit_chars, trim_nondigits, trimmed, words,
};
use crate::graph::{
    bare_node, copy_edge, copy_id, default_grid_input, copy_node, edge_views, find_kind, first_of_kind, new_edge, node_views, street_path,
    street_path_input, Edge, Graph, GraphModel, GridInput, Node, NodeId, NodeKind, NodeModel,
};
use vstd::prelude::*;
use vstd::string::StringSliceAdditionalSpecFns;
use vstd::utf8::encode_utf8;

verus! {

/// Placement mode for graph edits.
#[derive(Debug, Clone, Copy, PartialEq, Eq, Structural)]
pub enum PlacementMode {
    AlongPath,
    Grid,
}

/// The summary label of a placement mode.
pub open spec fn mode_text(mode: PlacementMode) -> Seq<char> {
    match mode {
        PlacementMode::AlongPath => "along path"@,
        PlacementMode::Grid => "grid"@,
    }
}

/// The summary label of a placement mode: `along path` or `grid`.
pub fn mode_label(mode: PlacementMode) -> (s: &'static str)
    ensures
        s@ == mode_text(mode),
{
    match mode {
        PlacementMode::AlongPath => "along path",
        PlacementMode::Grid => "grid",
    }
}

/// Emission increase of a "more smoke" prompt: `1.2f32`.
pub const SMOKE_EMISSION_DELTA_BITS: u32 = 0x3f99_999a;
/// Simulation steps added by a "more smoke" prompt.
pub const SMOKE_STEP_DELTA: u32 = 12;
/// Emission increase of a "raise water" prompt: `4.0f32`.
pub const WATER_EMISSION_DELTA_BITS: u32 = 0x4080_0000;
/// Simulation steps added by a "raise water" prompt.
pub const WATER_STEP_DELTA: u32 = 12;
/// Emission increase of a "more intense" prompt: `2.0f32`.
pub const INTENSE_EMISSION_DELTA_BITS: u32 = 0x4000_0000;
/// Wave amplitude increase of a "more intense" prompt: `0.15f32`.
pub const INTENSE_WAVE_DELTA_BITS: u32 = 0x3e19_999a;
/// Simulation steps added by a "more intense" prompt.
pub const INTENSE_STEP_DELTA: u32 = 8;
/// Window density increase of a "more windows" prompt: `0.12f32`.
pub const MORE_WINDOWS_DELTA_BITS: u32 = 0x3df5_c28f;
/// Window density change of a "fewer windows" prompt: `-0.12f32`.
pub const FEWER_WINDOWS_DELTA_BITS: u32 = 0xbdf5_c28f;

/// High-level intent recognized from a user prompt.
#[derive(Debug, Clone, PartialEq, Eq)]
pub enum PromptIntent {
    LoadPreset { preset_id: String },
    SetFloors { floors: u32 },
    SetSeed { seed: u64 },
    /// Window density change (`f32` bits).
    AdjustWindows { delta: u32 },
    SwitchPlacement { mode: PlacementMode },
    SetGraphName { name: String },
    /// Emission change (`f32` bits) and added steps.
    IncreaseSmoke { emission_delta: u32, step_delta: u32 },
    /// Emission and wave amplitude changes (`f32` bits) and added steps.
    IncreaseLiquid { emission_delta: u32, wave_delta: u32, step_delta: u32 },
    Unknown { raw: String },
}

/// The mathematical form of an intent: strings become character sequences.
pub enum IntentModel {
    LoadPreset(Seq<char>),
    SetFloors(u32),
    SetSeed(u64),
    AdjustWindows(u32),
    SwitchPlacement(PlacementMode),
    SetGraphName(Seq<char>),
    IncreaseSmoke(u32, u32),
    IncreaseLiquid(u32, u32, u32),
    Unknown(Seq<char>),
}

impl View for PromptIntent {
    type V = IntentModel;

    open spec fn view(&self) -> IntentModel {
        match self {
            PromptIntent::LoadPreset { preset_id } => IntentModel::LoadPreset(preset_id@),
            PromptIntent::SetFloors { floors } => IntentModel::SetFloors(*floors),
            PromptIntent::SetSeed { seed } => IntentModel::SetSeed(*seed),
            PromptIntent::AdjustWindows { delta } => IntentModel::AdjustWindows(*delta),
            PromptIntent::SwitchPlacement { mode } => IntentModel::SwitchPlacement(*mode),
            PromptIntent::SetGraphName { name } => IntentModel::SetGraphName(name@),
            PromptIntent::IncreaseSmoke { emission_delta, step_delta } =>
                IntentModel::IncreaseSmoke(*emission_delta, *step_delta),
            PromptIntent::IncreaseLiquid { emission_delta, wave_delta, step_delta } =>
                IntentModel::IncreaseLiquid(*emission_delta, *wave_delta, *step_delta),
            PromptIntent::Unknown { raw } => IntentModel::Unknown(raw@),
        }
    }
}

/// `str::to_lowercase`: the text lower-cased by the Unicode rules (character by character,
/// with the context rule for a final capital sigma).
pub uninterp spec fn lowercased(s: Seq<char>) -> Seq<char>;

/// Lower-cases every character (`str::to_lowercase`). Each character maps to one or more
/// characters, so the text never gets shorter, and empty text stays empty.
#[verifier::external_body]
fn lowercase_chars(s: &[char]) -> (r: Vec<char>)
    ensures
        r@ == lowercased(s@),
        r@.len() >= s@.len(),
        s@.len() == 0 ==> r@.len() == 0,
{
    let text: String = s.iter().collect();
    text.to_lowercase().chars().collect()
}

/// FNV-1a offset basis.
pub const FNV_OFFSET: u64 = 0xcbf2_9ce4_8422_2325;
/// FNV-1a prime.
pub const FNV_PRIME: u64 = 0x0100_0000_01b3;

/// The 64-bit FNV-1a hash of `bytes`.
pub open spec fn fnv1a(bytes: Seq<u8>) -> u64
    decreases bytes.len(),
{
    if bytes.len() == 0 {
        FNV_OFFSET
    } else {
        (fnv1a(bytes.drop_last()) ^ (bytes.last() as u64)).wrapping_mul(FNV_PRIME)
    }
}

/// The seed derived from a prompt: the FNV-1a hash of its UTF-8 bytes, at least 1.
pub open spec fn seed_of(bytes: Seq<u8>) -> u64 {
    if fnv1a(bytes) >= 1 { fnv1a(bytes) } else { 1 }
}

/// A deterministic seed for `text`: FNV-1a over its UTF-8 bytes, never 0.
pub fn pseudo_random_seed(text: &str) -> (seed: u64)
    ensures
        seed == seed_of(text.spec_bytes()),
{
    let bytes = text.as_bytes();
    let mut hash: u64 = FNV_OFFSET;
    let mut i: usize = 0;
    while i < bytes.len()
        invariant
            i <= bytes@.len(),
            bytes@ == text.spec_bytes(),
            hash == fnv1a(bytes@.take(i as int)),
        decreases bytes.len() - i,
    {
        assert(bytes@.take(i + 1).drop_last() =~= bytes@.take(i as int));
        hash = (hash ^ (bytes[i] as u64)).wrapping_mul(FNV_PRIME);
        i += 1;
    }
    assert(bytes@.take(bytes@.len() as int) =~= bytes@);
    if hash >= 1 { hash } else { 1 }
}

/// Whether a floor count is accepted: between 1 and 64.
pub open spec fn floor_count_ok(v: Option<u32>) -> bool {
    v matches Some(n) && 1 <= n <= 64
}

/// The floor count written before the first `階` of `n`: the digits that end the trimmed text
/// before it.
pub open spec fn floors_before_kai(n: Seq<char>) -> Option<u32> {
    if has_text(n, seq!['階']) {
        let i = choose|i: int| occurs_at(n, seq!['階'], i)
            && forall|j: int| 0 <= j < i ==> !#[trigger] occurs_at(n, seq!['階'], j);
        let v = parse_u32(digit_suffix(trimmed(n.take(i))));
        if floor_count_ok(v) { v } else { None }
    } else {
        None
    }
}

/// The first word whose digits (non-digits trimmed from both ends) parse to a floor count.
pub open spec fn floors_in_words(ws: Seq<Seq<char>>) -> Option<u32>
    decreases ws.len(),
{
    if ws.len() == 0 {
        None
    } else if floor_count_ok(parse_u32(trim_nondigits(ws[0]))) {
        parse_u32(trim_nondigits(ws[0]))
    } else {
        floors_in_words(ws.drop_first())
    }
}

/// Whether `text` still mentions floors once every copy of `digits` is removed.
pub open spec fn mentions_floor_without(text: Seq<char>, digits: Seq<char>) -> bool {
    has_text(remove_all(text, digits), "floor"@) || has_text(remove_all(text, digits), "階"@)
}

/// The first word of `text` whose digits parse to a floor count while the rest of `text`
/// mentions floors.
pub open spec fn floors_next_to_word(ws: Seq<Seq<char>>, text: Seq<char>) -> Option<u32>
    decreases ws.len(),
{
    if ws.len() == 0 {
        None
    } else if floor_count_ok(parse_u32(trim_nondigits(ws[0])))
        && mentions_floor_without(text, trim_nondigits(ws[0])) {
        parse_u32(trim_nondigits(ws[0]))
    } else {
        floors_next_to_word(ws.drop_first(), text)
    }
}

/// The first word that parses as a whole to a floor count.
pub open spec fn floors_as_word(ws: Seq<Seq<char>>) -> Option<u32>
    decreases ws.len(),
{
    if ws.len() == 0 {
        None
    } else if floor_count_ok(parse_u32(ws[0])) {
        parse_u32(ws[0])
    } else {
        floors_as_word(ws.drop_first())
    }
}

/// The floor count a normalized prompt asks for, trying in turn: digits before `階`; a word
/// with digits when the prompt says `階数`; a word with digits next to `floor` or `階`; a bare
/// number when the prompt says `floor`.
pub open spec fn floors_in(n: Seq<char>) -> Option<u32> {
    let lower = lowercased(n);
    if floors_before_kai(n) is Some {
        floors_before_kai(n)
    } else if has_text(n, "階数"@) && floors_in_words(words(n)) is Some {
        floors_in_words(words(n))
    } else if floors_next_to_word(words(lower), lower) is Some {
        floors_next_to_word(words(lower), lower)
    } else if has_text(lower, "floor"@) {
        floors_as_word(words(lower))
    } else {
        None
    }
}


/// Copies `s[..end]`.
fn prefix_chars(s: &[char], end: usize) -> (r: Vec<char>)
    requires
        end <= s@.len(),
    ensures
        r@ == s@.take(end as int),
{
    let mut r: Vec<char> = Vec::new();
    let mut k: usize = 0;
    while k < end
        invariant
            k <= end <= s@.len(),
            r@ == s@.take(k as int),
        decreases end - k,
    {
        r.push(s[k]);
        k += 1;
    }
    r
}

/// The floor count written before the first `階` of `text`.
fn floors_before_kai_exec(text: &[char]) -> (r: Option<u32>)
    ensures
        r == floors_before_kai(text@),
{
    let kai: [char; 1] = ['階'];
    assert(kai@ =~= seq!['階']);
    match find_text(text, &kai) {
        None => None,
        Some(idx) => {
            proof {
                let p = |i: int| occurs_at(text@, seq!['階'], i)
                    && forall|j: int| 0 <= j < i ==> !#[trigger] occurs_at(text@, seq!['階'], j);
                assert(p(idx as int));
                let c = choose|i: int| occurs_at(text@, seq!['階'], i)
                    && forall|j: int| 0 <= j < i ==> !#[trigger] occurs_at(text@, seq!['階'], j);
                assert(occurs_at(text@, seq!['階'], c));
                if c < idx {
                    assert(!occurs_at(text@, seq!['階'], c));
                }
                if idx < c {
                    assert(!occurs_at(text@, seq!['階'], idx as int));
                }
                assert(c == idx);
            }
            let before = prefix_chars(text, idx);
            let t = trim_chars(before.as_slice());
            let digits = digit_suffix_chars(t.as_slice());
            let v = parse_u32_chars(digits.as_slice());
            match v {
                Some(n) => {
                    if 1 <= n && n <= 64 {
                        Some(n)
                    } else {
                        None
                    }
                },
                None => None,
            }
        },
    }
}

/// The first word whose trimmed digits parse to a floor count.
fn floors_in_words_exec(ws: &Vec<Vec<char>>) -> (r: Option<u32>)
    ensures
        r == floors_in_words(ws@.map_values(|w: Vec<char>| w@)),
{
    let ghost all = ws@.map_values(|w: Vec<char>| w@);
    let mut k: usize = 0;
    assert(all.skip(0) =~= all);
    while k < ws.len()
        invariant
            k <= ws@.len(),
            all == ws@.map_values(|w: Vec<char>| w@),
            floors_in_words(all) == floors_in_words(all.skip(k as int)),
        decreases ws.len() - k,
    {
        let digits = trim_nondigit_chars(ws[k].as_slice());
        let v = parse_u32_chars(digits.as_slice());
        assert(all.skip(k as int)[0] == ws@[k as int]@);
        assert(all.skip(k as int).drop_first() =~= all.skip(k + 1));
        if let Some(n) = v {
            if 1 <= n && n <= 64 {
                return Some(n);
            }
        }
        k += 1;
    }
    None
}

/// The first word whose trimmed digits parse to a floor count while `text` without those
/// digits still mentions floors.
fn floors_next_to_word_exec(ws: &Vec<Vec<char>>, text: &[char]) -> (r: Option<u32>)
    ensures
        r == floors_next_to_word(ws@.map_values(|w: Vec<char>| w@), text@),
{
    let ghost all = ws@.map_values(|w: Vec<char>| w@);
    let floor = chars_of("floor");
    let kai = chars_of("階");
    let mut k: usize = 0;
    assert(all.skip(0) =~= all);
    while k < ws.len()
        invariant
            k <= ws@.len(),
            all == ws@.map_values(|w: Vec<char>| w@),
            floor@ == "floor"@,
            kai@ == "階"@,
            floors_next_to_word(all, text@) == floors_next_to_word(all.skip(k as int), text@),
        decreases ws.len() - k,
    {
        let digits = trim_nondigit_chars(ws[k].as_slice());
        let v = parse_u32_chars(digits.as_slice());
        assert(all.skip(k as int)[0] == ws@[k as int]@);
        assert(all.skip(k as int).drop_first() =~= all.skip(k + 1));
        if let Some(n) = v {
            if 1 <= n && n <= 64 {
                let rest = remove_all_chars(text, digits.as_slice());
                if contains_text(rest.as_slice(), floor.as_slice()) || contains_text(rest.as_slice(), kai.as_slice()) {
                    return Some(n);
                }
            }
        }
        k += 1;
    }
    None
}

/// The first word that parses as a whole to a floor count.
fn floors_as_word_exec(ws: &Vec<Vec<char>>) -> (r: Option<u32>)
    ensures
        r == floors_as_word(ws@.map_values(|w: Vec<char>| w@)),
{
    let ghost all = ws@.map_values(|w: Vec<char>| w@);
    let mut k: usize = 0;
    assert(all.skip(0) =~= all);
    while k < ws.len()
        invariant
            k <= ws@.len(),
            all == ws@.map_values(|w: Vec<char>| w@),
            floors_as_word(all) == floors_as_word(all.skip(k as int)),
        decreases ws.len() - k,
    {
        let v = parse_u32_chars(ws[k].as_slice());
        assert(all.skip(k as int)[0] == ws@[k as int]@);
        assert(all.skip(k as int).drop_first() =~= all.skip(k + 1));
        if let Some(n) = v {
            if 1 <= n && n <= 64 {
                return Some(n);
            }
        }
        k += 1;
    }
    None
}

/// The floor count a normalized prompt asks for ("階数を5に", "5階", "5 floors",
/// "floors 5"), when it is between 1 and 64.
pub fn parse_floors(text: &[char]) -> (r: Option<u32>)
    ensures
        r == floors_in(text@),
{
    let a = floors_before_kai_exec(text);
    if a.is_some() {
        return a;
    }
    let kaisu = chars_of("階数");
    if contains_text(text, kaisu.as_slice()) {
        let ws = split_words(text);
        let b = floors_in_words_exec(&ws);
        if b.is_some() {
            return b;
        }
    }
    let lower = lowercase_chars(text);
    let lws = split_words(lower.as_slice());
    let c = floors_next_to_word_exec(&lws, lower.as_slice());
    if c.is_some() {
        return c;
    }
    let floor = chars_of("floor");
    if contains_text(lower.as_slice(), floor.as_slice()) {
        floors_as_word_exec(&lws)
    } else {
        None
    }
}

/// Phrases that load the smoke puff preset.
pub open spec fn smoke_phrases() -> Seq<Seq<char>> {
    seq!["煙"@, "smoke"@, "smoke puff"@, "smoke preset"@, "ガス"@, "gas puff"@]
}

/// Phrases that ask for more smoke.
pub open spec fn more_smoke_phrases() -> Seq<Seq<char>> {
    seq!["もっと煙"@, "more smoke"@, "denser smoke"@, "煙を増"@, "煙もっと"@]
}

/// Phrases that load the ocean patch preset.
pub open spec fn ocean_phrases() -> Seq<Seq<char>> {
    seq!["海"@, "ocean"@, "ocean patch"@, "ocean_patch"@, "大洋"@, "海面"@]
}

/// Phrases that load the waterfall preset.
pub open spec fn waterfall_phrases() -> Seq<Seq<char>> {
    seq!["滝"@, "waterfall"@, "cascade"@, "瀑布"@]
}

/// Phrases that load the flood basin preset.
pub open spec fn flood_phrases() -> Seq<Seq<char>> {
    seq!["洪水"@, "flood"@, "flood basin"@, "flood_basin"@, "浸水"@, "水害"@]
}

/// Phrases that ask for more water.
pub open spec fn raise_water_phrases() -> Seq<Seq<char>> {
    seq!["水位上げ"@, "raise water"@, "more water"@, "水を増"@, "もっと水"@, "more liquid"@]
}

/// Phrases that ask for a more intense liquid.
pub open spec fn intense_phrases() -> Seq<Seq<char>> {
    seq!["もっと激しく"@, "more intense"@, "splashier"@, "激しく"@, "波を大きく"@, "bigger waves"@]
}

/// Phrases that load the shop street preset.
pub open spec fn shop_street_phrases() -> Seq<Seq<char>> {
    seq!["商店街"@, "shop street"@, "shop-street"@, "shotengai"@]
}

/// Phrases that ask for grid placement.
pub open spec fn grid_phrases() -> Seq<Seq<char>> {
    seq!["グリッド"@, "grid"@, "grid placement"@, "グリッド配置"@]
}

/// Phrases that ask for placement along a street path.
pub open spec fn street_phrases() -> Seq<Seq<char>> {
    seq!["ストリート"@, "street"@, "path placement"@, "沿道"@, "パス配置"@]
}

/// Words that keep a street phrase from switching to path placement.
pub open spec fn grid_words() -> Seq<Seq<char>> {
    seq!["grid"@, "グリッド"@]
}

/// Phrases that ask for a new seed.
pub open spec fn seed_phrases() -> Seq<Seq<char>> {
    seq!["seed変え"@, "seed change"@, "change seed"@, "random seed"@, "シード"@, "seedを変"@]
}

/// Phrases that ask for more windows.
pub open spec fn more_windows_phrases() -> Seq<Seq<char>> {
    seq!["もっと窓"@, "more window"@, "more windows"@, "窓を増"@]
}

/// Phrases that ask for fewer windows.
pub open spec fn fewer_windows_phrases() -> Seq<Seq<char>> {
    seq!["窓を減"@, "less window"@, "fewer window"@]
}

/// One intent when `hit`, none otherwise.
pub open spec fn rule(hit: bool, intent: IntentModel) -> Seq<IntentModel> {
    if hit { seq![intent] } else { Seq::empty() }
}

/// The preset and fluid intents of the normalized prompt `n`, in rule order.
pub open spec fn scene_rules(n: Seq<char>) -> Seq<IntentModel> {
    rule(mentions_any(n, smoke_phrases()), IntentModel::LoadPreset("smoke_puff"@))
        + rule(mentions_any(n, more_smoke_phrases()), IntentModel::IncreaseSmoke(SMOKE_EMISSION_DELTA_BITS, SMOKE_STEP_DELTA))
        + rule(mentions_any(n, ocean_phrases()), IntentModel::LoadPreset("ocean_patch"@))
        + rule(mentions_any(n, waterfall_phrases()), IntentModel::LoadPreset("waterfall"@))
        + rule(mentions_any(n, flood_phrases()), IntentModel::LoadPreset("flood_basin"@))
        + (if mentions_any(n, raise_water_phrases()) {
            seq![IntentModel::IncreaseLiquid(WATER_EMISSION_DELTA_BITS, 0, WATER_STEP_DELTA)]
        } else {
            rule(mentions_any(n, intense_phrases()),
                IntentModel::IncreaseLiquid(INTENSE_EMISSION_DELTA_BITS, INTENSE_WAVE_DELTA_BITS, INTENSE_STEP_DELTA))
        })
}

/// The city layout intents of the normalized prompt `n`, in rule order.
pub open spec fn layout_rules(n: Seq<char>) -> Seq<IntentModel> {
    rule(mentions_any(n, shop_street_phrases()), IntentModel::LoadPreset("shop_street"@))
        + rule(mentions_any(n, grid_phrases()), IntentModel::SwitchPlacement(PlacementMode::Grid))
        + rule(mentions_any(n, street_phrases()) && !mentions_any(n, grid_words()),
            IntentModel::SwitchPlacement(PlacementMode::AlongPath))
        + (match floors_in(n) {
            Some(f) => seq![IntentModel::SetFloors(f)],
            None => Seq::empty(),
        })
}

/// The building variation intents of the normalized prompt `n`, in rule order.
pub open spec fn variation_rules(n: Seq<char>) -> Seq<IntentModel> {
    rule(mentions_any(n, seed_phrases()), IntentModel::SetSeed(seed_of(encode_utf8(n))))
        + (if mentions_any(n, more_windows_phrases()) {
            seq![IntentModel::AdjustWindows(MORE_WINDOWS_DELTA_BITS)]
        } else {
            rule(mentions_any(n, fewer_windows_phrases()), IntentModel::AdjustWindows(FEWER_WINDOWS_DELTA_BITS))
        })
}

/// The intents of the normalized (trimmed, lower-cased) prompt `n`, in rule order.
pub open spec fn intents_of(n: Seq<char>) -> Seq<IntentModel> {
    scene_rules(n) + layout_rules(n) + variation_rules(n)
}

/// What a prompt is interpreted as: nothing for a blank prompt; otherwise the intents of its
/// trimmed, lower-cased text, or a single `Unknown` carrying the trimmed text when no rule fires.
pub open spec fn interpreted(text: Seq<char>) -> Seq<IntentModel> {
    interpreted_normalized(trimmed(text), lowercased(trimmed(text)))
}

/// What a prompt whose trimmed text is `t` and whose normalized text is `n` is interpreted
/// as: nothing when `n` is empty; otherwise the intents of `n`, or a single `Unknown`
/// carrying `t` when no rule fires.
pub open spec fn interpreted_normalized(t: Seq<char>, n: Seq<char>) -> Seq<IntentModel> {
    if n.len() == 0 {
        Seq::empty()
    } else if intents_of(n).len() == 0 {
        seq![IntentModel::Unknown(t)]
    } else {
        intents_of(n)
    }
}

/// The views of a list of intents.
pub open spec fn intent_views(v: Seq<PromptIntent>) -> Seq<IntentModel> {
    v.map_values(|i: PromptIntent| i@)
}

/// Appends `intent` when `hit`.
fn push_if(intents: &mut Vec<PromptIntent>, hit: bool, intent: PromptIntent)
    ensures
        intent_views(final(intents)@) == intent_views(old(intents)@) + rule(hit, intent@),
{
    if hit {
        intents.push(intent);
        assert(intent_views(intents@) =~= intent_views(old(intents)@) + rule(hit, intent@));
    } else {
        assert(intent_views(intents@) =~= intent_views(old(intents)@) + rule(hit, intent@));
    }
}

/// Appends the preset and fluid intents of the normalized prompt `ns`.
#[verifier::spinoff_prover]
#[verifier::rlimit(60)]
fn push_scene_intents(intents: &mut Vec<PromptIntent>, ns: &[char])
    ensures
        intent_views(final(intents)@) == intent_views(old(intents)@) + scene_rules(ns@),
{
    let smoke_list: [&str; 6] = ["煙", "smoke", "smoke puff", "smoke preset", "ガス", "gas puff"];
    assert(smoke_list@.map_values(|s: &str| s@) =~= smoke_phrases());
    let smoke = contains_any(ns, &smoke_list);
    let more_smoke_list: [&str; 5] = ["もっと煙", "more smoke", "denser smoke", "煙を増", "煙もっと"];
    assert(more_smoke_list@.map_values(|s: &str| s@) =~= more_smoke_phrases());
    let more_smoke = contains_any(ns, &more_smoke_list);
    let ocean_list: [&str; 6] = ["海", "ocean", "ocean patch", "ocean_patch", "大洋", "海面"];
    assert(ocean_list@.map_values(|s: &str| s@) =~= ocean_phrases());
    let ocean = contains_any(ns, &ocean_list);
    let waterfall_list: [&str; 4] = ["滝", "waterfall", "cascade", "瀑布"];
    assert(waterfall_list@.map_values(|s: &str| s@) =~= waterfall_phrases());
    let waterfall = contains_any(ns, &waterfall_list);
    let flood_list: [&str; 6] = ["洪水", "flood", "flood basin", "flood_basin", "浸水", "水害"];
    assert(flood_list@.map_values(|s: &str| s@) =~= flood_phrases());
    let flood = contains_any(ns, &flood_list);
    let raise_water_list: [&str; 6] = ["水位上げ", "raise water", "more water", "水を増", "もっと水", "more liquid"];
    assert(raise_water_list@.map_values(|s: &str| s@) =~= raise_water_phrases());
    let raise_water = contains_any(ns, &raise_water_list);
    let intense_list: [&str; 6] = ["もっと激しく", "more intense", "splashier", "激しく", "波を大きく", "bigger waves"];
    assert(intense_list@.map_values(|s: &str| s@) =~= intense_phrases());
    let intense = contains_any(ns, &intense_list);
    let ghost start = intent_views(intents@);
    push_if(intents, smoke, PromptIntent::LoadPreset { preset_id: "smoke_puff".to_string() });
    push_if(intents, more_smoke, PromptIntent::IncreaseSmoke {
        emission_delta: SMOKE_EMISSION_DELTA_BITS,
        step_delta: SMOKE_STEP_DELTA,
    });
    push_if(intents, ocean, PromptIntent::LoadPreset { preset_id: "ocean_patch".to_string() });
    push_if(intents, waterfall, PromptIntent::LoadPreset { preset_id: "waterfall".to_string() });
    push_if(intents, flood, PromptIntent::LoadPreset { preset_id: "flood_basin".to_string() });
    if raise_water {
        push_if(intents, true, PromptIntent::IncreaseLiquid {
            emission_delta: WATER_EMISSION_DELTA_BITS,
            wave_delta: 0,
            step_delta: WATER_STEP_DELTA,
        });
    } else {
        push_if(intents, intense, PromptIntent::IncreaseLiquid {
            emission_delta: INTENSE_EMISSION_DELTA_BITS,
            wave_delta: INTENSE_WAVE_DELTA_BITS,
            step_delta: INTENSE_STEP_DELTA,
        });
    }
    assert(intent_views(intents@) =~= start + scene_rules(ns@));
}

/// Appends the city layout intents of the normalized prompt `ns`.
#[verifier::spinoff_prover]
#[verifier::rlimit(60)]
fn push_layout_intents(intents: &mut Vec<PromptIntent>, ns: &[char])
    ensures
        intent_views(final(intents)@) == intent_views(old(intents)@) + layout_rules(ns@),
{
    let shop_list: [&str; 4] = ["商店街", "shop street", "shop-street", "shotengai"];
    assert(shop_list@.map_values(|s: &str| s@) =~= shop_street_phrases());
    let shop = contains_any(ns, &shop_list);
    let grid_list: [&str; 4] = ["グリッド", "grid", "grid placement", "グリッド配置"];
    assert(grid_list@.map_values(|s: &str| s@) =~= grid_phrases());
    let grid = contains_any(ns, &grid_list);
    let street_list: [&str; 5] = ["ストリート", "street", "path placement", "沿道", "パス配置"];
    assert(street_list@.map_values(|s: &str| s@) =~= street_phrases());
    let street = contains_any(ns, &street_list);
    let grid_word_list: [&str; 2] = ["grid", "グリッド"];
    assert(grid_word_list@.map_values(|s: &str| s@) =~= grid_words());
    let grid_word = contains_any(ns, &grid_word_list);
    let ghost start = intent_views(intents@);
    push_if(intents, shop, PromptIntent::LoadPreset { preset_id: "shop_street".to_string() });
    push_if(intents, grid, PromptIntent::SwitchPlacement { mode: PlacementMode::Grid });
    push_if(intents, street && !grid_word, PromptIntent::SwitchPlacement { mode: PlacementMode::AlongPath });
    match parse_floors(ns) {
        Some(f) => push_if(intents, true, PromptIntent::SetFloors { floors: f }),
        None => {},
    }
    assert(intent_views(intents@) =~= start + layout_rules(ns@));
}

/// Appends the building variation intents of the normalized prompt `ns`.
#[verifier::spinoff_prover]
#[verifier::rlimit(60)]
fn push_variation_intents(intents: &mut Vec<PromptIntent>, ns: &[char])
    ensures
        intent_views(final(intents)@) == intent_views(old(intents)@) + variation_rules(ns@),
{
    let seed_list: [&str; 6] = ["seed変え", "seed change", "change seed", "random seed", "シード", "seedを変"];
    assert(seed_list@.map_values(|s: &str| s@) =~= seed_phrases());
    let seed = contains_any(ns, &seed_list);
    let more_windows_list: [&str; 4] = ["もっと窓", "more window", "more windows", "窓を増"];
    assert(more_windows_list@.map_values(|s: &str| s@) =~= more_windows_phrases());
    let more_windows = contains_any(ns, &more_windows_list);
    let fewer_windows_list: [&str; 3] = ["窓を減", "less window", "fewer window"];
    assert(fewer_windows_list@.map_values(|s: &str| s@) =~= fewer_windows_phrases());
    let fewer_windows = contains_any(ns, &fewer_windows_list);
    let ghost start = intent_views(intents@);
    if seed {
        let normalized = string_from_chars(ns);
        let seed_value = pseudo_random_seed(normalized.as_str());
        push_if(intents, true, PromptIntent::SetSeed { seed: seed_value });
    } else {
        push_if(intents, false, PromptIntent::SetSeed { seed: 1 });
    }
    if more_windows {
        push_if(intents, true, PromptIntent::AdjustWindows { delta: MORE_WINDOWS_DELTA_BITS });
    } else {
        push_if(intents, fewer_windows, PromptIntent::AdjustWindows { delta: FEWER_WINDOWS_DELTA_BITS });
    }
    assert(intent_views(intents@) =~= start + variation_rules(ns@));
}

/// Interprets a prompt given as its trimmed text `trimmed_text` and that text lower-cased,
/// `normalized`: the rules run on the normalized text, and `Unknown` keeps the trimmed one.
pub fn interpret_normalized(trimmed_text: &[char], normalized: &[char]) -> (intents: Vec<PromptIntent>)
    ensures
        intent_views(intents@) == interpreted_normalized(trimmed_text@, normalized@),
{
    let mut intents: Vec<PromptIntent> = Vec::new();
    assert(intent_views(intents@) =~= Seq::<IntentModel>::empty());
    if normalized.len() == 0 {
        return intents;
    }
    push_scene_intents(&mut intents, normalized);
    push_layout_intents(&mut intents, normalized);
    push_variation_intents(&mut intents, normalized);
    assert(intent_views(intents@) =~= intents_of(normalized@));
    if intents.len() == 0 {
        let raw_text = string_from_chars(trimmed_text);
        intents.push(PromptIntent::Unknown { raw: raw_text });
        assert(intent_views(intents@) =~= seq![IntentModel::Unknown(trimmed_text@)]);
    }
    intents
}

/// Interprets natural-language input (Japanese and English) into graph edit intents. The
/// result is empty exactly when the prompt is blank after trimming.
pub fn interpret_prompt(text: &str) -> (intents: Vec<PromptIntent>)
    ensures
        intent_views(intents@) == interpreted(text@),
        intents@.len() == 0 <==> trimmed(text@).len() == 0,
{
    let raw = chars_of(text);
    let trimmed_text = trim_chars(raw.as_slice());
    let n = lowercase_chars(trimmed_text.as_slice());
    interpret_normalized(trimmed_text.as_slice(), n.as_slice())
}

} // verus!

verus! {

/// A prompt that is not blank after trimming and lower-casing always yields at least one
/// intent: the rules' intents, or `Unknown` with the trimmed text.
pub proof fn lemma_nonblank_prompt_has_intent(text: Seq<char>)
    requires
        lowercased(trimmed(text)).len() > 0,
    ensures
        interpreted(text).len() >= 1,
        intents_of(lowercased(trimmed(text))).len() == 0
            ==> interpreted(text) == seq![IntentModel::Unknown(trimmed(text))],
{
}

/// A prompt that asks for fewer windows (its normalized text mentions `fewer window`, `less
/// window` or `窓を減`) and not for more windows yields the window change of -0.12, and a
/// prompt that asks for more windows yields +0.12, whatever else it says. (`n` is the
/// trimmed, lower-cased text and `t` the trimmed text, as `interpret_prompt` gives them.)
pub proof fn lemma_window_prompts(t: Seq<char>, n: Seq<char>)
    ensures
        (has_text(n, "fewer window"@) || has_text(n, "less window"@) || has_text(n, "窓を減"@))
            && !has_text(n, "もっと窓"@) && !has_text(n, "more window"@) && !has_text(n, "more windows"@)
            && !has_text(n, "窓を増"@)
            ==> interpreted_normalized(t, n).contains(IntentModel::AdjustWindows(0xbdf5_c28fu32)),
        has_text(n, "more window"@) ==> interpreted_normalized(t, n).contains(IntentModel::AdjustWindows(0x3df5_c28fu32)),
{
    let fewer = fewer_windows_phrases();
    let more = more_windows_phrases();
    if has_text(n, "fewer window"@) || has_text(n, "less window"@) || has_text(n, "窓を減"@) {
        reveal_strlit("fewer window");
        reveal_strlit("less window");
        reveal_strlit("窓を減");
        if has_text(n, "fewer window"@) {
            assert(has_text(n, fewer[2]));
            lemma_text_nonempty(n, "fewer window"@);
        } else if has_text(n, "less window"@) {
            assert(has_text(n, fewer[1]));
            lemma_text_nonempty(n, "less window"@);
        } else {
            assert(has_text(n, fewer[0]));
            lemma_text_nonempty(n, "窓を減"@);
        }
        assert(mentions_any(n, fewer));
        if !has_text(n, "もっと窓"@) && !has_text(n, "more window"@) && !has_text(n, "more windows"@)
            && !has_text(n, "窓を増"@) {
            assert forall|k: int| 0 <= k < more.len() implies !has_text(n, #[trigger] more[k]) by {
                if k == 0 {} else if k == 1 {} else if k == 2 {} else {}
            }
            assert(!mentions_any(n, more));
            lemma_window_intents_placed(t, n, FEWER_WINDOWS_DELTA_BITS);
        }
    }
    if has_text(n, "more window"@) {
        assert(has_text(n, more[1]));
        assert(mentions_any(n, more));
        reveal_strlit("more window");
        lemma_text_nonempty(n, "more window"@);
        lemma_window_intents_placed(t, n, MORE_WINDOWS_DELTA_BITS);
    }
}

/// When the window rule fires with `delta`, the normalized interpretation holds that change.
proof fn lemma_window_intents_placed(t: Seq<char>, n: Seq<char>, delta: u32)
    requires
        variation_rules(n).last() == IntentModel::AdjustWindows(delta),
        variation_rules(n).len() > 0,
        n.len() > 0,
    ensures
        interpreted_normalized(t, n).contains(IntentModel::AdjustWindows(delta)),
{
    let all = intents_of(n);
    let k = all.len() - 1;
    assert(all[k] == variation_rules(n).last());
}

/// A text in which a non-empty phrase occurs is not empty.
proof fn lemma_text_nonempty(n: Seq<char>, p: Seq<char>)
    requires
        has_text(n, p),
        p.len() > 0,
    ensures
        n.len() > 0,
{
    let i = choose|i: int| #[trigger] occurs_at(n, p, i);
}

/// Seeds derived from prompts are never zero.
pub proof fn lemma_seed_nonzero(bytes: Seq<u8>)
    ensures
        seed_of(bytes) >= 1,
{
}

} // verus!

verus! {

/// `s.take(i + 1).filter(p)` extends `s.take(i).filter(p)` by `s[i]` when `p` holds of it.
proof fn lemma_filter_step<A>(s: Seq<A>, i: int, p: spec_fn(A) -> bool)
    requires
        0 <= i < s.len(),
    ensures
        s.take(i + 1).filter(p) == (if p(s[i]) { s.take(i).filter(p).push(s[i]) } else { s.take(i).filter(p) }),
{
    reveal(Seq::filter);
    assert(s.take(i + 1).drop_last() =~= s.take(i));
}

/// Whether a node kind is a placement node.
pub open spec fn is_placement_kind(kind: NodeKind) -> bool {
    kind == NodeKind::PlaceAlongPath || kind == NodeKind::FillGrid
}

/// Keeps the nodes that are not placement nodes.
pub open spec fn keeps_node() -> spec_fn(NodeModel) -> bool {
    |n: NodeModel| !is_placement_kind(n.kind)
}

/// Keeps the edges that do not touch `root`.
pub open spec fn off_node(root: Seq<char>) -> spec_fn((Seq<char>, Seq<char>)) -> bool {
    |e: (Seq<char>, Seq<char>)| e.1 != root && e.0 != root
}

/// Keeps the edges other than `from → to`.
pub open spec fn not_edge(from: Seq<char>, to: Seq<char>) -> spec_fn((Seq<char>, Seq<char>)) -> bool {
    |e: (Seq<char>, Seq<char>)| !(e.0 == from && e.1 == to)
}

/// The placement node a switch to `mode` adds.
pub open spec fn placement_node(mode: PlacementMode) -> NodeModel {
    match mode {
        PlacementMode::AlongPath => NodeModel {
            path_input: Some(street_path()),
            ..bare_node("place_along_path"@, NodeKind::PlaceAlongPath, "Street Placement"@)
        },
        PlacementMode::Grid => NodeModel {
            grid_input: Some(default_grid_input()),
            ..bare_node("fill_grid"@, NodeKind::FillGrid, "Grid Fill"@)
        },
    }
}

/// The graph after switching its placement to `mode`: when it has a building mesh and a city
/// root, every placement node and every edge at the root goes, the new placement node is
/// appended and wired mesh → placement → root, and the (first) building params node is wired
/// to the mesh exactly once. Otherwise the graph is unchanged.
pub open spec fn switched(g: GraphModel, mode: PlacementMode) -> GraphModel {
    match (first_of_kind(g.nodes, NodeKind::BuildingMesh), first_of_kind(g.nodes, NodeKind::CityRoot)) {
        (Some(mesh), Some(root)) => {
            let place = placement_node(mode);
            let edges = g.edges.filter(off_node(root)).push((mesh, place.id)).push((place.id, root));
            GraphModel {
                name: g.name,
                nodes: g.nodes.filter(keeps_node()).push(place),
                edges: match first_of_kind(g.nodes, NodeKind::BuildingParams) {
                    Some(pid) => edges.filter(not_edge(pid, mesh)).push((pid, mesh)),
                    None => edges,
                },
            }
        },
        _ => g,
    }
}

/// The nodes of `nodes` that are not placement nodes.
fn without_placement_nodes(nodes: &Vec<Node>) -> (r: Vec<Node>)
    ensures
        node_views(r@) == node_views(nodes@).filter(keeps_node()),
{
    let mut r: Vec<Node> = Vec::new();
    let mut i: usize = 0;
    while i < nodes.len()
        invariant
            i <= nodes@.len(),
            node_views(r@) == node_views(nodes@).take(i as int).filter(keeps_node()),
        decreases nodes.len() - i,
    {
        proof {
            lemma_filter_step(node_views(nodes@), i as int, keeps_node());
        }
        let kind = nodes[i].kind;
        if !(kind == NodeKind::PlaceAlongPath || kind == NodeKind::FillGrid) {
            let ghost before = r@;
            let c = copy_node(&nodes[i]);
            r.push(c);
            assert(node_views(r@) =~= node_views(before).push(c@));
        }
        i += 1;
    }
    assert(node_views(nodes@).take(nodes@.len() as int) =~= node_views(nodes@));
    r
}

/// The edges of `edges` that do not touch `node`.
fn edges_off(edges: &Vec<Edge>, node: &NodeId) -> (r: Vec<Edge>)
    ensures
        edge_views(r@) == edge_views(edges@).filter(off_node(node.0@)),
{
    let mut r: Vec<Edge> = Vec::new();
    let mut i: usize = 0;
    while i < edges.len()
        invariant
            i <= edges@.len(),
            edge_views(r@) == edge_views(edges@).take(i as int).filter(off_node(node.0@)),
        decreases edges.len() - i,
    {
        proof {
            lemma_filter_step(edge_views(edges@), i as int, off_node(node.0@));
        }
        if !(edges[i].to.0 == node.0) && !(edges[i].from.0 == node.0) {
            let ghost before = r@;
            let c = copy_edge(&edges[i]);
            r.push(c);
            assert(edge_views(r@) =~= edge_views(before).push(c@));
        }
        i += 1;
    }
    assert(edge_views(edges@).take(edges@.len() as int) =~= edge_views(edges@));
    r
}

/// The edges of `edges` other than `from → to`.
fn edges_without(edges: &Vec<Edge>, from: &NodeId, to: &NodeId) -> (r: Vec<Edge>)
    ensures
        edge_views(r@) == edge_views(edges@).filter(not_edge(from.0@, to.0@)),
{
    let mut r: Vec<Edge> = Vec::new();
    let mut i: usize = 0;
    while i < edges.len()
        invariant
            i <= edges@.len(),
            edge_views(r@) == edge_views(edges@).take(i as int).filter(not_edge(from.0@, to.0@)),
        decreases edges.len() - i,
    {
        proof {
            lemma_filter_step(edge_views(edges@), i as int, not_edge(from.0@, to.0@));
        }
        if !(edges[i].from.0 == from.0 && edges[i].to.0 == to.0) {
            let ghost before = r@;
            let c = copy_edge(&edges[i]);
            r.push(c);
            assert(edge_views(r@) =~= edge_views(before).push(c@));
        }
        i += 1;
    }
    assert(edge_views(edges@).take(edges@.len() as int) =~= edge_views(edges@));
    r
}

/// The placement node a switch to `mode` adds.
fn make_placement_node(mode: PlacementMode) -> (n: Node)
    ensures
        n@ == placement_node(mode),
{
    match mode {
        PlacementMode::AlongPath => {
            let mut n = crate::graph::new_node("place_along_path", NodeKind::PlaceAlongPath, "Street Placement");
            n.path_input = Some(street_path_input());
            n
        },
        PlacementMode::Grid => {
            let mut n = crate::graph::new_node("fill_grid", NodeKind::FillGrid, "Grid Fill");
            n.grid_input = Some(GridInput::default());
            n
        },
    }
}

/// Switches the graph's instancing to placement along a street path or to a grid fill.
pub fn switch_placement(graph: &Graph, mode: PlacementMode) -> (g: Graph)
    ensures
        g@ == switched(graph@, mode),
{
    let mesh_id = find_kind(&graph.nodes, NodeKind::BuildingMesh);
    let root_id = find_kind(&graph.nodes, NodeKind::CityRoot);
    let params_id = find_kind(&graph.nodes, NodeKind::BuildingParams);
    let (mesh_id, root_id) = match (mesh_id, root_id) {
        (Some(m), Some(r)) => (m, r),
        _ => return crate::graph::copy_graph(graph),
    };
    let mut edges = edges_off(&graph.edges, &root_id);
    let mut nodes = without_placement_nodes(&graph.nodes);
    let place = make_placement_node(mode);
    let place_id = copy_id(&place.id);
    let ghost nodes_before = nodes@;
    nodes.push(place);
    assert(node_views(nodes@) =~= node_views(nodes_before).push(placement_node(mode)));
    let ghost e0 = edges@;
    edges.push(Edge { from: copy_id(&mesh_id), to: copy_id(&place_id) });
    edges.push(Edge { from: copy_id(&place_id), to: copy_id(&root_id) });
    assert(edge_views(edges@) =~= edge_views(e0).push((mesh_id.0@, place_id.0@)).push((place_id.0@, root_id.0@)));
    let edges = match params_id {
        Some(pid) => {
            let mut kept = edges_without(&edges, &pid, &mesh_id);
            let ghost k0 = kept@;
            kept.push(Edge { from: pid, to: mesh_id });
            assert(edge_views(kept@) =~= edge_views(k0).push((first_of_kind(graph@.nodes, NodeKind::BuildingParams)->0, mesh_id.0@)));
            kept
        },
        None => edges,
    };
    let g = Graph { name: graph.name.clone(), nodes, edges };
    assert(g@.nodes =~= switched(graph@, mode).nodes);
    assert(g@.edges =~= switched(graph@, mode).edges);
    g
}

} // verus!

verus! {

/// After a placement switch on a graph with a building mesh and a city root, the graph has
/// exactly one placement node, the one for the requested mode, as its last node.
pub proof fn lemma_switch_leaves_one_placement(g: GraphModel, mode: PlacementMode)
    requires
        first_of_kind(g.nodes, NodeKind::BuildingMesh) is Some,
        first_of_kind(g.nodes, NodeKind::CityRoot) is Some,
    ensures
        ({
            let r = switched(g, mode);
            &&& r.nodes.len() >= 1
            &&& r.nodes.last() == placement_node(mode)
            &&& forall|i: int| 0 <= i < r.nodes.len() - 1 ==> !is_placement_kind(#[trigger] r.nodes[i].kind)
        }),
{
    broadcast use vstd::seq_lib::group_filter_ensures;
    let kept = g.nodes.filter(keeps_node());
    assert forall|i: int| 0 <= i < kept.len() implies !is_placement_kind(#[trigger] kept[i].kind) by {
        assert(keeps_node()(kept[i]));
    }
}

} // verus!
