use std::collections::BTreeSet;

use valence::BlockState;
use world_loom::block::MAX_BLOCK_STATE;
use world_loom::build_palette::{
    block_name_for_state, block_state_for_name, build_palette, build_palette_entries,
    contains_block_state, normalized_name, parse_build_block_name, BUILD_PALETTE_BLOCK_COUNT,
    BUILD_PALETTE_VERSION, MINECRAFT_VERSION,
};

#[test]
fn palette_has_stable_unique_metadata_and_default_states() {
    let palette = build_palette();
    assert_eq!(palette.len(), BUILD_PALETTE_BLOCK_COUNT);

    let mut names = BTreeSet::new();
    let mut states = BTreeSet::new();
    for entry in &palette {
        assert!(names.insert(entry.name), "duplicate name {}", entry.name);
        assert!(states.insert(entry.block), "duplicate state {}", entry.name);
        let state = valence::BlockState::from_raw(entry.block).expect("a block state");
        assert_eq!(state, state.to_kind().to_state());
        assert!(
            entry.representative_rgb.len() == 7
                && entry.representative_rgb.starts_with('#')
                && entry.representative_rgb[1..].bytes().all(|byte| byte.is_ascii_hexdigit()),
            "invalid color for {}",
            entry.name
        );
        assert!(matches!(entry.opacity, "opaque" | "translucent"));
    }
}

#[test]
fn public_entries_are_sorted_and_lookup_round_trips() {
    let entries = build_palette_entries();
    assert!(entries.windows(2).all(|pair| pair[0].name < pair[1].name));
    for entry in entries {
        assert_eq!(block_state_for_name(entry.name), Some(entry.block));
        assert_eq!(block_name_for_state(entry.block), Some(entry.name));
        assert_eq!(
            parse_build_block_name(&format!("minecraft:{}", entry.name)),
            Some(entry.block)
        );
    }
}

#[test]
fn unsafe_or_stateful_blocks_are_not_in_the_palette() {
    for state in [
        BlockState::WATER,
        BlockState::SAND,
        BlockState::RED_CONCRETE_POWDER,
        BlockState::REDSTONE_BLOCK,
        BlockState::CHEST,
        BlockState::OAK_DOOR,
        BlockState::STONE_STAIRS,
    ] {
        assert!(!contains_block_state(state.to_raw()), "unexpectedly allowed {state}");
    }
}

#[test]
fn palette_names_are_the_registry_names_of_their_blocks() {
    for entry in build_palette() {
        let kind = valence::BlockState::from_raw(entry.block).unwrap().to_kind();
        assert_eq!(kind.to_str(), entry.name);
    }
}

#[test]
fn names_are_trimmed_stripped_and_lowered() {
    assert_eq!(normalized_name("  minecraft:Red_Concrete \n"), "red_concrete");
    assert_eq!(normalized_name("Minecraft:stone"), "minecraft:stone");
    let red = valence::BlockState::RED_CONCRETE.to_raw();
    assert_eq!(parse_build_block_name("\u{3000}RED_CONCRETE\u{a0}"), Some(red));
    assert_eq!(parse_build_block_name("Minecraft:stone"), None);
    assert_eq!(block_state_for_name("Stone"), None);
}

#[test]
fn palette_versions_are_fixed() {
    assert_eq!(BUILD_PALETTE_VERSION, 1);
    assert_eq!(MINECRAFT_VERSION, "1.20.1");
    let entry = build_palette()[6];
    assert_eq!(
        (entry.name, entry.family, entry.representative_rgb, entry.opacity),
        ("white_concrete", "concrete", "#CFD5D6", "opaque")
    );
}

#[test]
fn no_state_of_an_unsafe_kind_is_in_the_palette() {
    let names = [
        "water",
        "sand",
        "red_concrete_powder",
        "redstone_block",
        "chest",
        "oak_door",
        "stone_stairs",
    ];
    let mut states = 0;
    for raw in 0..=MAX_BLOCK_STATE {
        let kind = valence::BlockState::from_raw(raw).unwrap().to_kind().to_str();
        let ranges = [(80, 95), (112, 112), (12617, 12617), (9083, 9083), (2954, 2977), (4590, 4653), (13301, 13380)];
        let listed = ranges.iter().any(|(low, high)| *low <= raw && raw <= *high);
        assert_eq!(names.contains(&kind), listed, "{kind}");
        if listed {
            assert!(!contains_block_state(raw));
            states += 1;
        }
    }
    assert_eq!(states, 187);
}
