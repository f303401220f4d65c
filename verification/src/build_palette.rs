//! The build palette: the blocks that tools may name, with their look.

use vstd::prelude::*;
use crate::block::{valid_state, BlockState, AIR, BEDROCK};
use crate::text::{
    ascii_lowered, chars_of, has_prefix, is_text_less, lower_chars, same_text, starts_with, text_less,
    text_less_irreflexive, text_less_total, text_less_transitive, text_of, trim_chars, trimmed,
    white_space, without_prefix,
};

verus! {

pub const BUILD_PALETTE_VERSION: u32 = 1;

pub const BUILD_PALETTE_BLOCK_COUNT: usize = 115;

pub const MINECRAFT_VERSION: &'static str = "1.20.1";

#[derive(Debug, Clone, Copy, PartialEq, Eq)]
pub struct BuildPaletteEntry {
    pub name: &'static str,
    pub block: BlockState,
    pub family: &'static str,
    pub representative_rgb: &'static str,
    pub opacity: &'static str,
}

/// A palette entry.
pub open spec fn entry(
    name: &'static str,
    block: BlockState,
    family: &'static str,
    representative_rgb: &'static str,
    opacity: &'static str,
) -> BuildPaletteEntry {
    BuildPaletteEntry { name, block, family, representative_rgb, opacity }
}

fn add_entry(
    entries: &mut Vec<BuildPaletteEntry>,
    name: &'static str,
    block: BlockState,
    family: &'static str,
    representative_rgb: &'static str,
    opacity: &'static str,
)
    ensures
        final(entries)@ == old(entries)@.push(
            entry(name, block, family, representative_rgb, opacity),
        ),
{
    entries.push(BuildPaletteEntry { name, block, family, representative_rgb, opacity });
}

/// The first six building blocks.
pub open spec fn original_blocks() -> Seq<BuildPaletteEntry> {
    seq![
        entry("stone", 1, "masonry", "#7D7D7D", "opaque"),
        entry("dirt", 10, "earth", "#866043", "opaque"),
        entry("grass_block", 9, "earth", "#6A8A3A", "opaque"),
        entry("oak_planks", 15, "planks", "#A2834F", "opaque"),
        entry("cobblestone", 14, "masonry", "#7A7A7A", "opaque"),
        entry("glass", 519, "glass", "#D7ECEC", "translucent"),
    ]
}

fn add_original_blocks(entries: &mut Vec<BuildPaletteEntry>)
    ensures
        final(entries)@ == old(entries)@ + original_blocks(),
{
    let ghost start = entries@;
    add_entry(entries, "stone", 1, "masonry", "#7D7D7D", "opaque");
    add_entry(entries, "dirt", 10, "earth", "#866043", "opaque");
    add_entry(entries, "grass_block", 9, "earth", "#6A8A3A", "opaque");
    add_entry(entries, "oak_planks", 15, "planks", "#A2834F", "opaque");
    add_entry(entries, "cobblestone", 14, "masonry", "#7A7A7A", "opaque");
    add_entry(entries, "glass", 519, "glass", "#D7ECEC", "translucent");
    proof {
        assert(entries@ =~= start + original_blocks());
    }
}

/// Concrete, in the sixteen dyes.
pub open spec fn concrete_blocks() -> Seq<BuildPaletteEntry> {
    seq![
        entry("white_concrete", 12587, "concrete", "#CFD5D6", "opaque"),
        entry("orange_concrete", 12588, "concrete", "#E06100", "opaque"),
        entry("magenta_concrete", 12589, "concrete", "#A9309F", "opaque"),
        entry("light_blue_concrete", 12590, "concrete", "#2389C6", "opaque"),
        entry("yellow_concrete", 12591, "concrete", "#F1AF15", "opaque"),
        entry("lime_concrete", 12592, "concrete", "#5EA919", "opaque"),
        entry("pink_concrete", 12593, "concrete", "#D5658E", "opaque"),
        entry("gray_concrete", 12594, "concrete", "#36393D", "opaque"),
        entry("light_gray_concrete", 12595, "concrete", "#7D7D73", "opaque"),
        entry("cyan_concrete", 12596, "concrete", "#157788", "opaque"),
        entry("purple_concrete", 12597, "concrete", "#64209C", "opaque"),
        entry("blue_concrete", 12598, "concrete", "#2C2E8F", "opaque"),
        entry("brown_concrete", 12599, "concrete", "#603B1F", "opaque"),
        entry("green_concrete", 12600, "concrete", "#495B24", "opaque"),
        entry("red_concrete", 12601, "concrete", "#8E2020", "opaque"),
        entry("black_concrete", 12602, "concrete", "#080A0F", "opaque"),
    ]
}

fn add_concrete_blocks(entries: &mut Vec<BuildPaletteEntry>)
    ensures
        final(entries)@ == old(entries)@ + concrete_blocks(),
{
    let ghost start = entries@;
    add_entry(entries, "white_concrete", 12587, "concrete", "#CFD5D6", "opaque");
    add_entry(entries, "orange_concrete", 12588, "concrete", "#E06100", "opaque");
    add_entry(entries, "magenta_concrete", 12589, "concrete", "#A9309F", "opaque");
    add_entry(entries, "light_blue_concrete", 12590, "concrete", "#2389C6", "opaque");
    add_entry(entries, "yellow_concrete", 12591, "concrete", "#F1AF15", "opaque");
    add_entry(entries, "lime_concrete", 12592, "concrete", "#5EA919", "opaque");
    add_entry(entries, "pink_concrete", 12593, "concrete", "#D5658E", "opaque");
    add_entry(entries, "gray_concrete", 12594, "concrete", "#36393D", "opaque");
    add_entry(entries, "light_gray_concrete", 12595, "concrete", "#7D7D73", "opaque");
    add_entry(entries, "cyan_concrete", 12596, "concrete", "#157788", "opaque");
    add_entry(entries, "purple_concrete", 12597, "concrete", "#64209C", "opaque");
    add_entry(entries, "blue_concrete", 12598, "concrete", "#2C2E8F", "opaque");
    add_entry(entries, "brown_concrete", 12599, "concrete", "#603B1F", "opaque");
    add_entry(entries, "green_concrete", 12600, "concrete", "#495B24", "opaque");
    add_entry(entries, "red_concrete", 12601, "concrete", "#8E2020", "opaque");
    add_entry(entries, "black_concrete", 12602, "concrete", "#080A0F", "opaque");
    proof {
        assert(entries@ =~= start + concrete_blocks());
    }
}

/// Wool, in the sixteen dyes.
pub open spec fn wool_blocks() -> Seq<BuildPaletteEntry> {
    seq![
        entry("white_wool", 2047, "wool", "#E9ECEC", "opaque"),
        entry("orange_wool", 2048, "wool", "#F07613", "opaque"),
        entry("magenta_wool", 2049, "wool", "#BD44B3", "opaque"),
        entry("light_blue_wool", 2050, "wool", "#3AAFD9", "opaque"),
        entry("yellow_wool", 2051, "wool", "#F8C627", "opaque"),
        entry("lime_wool", 2052, "wool", "#70B919", "opaque"),
        entry("pink_wool", 2053, "wool", "#ED8DAC", "opaque"),
        entry("gray_wool", 2054, "wool", "#3E4447", "opaque"),
        entry("light_gray_wool", 2055, "wool", "#8E8E86", "opaque"),
        entry("cyan_wool", 2056, "wool", "#168C9C", "opaque"),
        entry("purple_wool", 2057, "wool", "#8932B8", "opaque"),
        entry("blue_wool", 2058, "wool", "#35399D", "opaque"),
        entry("brown_wool", 2059, "wool", "#724728", "opaque"),
        entry("green_wool", 2060, "wool", "#546D1B", "opaque"),
        entry("red_wool", 2061, "wool", "#A12722", "opaque"),
        entry("black_wool", 2062, "wool", "#141519", "opaque"),
    ]
}

fn add_wool_blocks(entries: &mut Vec<BuildPaletteEntry>)
    ensures
        final(entries)@ == old(entries)@ + wool_blocks(),
{
    let ghost start = entries@;
    add_entry(entries, "white_wool", 2047, "wool", "#E9ECEC", "opaque");
    add_entry(entries, "orange_wool", 2048, "wool", "#F07613", "opaque");
    add_entry(entries, "magenta_wool", 2049, "wool", "#BD44B3", "opaque");
    add_entry(entries, "light_blue_wool", 2050, "wool", "#3AAFD9", "opaque");
    add_entry(entries, "yellow_wool", 2051, "wool", "#F8C627", "opaque");
    add_entry(entries, "lime_wool", 2052, "wool", "#70B919", "opaque");
    add_entry(entries, "pink_wool", 2053, "wool", "#ED8DAC", "opaque");
    add_entry(entries, "gray_wool", 2054, "wool", "#3E4447", "opaque");
    add_entry(entries, "light_gray_wool", 2055, "wool", "#8E8E86", "opaque");
    add_entry(entries, "cyan_wool", 2056, "wool", "#168C9C", "opaque");
    add_entry(entries, "purple_wool", 2057, "wool", "#8932B8", "opaque");
    add_entry(entries, "blue_wool", 2058, "wool", "#35399D", "opaque");
    add_entry(entries, "brown_wool", 2059, "wool", "#724728", "opaque");
    add_entry(entries, "green_wool", 2060, "wool", "#546D1B", "opaque");
    add_entry(entries, "red_wool", 2061, "wool", "#A12722", "opaque");
    add_entry(entries, "black_wool", 2062, "wool", "#141519", "opaque");
    proof {
        assert(entries@ =~= start + wool_blocks());
    }
}

/// Terracotta, in the sixteen dyes.
pub open spec fn terracotta_blocks() -> Seq<BuildPaletteEntry> {
    seq![
        entry("white_terracotta", 9216, "terracotta", "#D1B2A1", "opaque"),
        entry("orange_terracotta", 9217, "terracotta", "#A15325", "opaque"),
        entry("magenta_terracotta", 9218, "terracotta", "#95576C", "opaque"),
        entry("light_blue_terracotta", 9219, "terracotta", "#706C8A", "opaque"),
        entry("yellow_terracotta", 9220, "terracotta", "#BA8524", "opaque"),
        entry("lime_terracotta", 9221, "terracotta", "#677535", "opaque"),
        entry("pink_terracotta", 9222, "terracotta", "#A04D4E", "opaque"),
        entry("gray_terracotta", 9223, "terracotta", "#392A24", "opaque"),
        entry("light_gray_terracotta", 9224, "terracotta", "#876B62", "opaque"),
        entry("cyan_terracotta", 9225, "terracotta", "#575C5C", "opaque"),
        entry("purple_terracotta", 9226, "terracotta", "#764656", "opaque"),
        entry("blue_terracotta", 9227, "terracotta", "#4A3B5B", "opaque"),
        entry("brown_terracotta", 9228, "terracotta", "#4D3323", "opaque"),
        entry("green_terracotta", 9229, "terracotta", "#4C522A", "opaque"),
        entry("red_terracotta", 9230, "terracotta", "#8E3C2E", "opaque"),
        entry("black_terracotta", 9231, "terracotta", "#251610", "opaque"),
    ]
}

fn add_terracotta_blocks(entries: &mut Vec<BuildPaletteEntry>)
    ensures
        final(entries)@ == old(entries)@ + terracotta_blocks(),
{
    let ghost start = entries@;
    add_entry(entries, "white_terracotta", 9216, "terracotta", "#D1B2A1", "opaque");
    add_entry(entries, "orange_terracotta", 9217, "terracotta", "#A15325", "opaque");
    add_entry(entries, "magenta_terracotta", 9218, "terracotta", "#95576C", "opaque");
    add_entry(entries, "light_blue_terracotta", 9219, "terracotta", "#706C8A", "opaque");
    add_entry(entries, "yellow_terracotta", 9220, "terracotta", "#BA8524", "opaque");
    add_entry(entries, "lime_terracotta", 9221, "terracotta", "#677535", "opaque");
    add_entry(entries, "pink_terracotta", 9222, "terracotta", "#A04D4E", "opaque");
    add_entry(entries, "gray_terracotta", 9223, "terracotta", "#392A24", "opaque");
    add_entry(entries, "light_gray_terracotta", 9224, "terracotta", "#876B62", "opaque");
    add_entry(entries, "cyan_terracotta", 9225, "terracotta", "#575C5C", "opaque");
    add_entry(entries, "purple_terracotta", 9226, "terracotta", "#764656", "opaque");
    add_entry(entries, "blue_terracotta", 9227, "terracotta", "#4A3B5B", "opaque");
    add_entry(entries, "brown_terracotta", 9228, "terracotta", "#4D3323", "opaque");
    add_entry(entries, "green_terracotta", 9229, "terracotta", "#4C522A", "opaque");
    add_entry(entries, "red_terracotta", 9230, "terracotta", "#8E3C2E", "opaque");
    add_entry(entries, "black_terracotta", 9231, "terracotta", "#251610", "opaque");
    proof {
        assert(entries@ =~= start + terracotta_blocks());
    }
}

/// Stained glass, in the sixteen dyes.
pub open spec fn stained_glass_blocks() -> Seq<BuildPaletteEntry> {
    seq![
        entry("white_stained_glass", 5946, "stained_glass", "#F0F5F5", "translucent"),
        entry("orange_stained_glass", 5947, "stained_glass", "#F9801D", "translucent"),
        entry("magenta_stained_glass", 5948, "stained_glass", "#C74EBD", "translucent"),
        entry("light_blue_stained_glass", 5949, "stained_glass", "#3AB3DA", "translucent"),
        entry("yellow_stained_glass", 5950, "stained_glass", "#FED83D", "translucent"),
        entry("lime_stained_glass", 5951, "stained_glass", "#80C71F", "translucent"),
        entry("pink_stained_glass", 5952, "stained_glass", "#F38BAA", "translucent"),
        entry("gray_stained_glass", 5953, "stained_glass", "#474F52", "translucent"),
        entry("light_gray_stained_glass", 5954, "stained_glass", "#9D9D97", "translucent"),
        entry("cyan_stained_glass", 5955, "stained_glass", "#169C9C", "translucent"),
        entry("purple_stained_glass", 5956, "stained_glass", "#8932B8", "translucent"),
        entry("blue_stained_glass", 5957, "stained_glass", "#3C44AA", "translucent"),
        entry("brown_stained_glass", 5958, "stained_glass", "#835432", "translucent"),
        entry("green_stained_glass", 5959, "stained_glass", "#5E7C16", "translucent"),
        entry("red_stained_glass", 5960, "stained_glass", "#B02E26", "translucent"),
        entry("black_stained_glass", 5961, "stained_glass", "#1D1D21", "translucent"),
    ]
}

fn add_stained_glass_blocks(entries: &mut Vec<BuildPaletteEntry>)
    ensures
        final(entries)@ == old(entries)@ + stained_glass_blocks(),
{
    let ghost start = entries@;
    add_entry(entries, "white_stained_glass", 5946, "stained_glass", "#F0F5F5", "translucent");
    add_entry(entries, "orange_stained_glass", 5947, "stained_glass", "#F9801D", "translucent");
    add_entry(entries, "magenta_stained_glass", 5948, "stained_glass", "#C74EBD", "translucent");
    add_entry(entries, "light_blue_stained_glass", 5949, "stained_glass", "#3AB3DA", "translucent");
    add_entry(entries, "yellow_stained_glass", 5950, "stained_glass", "#FED83D", "translucent");
    add_entry(entries, "lime_stained_glass", 5951, "stained_glass", "#80C71F", "translucent");
    add_entry(entries, "pink_stained_glass", 5952, "stained_glass", "#F38BAA", "translucent");
    add_entry(entries, "gray_stained_glass", 5953, "stained_glass", "#474F52", "translucent");
    add_entry(entries, "light_gray_stained_glass", 5954, "stained_glass", "#9D9D97", "translucent");
    add_entry(entries, "cyan_stained_glass", 5955, "stained_glass", "#169C9C", "translucent");
    add_entry(entries, "purple_stained_glass", 5956, "stained_glass", "#8932B8", "translucent");
    add_entry(entries, "blue_stained_glass", 5957, "stained_glass", "#3C44AA", "translucent");
    add_entry(entries, "brown_stained_glass", 5958, "stained_glass", "#835432", "translucent");
    add_entry(entries, "green_stained_glass", 5959, "stained_glass", "#5E7C16", "translucent");
    add_entry(entries, "red_stained_glass", 5960, "stained_glass", "#B02E26", "translucent");
    add_entry(entries, "black_stained_glass", 5961, "stained_glass", "#1D1D21", "translucent");
    proof {
        assert(entries@ =~= start + stained_glass_blocks());
    }
}

/// The planks beside oak.
pub open spec fn plank_blocks() -> Seq<BuildPaletteEntry> {
    seq![
        entry("spruce_planks", 16, "planks", "#73532F", "opaque"),
        entry("birch_planks", 17, "planks", "#C7B77A", "opaque"),
        entry("jungle_planks", 18, "planks", "#A17350", "opaque"),
        entry("acacia_planks", 19, "planks", "#A85A32", "opaque"),
        entry("dark_oak_planks", 21, "planks", "#4A321C", "opaque"),
        entry("mangrove_planks", 22, "planks", "#763B35", "opaque"),
        entry("cherry_planks", 20, "planks", "#D69A9A", "opaque"),
        entry("bamboo_planks", 23, "planks", "#C0A64B", "opaque"),
        entry("crimson_planks", 18525, "planks", "#653147", "opaque"),
        entry("warped_planks", 18526, "planks", "#2B716B", "opaque"),
    ]
}

fn add_plank_blocks(entries: &mut Vec<BuildPaletteEntry>)
    ensures
        final(entries)@ == old(entries)@ + plank_blocks(),
{
    let ghost start = entries@;
    add_entry(entries, "spruce_planks", 16, "planks", "#73532F", "opaque");
    add_entry(entries, "birch_planks", 17, "planks", "#C7B77A", "opaque");
    add_entry(entries, "jungle_planks", 18, "planks", "#A17350", "opaque");
    add_entry(entries, "acacia_planks", 19, "planks", "#A85A32", "opaque");
    add_entry(entries, "dark_oak_planks", 21, "planks", "#4A321C", "opaque");
    add_entry(entries, "mangrove_planks", 22, "planks", "#763B35", "opaque");
    add_entry(entries, "cherry_planks", 20, "planks", "#D69A9A", "opaque");
    add_entry(entries, "bamboo_planks", 23, "planks", "#C0A64B", "opaque");
    add_entry(entries, "crimson_planks", 18525, "planks", "#653147", "opaque");
    add_entry(entries, "warped_planks", 18526, "planks", "#2B716B", "opaque");
    proof {
        assert(entries@ =~= start + plank_blocks());
    }
}

/// Selected stable full blocks.
pub open spec fn selected_blocks() -> Seq<BuildPaletteEntry> {
    seq![
        entry("smooth_stone", 11165, "masonry", "#9E9E98", "opaque"),
        entry("stone_bricks", 6538, "masonry", "#7B7B74", "opaque"),
        entry("bricks", 2093, "masonry", "#9B4A36", "opaque"),
        entry("granite", 2, "masonry", "#956755", "opaque"),
        entry("polished_granite", 3, "masonry", "#9C6B5A", "opaque"),
        entry("diorite", 4, "masonry", "#BEBDB8", "opaque"),
        entry("polished_diorite", 5, "masonry", "#C7C7C4", "opaque"),
        entry("andesite", 6, "masonry", "#888985", "opaque"),
        entry("polished_andesite", 7, "masonry", "#848683", "opaque"),
        entry("calcite", 20941, "mineral", "#DFE0D2", "opaque"),
        entry("quartz_block", 9095, "mineral", "#E7E3D8", "opaque"),
        entry("smooth_quartz", 11167, "mineral", "#EEEAE1", "opaque"),
        entry("sandstone", 535, "masonry", "#D8C487", "opaque"),
        entry("smooth_sandstone", 11166, "masonry", "#D9C98C", "opaque"),
        entry("red_sandstone", 10938, "masonry", "#B7612B", "opaque"),
        entry("smooth_red_sandstone", 11168, "masonry", "#B96832", "opaque"),
        entry("cobbled_deepslate", 22452, "masonry", "#515157", "opaque"),
        entry("polished_deepslate", 22863, "masonry", "#4D4D53", "opaque"),
        entry("deepslate_bricks", 23685, "masonry", "#47474C", "opaque"),
        entry("blackstone", 19319, "masonry", "#2A232A", "opaque"),
        entry("polished_blackstone", 19730, "masonry", "#353038", "opaque"),
        entry("prismarine_bricks", 10323, "masonry", "#63A79E", "opaque"),
        entry("dark_prismarine", 10324, "masonry", "#335B4B", "opaque"),
        entry("mud_bricks", 6543, "masonry", "#89674F", "opaque"),
        entry("obsidian", 2354, "mineral", "#15101F", "opaque"),
        entry("iron_block", 2092, "mineral", "#D8D8D8", "opaque"),
        entry("gold_block", 2091, "mineral", "#F6CF42", "opaque"),
        entry("coal_block", 10604, "mineral", "#151515", "opaque"),
        entry("lapis_block", 522, "mineral", "#1E438C", "opaque"),
        entry("diamond_block", 4276, "mineral", "#62D6CD", "opaque"),
        entry("emerald_block", 7665, "mineral", "#2BB56A", "opaque"),
        entry("sea_lantern", 10583, "light", "#ACD3C0", "opaque"),
        entry("glowstone", 5864, "light", "#AA7B3C", "opaque"),
        entry("snow_block", 5781, "mineral", "#F4F8F8", "opaque"),
        entry("tinted_glass", 20942, "glass", "#2B2535", "translucent"),
    ]
}

fn add_selected_blocks(entries: &mut Vec<BuildPaletteEntry>)
    ensures
        final(entries)@ == old(entries)@ + selected_blocks(),
{
    let ghost start = entries@;
    add_entry(entries, "smooth_stone", 11165, "masonry", "#9E9E98", "opaque");
    add_entry(entries, "stone_bricks", 6538, "masonry", "#7B7B74", "opaque");
    add_entry(entries, "bricks", 2093, "masonry", "#9B4A36", "opaque");
    add_entry(entries, "granite", 2, "masonry", "#956755", "opaque");
    add_entry(entries, "polished_granite", 3, "masonry", "#9C6B5A", "opaque");
    add_entry(entries, "diorite", 4, "masonry", "#BEBDB8", "opaque");
    add_entry(entries, "polished_diorite", 5, "masonry", "#C7C7C4", "opaque");
    add_entry(entries, "andesite", 6, "masonry", "#888985", "opaque");
    add_entry(entries, "polished_andesite", 7, "masonry", "#848683", "opaque");
    add_entry(entries, "calcite", 20941, "mineral", "#DFE0D2", "opaque");
    add_entry(entries, "quartz_block", 9095, "mineral", "#E7E3D8", "opaque");
    add_entry(entries, "smooth_quartz", 11167, "mineral", "#EEEAE1", "opaque");
    add_entry(entries, "sandstone", 535, "masonry", "#D8C487", "opaque");
    add_entry(entries, "smooth_sandstone", 11166, "masonry", "#D9C98C", "opaque");
    add_entry(entries, "red_sandstone", 10938, "masonry", "#B7612B", "opaque");
    add_entry(entries, "smooth_red_sandstone", 11168, "masonry", "#B96832", "opaque");
    add_entry(entries, "cobbled_deepslate", 22452, "masonry", "#515157", "opaque");
    add_entry(entries, "polished_deepslate", 22863, "masonry", "#4D4D53", "opaque");
    add_entry(entries, "deepslate_bricks", 23685, "masonry", "#47474C", "opaque");
    add_entry(entries, "blackstone", 19319, "masonry", "#2A232A", "opaque");
    add_entry(entries, "polished_blackstone", 19730, "masonry", "#353038", "opaque");
    add_entry(entries, "prismarine_bricks", 10323, "masonry", "#63A79E", "opaque");
    add_entry(entries, "dark_prismarine", 10324, "masonry", "#335B4B", "opaque");
    add_entry(entries, "mud_bricks", 6543, "masonry", "#89674F", "opaque");
    add_entry(entries, "obsidian", 2354, "mineral", "#15101F", "opaque");
    add_entry(entries, "iron_block", 2092, "mineral", "#D8D8D8", "opaque");
    add_entry(entries, "gold_block", 2091, "mineral", "#F6CF42", "opaque");
    add_entry(entries, "coal_block", 10604, "mineral", "#151515", "opaque");
    add_entry(entries, "lapis_block", 522, "mineral", "#1E438C", "opaque");
    add_entry(entries, "diamond_block", 4276, "mineral", "#62D6CD", "opaque");
    add_entry(entries, "emerald_block", 7665, "mineral", "#2BB56A", "opaque");
    add_entry(entries, "sea_lantern", 10583, "light", "#ACD3C0", "opaque");
    add_entry(entries, "glowstone", 5864, "light", "#AA7B3C", "opaque");
    add_entry(entries, "snow_block", 5781, "mineral", "#F4F8F8", "opaque");
    add_entry(entries, "tinted_glass", 20942, "glass", "#2B2535", "translucent");
    proof {
        assert(entries@ =~= start + selected_blocks());
    }
}

/// The palette, in the order in which it is kept.
pub open spec fn palette() -> Seq<BuildPaletteEntry> {
    original_blocks() + concrete_blocks() + wool_blocks() + terracotta_blocks()
        + stained_glass_blocks() + plank_blocks() + selected_blocks()
}

/// The palette, in the order in which it is kept.
pub fn build_palette() -> (r: Vec<BuildPaletteEntry>)
    ensures
        r@ == palette(),
{
    let mut entries: Vec<BuildPaletteEntry> = Vec::new();
    add_original_blocks(&mut entries);
    proof {
        assert(Seq::<BuildPaletteEntry>::empty() + original_blocks() =~= original_blocks());
    }
    add_concrete_blocks(&mut entries);
    add_wool_blocks(&mut entries);
    add_terracotta_blocks(&mut entries);
    add_stained_glass_blocks(&mut entries);
    add_plank_blocks(&mut entries);
    add_selected_blocks(&mut entries);
    entries
}

/// The number of the first entry with that name, from `i` on.
pub open spec fn entry_named(entries: Seq<BuildPaletteEntry>, name: Seq<char>, i: int) -> Option<int>
    decreases entries.len() - i,
{
    if i >= entries.len() {
        None
    } else if entries[i].name@ == name {
        Some(i)
    } else {
        entry_named(entries, name, i + 1)
    }
}

/// The number of the first entry with that block, from `i` on.
pub open spec fn entry_for(entries: Seq<BuildPaletteEntry>, block: BlockState, i: int) -> Option<int>
    decreases entries.len() - i,
{
    if i >= entries.len() {
        None
    } else if entries[i].block == block {
        Some(i)
    } else {
        entry_for(entries, block, i + 1)
    }
}

/// The block of the palette with that name.
pub open spec fn palette_block(name: Seq<char>) -> Option<BlockState> {
    match entry_named(palette(), name, 0) {
        Some(i) => Some(palette()[i].block),
        None => None,
    }
}

/// The name of the block in the palette.
pub open spec fn palette_name(block: BlockState) -> Option<Seq<char>> {
    match entry_for(palette(), block, 0) {
        Some(i) => Some(palette()[i].name@),
        None => None,
    }
}

/// The block of the palette with that name.
pub fn block_state_for_name(name: &str) -> (r: Option<BlockState>)
    ensures
        r == palette_block(name@),
        r matches Some(block) ==> valid_state(block),
{
    let entries = build_palette();
    let mut i: usize = 0;
    while i < entries.len()
        invariant
            i <= entries@.len(),
            entries@ == palette(),
            entry_named(palette(), name@, 0) == entry_named(palette(), name@, i as int),
        decreases entries@.len() - i,
    {
        if same_text(entries[i].name, name) {
            proof {
                palette_length();
                entry_facts(i as int);
            }
            return Some(entries[i].block);
        }
        i = i + 1;
    }
    None
}

/// The text in an optional string slice.
pub open spec fn optional_name(s: Option<&'static str>) -> Option<Seq<char>> {
    match s {
        Some(s) => Some(s@),
        None => None,
    }
}

/// The name of the block in the palette.
pub fn block_name_for_state(block: BlockState) -> (r: Option<&'static str>)
    ensures
        optional_name(r) == palette_name(block),
{
    let entries = build_palette();
    let mut i: usize = 0;
    while i < entries.len()
        invariant
            i <= entries@.len(),
            entries@ == palette(),
            entry_for(palette(), block, 0) == entry_for(palette(), block, i as int),
        decreases entries@.len() - i,
    {
        if entries[i].block == block {
            return Some(entries[i].name);
        }
        i = i + 1;
    }
    None
}

/// True iff the block is in the palette.
pub fn contains_block_state(block: BlockState) -> (r: bool)
    ensures
        r == palette_name(block) is Some,
{
    block_name_for_state(block).is_some()
}

/// A block name as it is looked up: trimmed, without the game's namespace, in lower case.
pub open spec fn plain_name(name: Seq<char>) -> Seq<char> {
    ascii_lowered(without_prefix(trimmed(name), "minecraft:"@))
}

/// A block name as it is looked up: trimmed, without the game's namespace, in lower case.
pub fn normalized_name(name: &str) -> (r: String)
    ensures
        r@ == plain_name(name@),
{
    let all = chars_of(name);
    let chars = trim_chars(&all);
    let prefix = chars_of("minecraft:");
    let from: usize = if starts_with(&chars, &prefix) {
        prefix.len()
    } else {
        0
    };
    let rest = chars_of(text_of(&chars, from, chars.len()).as_str());
    proof {
        assert(rest@ =~= without_prefix(chars@, "minecraft:"@));
    }
    let lowered = lower_chars(&rest);
    proof {
        assert(lowered@.subrange(0, lowered@.len() as int) =~= lowered@);
    }
    text_of(&lowered, 0, lowered.len())
}

/// The block of the palette that a written name means.
pub fn parse_build_block_name(name: &str) -> (r: Option<BlockState>)
    ensures
        r == palette_block(plain_name(name@)),
        r matches Some(block) ==> valid_state(block),
{
    block_state_for_name(normalized_name(name).as_str())
}

// ---- the sorted palette ----

/// True iff the names of the entries ascend strictly.
pub open spec fn names_sorted(entries: Seq<BuildPaletteEntry>) -> bool {
    forall|i: int, j: int|
        #![trigger entries[i], entries[j]]
        0 <= i < j < entries.len() ==> text_less(entries[i].name@, entries[j].name@)
}

/// Entries in the order of their names, with one more put in behind the last entry whose name is not
/// above its own.
pub open spec fn with_sorted(entries: Seq<BuildPaletteEntry>, item: BuildPaletteEntry) -> Seq<
    BuildPaletteEntry,
>
    decreases entries.len(),
{
    if entries.len() == 0 || !text_less(item.name@, entries.last().name@) {
        entries.push(item)
    } else {
        with_sorted(entries.drop_last(), item).push(entries.last())
    }
}

/// The first `n` entries in the order of their names.
pub open spec fn sorted_entries(entries: Seq<BuildPaletteEntry>, n: int) -> Seq<BuildPaletteEntry>
    decreases n,
{
    if n <= 0 {
        seq![]
    } else {
        with_sorted(sorted_entries(entries, n - 1), entries[n - 1])
    }
}

fn insert_sorted(entries: &mut Vec<BuildPaletteEntry>, item: BuildPaletteEntry)
    ensures
        final(entries)@ == with_sorted(old(entries)@, item),
{
    let ghost before = entries@;
    let mut at: usize = entries.len();
    while at > 0 && is_text_less(item.name, entries[at - 1].name)
        invariant
            at <= entries@.len(),
            entries@ == before,
            forall|k: int|
                at <= k < before.len() ==> text_less(item.name@, (#[trigger] before[k]).name@),
        decreases at,
    {
        at = at - 1;
    }
    entries.insert(at, item);
    proof {
        sorted_at(before, item, at as int);
    }
}

proof fn sorted_at(entries: Seq<BuildPaletteEntry>, item: BuildPaletteEntry, at: int)
    requires
        0 <= at <= entries.len(),
        forall|k: int|
            at <= k < entries.len() ==> text_less(item.name@, (#[trigger] entries[k]).name@),
        at > 0 ==> !text_less(item.name@, entries[at - 1].name@),
    ensures
        with_sorted(entries, item) == entries.insert(at, item),
    decreases entries.len(),
{
    if at == entries.len() {
        assert(entries.insert(at, item) =~= entries.push(item));
    } else {
        sorted_at(entries.drop_last(), item, at);
        assert(entries.insert(at, item) =~= entries.drop_last().insert(at, item).push(
            entries.last(),
        ));
    }
}

/// The palette in the order of its names.
pub fn build_palette_entries() -> (r: Vec<BuildPaletteEntry>)
    ensures
        r@ == sorted_entries(palette(), palette().len() as int),
{
    let entries = build_palette();
    let mut sorted: Vec<BuildPaletteEntry> = Vec::new();
    let mut i: usize = 0;
    while i < entries.len()
        invariant
            i <= entries@.len(),
            entries@ == palette(),
            sorted@ == sorted_entries(palette(), i as int),
        decreases entries@.len() - i,
    {
        insert_sorted(&mut sorted, entries[i]);
        i = i + 1;
    }
    sorted
}

// ---- laws ----

/// The names of the palette in ascending order.
spec fn ascending_name(r: int) -> Seq<char> {
    if r == 0 {
        "acacia_planks"@
    } else if r == 1 {
        "andesite"@
    } else if r == 2 {
        "bamboo_planks"@
    } else if r == 3 {
        "birch_planks"@
    } else if r == 4 {
        "black_concrete"@
    } else if r == 5 {
        "black_stained_glass"@
    } else if r == 6 {
        "black_terracotta"@
    } else if r == 7 {
        "black_wool"@
    } else if r == 8 {
        "blackstone"@
    } else if r == 9 {
        "blue_concrete"@
    } else if r == 10 {
        "blue_stained_glass"@
    } else if r == 11 {
        "blue_terracotta"@
    } else if r == 12 {
        "blue_wool"@
    } else if r == 13 {
        "bricks"@
    } else if r == 14 {
        "brown_concrete"@
    } else if r == 15 {
        "brown_stained_glass"@
    } else if r == 16 {
        "brown_terracotta"@
    } else if r == 17 {
        "brown_wool"@
    } else if r == 18 {
        "calcite"@
    } else if r == 19 {
        "cherry_planks"@
    } else if r == 20 {
        "coal_block"@
    } else if r == 21 {
        "cobbled_deepslate"@
    } else if r == 22 {
        "cobblestone"@
    } else if r == 23 {
        "crimson_planks"@
    } else if r == 24 {
        "cyan_concrete"@
    } else if r == 25 {
        "cyan_stained_glass"@
    } else if r == 26 {
        "cyan_terracotta"@
    } else if r == 27 {
        "cyan_wool"@
    } else if r == 28 {
        "dark_oak_planks"@
    } else if r == 29 {
        "dark_prismarine"@
    } else if r == 30 {
        "deepslate_bricks"@
    } else if r == 31 {
        "diamond_block"@
    } else if r == 32 {
        "diorite"@
    } else if r == 33 {
        "dirt"@
    } else if r == 34 {
        "emerald_block"@
    } else if r == 35 {
        "glass"@
    } else if r == 36 {
        "glowstone"@
    } else if r == 37 {
        "gold_block"@
    } else if r == 38 {
        "granite"@
    } else if r == 39 {
        "grass_block"@
    } else if r == 40 {
        "gray_concrete"@
    } else if r == 41 {
        "gray_stained_glass"@
    } else if r == 42 {
        "gray_terracotta"@
    } else if r == 43 {
        "gray_wool"@
    } else if r == 44 {
        "green_concrete"@
    } else if r == 45 {
        "green_stained_glass"@
    } else if r == 46 {
        "green_terracotta"@
    } else if r == 47 {
        "green_wool"@
    } else if r == 48 {
        "iron_block"@
    } else if r == 49 {
        "jungle_planks"@
    } else if r == 50 {
        "lapis_block"@
    } else if r == 51 {
        "light_blue_concrete"@
    } else if r == 52 {
        "light_blue_stained_glass"@
    } else if r == 53 {
        "light_blue_terracotta"@
    } else if r == 54 {
        "light_blue_wool"@
    } else if r == 55 {
        "light_gray_concrete"@
    } else if r == 56 {
        "light_gray_stained_glass"@
    } else if r == 57 {
        "light_gray_terracotta"@
    } else if r == 58 {
        "light_gray_wool"@
    } else if r == 59 {
        "lime_concrete"@
    } else if r == 60 {
        "lime_stained_glass"@
    } else if r == 61 {
        "lime_terracotta"@
    } else if r == 62 {
        "lime_wool"@
    } else if r == 63 {
        "magenta_concrete"@
    } else if r == 64 {
        "magenta_stained_glass"@
    } else if r == 65 {
        "magenta_terracotta"@
    } else if r == 66 {
        "magenta_wool"@
    } else if r == 67 {
        "mangrove_planks"@
    } else if r == 68 {
        "mud_bricks"@
    } else if r == 69 {
        "oak_planks"@
    } else if r == 70 {
        "obsidian"@
    } else if r == 71 {
        "orange_concrete"@
    } else if r == 72 {
        "orange_stained_glass"@
    } else if r == 73 {
        "orange_terracotta"@
    } else if r == 74 {
        "orange_wool"@
    } else if r == 75 {
        "pink_concrete"@
    } else if r == 76 {
        "pink_stained_glass"@
    } else if r == 77 {
        "pink_terracotta"@
    } else if r == 78 {
        "pink_wool"@
    } else if r == 79 {
        "polished_andesite"@
    } else if r == 80 {
        "polished_blackstone"@
    } else if r == 81 {
        "polished_deepslate"@
    } else if r == 82 {
        "polished_diorite"@
    } else if r == 83 {
        "polished_granite"@
    } else if r == 84 {
        "prismarine_bricks"@
    } else if r == 85 {
        "purple_concrete"@
    } else if r == 86 {
        "purple_stained_glass"@
    } else if r == 87 {
        "purple_terracotta"@
    } else if r == 88 {
        "purple_wool"@
    } else if r == 89 {
        "quartz_block"@
    } else if r == 90 {
        "red_concrete"@
    } else if r == 91 {
        "red_sandstone"@
    } else if r == 92 {
        "red_stained_glass"@
    } else if r == 93 {
        "red_terracotta"@
    } else if r == 94 {
        "red_wool"@
    } else if r == 95 {
        "sandstone"@
    } else if r == 96 {
        "sea_lantern"@
    } else if r == 97 {
        "smooth_quartz"@
    } else if r == 98 {
        "smooth_red_sandstone"@
    } else if r == 99 {
        "smooth_sandstone"@
    } else if r == 100 {
        "smooth_stone"@
    } else if r == 101 {
        "snow_block"@
    } else if r == 102 {
        "spruce_planks"@
    } else if r == 103 {
        "stone"@
    } else if r == 104 {
        "stone_bricks"@
    } else if r == 105 {
        "tinted_glass"@
    } else if r == 106 {
        "warped_planks"@
    } else if r == 107 {
        "white_concrete"@
    } else if r == 108 {
        "white_stained_glass"@
    } else if r == 109 {
        "white_terracotta"@
    } else if r == 110 {
        "white_wool"@
    } else if r == 111 {
        "yellow_concrete"@
    } else if r == 112 {
        "yellow_stained_glass"@
    } else if r == 113 {
        "yellow_terracotta"@
    } else if r == 114 {
        "yellow_wool"@
    } else {
        Seq::empty()
    }
}

proof fn names_ascend_from_0()
    ensures
        text_less("acacia_planks"@, "andesite"@),
        text_less("andesite"@, "bamboo_planks"@),
        text_less("bamboo_planks"@, "birch_planks"@),
        text_less("birch_planks"@, "black_concrete"@),
        text_less("black_concrete"@, "black_stained_glass"@),
        text_less("black_stained_glass"@, "black_terracotta"@),
        text_less("black_terracotta"@, "black_wool"@),
        text_less("black_wool"@, "blackstone"@),
        text_less("blackstone"@, "blue_concrete"@),
        text_less("blue_concrete"@, "blue_stained_glass"@),
        text_less("blue_stained_glass"@, "blue_terracotta"@),
        text_less("blue_terracotta"@, "blue_wool"@),
{
    reveal_strlit("acacia_planks");
    reveal_strlit("andesite");
    reveal_strlit("bamboo_planks");
    reveal_strlit("birch_planks");
    reveal_strlit("black_concrete");
    reveal_strlit("black_stained_glass");
    reveal_strlit("black_terracotta");
    reveal_strlit("black_wool");
    reveal_strlit("blackstone");
    reveal_strlit("blue_concrete");
    reveal_strlit("blue_stained_glass");
    reveal_strlit("blue_terracotta");
    reveal_strlit("blue_wool");
    first_difference("acacia_planks"@, "andesite"@, 1);
    first_difference("andesite"@, "bamboo_planks"@, 0);
    first_difference("bamboo_planks"@, "birch_planks"@, 1);
    first_difference("birch_planks"@, "black_concrete"@, 1);
    first_difference("black_concrete"@, "black_stained_glass"@, 6);
    first_difference("black_stained_glass"@, "black_terracotta"@, 6);
    first_difference("black_terracotta"@, "black_wool"@, 6);
    first_difference("black_wool"@, "blackstone"@, 5);
    first_difference("blackstone"@, "blue_concrete"@, 2);
    first_difference("blue_concrete"@, "blue_stained_glass"@, 5);
    first_difference("blue_stained_glass"@, "blue_terracotta"@, 5);
    first_difference("blue_terracotta"@, "blue_wool"@, 5);
}

proof fn names_ascend_from_12()
    ensures
        text_less("blue_wool"@, "bricks"@),
        text_less("bricks"@, "brown_concrete"@),
        text_less("brown_concrete"@, "brown_stained_glass"@),
        text_less("brown_stained_glass"@, "brown_terracotta"@),
        text_less("brown_terracotta"@, "brown_wool"@),
        text_less("brown_wool"@, "calcite"@),
        text_less("calcite"@, "cherry_planks"@),
        text_less("cherry_planks"@, "coal_block"@),
        text_less("coal_block"@, "cobbled_deepslate"@),
        text_less("cobbled_deepslate"@, "cobblestone"@),
        text_less("cobblestone"@, "crimson_planks"@),
        text_less("crimson_planks"@, "cyan_concrete"@),
{
    reveal_strlit("blue_wool");
    reveal_strlit("bricks");
    reveal_strlit("brown_concrete");
    reveal_strlit("brown_stained_glass");
    reveal_strlit("brown_terracotta");
    reveal_strlit("brown_wool");
    reveal_strlit("calcite");
    reveal_strlit("cherry_planks");
    reveal_strlit("coal_block");
    reveal_strlit("cobbled_deepslate");
    reveal_strlit("cobblestone");
    reveal_strlit("crimson_planks");
    reveal_strlit("cyan_concrete");
    first_difference("blue_wool"@, "bricks"@, 1);
    first_difference("bricks"@, "brown_concrete"@, 2);
    first_difference("brown_concrete"@, "brown_stained_glass"@, 6);
    first_difference("brown_stained_glass"@, "brown_terracotta"@, 6);
    first_difference("brown_terracotta"@, "brown_wool"@, 6);
    first_difference("brown_wool"@, "calcite"@, 0);
    first_difference("calcite"@, "cherry_planks"@, 1);
    first_difference("cherry_planks"@, "coal_block"@, 1);
    first_difference("coal_block"@, "cobbled_deepslate"@, 2);
    first_difference("cobbled_deepslate"@, "cobblestone"@, 6);
    first_difference("cobblestone"@, "crimson_planks"@, 1);
    first_difference("crimson_planks"@, "cyan_concrete"@, 1);
}

proof fn names_ascend_from_24()
    ensures
        text_less("cyan_concrete"@, "cyan_stained_glass"@),
        text_less("cyan_stained_glass"@, "cyan_terracotta"@),
        text_less("cyan_terracotta"@, "cyan_wool"@),
        text_less("cyan_wool"@, "dark_oak_planks"@),
        text_less("dark_oak_planks"@, "dark_prismarine"@),
        text_less("dark_prismarine"@, "deepslate_bricks"@),
        text_less("deepslate_bricks"@, "diamond_block"@),
        text_less("diamond_block"@, "diorite"@),
        text_less("diorite"@, "dirt"@),
        text_less("dirt"@, "emerald_block"@),
        text_less("emerald_block"@, "glass"@),
        text_less("glass"@, "glowstone"@),
{
    reveal_strlit("cyan_concrete");
    reveal_strlit("cyan_stained_glass");
    reveal_strlit("cyan_terracotta");
    reveal_strlit("cyan_wool");
    reveal_strlit("dark_oak_planks");
    reveal_strlit("dark_prismarine");
    reveal_strlit("deepslate_bricks");
    reveal_strlit("diamond_block");
    reveal_strlit("diorite");
    reveal_strlit("dirt");
    reveal_strlit("emerald_block");
    reveal_strlit("glass");
    reveal_strlit("glowstone");
    first_difference("cyan_concrete"@, "cyan_stained_glass"@, 5);
    first_difference("cyan_stained_glass"@, "cyan_terracotta"@, 5);
    first_difference("cyan_terracotta"@, "cyan_wool"@, 5);
    first_difference("cyan_wool"@, "dark_oak_planks"@, 0);
    first_difference("dark_oak_planks"@, "dark_prismarine"@, 5);
    first_difference("dark_prismarine"@, "deepslate_bricks"@, 1);
    first_difference("deepslate_bricks"@, "diamond_block"@, 1);
    first_difference("diamond_block"@, "diorite"@, 2);
    first_difference("diorite"@, "dirt"@, 2);
    first_difference("dirt"@, "emerald_block"@, 0);
    first_difference("emerald_block"@, "glass"@, 0);
    first_difference("glass"@, "glowstone"@, 2);
}

proof fn names_ascend_from_36()
    ensures
        text_less("glowstone"@, "gold_block"@),
        text_less("gold_block"@, "granite"@),
        text_less("granite"@, "grass_block"@),
        text_less("grass_block"@, "gray_concrete"@),
        text_less("gray_concrete"@, "gray_stained_glass"@),
        text_less("gray_stained_glass"@, "gray_terracotta"@),
        text_less("gray_terracotta"@, "gray_wool"@),
        text_less("gray_wool"@, "green_concrete"@),
        text_less("green_concrete"@, "green_stained_glass"@),
        text_less("green_stained_glass"@, "green_terracotta"@),
        text_less("green_terracotta"@, "green_wool"@),
        text_less("green_wool"@, "iron_block"@),
{
    reveal_strlit("glowstone");
    reveal_strlit("gold_block");
    reveal_strlit("granite");
    reveal_strlit("grass_block");
    reveal_strlit("gray_concrete");
    reveal_strlit("gray_stained_glass");
    reveal_strlit("gray_terracotta");
    reveal_strlit("gray_wool");
    reveal_strlit("green_concrete");
    reveal_strlit("green_stained_glass");
    reveal_strlit("green_terracotta");
    reveal_strlit("green_wool");
    reveal_strlit("iron_block");
    first_difference("glowstone"@, "gold_block"@, 1);
    first_difference("gold_block"@, "granite"@, 1);
    first_difference("granite"@, "grass_block"@, 3);
    first_difference("grass_block"@, "gray_concrete"@, 3);
    first_difference("gray_concrete"@, "gray_stained_glass"@, 5);
    first_difference("gray_stained_glass"@, "gray_terracotta"@, 5);
    first_difference("gray_terracotta"@, "gray_wool"@, 5);
    first_difference("gray_wool"@, "green_concrete"@, 2);
    first_difference("green_concrete"@, "green_stained_glass"@, 6);
    first_difference("green_stained_glass"@, "green_terracotta"@, 6);
    first_difference("green_terracotta"@, "green_wool"@, 6);
    first_difference("green_wool"@, "iron_block"@, 0);
}

proof fn names_ascend_from_48()
    ensures
        text_less("iron_block"@, "jungle_planks"@),
        text_less("jungle_planks"@, "lapis_block"@),
        text_less("lapis_block"@, "light_blue_concrete"@),
        text_less("light_blue_concrete"@, "light_blue_stained_glass"@),
        text_less("light_blue_stained_glass"@, "light_blue_terracotta"@),
        text_less("light_blue_terracotta"@, "light_blue_wool"@),
        text_less("light_blue_wool"@, "light_gray_concrete"@),
        text_less("light_gray_concrete"@, "light_gray_stained_glass"@),
        text_less("light_gray_stained_glass"@, "light_gray_terracotta"@),
        text_less("light_gray_terracotta"@, "light_gray_wool"@),
        text_less("light_gray_wool"@, "lime_concrete"@),
        text_less("lime_concrete"@, "lime_stained_glass"@),
{
    reveal_strlit("iron_block");
    reveal_strlit("jungle_planks");
    reveal_strlit("lapis_block");
    reveal_strlit("light_blue_concrete");
    reveal_strlit("light_blue_stained_glass");
    reveal_strlit("light_blue_terracotta");
    reveal_strlit("light_blue_wool");
    reveal_strlit("light_gray_concrete");
    reveal_strlit("light_gray_stained_glass");
    reveal_strlit("light_gray_terracotta");
    reveal_strlit("light_gray_wool");
    reveal_strlit("lime_concrete");
    reveal_strlit("lime_stained_glass");
    first_difference("iron_block"@, "jungle_planks"@, 0);
    first_difference("jungle_planks"@, "lapis_block"@, 0);
    first_difference("lapis_block"@, "light_blue_concrete"@, 1);
    first_difference("light_blue_concrete"@, "light_blue_stained_glass"@, 11);
    first_difference("light_blue_stained_glass"@, "light_blue_terracotta"@, 11);
    first_difference("light_blue_terracotta"@, "light_blue_wool"@, 11);
    first_difference("light_blue_wool"@, "light_gray_concrete"@, 6);
    first_difference("light_gray_concrete"@, "light_gray_stained_glass"@, 11);
    first_difference("light_gray_stained_glass"@, "light_gray_terracotta"@, 11);
    first_difference("light_gray_terracotta"@, "light_gray_wool"@, 11);
    first_difference("light_gray_wool"@, "lime_concrete"@, 2);
    first_difference("lime_concrete"@, "lime_stained_glass"@, 5);
}

proof fn names_ascend_from_60()
    ensures
        text_less("lime_stained_glass"@, "lime_terracotta"@),
        text_less("lime_terracotta"@, "lime_wool"@),
        text_less("lime_wool"@, "magenta_concrete"@),
        text_less("magenta_concrete"@, "magenta_stained_glass"@),
        text_less("magenta_stained_glass"@, "magenta_terracotta"@),
        text_less("magenta_terracotta"@, "magenta_wool"@),
        text_less("magenta_wool"@, "mangrove_planks"@),
        text_less("mangrove_planks"@, "mud_bricks"@),
        text_less("mud_bricks"@, "oak_planks"@),
        text_less("oak_planks"@, "obsidian"@),
        text_less("obsidian"@, "orange_concrete"@),
        text_less("orange_concrete"@, "orange_stained_glass"@),
{
    reveal_strlit("lime_stained_glass");
    reveal_strlit("lime_terracotta");
    reveal_strlit("lime_wool");
    reveal_strlit("magenta_concrete");
    reveal_strlit("magenta_stained_glass");
    reveal_strlit("magenta_terracotta");
    reveal_strlit("magenta_wool");
    reveal_strlit("mangrove_planks");
    reveal_strlit("mud_bricks");
    reveal_strlit("oak_planks");
    reveal_strlit("obsidian");
    reveal_strlit("orange_concrete");
    reveal_strlit("orange_stained_glass");
    first_difference("lime_stained_glass"@, "lime_terracotta"@, 5);
    first_difference("lime_terracotta"@, "lime_wool"@, 5);
    first_difference("lime_wool"@, "magenta_concrete"@, 0);
    first_difference("magenta_concrete"@, "magenta_stained_glass"@, 8);
    first_difference("magenta_stained_glass"@, "magenta_terracotta"@, 8);
    first_difference("magenta_terracotta"@, "magenta_wool"@, 8);
    first_difference("magenta_wool"@, "mangrove_planks"@, 2);
    first_difference("mangrove_planks"@, "mud_bricks"@, 1);
    first_difference("mud_bricks"@, "oak_planks"@, 0);
    first_difference("oak_planks"@, "obsidian"@, 1);
    first_difference("obsidian"@, "orange_concrete"@, 1);
    first_difference("orange_concrete"@, "orange_stained_glass"@, 7);
}

proof fn names_ascend_from_72()
    ensures
        text_less("orange_stained_glass"@, "orange_terracotta"@),
        text_less("orange_terracotta"@, "orange_wool"@),
        text_less("orange_wool"@, "pink_concrete"@),
        text_less("pink_concrete"@, "pink_stained_glass"@),
        text_less("pink_stained_glass"@, "pink_terracotta"@),
        text_less("pink_terracotta"@, "pink_wool"@),
        text_less("pink_wool"@, "polished_andesite"@),
        text_less("polished_andesite"@, "polished_blackstone"@),
        text_less("polished_blackstone"@, "polished_deepslate"@),
        text_less("polished_deepslate"@, "polished_diorite"@),
        text_less("polished_diorite"@, "polished_granite"@),
        text_less("polished_granite"@, "prismarine_bricks"@),
{
    reveal_strlit("orange_stained_glass");
    reveal_strlit("orange_terracotta");
    reveal_strlit("orange_wool");
    reveal_strlit("pink_concrete");
    reveal_strlit("pink_stained_glass");
    reveal_strlit("pink_terracotta");
    reveal_strlit("pink_wool");
    reveal_strlit("polished_andesite");
    reveal_strlit("polished_blackstone");
    reveal_strlit("polished_deepslate");
    reveal_strlit("polished_diorite");
    reveal_strlit("polished_granite");
    reveal_strlit("prismarine_bricks");
    first_difference("orange_stained_glass"@, "orange_terracotta"@, 7);
    first_difference("orange_terracotta"@, "orange_wool"@, 7);
    first_difference("orange_wool"@, "pink_concrete"@, 0);
    first_difference("pink_concrete"@, "pink_stained_glass"@, 5);
    first_difference("pink_stained_glass"@, "pink_terracotta"@, 5);
    first_difference("pink_terracotta"@, "pink_wool"@, 5);
    first_difference("pink_wool"@, "polished_andesite"@, 1);
    first_difference("polished_andesite"@, "polished_blackstone"@, 9);
    first_difference("polished_blackstone"@, "polished_deepslate"@, 9);
    first_difference("polished_deepslate"@, "polished_diorite"@, 10);
    first_difference("polished_diorite"@, "polished_granite"@, 9);
    first_difference("polished_granite"@, "prismarine_bricks"@, 1);
}

proof fn names_ascend_from_84()
    ensures
        text_less("prismarine_bricks"@, "purple_concrete"@),
        text_less("purple_concrete"@, "purple_stained_glass"@),
        text_less("purple_stained_glass"@, "purple_terracotta"@),
        text_less("purple_terracotta"@, "purple_wool"@),
        text_less("purple_wool"@, "quartz_block"@),
        text_less("quartz_block"@, "red_concrete"@),
        text_less("red_concrete"@, "red_sandstone"@),
        text_less("red_sandstone"@, "red_stained_glass"@),
        text_less("red_stained_glass"@, "red_terracotta"@),
        text_less("red_terracotta"@, "red_wool"@),
        text_less("red_wool"@, "sandstone"@),
        text_less("sandstone"@, "sea_lantern"@),
{
    reveal_strlit("prismarine_bricks");
    reveal_strlit("purple_concrete");
    reveal_strlit("purple_stained_glass");
    reveal_strlit("purple_terracotta");
    reveal_strlit("purple_wool");
    reveal_strlit("quartz_block");
    reveal_strlit("red_concrete");
    reveal_strlit("red_sandstone");
    reveal_strlit("red_stained_glass");
    reveal_strlit("red_terracotta");
    reveal_strlit("red_wool");
    reveal_strlit("sandstone");
    reveal_strlit("sea_lantern");
    first_difference("prismarine_bricks"@, "purple_concrete"@, 1);
    first_difference("purple_concrete"@, "purple_stained_glass"@, 7);
    first_difference("purple_stained_glass"@, "purple_terracotta"@, 7);
    first_difference("purple_terracotta"@, "purple_wool"@, 7);
    first_difference("purple_wool"@, "quartz_block"@, 0);
    first_difference("quartz_block"@, "red_concrete"@, 0);
    first_difference("red_concrete"@, "red_sandstone"@, 4);
    first_difference("red_sandstone"@, "red_stained_glass"@, 5);
    first_difference("red_stained_glass"@, "red_terracotta"@, 4);
    first_difference("red_terracotta"@, "red_wool"@, 4);
    first_difference("red_wool"@, "sandstone"@, 0);
    first_difference("sandstone"@, "sea_lantern"@, 1);
}

proof fn names_ascend_from_96()
    ensures
        text_less("sea_lantern"@, "smooth_quartz"@),
        text_less("smooth_quartz"@, "smooth_red_sandstone"@),
        text_less("smooth_red_sandstone"@, "smooth_sandstone"@),
        text_less("smooth_sandstone"@, "smooth_stone"@),
        text_less("smooth_stone"@, "snow_block"@),
        text_less("snow_block"@, "spruce_planks"@),
        text_less("spruce_planks"@, "stone"@),
        text_less("stone"@, "stone_bricks"@),
        text_less("stone_bricks"@, "tinted_glass"@),
        text_less("tinted_glass"@, "warped_planks"@),
        text_less("warped_planks"@, "white_concrete"@),
        text_less("white_concrete"@, "white_stained_glass"@),
{
    reveal_strlit("sea_lantern");
    reveal_strlit("smooth_quartz");
    reveal_strlit("smooth_red_sandstone");
    reveal_strlit("smooth_sandstone");
    reveal_strlit("smooth_stone");
    reveal_strlit("snow_block");
    reveal_strlit("spruce_planks");
    reveal_strlit("stone");
    reveal_strlit("stone_bricks");
    reveal_strlit("tinted_glass");
    reveal_strlit("warped_planks");
    reveal_strlit("white_concrete");
    reveal_strlit("white_stained_glass");
    first_difference("sea_lantern"@, "smooth_quartz"@, 1);
    first_difference("smooth_quartz"@, "smooth_red_sandstone"@, 7);
    first_difference("smooth_red_sandstone"@, "smooth_sandstone"@, 7);
    first_difference("smooth_sandstone"@, "smooth_stone"@, 8);
    first_difference("smooth_stone"@, "snow_block"@, 1);
    first_difference("snow_block"@, "spruce_planks"@, 1);
    first_difference("spruce_planks"@, "stone"@, 1);
    first_difference("stone"@, "stone_bricks"@, 5);
    first_difference("stone_bricks"@, "tinted_glass"@, 0);
    first_difference("tinted_glass"@, "warped_planks"@, 0);
    first_difference("warped_planks"@, "white_concrete"@, 1);
    first_difference("white_concrete"@, "white_stained_glass"@, 6);
}

proof fn names_ascend_from_108()
    ensures
        text_less("white_stained_glass"@, "white_terracotta"@),
        text_less("white_terracotta"@, "white_wool"@),
        text_less("white_wool"@, "yellow_concrete"@),
        text_less("yellow_concrete"@, "yellow_stained_glass"@),
        text_less("yellow_stained_glass"@, "yellow_terracotta"@),
        text_less("yellow_terracotta"@, "yellow_wool"@),
{
    reveal_strlit("white_stained_glass");
    reveal_strlit("white_terracotta");
    reveal_strlit("white_wool");
    reveal_strlit("yellow_concrete");
    reveal_strlit("yellow_stained_glass");
    reveal_strlit("yellow_terracotta");
    reveal_strlit("yellow_wool");
    first_difference("white_stained_glass"@, "white_terracotta"@, 6);
    first_difference("white_terracotta"@, "white_wool"@, 6);
    first_difference("white_wool"@, "yellow_concrete"@, 0);
    first_difference("yellow_concrete"@, "yellow_stained_glass"@, 7);
    first_difference("yellow_stained_glass"@, "yellow_terracotta"@, 7);
    first_difference("yellow_terracotta"@, "yellow_wool"@, 7);
}

/// A text that agrees with another in its first `k` characters, and then ends or has the lesser
/// character, is below it.
proof fn first_difference(a: Seq<char>, b: Seq<char>, k: int)
    requires
        0 <= k <= a.len(),
        k < b.len(),
        forall|i: int| 0 <= i < k ==> a[i] == b[i],
        k == a.len() || a[k] < b[k],
    ensures
        text_less(a, b),
    decreases k,
{
    if k > 0 {
        first_difference(a.skip(1), b.skip(1), k - 1);
    }
}

proof fn adjacent_names_ascend(r: int)
    requires
        0 <= r < 114,
    ensures
        text_less(ascending_name(r), ascending_name(r + 1)),
{
    if r < 12 {
        names_ascend_from_0();
    } else if r < 24 {
        names_ascend_from_12();
    } else if r < 36 {
        names_ascend_from_24();
    } else if r < 48 {
        names_ascend_from_36();
    } else if r < 60 {
        names_ascend_from_48();
    } else if r < 72 {
        names_ascend_from_60();
    } else if r < 84 {
        names_ascend_from_72();
    } else if r < 96 {
        names_ascend_from_84();
    } else if r < 108 {
        names_ascend_from_96();
    } else if r < 114 {
        names_ascend_from_108();
    }
}

proof fn names_ascend(r: int, s: int)
    requires
        0 <= r < s < 115,
    ensures
        text_less(ascending_name(r), ascending_name(s)),
    decreases s - r,
{
    if r + 1 == s {
        adjacent_names_ascend(r);
    } else {
        names_ascend(r, s - 1);
        adjacent_names_ascend(s - 1);
        text_less_transitive(ascending_name(r), ascending_name(s - 1), ascending_name(s));
    }
}

/// The rank of an entry's name among the names of the palette.
spec fn name_rank(i: int) -> int {
    if i == 0 {
        103
    } else if i == 1 {
        33
    } else if i == 2 {
        39
    } else if i == 3 {
        69
    } else if i == 4 {
        22
    } else if i == 5 {
        35
    } else if i == 6 {
        107
    } else if i == 7 {
        71
    } else if i == 8 {
        63
    } else if i == 9 {
        51
    } else if i == 10 {
        111
    } else if i == 11 {
        59
    } else if i == 12 {
        75
    } else if i == 13 {
        40
    } else if i == 14 {
        55
    } else if i == 15 {
        24
    } else if i == 16 {
        85
    } else if i == 17 {
        9
    } else if i == 18 {
        14
    } else if i == 19 {
        44
    } else if i == 20 {
        90
    } else if i == 21 {
        4
    } else if i == 22 {
        110
    } else if i == 23 {
        74
    } else if i == 24 {
        66
    } else if i == 25 {
        54
    } else if i == 26 {
        114
    } else if i == 27 {
        62
    } else if i == 28 {
        78
    } else if i == 29 {
        43
    } else if i == 30 {
        58
    } else if i == 31 {
        27
    } else if i == 32 {
        88
    } else if i == 33 {
        12
    } else if i == 34 {
        17
    } else if i == 35 {
        47
    } else if i == 36 {
        94
    } else if i == 37 {
        7
    } else if i == 38 {
        109
    } else if i == 39 {
        73
    } else if i == 40 {
        65
    } else if i == 41 {
        53
    } else if i == 42 {
        113
    } else if i == 43 {
        61
    } else if i == 44 {
        77
    } else if i == 45 {
        42
    } else if i == 46 {
        57
    } else if i == 47 {
        26
    } else if i == 48 {
        87
    } else if i == 49 {
        11
    } else if i == 50 {
        16
    } else if i == 51 {
        46
    } else if i == 52 {
        93
    } else if i == 53 {
        6
    } else if i == 54 {
        108
    } else if i == 55 {
        72
    } else if i == 56 {
        64
    } else if i == 57 {
        52
    } else if i == 58 {
        112
    } else if i == 59 {
        60
    } else if i == 60 {
        76
    } else if i == 61 {
        41
    } else if i == 62 {
        56
    } else if i == 63 {
        25
    } else if i == 64 {
        86
    } else if i == 65 {
        10
    } else if i == 66 {
        15
    } else if i == 67 {
        45
    } else if i == 68 {
        92
    } else if i == 69 {
        5
    } else if i == 70 {
        102
    } else if i == 71 {
        3
    } else if i == 72 {
        49
    } else if i == 73 {
        0
    } else if i == 74 {
        28
    } else if i == 75 {
        67
    } else if i == 76 {
        19
    } else if i == 77 {
        2
    } else if i == 78 {
        23
    } else if i == 79 {
        106
    } else if i == 80 {
        100
    } else if i == 81 {
        104
    } else if i == 82 {
        13
    } else if i == 83 {
        38
    } else if i == 84 {
        83
    } else if i == 85 {
        32
    } else if i == 86 {
        82
    } else if i == 87 {
        1
    } else if i == 88 {
        79
    } else if i == 89 {
        18
    } else if i == 90 {
        89
    } else if i == 91 {
        97
    } else if i == 92 {
        95
    } else if i == 93 {
        99
    } else if i == 94 {
        91
    } else if i == 95 {
        98
    } else if i == 96 {
        21
    } else if i == 97 {
        81
    } else if i == 98 {
        30
    } else if i == 99 {
        8
    } else if i == 100 {
        80
    } else if i == 101 {
        84
    } else if i == 102 {
        29
    } else if i == 103 {
        68
    } else if i == 104 {
        70
    } else if i == 105 {
        48
    } else if i == 106 {
        37
    } else if i == 107 {
        20
    } else if i == 108 {
        50
    } else if i == 109 {
        31
    } else if i == 110 {
        34
    } else if i == 111 {
        96
    } else if i == 112 {
        36
    } else if i == 113 {
        101
    } else if i == 114 {
        105
    } else {
        0
    }
}

/// The entry whose name has that rank.
spec fn ranked_entry(r: int) -> int {
    if r == 0 {
        73
    } else if r == 1 {
        87
    } else if r == 2 {
        77
    } else if r == 3 {
        71
    } else if r == 4 {
        21
    } else if r == 5 {
        69
    } else if r == 6 {
        53
    } else if r == 7 {
        37
    } else if r == 8 {
        99
    } else if r == 9 {
        17
    } else if r == 10 {
        65
    } else if r == 11 {
        49
    } else if r == 12 {
        33
    } else if r == 13 {
        82
    } else if r == 14 {
        18
    } else if r == 15 {
        66
    } else if r == 16 {
        50
    } else if r == 17 {
        34
    } else if r == 18 {
        89
    } else if r == 19 {
        76
    } else if r == 20 {
        107
    } else if r == 21 {
        96
    } else if r == 22 {
        4
    } else if r == 23 {
        78
    } else if r == 24 {
        15
    } else if r == 25 {
        63
    } else if r == 26 {
        47
    } else if r == 27 {
        31
    } else if r == 28 {
        74
    } else if r == 29 {
        102
    } else if r == 30 {
        98
    } else if r == 31 {
        109
    } else if r == 32 {
        85
    } else if r == 33 {
        1
    } else if r == 34 {
        110
    } else if r == 35 {
        5
    } else if r == 36 {
        112
    } else if r == 37 {
        106
    } else if r == 38 {
        83
    } else if r == 39 {
        2
    } else if r == 40 {
        13
    } else if r == 41 {
        61
    } else if r == 42 {
        45
    } else if r == 43 {
        29
    } else if r == 44 {
        19
    } else if r == 45 {
        67
    } else if r == 46 {
        51
    } else if r == 47 {
        35
    } else if r == 48 {
        105
    } else if r == 49 {
        72
    } else if r == 50 {
        108
    } else if r == 51 {
        9
    } else if r == 52 {
        57
    } else if r == 53 {
        41
    } else if r == 54 {
        25
    } else if r == 55 {
        14
    } else if r == 56 {
        62
    } else if r == 57 {
        46
    } else if r == 58 {
        30
    } else if r == 59 {
        11
    } else if r == 60 {
        59
    } else if r == 61 {
        43
    } else if r == 62 {
        27
    } else if r == 63 {
        8
    } else if r == 64 {
        56
    } else if r == 65 {
        40
    } else if r == 66 {
        24
    } else if r == 67 {
        75
    } else if r == 68 {
        103
    } else if r == 69 {
        3
    } else if r == 70 {
        104
    } else if r == 71 {
        7
    } else if r == 72 {
        55
    } else if r == 73 {
        39
    } else if r == 74 {
        23
    } else if r == 75 {
        12
    } else if r == 76 {
        60
    } else if r == 77 {
        44
    } else if r == 78 {
        28
    } else if r == 79 {
        88
    } else if r == 80 {
        100
    } else if r == 81 {
        97
    } else if r == 82 {
        86
    } else if r == 83 {
        84
    } else if r == 84 {
        101
    } else if r == 85 {
        16
    } else if r == 86 {
        64
    } else if r == 87 {
        48
    } else if r == 88 {
        32
    } else if r == 89 {
        90
    } else if r == 90 {
        20
    } else if r == 91 {
        94
    } else if r == 92 {
        68
    } else if r == 93 {
        52
    } else if r == 94 {
        36
    } else if r == 95 {
        92
    } else if r == 96 {
        111
    } else if r == 97 {
        91
    } else if r == 98 {
        95
    } else if r == 99 {
        93
    } else if r == 100 {
        80
    } else if r == 101 {
        113
    } else if r == 102 {
        70
    } else if r == 103 {
        0
    } else if r == 104 {
        81
    } else if r == 105 {
        114
    } else if r == 106 {
        79
    } else if r == 107 {
        6
    } else if r == 108 {
        54
    } else if r == 109 {
        38
    } else if r == 110 {
        22
    } else if r == 111 {
        10
    } else if r == 112 {
        58
    } else if r == 113 {
        42
    } else if r == 114 {
        26
    } else {
        0
    }
}

proof fn original_blocks_rank(i: int)
    requires
        0 <= i < 6,
    ensures
        original_blocks()[i - 0].name@ == ascending_name(name_rank(i)),
        0 <= name_rank(i) < 115,
        ranked_entry(name_rank(i)) == i,
        valid_state(original_blocks()[i - 0].block),
        state_index(original_blocks()[i - 0].block) == i,
{
}

proof fn concrete_blocks_rank(i: int)
    requires
        6 <= i < 22,
    ensures
        concrete_blocks()[i - 6].name@ == ascending_name(name_rank(i)),
        0 <= name_rank(i) < 115,
        ranked_entry(name_rank(i)) == i,
        valid_state(concrete_blocks()[i - 6].block),
        state_index(concrete_blocks()[i - 6].block) == i,
{
}

proof fn wool_blocks_rank(i: int)
    requires
        22 <= i < 38,
    ensures
        wool_blocks()[i - 22].name@ == ascending_name(name_rank(i)),
        0 <= name_rank(i) < 115,
        ranked_entry(name_rank(i)) == i,
        valid_state(wool_blocks()[i - 22].block),
        state_index(wool_blocks()[i - 22].block) == i,
{
}

proof fn terracotta_blocks_rank(i: int)
    requires
        38 <= i < 54,
    ensures
        terracotta_blocks()[i - 38].name@ == ascending_name(name_rank(i)),
        0 <= name_rank(i) < 115,
        ranked_entry(name_rank(i)) == i,
        valid_state(terracotta_blocks()[i - 38].block),
        state_index(terracotta_blocks()[i - 38].block) == i,
{
}

proof fn stained_glass_blocks_rank(i: int)
    requires
        54 <= i < 70,
    ensures
        stained_glass_blocks()[i - 54].name@ == ascending_name(name_rank(i)),
        0 <= name_rank(i) < 115,
        ranked_entry(name_rank(i)) == i,
        valid_state(stained_glass_blocks()[i - 54].block),
        state_index(stained_glass_blocks()[i - 54].block) == i,
{
}

proof fn plank_blocks_rank(i: int)
    requires
        70 <= i < 80,
    ensures
        plank_blocks()[i - 70].name@ == ascending_name(name_rank(i)),
        0 <= name_rank(i) < 115,
        ranked_entry(name_rank(i)) == i,
        valid_state(plank_blocks()[i - 70].block),
        state_index(plank_blocks()[i - 70].block) == i,
{
}

proof fn selected_blocks_rank(i: int)
    requires
        80 <= i < 115,
    ensures
        selected_blocks()[i - 80].name@ == ascending_name(name_rank(i)),
        0 <= name_rank(i) < 115,
        ranked_entry(name_rank(i)) == i,
        valid_state(selected_blocks()[i - 80].block),
        state_index(selected_blocks()[i - 80].block) == i,
{
}

/// The number of the entry with that block.
spec fn state_index(block: BlockState) -> int {
    if block == 1 {
        0
    } else if block == 10 {
        1
    } else if block == 9 {
        2
    } else if block == 15 {
        3
    } else if block == 14 {
        4
    } else if block == 519 {
        5
    } else if block == 12587 {
        6
    } else if block == 12588 {
        7
    } else if block == 12589 {
        8
    } else if block == 12590 {
        9
    } else if block == 12591 {
        10
    } else if block == 12592 {
        11
    } else if block == 12593 {
        12
    } else if block == 12594 {
        13
    } else if block == 12595 {
        14
    } else if block == 12596 {
        15
    } else if block == 12597 {
        16
    } else if block == 12598 {
        17
    } else if block == 12599 {
        18
    } else if block == 12600 {
        19
    } else if block == 12601 {
        20
    } else if block == 12602 {
        21
    } else if block == 2047 {
        22
    } else if block == 2048 {
        23
    } else if block == 2049 {
        24
    } else if block == 2050 {
        25
    } else if block == 2051 {
        26
    } else if block == 2052 {
        27
    } else if block == 2053 {
        28
    } else if block == 2054 {
        29
    } else if block == 2055 {
        30
    } else if block == 2056 {
        31
    } else if block == 2057 {
        32
    } else if block == 2058 {
        33
    } else if block == 2059 {
        34
    } else if block == 2060 {
        35
    } else if block == 2061 {
        36
    } else if block == 2062 {
        37
    } else if block == 9216 {
        38
    } else if block == 9217 {
        39
    } else if block == 9218 {
        40
    } else if block == 9219 {
        41
    } else if block == 9220 {
        42
    } else if block == 9221 {
        43
    } else if block == 9222 {
        44
    } else if block == 9223 {
        45
    } else if block == 9224 {
        46
    } else if block == 9225 {
        47
    } else if block == 9226 {
        48
    } else if block == 9227 {
        49
    } else if block == 9228 {
        50
    } else if block == 9229 {
        51
    } else if block == 9230 {
        52
    } else if block == 9231 {
        53
    } else if block == 5946 {
        54
    } else if block == 5947 {
        55
    } else if block == 5948 {
        56
    } else if block == 5949 {
        57
    } else if block == 5950 {
        58
    } else if block == 5951 {
        59
    } else if block == 5952 {
        60
    } else if block == 5953 {
        61
    } else if block == 5954 {
        62
    } else if block == 5955 {
        63
    } else if block == 5956 {
        64
    } else if block == 5957 {
        65
    } else if block == 5958 {
        66
    } else if block == 5959 {
        67
    } else if block == 5960 {
        68
    } else if block == 5961 {
        69
    } else if block == 16 {
        70
    } else if block == 17 {
        71
    } else if block == 18 {
        72
    } else if block == 19 {
        73
    } else if block == 21 {
        74
    } else if block == 22 {
        75
    } else if block == 20 {
        76
    } else if block == 23 {
        77
    } else if block == 18525 {
        78
    } else if block == 18526 {
        79
    } else if block == 11165 {
        80
    } else if block == 6538 {
        81
    } else if block == 2093 {
        82
    } else if block == 2 {
        83
    } else if block == 3 {
        84
    } else if block == 4 {
        85
    } else if block == 5 {
        86
    } else if block == 6 {
        87
    } else if block == 7 {
        88
    } else if block == 20941 {
        89
    } else if block == 9095 {
        90
    } else if block == 11167 {
        91
    } else if block == 535 {
        92
    } else if block == 11166 {
        93
    } else if block == 10938 {
        94
    } else if block == 11168 {
        95
    } else if block == 22452 {
        96
    } else if block == 22863 {
        97
    } else if block == 23685 {
        98
    } else if block == 19319 {
        99
    } else if block == 19730 {
        100
    } else if block == 10323 {
        101
    } else if block == 10324 {
        102
    } else if block == 6543 {
        103
    } else if block == 2354 {
        104
    } else if block == 2092 {
        105
    } else if block == 2091 {
        106
    } else if block == 10604 {
        107
    } else if block == 522 {
        108
    } else if block == 4276 {
        109
    } else if block == 7665 {
        110
    } else if block == 10583 {
        111
    } else if block == 5864 {
        112
    } else if block == 5781 {
        113
    } else if block == 20942 {
        114
    } else {
        0
    }
}

proof fn entry_facts(i: int)
    requires
        0 <= i < 115,
    ensures
        palette().len() == 115,
        palette()[i].name@ == ascending_name(name_rank(i)),
        0 <= name_rank(i) < 115,
        ranked_entry(name_rank(i)) == i,
        valid_state(palette()[i].block),
        state_index(palette()[i].block) == i,
{
    if i < 6 {
        original_blocks_rank(i);
    } else if i < 22 {
        concrete_blocks_rank(i);
    } else if i < 38 {
        wool_blocks_rank(i);
    } else if i < 54 {
        terracotta_blocks_rank(i);
    } else if i < 70 {
        stained_glass_blocks_rank(i);
    } else if i < 80 {
        plank_blocks_rank(i);
    } else if i < 115 {
        selected_blocks_rank(i);
    }
}

/// The palette has 115 entries, all of them block states; no name and no block occurs twice.
pub proof fn palette_is_unique(i: int, j: int)
    requires
        0 <= i < j < palette().len(),
    ensures
        palette().len() == BUILD_PALETTE_BLOCK_COUNT,
        valid_state(palette()[i].block),
        palette()[i].name@ != palette()[j].name@,
        palette()[i].block != palette()[j].block,
{
    palette_length();
    entry_facts(i);
    entry_facts(j);
    let r = name_rank(i);
    let s = name_rank(j);
    if r < s {
        names_ascend(r, s);
        text_less_irreflexive(ascending_name(r));
    } else if s < r {
        names_ascend(s, r);
        text_less_irreflexive(ascending_name(s));
    }
}

proof fn palette_length()
    ensures
        palette().len() == 115,
{
}

/// Looking up an entry's name gives its block, and looking up its block gives its name.
pub proof fn lookups_round_trip(i: int)
    requires
        0 <= i < palette().len(),
    ensures
        palette_block(palette()[i].name@) == Some(palette()[i].block),
        palette_name(palette()[i].block) == Some(palette()[i].name@),
{
    found_by_name(0, i);
    found_by_block(0, i);
}

proof fn found_by_name(k: int, i: int)
    requires
        0 <= k <= i < palette().len(),
    ensures
        entry_named(palette(), palette()[i].name@, k) == Some(i),
    decreases i - k,
{
    if k < i {
        palette_is_unique(k, i);
        found_by_name(k + 1, i);
    }
}

proof fn found_by_block(k: int, i: int)
    requires
        0 <= k <= i < palette().len(),
    ensures
        entry_for(palette(), palette()[i].block, k) == Some(i),
    decreases i - k,
{
    if k < i {
        palette_is_unique(k, i);
        found_by_block(k + 1, i);
    }
}

/// What the lookup of a block finds is an entry with that block.
pub proof fn found_entry(block: BlockState, k: int)
    requires
        0 <= k <= palette().len(),
        entry_for(palette(), block, k) is Some,
    ensures
        k <= entry_for(palette(), block, k)->0 < palette().len(),
        palette()[entry_for(palette(), block, k)->0].block == block,
    decreases palette().len() - k,
{
    if k < palette().len() && palette()[k].block != block {
        found_entry(block, k + 1);
    }
}

/// The palette holds block states only, and neither air nor bedrock.
pub proof fn palette_blocks_are_states(block: BlockState)
    requires
        palette_name(block) is Some,
    ensures
        valid_state(block),
        block != AIR,
        block != BEDROCK,
{
    let i = entry_for(palette(), block, 0)->0;
    found_entry(block, 0);
    palette_length();
    entry_facts(i);
    assert(palette()[0].block == 1);
}

proof fn inserting_keeps_names_sorted(entries: Seq<BuildPaletteEntry>, item: BuildPaletteEntry)
    requires
        names_sorted(entries),
        forall|i: int| 0 <= i < entries.len() ==> (#[trigger] entries[i]).name@ != item.name@,
    ensures
        names_sorted(with_sorted(entries, item)),
        with_sorted(entries, item).to_multiset() == entries.to_multiset().insert(item),
        forall|e: BuildPaletteEntry| #[trigger]
            with_sorted(entries, item).contains(e) <==> (entries.contains(e) || e == item),
    decreases entries.len(),
{
    broadcast use vstd::seq_lib::group_to_multiset_ensures;
    let after = with_sorted(entries, item);
    if entries.len() == 0 || !text_less(item.name@, entries.last().name@) {
        assert forall|i: int, j: int|
            #![trigger after[i], after[j]]
            0 <= i < j < after.len() implies text_less(after[i].name@, after[j].name@) by {
            if j == entries.len() {
                text_less_total(entries.last().name@, item.name@);
                if i < entries.len() - 1 {
                    assert(text_less(entries[i].name@, entries[entries.len() - 1].name@));
                    text_less_transitive(entries[i].name@, entries.last().name@, item.name@);
                }
            }
        }
        assert forall|e: BuildPaletteEntry| #[trigger]
            after.contains(e) <==> (entries.contains(e) || e == item) by {
            if entries.contains(e) {
                assert(after[entries.index_of(e)] == e);
            }
            if e == item {
                assert(after[entries.len() as int] == e);
            }
            if after.contains(e) {
                let k = after.index_of(e);
                if k < entries.len() {
                    assert(entries[k] == e);
                }
            }
        }
    } else {
        let front = entries.drop_last();
        assert forall|i: int| 0 <= i < front.len() implies (#[trigger] front[i]).name@
            != item.name@ by {
            assert(front[i] == entries[i]);
        }
        inserting_keeps_names_sorted(front, item);
        let inner = with_sorted(front, item);
        assert forall|i: int, j: int|
            #![trigger after[i], after[j]]
            0 <= i < j < after.len() implies text_less(after[i].name@, after[j].name@) by {
            if j == inner.len() {
                assert(inner.contains(inner[i]));
                if inner[i] != item {
                    assert(front.contains(inner[i]));
                    let k = front.index_of(inner[i]);
                    assert(text_less(entries[k].name@, entries[entries.len() - 1].name@));
                }
            } else {
                assert(text_less(inner[i].name@, inner[j].name@));
            }
        }
        assert forall|e: BuildPaletteEntry| #[trigger]
            after.contains(e) <==> (entries.contains(e) || e == item) by {
            if after.contains(e) {
                let k = after.index_of(e);
                if k < inner.len() {
                    assert(inner[k] == e);
                    assert(inner.contains(e));
                    if front.contains(e) {
                        assert(entries[front.index_of(e)] == e);
                    }
                } else {
                    assert(entries[entries.len() - 1] == e);
                }
            }
            if entries.contains(e) || e == item {
                if e == entries.last() {
                    assert(after[inner.len() as int] == e);
                } else {
                    if entries.contains(e) {
                        assert(front[entries.index_of(e)] == e);
                    }
                    assert(inner.contains(e));
                    assert(after[inner.index_of(e)] == e);
                }
            }
        }
        assert(entries =~= front.push(entries.last()));
        assert(after =~= inner.push(entries.last()));
        assert(after.to_multiset() =~= entries.to_multiset().insert(item));
    }
}

proof fn prefix_is_sorted(n: int)
    requires
        0 <= n <= palette().len(),
    ensures
        names_sorted(sorted_entries(palette(), n)),
        forall|e: BuildPaletteEntry| #[trigger]
            sorted_entries(palette(), n).contains(e) <==> palette().take(n).contains(e),
        sorted_entries(palette(), n).len() == n,
    decreases n,
{
    if n > 0 {
        prefix_is_sorted(n - 1);
        let before = sorted_entries(palette(), n - 1);
        let item = palette()[n - 1];
        let front = palette().take(n - 1);
        let whole = palette().take(n);
        assert forall|i: int| 0 <= i < before.len() implies (#[trigger] before[i]).name@
            != item.name@ by {
            assert(before.contains(before[i]));
            assert(front.contains(before[i]));
            let k = front.index_of(before[i]);
            palette_is_unique(k, n - 1);
        }
        inserting_keeps_names_sorted(before, item);
        sorted_length(before, item);
        assert forall|e: BuildPaletteEntry| #[trigger]
            sorted_entries(palette(), n).contains(e) <==> whole.contains(e) by {
            assert(before.contains(e) <==> front.contains(e));
            if front.contains(e) {
                assert(whole[front.index_of(e)] == e);
            }
            if e == item {
                assert(whole[n - 1] == e);
            }
            if whole.contains(e) {
                let k = whole.index_of(e);
                if k < n - 1 {
                    assert(front[k] == e);
                }
            }
        }
    }
}

proof fn sorted_length(entries: Seq<BuildPaletteEntry>, item: BuildPaletteEntry)
    ensures
        with_sorted(entries, item).len() == entries.len() + 1,
    decreases entries.len(),
{
    if entries.len() > 0 && text_less(item.name@, entries.last().name@) {
        sorted_length(entries.drop_last(), item);
    }
}

/// The public list of the palette is sorted by name, strictly, and holds the palette's entries.
pub proof fn public_entries_are_sorted()
    ensures
        names_sorted(sorted_entries(palette(), palette().len() as int)),
        sorted_entries(palette(), palette().len() as int).len() == palette().len(),
        forall|e: BuildPaletteEntry| #[trigger]
            sorted_entries(palette(), palette().len() as int).contains(e) <==> palette().contains(
                e,
            ),
{
    let n = palette().len() as int;
    prefix_is_sorted(n);
    assert(palette().take(n) =~= palette());
}

// ---- names with the game's namespace ----

/// True iff the name is made of small letters and underscores.
pub open spec fn is_plain(name: Seq<char>) -> bool {
    &&& name.len() > 0
    &&& forall|k: int| 0 <= k < name.len() ==> 'a' <= #[trigger] name[k] <= 'z' || name[k] == '_'
}

proof fn original_blocks_are_plain(i: int)
    requires
        0 <= i < 6,
    ensures
        original_blocks().len() == 6,
        is_plain(original_blocks()[i].name@),
        original_blocks()[i].name@.len() > 3,
{
    if i == 0 {
        assert(original_blocks()[0].name@ == "stone"@);
        assert(is_plain("stone"@) && "stone"@.len() > 3) by {
            reveal_strlit("stone");
        }
    } else if i == 1 {
        assert(original_blocks()[1].name@ == "dirt"@);
        assert(is_plain("dirt"@) && "dirt"@.len() > 3) by {
            reveal_strlit("dirt");
        }
    } else if i == 2 {
        assert(original_blocks()[2].name@ == "grass_block"@);
        assert(is_plain("grass_block"@) && "grass_block"@.len() > 3) by {
            reveal_strlit("grass_block");
        }
    } else if i == 3 {
        assert(original_blocks()[3].name@ == "oak_planks"@);
        assert(is_plain("oak_planks"@) && "oak_planks"@.len() > 3) by {
            reveal_strlit("oak_planks");
        }
    } else if i == 4 {
        assert(original_blocks()[4].name@ == "cobblestone"@);
        assert(is_plain("cobblestone"@) && "cobblestone"@.len() > 3) by {
            reveal_strlit("cobblestone");
        }
    } else if i == 5 {
        assert(original_blocks()[5].name@ == "glass"@);
        assert(is_plain("glass"@) && "glass"@.len() > 3) by {
            reveal_strlit("glass");
        }
    }
}

proof fn concrete_blocks_are_plain(i: int)
    requires
        0 <= i < 16,
    ensures
        concrete_blocks().len() == 16,
        is_plain(concrete_blocks()[i].name@),
        concrete_blocks()[i].name@.len() > 3,
{
    if i == 0 {
        assert(concrete_blocks()[0].name@ == "white_concrete"@);
        assert(is_plain("white_concrete"@) && "white_concrete"@.len() > 3) by {
            reveal_strlit("white_concrete");
        }
    } else if i == 1 {
        assert(concrete_blocks()[1].name@ == "orange_concrete"@);
        assert(is_plain("orange_concrete"@) && "orange_concrete"@.len() > 3) by {
            reveal_strlit("orange_concrete");
        }
    } else if i == 2 {
        assert(concrete_blocks()[2].name@ == "magenta_concrete"@);
        assert(is_plain("magenta_concrete"@) && "magenta_concrete"@.len() > 3) by {
            reveal_strlit("magenta_concrete");
        }
    } else if i == 3 {
        assert(concrete_blocks()[3].name@ == "light_blue_concrete"@);
        assert(is_plain("light_blue_concrete"@) && "light_blue_concrete"@.len() > 3) by {
            reveal_strlit("light_blue_concrete");
        }
    } else if i == 4 {
        assert(concrete_blocks()[4].name@ == "yellow_concrete"@);
        assert(is_plain("yellow_concrete"@) && "yellow_concrete"@.len() > 3) by {
            reveal_strlit("yellow_concrete");
        }
    } else if i == 5 {
        assert(concrete_blocks()[5].name@ == "lime_concrete"@);
        assert(is_plain("lime_concrete"@) && "lime_concrete"@.len() > 3) by {
            reveal_strlit("lime_concrete");
        }
    } else if i == 6 {
        assert(concrete_blocks()[6].name@ == "pink_concrete"@);
        assert(is_plain("pink_concrete"@) && "pink_concrete"@.len() > 3) by {
            reveal_strlit("pink_concrete");
        }
    } else if i == 7 {
        assert(concrete_blocks()[7].name@ == "gray_concrete"@);
        assert(is_plain("gray_concrete"@) && "gray_concrete"@.len() > 3) by {
            reveal_strlit("gray_concrete");
        }
    } else if i == 8 {
        assert(concrete_blocks()[8].name@ == "light_gray_concrete"@);
        assert(is_plain("light_gray_concrete"@) && "light_gray_concrete"@.len() > 3) by {
            reveal_strlit("light_gray_concrete");
        }
    } else if i == 9 {
        assert(concrete_blocks()[9].name@ == "cyan_concrete"@);
        assert(is_plain("cyan_concrete"@) && "cyan_concrete"@.len() > 3) by {
            reveal_strlit("cyan_concrete");
        }
    } else if i == 10 {
        assert(concrete_blocks()[10].name@ == "purple_concrete"@);
        assert(is_plain("purple_concrete"@) && "purple_concrete"@.len() > 3) by {
            reveal_strlit("purple_concrete");
        }
    } else if i == 11 {
        assert(concrete_blocks()[11].name@ == "blue_concrete"@);
        assert(is_plain("blue_concrete"@) && "blue_concrete"@.len() > 3) by {
            reveal_strlit("blue_concrete");
        }
    } else if i == 12 {
        assert(concrete_blocks()[12].name@ == "brown_concrete"@);
        assert(is_plain("brown_concrete"@) && "brown_concrete"@.len() > 3) by {
            reveal_strlit("brown_concrete");
        }
    } else if i == 13 {
        assert(concrete_blocks()[13].name@ == "green_concrete"@);
        assert(is_plain("green_concrete"@) && "green_concrete"@.len() > 3) by {
            reveal_strlit("green_concrete");
        }
    } else if i == 14 {
        assert(concrete_blocks()[14].name@ == "red_concrete"@);
        assert(is_plain("red_concrete"@) && "red_concrete"@.len() > 3) by {
            reveal_strlit("red_concrete");
        }
    } else if i == 15 {
        assert(concrete_blocks()[15].name@ == "black_concrete"@);
        assert(is_plain("black_concrete"@) && "black_concrete"@.len() > 3) by {
            reveal_strlit("black_concrete");
        }
    }
}

proof fn wool_blocks_are_plain(i: int)
    requires
        0 <= i < 16,
    ensures
        wool_blocks().len() == 16,
        is_plain(wool_blocks()[i].name@),
        wool_blocks()[i].name@.len() > 3,
{
    if i == 0 {
        assert(wool_blocks()[0].name@ == "white_wool"@);
        assert(is_plain("white_wool"@) && "white_wool"@.len() > 3) by {
            reveal_strlit("white_wool");
        }
    } else if i == 1 {
        assert(wool_blocks()[1].name@ == "orange_wool"@);
        assert(is_plain("orange_wool"@) && "orange_wool"@.len() > 3) by {
            reveal_strlit("orange_wool");
        }
    } else if i == 2 {
        assert(wool_blocks()[2].name@ == "magenta_wool"@);
        assert(is_plain("magenta_wool"@) && "magenta_wool"@.len() > 3) by {
            reveal_strlit("magenta_wool");
        }
    } else if i == 3 {
        assert(wool_blocks()[3].name@ == "light_blue_wool"@);
        assert(is_plain("light_blue_wool"@) && "light_blue_wool"@.len() > 3) by {
            reveal_strlit("light_blue_wool");
        }
    } else if i == 4 {
        assert(wool_blocks()[4].name@ == "yellow_wool"@);
        assert(is_plain("yellow_wool"@) && "yellow_wool"@.len() > 3) by {
            reveal_strlit("yellow_wool");
        }
    } else if i == 5 {
        assert(wool_blocks()[5].name@ == "lime_wool"@);
        assert(is_plain("lime_wool"@) && "lime_wool"@.len() > 3) by {
            reveal_strlit("lime_wool");
        }
    } else if i == 6 {
        assert(wool_blocks()[6].name@ == "pink_wool"@);
        assert(is_plain("pink_wool"@) && "pink_wool"@.len() > 3) by {
            reveal_strlit("pink_wool");
        }
    } else if i == 7 {
        assert(wool_blocks()[7].name@ == "gray_wool"@);
        assert(is_plain("gray_wool"@) && "gray_wool"@.len() > 3) by {
            reveal_strlit("gray_wool");
        }
    } else if i == 8 {
        assert(wool_blocks()[8].name@ == "light_gray_wool"@);
        assert(is_plain("light_gray_wool"@) && "light_gray_wool"@.len() > 3) by {
            reveal_strlit("light_gray_wool");
        }
    } else if i == 9 {
        assert(wool_blocks()[9].name@ == "cyan_wool"@);
        assert(is_plain("cyan_wool"@) && "cyan_wool"@.len() > 3) by {
            reveal_strlit("cyan_wool");
        }
    } else if i == 10 {
        assert(wool_blocks()[10].name@ == "purple_wool"@);
        assert(is_plain("purple_wool"@) && "purple_wool"@.len() > 3) by {
            reveal_strlit("purple_wool");
        }
    } else if i == 11 {
        assert(wool_blocks()[11].name@ == "blue_wool"@);
        assert(is_plain("blue_wool"@) && "blue_wool"@.len() > 3) by {
            reveal_strlit("blue_wool");
        }
    } else if i == 12 {
        assert(wool_blocks()[12].name@ == "brown_wool"@);
        assert(is_plain("brown_wool"@) && "brown_wool"@.len() > 3) by {
            reveal_strlit("brown_wool");
        }
    } else if i == 13 {
        assert(wool_blocks()[13].name@ == "green_wool"@);
        assert(is_plain("green_wool"@) && "green_wool"@.len() > 3) by {
            reveal_strlit("green_wool");
        }
    } else if i == 14 {
        assert(wool_blocks()[14].name@ == "red_wool"@);
        assert(is_plain("red_wool"@) && "red_wool"@.len() > 3) by {
            reveal_strlit("red_wool");
        }
    } else if i == 15 {
        assert(wool_blocks()[15].name@ == "black_wool"@);
        assert(is_plain("black_wool"@) && "black_wool"@.len() > 3) by {
            reveal_strlit("black_wool");
        }
    }
}

proof fn terracotta_blocks_are_plain(i: int)
    requires
        0 <= i < 16,
    ensures
        terracotta_blocks().len() == 16,
        is_plain(terracotta_blocks()[i].name@),
        terracotta_blocks()[i].name@.len() > 3,
{
    if i == 0 {
        assert(terracotta_blocks()[0].name@ == "white_terracotta"@);
        assert(is_plain("white_terracotta"@) && "white_terracotta"@.len() > 3) by {
            reveal_strlit("white_terracotta");
        }
    } else if i == 1 {
        assert(terracotta_blocks()[1].name@ == "orange_terracotta"@);
        assert(is_plain("orange_terracotta"@) && "orange_terracotta"@.len() > 3) by {
            reveal_strlit("orange_terracotta");
        }
    } else if i == 2 {
        assert(terracotta_blocks()[2].name@ == "magenta_terracotta"@);
        assert(is_plain("magenta_terracotta"@) && "magenta_terracotta"@.len() > 3) by {
            reveal_strlit("magenta_terracotta");
        }
    } else if i == 3 {
        assert(terracotta_blocks()[3].name@ == "light_blue_terracotta"@);
        assert(is_plain("light_blue_terracotta"@) && "light_blue_terracotta"@.len() > 3) by {
            reveal_strlit("light_blue_terracotta");
        }
    } else if i == 4 {
        assert(terracotta_blocks()[4].name@ == "yellow_terracotta"@);
        assert(is_plain("yellow_terracotta"@) && "yellow_terracotta"@.len() > 3) by {
            reveal_strlit("yellow_terracotta");
        }
    } else if i == 5 {
        assert(terracotta_blocks()[5].name@ == "lime_terracotta"@);
        assert(is_plain("lime_terracotta"@) && "lime_terracotta"@.len() > 3) by {
            reveal_strlit("lime_terracotta");
        }
    } else if i == 6 {
        assert(terracotta_blocks()[6].name@ == "pink_terracotta"@);
        assert(is_plain("pink_terracotta"@) && "pink_terracotta"@.len() > 3) by {
            reveal_strlit("pink_terracotta");
        }
    } else if i == 7 {
        assert(terracotta_blocks()[7].name@ == "gray_terracotta"@);
        assert(is_plain("gray_terracotta"@) && "gray_terracotta"@.len() > 3) by {
            reveal_strlit("gray_terracotta");
        }
    } else if i == 8 {
        assert(terracotta_blocks()[8].name@ == "light_gray_terracotta"@);
        assert(is_plain("light_gray_terracotta"@) && "light_gray_terracotta"@.len() > 3) by {
            reveal_strlit("light_gray_terracotta");
        }
    } else if i == 9 {
        assert(terracotta_blocks()[9].name@ == "cyan_terracotta"@);
        assert(is_plain("cyan_terracotta"@) && "cyan_terracotta"@.len() > 3) by {
            reveal_strlit("cyan_terracotta");
        }
    } else if i == 10 {
        assert(terracotta_blocks()[10].name@ == "purple_terracotta"@);
        assert(is_plain("purple_terracotta"@) && "purple_terracotta"@.len() > 3) by {
            reveal_strlit("purple_terracotta");
        }
    } else if i == 11 {
        assert(terracotta_blocks()[11].name@ == "blue_terracotta"@);
        assert(is_plain("blue_terracotta"@) && "blue_terracotta"@.len() > 3) by {
            reveal_strlit("blue_terracotta");
        }
    } else if i == 12 {
        assert(terracotta_blocks()[12].name@ == "brown_terracotta"@);
        assert(is_plain("brown_terracotta"@) && "brown_terracotta"@.len() > 3) by {
            reveal_strlit("brown_terracotta");
        }
    } else if i == 13 {
        assert(terracotta_blocks()[13].name@ == "green_terracotta"@);
        assert(is_plain("green_terracotta"@) && "green_terracotta"@.len() > 3) by {
            reveal_strlit("green_terracotta");
        }
    } else if i == 14 {
        assert(terracotta_blocks()[14].name@ == "red_terracotta"@);
        assert(is_plain("red_terracotta"@) && "red_terracotta"@.len() > 3) by {
            reveal_strlit("red_terracotta");
        }
    } else if i == 15 {
        assert(terracotta_blocks()[15].name@ == "black_terracotta"@);
        assert(is_plain("black_terracotta"@) && "black_terracotta"@.len() > 3) by {
            reveal_strlit("black_terracotta");
        }
    }
}

proof fn stained_glass_blocks_are_plain(i: int)
    requires
        0 <= i < 16,
    ensures
        stained_glass_blocks().len() == 16,
        is_plain(stained_glass_blocks()[i].name@),
        stained_glass_blocks()[i].name@.len() > 3,
{
    if i == 0 {
        assert(stained_glass_blocks()[0].name@ == "white_stained_glass"@);
        assert(is_plain("white_stained_glass"@) && "white_stained_glass"@.len() > 3) by {
            reveal_strlit("white_stained_glass");
        }
    } else if i == 1 {
        assert(stained_glass_blocks()[1].name@ == "orange_stained_glass"@);
        assert(is_plain("orange_stained_glass"@) && "orange_stained_glass"@.len() > 3) by {
            reveal_strlit("orange_stained_glass");
        }
    } else if i == 2 {
        assert(stained_glass_blocks()[2].name@ == "magenta_stained_glass"@);
        assert(is_plain("magenta_stained_glass"@) && "magenta_stained_glass"@.len() > 3) by {
            reveal_strlit("magenta_stained_glass");
        }
    } else if i == 3 {
        assert(stained_glass_blocks()[3].name@ == "light_blue_stained_glass"@);
        assert(is_plain("light_blue_stained_glass"@) && "light_blue_stained_glass"@.len() > 3) by {
            reveal_strlit("light_blue_stained_glass");
        }
    } else if i == 4 {
        assert(stained_glass_blocks()[4].name@ == "yellow_stained_glass"@);
        assert(is_plain("yellow_stained_glass"@) && "yellow_stained_glass"@.len() > 3) by {
            reveal_strlit("yellow_stained_glass");
        }
    } else if i == 5 {
        assert(stained_glass_blocks()[5].name@ == "lime_stained_glass"@);
        assert(is_plain("lime_stained_glass"@) && "lime_stained_glass"@.len() > 3) by {
            reveal_strlit("lime_stained_glass");
        }
    } else if i == 6 {
        assert(stained_glass_blocks()[6].name@ == "pink_stained_glass"@);
        assert(is_plain("pink_stained_glass"@) && "pink_stained_glass"@.len() > 3) by {
            reveal_strlit("pink_stained_glass");
        }
    } else if i == 7 {
        assert(stained_glass_blocks()[7].name@ == "gray_stained_glass"@);
        assert(is_plain("gray_stained_glass"@) && "gray_stained_glass"@.len() > 3) by {
            reveal_strlit("gray_stained_glass");
        }
    } else if i == 8 {
        assert(stained_glass_blocks()[8].name@ == "light_gray_stained_glass"@);
        assert(is_plain("light_gray_stained_glass"@) && "light_gray_stained_glass"@.len() > 3) by {
            reveal_strlit("light_gray_stained_glass");
        }
    } else if i == 9 {
        assert(stained_glass_blocks()[9].name@ == "cyan_stained_glass"@);
        assert(is_plain("cyan_stained_glass"@) && "cyan_stained_glass"@.len() > 3) by {
            reveal_strlit("cyan_stained_glass");
        }
    } else if i == 10 {
        assert(stained_glass_blocks()[10].name@ == "purple_stained_glass"@);
        assert(is_plain("purple_stained_glass"@) && "purple_stained_glass"@.len() > 3) by {
            reveal_strlit("purple_stained_glass");
        }
    } else if i == 11 {
        assert(stained_glass_blocks()[11].name@ == "blue_stained_glass"@);
        assert(is_plain("blue_stained_glass"@) && "blue_stained_glass"@.len() > 3) by {
            reveal_strlit("blue_stained_glass");
        }
    } else if i == 12 {
        assert(stained_glass_blocks()[12].name@ == "brown_stained_glass"@);
        assert(is_plain("brown_stained_glass"@) && "brown_stained_glass"@.len() > 3) by {
            reveal_strlit("brown_stained_glass");
        }
    } else if i == 13 {
        assert(stained_glass_blocks()[13].name@ == "green_stained_glass"@);
        assert(is_plain("green_stained_glass"@) && "green_stained_glass"@.len() > 3) by {
            reveal_strlit("green_stained_glass");
        }
    } else if i == 14 {
        assert(stained_glass_blocks()[14].name@ == "red_stained_glass"@);
        assert(is_plain("red_stained_glass"@) && "red_stained_glass"@.len() > 3) by {
            reveal_strlit("red_stained_glass");
        }
    } else if i == 15 {
        assert(stained_glass_blocks()[15].name@ == "black_stained_glass"@);
        assert(is_plain("black_stained_glass"@) && "black_stained_glass"@.len() > 3) by {
            reveal_strlit("black_stained_glass");
        }
    }
}

proof fn plank_blocks_are_plain(i: int)
    requires
        0 <= i < 10,
    ensures
        plank_blocks().len() == 10,
        is_plain(plank_blocks()[i].name@),
        plank_blocks()[i].name@.len() > 3,
{
    if i == 0 {
        assert(plank_blocks()[0].name@ == "spruce_planks"@);
        assert(is_plain("spruce_planks"@) && "spruce_planks"@.len() > 3) by {
            reveal_strlit("spruce_planks");
        }
    } else if i == 1 {
        assert(plank_blocks()[1].name@ == "birch_planks"@);
        assert(is_plain("birch_planks"@) && "birch_planks"@.len() > 3) by {
            reveal_strlit("birch_planks");
        }
    } else if i == 2 {
        assert(plank_blocks()[2].name@ == "jungle_planks"@);
        assert(is_plain("jungle_planks"@) && "jungle_planks"@.len() > 3) by {
            reveal_strlit("jungle_planks");
        }
    } else if i == 3 {
        assert(plank_blocks()[3].name@ == "acacia_planks"@);
        assert(is_plain("acacia_planks"@) && "acacia_planks"@.len() > 3) by {
            reveal_strlit("acacia_planks");
        }
    } else if i == 4 {
        assert(plank_blocks()[4].name@ == "dark_oak_planks"@);
        assert(is_plain("dark_oak_planks"@) && "dark_oak_planks"@.len() > 3) by {
            reveal_strlit("dark_oak_planks");
        }
    } else if i == 5 {
        assert(plank_blocks()[5].name@ == "mangrove_planks"@);
        assert(is_plain("mangrove_planks"@) && "mangrove_planks"@.len() > 3) by {
            reveal_strlit("mangrove_planks");
        }
    } else if i == 6 {
        assert(plank_blocks()[6].name@ == "cherry_planks"@);
        assert(is_plain("cherry_planks"@) && "cherry_planks"@.len() > 3) by {
            reveal_strlit("cherry_planks");
        }
    } else if i == 7 {
        assert(plank_blocks()[7].name@ == "bamboo_planks"@);
        assert(is_plain("bamboo_planks"@) && "bamboo_planks"@.len() > 3) by {
            reveal_strlit("bamboo_planks");
        }
    } else if i == 8 {
        assert(plank_blocks()[8].name@ == "crimson_planks"@);
        assert(is_plain("crimson_planks"@) && "crimson_planks"@.len() > 3) by {
            reveal_strlit("crimson_planks");
        }
    } else if i == 9 {
        assert(plank_blocks()[9].name@ == "warped_planks"@);
        assert(is_plain("warped_planks"@) && "warped_planks"@.len() > 3) by {
            reveal_strlit("warped_planks");
        }
    }
}

proof fn selected_blocks_are_plain(i: int)
    requires
        0 <= i < 35,
    ensures
        selected_blocks().len() == 35,
        is_plain(selected_blocks()[i].name@),
        selected_blocks()[i].name@.len() > 3,
{
    if i == 0 {
        assert(selected_blocks()[0].name@ == "smooth_stone"@);
        assert(is_plain("smooth_stone"@) && "smooth_stone"@.len() > 3) by {
            reveal_strlit("smooth_stone");
        }
    } else if i == 1 {
        assert(selected_blocks()[1].name@ == "stone_bricks"@);
        assert(is_plain("stone_bricks"@) && "stone_bricks"@.len() > 3) by {
            reveal_strlit("stone_bricks");
        }
    } else if i == 2 {
        assert(selected_blocks()[2].name@ == "bricks"@);
        assert(is_plain("bricks"@) && "bricks"@.len() > 3) by {
            reveal_strlit("bricks");
        }
    } else if i == 3 {
        assert(selected_blocks()[3].name@ == "granite"@);
        assert(is_plain("granite"@) && "granite"@.len() > 3) by {
            reveal_strlit("granite");
        }
    } else if i == 4 {
        assert(selected_blocks()[4].name@ == "polished_granite"@);
        assert(is_plain("polished_granite"@) && "polished_granite"@.len() > 3) by {
            reveal_strlit("polished_granite");
        }
    } else if i == 5 {
        assert(selected_blocks()[5].name@ == "diorite"@);
        assert(is_plain("diorite"@) && "diorite"@.len() > 3) by {
            reveal_strlit("diorite");
        }
    } else if i == 6 {
        assert(selected_blocks()[6].name@ == "polished_diorite"@);
        assert(is_plain("polished_diorite"@) && "polished_diorite"@.len() > 3) by {
            reveal_strlit("polished_diorite");
        }
    } else if i == 7 {
        assert(selected_blocks()[7].name@ == "andesite"@);
        assert(is_plain("andesite"@) && "andesite"@.len() > 3) by {
            reveal_strlit("andesite");
        }
    } else if i == 8 {
        assert(selected_blocks()[8].name@ == "polished_andesite"@);
        assert(is_plain("polished_andesite"@) && "polished_andesite"@.len() > 3) by {
            reveal_strlit("polished_andesite");
        }
    } else if i == 9 {
        assert(selected_blocks()[9].name@ == "calcite"@);
        assert(is_plain("calcite"@) && "calcite"@.len() > 3) by {
            reveal_strlit("calcite");
        }
    } else if i == 10 {
        assert(selected_blocks()[10].name@ == "quartz_block"@);
        assert(is_plain("quartz_block"@) && "quartz_block"@.len() > 3) by {
            reveal_strlit("quartz_block");
        }
    } else if i == 11 {
        assert(selected_blocks()[11].name@ == "smooth_quartz"@);
        assert(is_plain("smooth_quartz"@) && "smooth_quartz"@.len() > 3) by {
            reveal_strlit("smooth_quartz");
        }
    } else if i == 12 {
        assert(selected_blocks()[12].name@ == "sandstone"@);
        assert(is_plain("sandstone"@) && "sandstone"@.len() > 3) by {
            reveal_strlit("sandstone");
        }
    } else if i == 13 {
        assert(selected_blocks()[13].name@ == "smooth_sandstone"@);
        assert(is_plain("smooth_sandstone"@) && "smooth_sandstone"@.len() > 3) by {
            reveal_strlit("smooth_sandstone");
        }
    } else if i == 14 {
        assert(selected_blocks()[14].name@ == "red_sandstone"@);
        assert(is_plain("red_sandstone"@) && "red_sandstone"@.len() > 3) by {
            reveal_strlit("red_sandstone");
        }
    } else if i == 15 {
        assert(selected_blocks()[15].name@ == "smooth_red_sandstone"@);
        assert(is_plain("smooth_red_sandstone"@) && "smooth_red_sandstone"@.len() > 3) by {
            reveal_strlit("smooth_red_sandstone");
        }
    } else if i == 16 {
        assert(selected_blocks()[16].name@ == "cobbled_deepslate"@);
        assert(is_plain("cobbled_deepslate"@) && "cobbled_deepslate"@.len() > 3) by {
            reveal_strlit("cobbled_deepslate");
        }
    } else if i == 17 {
        assert(selected_blocks()[17].name@ == "polished_deepslate"@);
        assert(is_plain("polished_deepslate"@) && "polished_deepslate"@.len() > 3) by {
            reveal_strlit("polished_deepslate");
        }
    } else if i == 18 {
        assert(selected_blocks()[18].name@ == "deepslate_bricks"@);
        assert(is_plain("deepslate_bricks"@) && "deepslate_bricks"@.len() > 3) by {
            reveal_strlit("deepslate_bricks");
        }
    } else if i == 19 {
        assert(selected_blocks()[19].name@ == "blackstone"@);
        assert(is_plain("blackstone"@) && "blackstone"@.len() > 3) by {
            reveal_strlit("blackstone");
        }
    } else if i == 20 {
        assert(selected_blocks()[20].name@ == "polished_blackstone"@);
        assert(is_plain("polished_blackstone"@) && "polished_blackstone"@.len() > 3) by {
            reveal_strlit("polished_blackstone");
        }
    } else if i == 21 {
        assert(selected_blocks()[21].name@ == "prismarine_bricks"@);
        assert(is_plain("prismarine_bricks"@) && "prismarine_bricks"@.len() > 3) by {
            reveal_strlit("prismarine_bricks");
        }
    } else if i == 22 {
        assert(selected_blocks()[22].name@ == "dark_prismarine"@);
        assert(is_plain("dark_prismarine"@) && "dark_prismarine"@.len() > 3) by {
            reveal_strlit("dark_prismarine");
        }
    } else if i == 23 {
        assert(selected_blocks()[23].name@ == "mud_bricks"@);
        assert(is_plain("mud_bricks"@) && "mud_bricks"@.len() > 3) by {
            reveal_strlit("mud_bricks");
        }
    } else if i == 24 {
        assert(selected_blocks()[24].name@ == "obsidian"@);
        assert(is_plain("obsidian"@) && "obsidian"@.len() > 3) by {
            reveal_strlit("obsidian");
        }
    } else if i == 25 {
        assert(selected_blocks()[25].name@ == "iron_block"@);
        assert(is_plain("iron_block"@) && "iron_block"@.len() > 3) by {
            reveal_strlit("iron_block");
        }
    } else if i == 26 {
        assert(selected_blocks()[26].name@ == "gold_block"@);
        assert(is_plain("gold_block"@) && "gold_block"@.len() > 3) by {
            reveal_strlit("gold_block");
        }
    } else if i == 27 {
        assert(selected_blocks()[27].name@ == "coal_block"@);
        assert(is_plain("coal_block"@) && "coal_block"@.len() > 3) by {
            reveal_strlit("coal_block");
        }
    } else if i == 28 {
        assert(selected_blocks()[28].name@ == "lapis_block"@);
        assert(is_plain("lapis_block"@) && "lapis_block"@.len() > 3) by {
            reveal_strlit("lapis_block");
        }
    } else if i == 29 {
        assert(selected_blocks()[29].name@ == "diamond_block"@);
        assert(is_plain("diamond_block"@) && "diamond_block"@.len() > 3) by {
            reveal_strlit("diamond_block");
        }
    } else if i == 30 {
        assert(selected_blocks()[30].name@ == "emerald_block"@);
        assert(is_plain("emerald_block"@) && "emerald_block"@.len() > 3) by {
            reveal_strlit("emerald_block");
        }
    } else if i == 31 {
        assert(selected_blocks()[31].name@ == "sea_lantern"@);
        assert(is_plain("sea_lantern"@) && "sea_lantern"@.len() > 3) by {
            reveal_strlit("sea_lantern");
        }
    } else if i == 32 {
        assert(selected_blocks()[32].name@ == "glowstone"@);
        assert(is_plain("glowstone"@) && "glowstone"@.len() > 3) by {
            reveal_strlit("glowstone");
        }
    } else if i == 33 {
        assert(selected_blocks()[33].name@ == "snow_block"@);
        assert(is_plain("snow_block"@) && "snow_block"@.len() > 3) by {
            reveal_strlit("snow_block");
        }
    } else if i == 34 {
        assert(selected_blocks()[34].name@ == "tinted_glass"@);
        assert(is_plain("tinted_glass"@) && "tinted_glass"@.len() > 3) by {
            reveal_strlit("tinted_glass");
        }
    }
}

/// Every name of the palette is made of small letters and underscores, at least four of them.
pub proof fn palette_names_are_plain(i: int)
    requires
        0 <= i < palette().len(),
    ensures
        is_plain(palette()[i].name@),
        palette()[i].name@.len() > 3,
{
    palette_length();
    if i < 6 {
        original_blocks_are_plain(i);
        assert(palette()[i] == original_blocks()[i]);
    } else if i < 22 {
        concrete_blocks_are_plain(i - 6);
        assert(palette()[i] == concrete_blocks()[i - 6]);
    } else if i < 38 {
        wool_blocks_are_plain(i - 22);
        assert(palette()[i] == wool_blocks()[i - 22]);
    } else if i < 54 {
        terracotta_blocks_are_plain(i - 38);
        assert(palette()[i] == terracotta_blocks()[i - 38]);
    } else if i < 70 {
        stained_glass_blocks_are_plain(i - 54);
        assert(palette()[i] == stained_glass_blocks()[i - 54]);
    } else if i < 80 {
        plank_blocks_are_plain(i - 70);
        assert(palette()[i] == plank_blocks()[i - 70]);
    } else if i < 115 {
        selected_blocks_are_plain(i - 80);
        assert(palette()[i] == selected_blocks()[i - 80]);
    }
}

/// A name of small letters and underscores is looked up as it is, with the game's namespace before it
/// or without.
pub proof fn plain_names_stay(name: Seq<char>)
    requires
        is_plain(name),
    ensures
        plain_name("minecraft:"@ + name) == name,
        plain_name(name) == name,
{
    reveal_strlit("minecraft:");
    let full = "minecraft:"@ + name;
    assert(full[0] == 'm');
    assert(full.last() == name.last());
    assert(name.last() == name[name.len() - 1]);
    assert(trimmed(full) == full);
    assert(full.skip(10) =~= name);
    assert(full.take(10) =~= "minecraft:"@);
    assert(ascii_lowered(name) =~= name);
    assert(trimmed(name) == name) by {
        assert(!white_space(name[0]));
    }
    assert(without_prefix(name, "minecraft:"@) == name) by {
        if has_prefix(name, "minecraft:"@) {
            assert(name.take(10)[9] == name[9]);
            assert("minecraft:"@[9] == ':');
        }
    }
}

/// Every entry is found under its name, with the game's namespace before it and without.
pub proof fn namespaced_names_are_found(i: int)
    requires
        0 <= i < palette().len(),
    ensures
        palette_block(plain_name("minecraft:"@ + palette()[i].name@)) == Some(palette()[i].block),
        palette_block(plain_name(palette()[i].name@)) == Some(palette()[i].block),
{
    palette_names_are_plain(i);
    plain_names_stay(palette()[i].name@);
    lookups_round_trip(i);
}

/// True iff the block flows, falls, carries a signal, holds things, opens or has a shape: any state
/// of water, sand, red concrete powder, the redstone block, the chest, the oak door and stone
/// stairs.
pub open spec fn unsafe_or_stateful(block: BlockState) -> bool {
    ||| 80 <= block <= 95
    ||| block == 112
    ||| block == 12617
    ||| block == 9083
    ||| 2954 <= block <= 2977
    ||| 4590 <= block <= 4653
    ||| 13301 <= block <= 13380
}

/// No block that flows, falls, carries a signal, holds things, opens or has a shape is in the
/// palette.
pub proof fn unsafe_blocks_are_kept_out(block: BlockState)
    requires
        unsafe_or_stateful(block),
    ensures
        palette_name(block) is None,
{
    if palette_name(block) is Some {
        let i = entry_for(palette(), block, 0)->0;
        found_entry(block, 0);
        palette_length();
        entry_facts(i);
        assert(palette()[0].block == 1);
    }
}

/// The sixteen dyes, in the order of the game.
pub open spec fn dye(i: int) -> Seq<char> {
    if i == 0 {
        "white"@
    } else if i == 1 {
        "orange"@
    } else if i == 2 {
        "magenta"@
    } else if i == 3 {
        "light_blue"@
    } else if i == 4 {
        "yellow"@
    } else if i == 5 {
        "lime"@
    } else if i == 6 {
        "pink"@
    } else if i == 7 {
        "gray"@
    } else if i == 8 {
        "light_gray"@
    } else if i == 9 {
        "cyan"@
    } else if i == 10 {
        "purple"@
    } else if i == 11 {
        "blue"@
    } else if i == 12 {
        "brown"@
    } else if i == 13 {
        "green"@
    } else if i == 14 {
        "red"@
    } else {
        "black"@
    }
}

proof fn concrete_follows_the_dyes(i: int)
    requires
        0 <= i < 16,
    ensures
        concrete_blocks()[i].name@ == dye(i) + "_concrete"@,
        concrete_blocks()[i].block == 12587 + i,
{
    reveal_strlit("_concrete");
    if i == 0 {
        reveal_strlit("white");
        reveal_strlit("white_concrete");
        assert("white_concrete"@ =~= "white"@ + "_concrete"@);
    } else if i == 1 {
        reveal_strlit("orange");
        reveal_strlit("orange_concrete");
        assert("orange_concrete"@ =~= "orange"@ + "_concrete"@);
    } else if i == 2 {
        reveal_strlit("magenta");
        reveal_strlit("magenta_concrete");
        assert("magenta_concrete"@ =~= "magenta"@ + "_concrete"@);
    } else if i == 3 {
        reveal_strlit("light_blue");
        reveal_strlit("light_blue_concrete");
        assert("light_blue_concrete"@ =~= "light_blue"@ + "_concrete"@);
    } else if i == 4 {
        reveal_strlit("yellow");
        reveal_strlit("yellow_concrete");
        assert("yellow_concrete"@ =~= "yellow"@ + "_concrete"@);
    } else if i == 5 {
        reveal_strlit("lime");
        reveal_strlit("lime_concrete");
        assert("lime_concrete"@ =~= "lime"@ + "_concrete"@);
    } else if i == 6 {
        reveal_strlit("pink");
        reveal_strlit("pink_concrete");
        assert("pink_concrete"@ =~= "pink"@ + "_concrete"@);
    } else if i == 7 {
        reveal_strlit("gray");
        reveal_strlit("gray_concrete");
        assert("gray_concrete"@ =~= "gray"@ + "_concrete"@);
    } else if i == 8 {
        reveal_strlit("light_gray");
        reveal_strlit("light_gray_concrete");
        assert("light_gray_concrete"@ =~= "light_gray"@ + "_concrete"@);
    } else if i == 9 {
        reveal_strlit("cyan");
        reveal_strlit("cyan_concrete");
        assert("cyan_concrete"@ =~= "cyan"@ + "_concrete"@);
    } else if i == 10 {
        reveal_strlit("purple");
        reveal_strlit("purple_concrete");
        assert("purple_concrete"@ =~= "purple"@ + "_concrete"@);
    } else if i == 11 {
        reveal_strlit("blue");
        reveal_strlit("blue_concrete");
        assert("blue_concrete"@ =~= "blue"@ + "_concrete"@);
    } else if i == 12 {
        reveal_strlit("brown");
        reveal_strlit("brown_concrete");
        assert("brown_concrete"@ =~= "brown"@ + "_concrete"@);
    } else if i == 13 {
        reveal_strlit("green");
        reveal_strlit("green_concrete");
        assert("green_concrete"@ =~= "green"@ + "_concrete"@);
    } else if i == 14 {
        reveal_strlit("red");
        reveal_strlit("red_concrete");
        assert("red_concrete"@ =~= "red"@ + "_concrete"@);
    } else if i == 15 {
        reveal_strlit("black");
        reveal_strlit("black_concrete");
        assert("black_concrete"@ =~= "black"@ + "_concrete"@);
    }
}

proof fn wool_follows_the_dyes(i: int)
    requires
        0 <= i < 16,
    ensures
        wool_blocks()[i].name@ == dye(i) + "_wool"@,
        wool_blocks()[i].block == 2047 + i,
{
    reveal_strlit("_wool");
    if i == 0 {
        reveal_strlit("white");
        reveal_strlit("white_wool");
        assert("white_wool"@ =~= "white"@ + "_wool"@);
    } else if i == 1 {
        reveal_strlit("orange");
        reveal_strlit("orange_wool");
        assert("orange_wool"@ =~= "orange"@ + "_wool"@);
    } else if i == 2 {
        reveal_strlit("magenta");
        reveal_strlit("magenta_wool");
        assert("magenta_wool"@ =~= "magenta"@ + "_wool"@);
    } else if i == 3 {
        reveal_strlit("light_blue");
        reveal_strlit("light_blue_wool");
        assert("light_blue_wool"@ =~= "light_blue"@ + "_wool"@);
    } else if i == 4 {
        reveal_strlit("yellow");
        reveal_strlit("yellow_wool");
        assert("yellow_wool"@ =~= "yellow"@ + "_wool"@);
    } else if i == 5 {
        reveal_strlit("lime");
        reveal_strlit("lime_wool");
        assert("lime_wool"@ =~= "lime"@ + "_wool"@);
    } else if i == 6 {
        reveal_strlit("pink");
        reveal_strlit("pink_wool");
        assert("pink_wool"@ =~= "pink"@ + "_wool"@);
    } else if i == 7 {
        reveal_strlit("gray");
        reveal_strlit("gray_wool");
        assert("gray_wool"@ =~= "gray"@ + "_wool"@);
    } else if i == 8 {
        reveal_strlit("light_gray");
        reveal_strlit("light_gray_wool");
        assert("light_gray_wool"@ =~= "light_gray"@ + "_wool"@);
    } else if i == 9 {
        reveal_strlit("cyan");
        reveal_strlit("cyan_wool");
        assert("cyan_wool"@ =~= "cyan"@ + "_wool"@);
    } else if i == 10 {
        reveal_strlit("purple");
        reveal_strlit("purple_wool");
        assert("purple_wool"@ =~= "purple"@ + "_wool"@);
    } else if i == 11 {
        reveal_strlit("blue");
        reveal_strlit("blue_wool");
        assert("blue_wool"@ =~= "blue"@ + "_wool"@);
    } else if i == 12 {
        reveal_strlit("brown");
        reveal_strlit("brown_wool");
        assert("brown_wool"@ =~= "brown"@ + "_wool"@);
    } else if i == 13 {
        reveal_strlit("green");
        reveal_strlit("green_wool");
        assert("green_wool"@ =~= "green"@ + "_wool"@);
    } else if i == 14 {
        reveal_strlit("red");
        reveal_strlit("red_wool");
        assert("red_wool"@ =~= "red"@ + "_wool"@);
    } else if i == 15 {
        reveal_strlit("black");
        reveal_strlit("black_wool");
        assert("black_wool"@ =~= "black"@ + "_wool"@);
    }
}

proof fn terracotta_follows_the_dyes(i: int)
    requires
        0 <= i < 16,
    ensures
        terracotta_blocks()[i].name@ == dye(i) + "_terracotta"@,
        terracotta_blocks()[i].block == 9216 + i,
{
    reveal_strlit("_terracotta");
    if i == 0 {
        reveal_strlit("white");
        reveal_strlit("white_terracotta");
        assert("white_terracotta"@ =~= "white"@ + "_terracotta"@);
    } else if i == 1 {
        reveal_strlit("orange");
        reveal_strlit("orange_terracotta");
        assert("orange_terracotta"@ =~= "orange"@ + "_terracotta"@);
    } else if i == 2 {
        reveal_strlit("magenta");
        reveal_strlit("magenta_terracotta");
        assert("magenta_terracotta"@ =~= "magenta"@ + "_terracotta"@);
    } else if i == 3 {
        reveal_strlit("light_blue");
        reveal_strlit("light_blue_terracotta");
        assert("light_blue_terracotta"@ =~= "light_blue"@ + "_terracotta"@);
    } else if i == 4 {
        reveal_strlit("yellow");
        reveal_strlit("yellow_terracotta");
        assert("yellow_terracotta"@ =~= "yellow"@ + "_terracotta"@);
    } else if i == 5 {
        reveal_strlit("lime");
        reveal_strlit("lime_terracotta");
        assert("lime_terracotta"@ =~= "lime"@ + "_terracotta"@);
    } else if i == 6 {
        reveal_strlit("pink");
        reveal_strlit("pink_terracotta");
        assert("pink_terracotta"@ =~= "pink"@ + "_terracotta"@);
    } else if i == 7 {
        reveal_strlit("gray");
        reveal_strlit("gray_terracotta");
        assert("gray_terracotta"@ =~= "gray"@ + "_terracotta"@);
    } else if i == 8 {
        reveal_strlit("light_gray");
        reveal_strlit("light_gray_terracotta");
        assert("light_gray_terracotta"@ =~= "light_gray"@ + "_terracotta"@);
    } else if i == 9 {
        reveal_strlit("cyan");
        reveal_strlit("cyan_terracotta");
        assert("cyan_terracotta"@ =~= "cyan"@ + "_terracotta"@);
    } else if i == 10 {
        reveal_strlit("purple");
        reveal_strlit("purple_terracotta");
        assert("purple_terracotta"@ =~= "purple"@ + "_terracotta"@);
    } else if i == 11 {
        reveal_strlit("blue");
        reveal_strlit("blue_terracotta");
        assert("blue_terracotta"@ =~= "blue"@ + "_terracotta"@);
    } else if i == 12 {
        reveal_strlit("brown");
        reveal_strlit("brown_terracotta");
        assert("brown_terracotta"@ =~= "brown"@ + "_terracotta"@);
    } else if i == 13 {
        reveal_strlit("green");
        reveal_strlit("green_terracotta");
        assert("green_terracotta"@ =~= "green"@ + "_terracotta"@);
    } else if i == 14 {
        reveal_strlit("red");
        reveal_strlit("red_terracotta");
        assert("red_terracotta"@ =~= "red"@ + "_terracotta"@);
    } else if i == 15 {
        reveal_strlit("black");
        reveal_strlit("black_terracotta");
        assert("black_terracotta"@ =~= "black"@ + "_terracotta"@);
    }
}

proof fn stained_glass_follows_the_dyes(i: int)
    requires
        0 <= i < 16,
    ensures
        stained_glass_blocks()[i].name@ == dye(i) + "_stained_glass"@,
        stained_glass_blocks()[i].block == 5946 + i,
{
    reveal_strlit("_stained_glass");
    if i == 0 {
        reveal_strlit("white");
        reveal_strlit("white_stained_glass");
        assert("white_stained_glass"@ =~= "white"@ + "_stained_glass"@);
    } else if i == 1 {
        reveal_strlit("orange");
        reveal_strlit("orange_stained_glass");
        assert("orange_stained_glass"@ =~= "orange"@ + "_stained_glass"@);
    } else if i == 2 {
        reveal_strlit("magenta");
        reveal_strlit("magenta_stained_glass");
        assert("magenta_stained_glass"@ =~= "magenta"@ + "_stained_glass"@);
    } else if i == 3 {
        reveal_strlit("light_blue");
        reveal_strlit("light_blue_stained_glass");
        assert("light_blue_stained_glass"@ =~= "light_blue"@ + "_stained_glass"@);
    } else if i == 4 {
        reveal_strlit("yellow");
        reveal_strlit("yellow_stained_glass");
        assert("yellow_stained_glass"@ =~= "yellow"@ + "_stained_glass"@);
    } else if i == 5 {
        reveal_strlit("lime");
        reveal_strlit("lime_stained_glass");
        assert("lime_stained_glass"@ =~= "lime"@ + "_stained_glass"@);
    } else if i == 6 {
        reveal_strlit("pink");
        reveal_strlit("pink_stained_glass");
        assert("pink_stained_glass"@ =~= "pink"@ + "_stained_glass"@);
    } else if i == 7 {
        reveal_strlit("gray");
        reveal_strlit("gray_stained_glass");
        assert("gray_stained_glass"@ =~= "gray"@ + "_stained_glass"@);
    } else if i == 8 {
        reveal_strlit("light_gray");
        reveal_strlit("light_gray_stained_glass");
        assert("light_gray_stained_glass"@ =~= "light_gray"@ + "_stained_glass"@);
    } else if i == 9 {
        reveal_strlit("cyan");
        reveal_strlit("cyan_stained_glass");
        assert("cyan_stained_glass"@ =~= "cyan"@ + "_stained_glass"@);
    } else if i == 10 {
        reveal_strlit("purple");
        reveal_strlit("purple_stained_glass");
        assert("purple_stained_glass"@ =~= "purple"@ + "_stained_glass"@);
    } else if i == 11 {
        reveal_strlit("blue");
        reveal_strlit("blue_stained_glass");
        assert("blue_stained_glass"@ =~= "blue"@ + "_stained_glass"@);
    } else if i == 12 {
        reveal_strlit("brown");
        reveal_strlit("brown_stained_glass");
        assert("brown_stained_glass"@ =~= "brown"@ + "_stained_glass"@);
    } else if i == 13 {
        reveal_strlit("green");
        reveal_strlit("green_stained_glass");
        assert("green_stained_glass"@ =~= "green"@ + "_stained_glass"@);
    } else if i == 14 {
        reveal_strlit("red");
        reveal_strlit("red_stained_glass");
        assert("red_stained_glass"@ =~= "red"@ + "_stained_glass"@);
    } else if i == 15 {
        reveal_strlit("black");
        reveal_strlit("black_stained_glass");
        assert("black_stained_glass"@ =~= "black"@ + "_stained_glass"@);
    }
}

/// The dyed blocks of the palette are named by their dye and their stuff, and within one stuff their
/// states follow one another in the order of the dyes.
pub proof fn dyed_blocks_follow_the_dyes(i: int)
    requires
        0 <= i < 16,
    ensures
        palette_block(dye(i) + "_concrete"@) == Some((12587 + i) as u16),
        palette_block(dye(i) + "_wool"@) == Some((2047 + i) as u16),
        palette_block(dye(i) + "_terracotta"@) == Some((9216 + i) as u16),
        palette_block(dye(i) + "_stained_glass"@) == Some((5946 + i) as u16),
{
    palette_length();
    concrete_follows_the_dyes(i);
    wool_follows_the_dyes(i);
    terracotta_follows_the_dyes(i);
    stained_glass_follows_the_dyes(i);
    assert(palette()[i + 6] == concrete_blocks()[i]);
    assert(palette()[i + 22] == wool_blocks()[i]);
    assert(palette()[i + 38] == terracotta_blocks()[i]);
    assert(palette()[i + 54] == stained_glass_blocks()[i]);
    lookups_round_trip(i + 6);
    lookups_round_trip(i + 22);
    lookups_round_trip(i + 38);
    lookups_round_trip(i + 54);
}

} // verus!
