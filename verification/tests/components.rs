use armor_trims::locate::MatchFailure;
use armor_trims::locate::find_block;
use armor_trims::locate::find_chest_item;
use armor_trims::locate::find_entity;
use armor_trims::locate::find_slot;
use armor_trims::model::ArmorItem;
use armor_trims::model::ArmorSlot;
use armor_trims::model::Block;
use armor_trims::model::BlockPayload;
use armor_trims::model::ChestItem;
use armor_trims::model::Entity;
use armor_trims::model::F32Pair;
use armor_trims::model::F64Triple;
use armor_trims::model::GridPos;
use armor_trims::model::ItemTag;
use armor_trims::model::Trim;
use armor_trims::model::ArmorStandState;
use armor_trims::model::UuidInts;
use armor_trims::model::clone_document;
use armor_trims::model::Document;
use armor_trims::names::category_suffix_str;
use armor_trims::names::family_short_str;
use armor_trims::names::family_str;
use armor_trims::names::material_str;
use armor_trims::names::trim_str;
use armor_trims::strings::contains_str;
use quartz_nbt::NbtCompound;
use quartz_nbt::NbtTag;

fn item(id: &str) -> ChestItem {
    ChestItem {
        count: 2,
        slot: 5,
        id: String::from(id),
        tag: ItemTag {
            damage: 7,
            trim: Trim {
                material: String::from("minecraft:quartz"),
                pattern: String::from("minecraft:rib"),
            },
        },
    }
}

fn piece(id: &str) -> ArmorItem {
    ArmorItem {
        count: 1,
        id: String::from(id),
        tag: ItemTag {
            damage: 0,
            trim: Trim {
                material: String::from("minecraft:lapis"),
                pattern: String::from("minecraft:eye"),
            },
        },
    }
}

fn block_at(m: i32, t: i32, with_payload: bool) -> Block {
    Block {
        pos: GridPos { x: 1, y: m * 4 + 1, z: t },
        state: 0,
        payload: if with_payload {
            Some(BlockPayload { items: vec![], id: String::from("minecraft:chest") })
        } else {
            None
        },
    }
}

fn stand() -> ArmorStandState {
    ArmorStandState {
        absorption_amount: 0,
        air: 0,
        armor_items: vec![],
        attributes: NbtTag::Byte(0),
        brain: NbtTag::Byte(0),
        death_time: 0,
        disabled_slots: 0,
        fall_distance: 0,
        fall_flying: false,
        fire: 0,
        hand_items: NbtTag::Byte(0),
        health: 0,
        hurt_by_timestamp: 0,
        hurt_time: 0,
        invisible: false,
        invulnerable: false,
        motion: F64Triple { x: 0, y: 0, z: 0 },
        no_base_plate: false,
        on_ground: false,
        portal_cooldown: 0,
        pos: F64Triple { x: 0, y: 0, z: 0 },
        pose: NbtTag::Byte(0),
        rotation: F32Pair { a: 0, b: 0 },
        show_arms: false,
        small: false,
        uuid: UuidInts { a: 0, b: 0, c: 0, d: 0 },
        id: String::from("minecraft:armor_stand"),
    }
}

fn entity_at(m: i32, t: i32) -> Entity {
    Entity {
        block_pos: GridPos { x: 1, y: m * 4 + 1, z: t },
        pos: F64Triple { x: 0, y: 0, z: 0 },
        state: stand(),
    }
}

#[test]
fn contains_str_finds_substrings() {
    assert!(contains_str("minecraft:iron_helmet", "_helmet"));
    assert!(contains_str("abc", ""));
    assert!(contains_str("abc", "abc"));
    assert!(!contains_str("minecraft:iron_helmet", "_boots"));
    assert!(!contains_str("ab", "abc"));
    assert!(!contains_str("minecraft:chainmail_helmet", "_chestplate"));
}

#[test]
fn name_tables_match_the_format() {
    assert_eq!(material_str(0), "minecraft:iron");
    assert_eq!(material_str(9), "minecraft:amethyst");
    assert_eq!(family_str(0), "minecraft:chainmail");
    assert_eq!(family_str(5), "minecraft:turtle");
    assert_eq!(trim_str(0), "minecraft:wild");
    assert_eq!(trim_str(10), "minecraft:coast");
    assert_eq!(category_suffix_str(0), "_helmet");
    assert_eq!(category_suffix_str(3), "_boots");
}

#[test]
fn family_short_names_drop_the_namespace() {
    let expected = ["chainmail", "iron", "golden", "diamond", "netherite", "turtle"];
    for (f, want) in expected.iter().enumerate() {
        assert_eq!(family_short_str(f), *want);
    }
}

#[test]
fn find_block_requires_payload_and_unique_position() {
    let blocks = vec![block_at(0, 0, false), block_at(0, 0, true), block_at(1, 0, true)];
    assert_eq!(find_block(&blocks, 0, 0), Ok(1));
    assert_eq!(find_block(&blocks, 1, 0), Ok(2));
    assert_eq!(find_block(&blocks, 2, 0), Err(MatchFailure::Missing));
    let doubled = vec![block_at(0, 0, true), block_at(0, 0, true)];
    assert_eq!(find_block(&doubled, 0, 0), Err(MatchFailure::Multiple));
}

#[test]
fn find_entity_scans_block_positions() {
    let entities = vec![entity_at(0, 0), entity_at(3, 7)];
    assert_eq!(find_entity(&entities, 3, 7), Ok(1));
    assert_eq!(find_entity(&entities, 3, 8), Err(MatchFailure::Missing));
    let doubled = vec![entity_at(2, 2), entity_at(2, 2)];
    assert_eq!(find_entity(&doubled, 2, 2), Err(MatchFailure::Multiple));
}

#[test]
fn find_chest_item_matches_by_substring() {
    let items = vec![item("minecraft:leather_helmet"), item("minecraft:leather_boots")];
    assert_eq!(find_chest_item(&items, "_helmet"), Ok(0));
    assert_eq!(find_chest_item(&items, "_boots"), Ok(1));
    assert_eq!(find_chest_item(&items, "_leggings"), Err(MatchFailure::Missing));
    let doubled = vec![item("minecraft:iron_boots"), item("minecraft:gold_boots")];
    assert_eq!(find_chest_item(&doubled, "_boots"), Err(MatchFailure::Multiple));
}

#[test]
fn find_slot_skips_empty_slots() {
    let slots = vec![
        ArmorSlot::Empty(NbtCompound::new()),
        ArmorSlot::Piece(piece("minecraft:leather_helmet")),
    ];
    assert_eq!(find_slot(&slots, "_helmet"), Ok(1));
    assert_eq!(find_slot(&slots, "_boots"), Err(MatchFailure::Missing));
}

#[test]
fn slot_operations_distinguish_empty_and_populated() {
    let mut s = ArmorSlot::Piece(piece("minecraft:leather_helmet"));
    assert!(!s.is_empty());
    assert_eq!(s.get().id, "minecraft:leather_helmet");
    s.clear();
    assert!(s.is_empty());
    s.set(piece("minecraft:iron_boots"));
    assert!(!s.is_empty());
    assert_eq!(s.get().id, "minecraft:iron_boots");
}

#[test]
fn clone_document_shares_no_mutable_state() {
    let base = Document {
        data_version: 1,
        blocks: vec![Block {
            pos: GridPos { x: 0, y: 1, z: 0 },
            state: 0,
            payload: Some(BlockPayload {
                items: vec![item("minecraft:leather_helmet")],
                id: String::from("minecraft:chest"),
            }),
        }],
        entities: vec![entity_at(0, 0)],
        palette: NbtTag::Byte(9),
        size: NbtTag::Byte(3),
    };
    let mut copy = clone_document(&base);
    assert_eq!(copy.data_version, 1);
    assert!(copy.palette == NbtTag::Byte(9));
    assert_eq!(copy.blocks[0].payload.as_ref().unwrap().items[0].id, "minecraft:leather_helmet");
    copy.blocks[0].payload.as_mut().unwrap().items[0].id = String::from("changed");
    copy.entities[0].state.air = 42;
    assert_eq!(base.blocks[0].payload.as_ref().unwrap().items[0].id, "minecraft:leather_helmet");
    assert_eq!(base.entities[0].state.air, 0);
}
