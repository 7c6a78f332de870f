//! The pruning and placement rules, driven as the packer drives them:
//! whitelist loading, model registration, and per-file resolution.

use content_packer::model::parse_model;
use content_packer::pack::{get_addon_packs, AddonPack, Config};
use content_packer::resolve::{resolve_file, Placement};

fn push_i32(v: &mut Vec<u8>, x: i32) {
    let bytes = x.to_le_bytes();
    v.push(bytes[0]);
    v.push(bytes[1]);
    v.push(bytes[2]);
    v.push(bytes[3]);
}

fn build_model(dirs: &[&str], texs: &[&str]) -> Vec<u8> {
    let mut v: Vec<u8> = Vec::new();
    v.push(b'I');
    v.push(b'D');
    v.push(b'S');
    v.push(b'T');
    for _ in 0..200 {
        v.push(0);
    }
    push_i32(&mut v, texs.len() as i32);
    push_i32(&mut v, 224);
    push_i32(&mut v, dirs.len() as i32);
    push_i32(&mut v, 220);
    let dir_strings_start: i32 = 228;
    push_i32(&mut v, dir_strings_start);
    let dirs_bytes: usize = dirs.iter().map(|d| d.len() + 1).sum();
    let tex_strings_start = dir_strings_start + dirs_bytes as i32;
    push_i32(&mut v, tex_strings_start - 224);
    for d in dirs {
        for byte in d.as_bytes() {
            v.push(*byte);
        }
        v.push(0);
    }
    for t in texs {
        for byte in t.as_bytes() {
            v.push(*byte);
        }
        v.push(0);
    }
    v
}

fn test_config(whitelist: bool) -> Config {
    Config {
        input_folder: "./input".to_string(),
        output_folder: "./output".to_string(),
        ignored_addon_packs: Vec::new(),
        model_whitelist: whitelist,
    }
}

fn fresh_pack(whitelist_flag: bool) -> AddonPack {
    AddonPack {
        name: "addon_pack_1".to_string(),
        path: "./input/addon_pack_1".to_string(),
        whitelist: whitelist_flag,
        used_models: Vec::new(),
        used_materials: Vec::new(),
        total_size: 0,
    }
}

fn resolve(pack: &AddonPack, config: &Config, rel: &str) -> Placement {
    let addon = "addon_1".to_string();
    let rel_string = rel.to_string();
    resolve_file(pack, config, &addon, &rel_string).placement
}

#[test]
fn inactive_whitelist_keeps_models_and_materials() {
    let config = test_config(false);
    let pack = fresh_pack(false);

    match resolve(&pack, &config, "addon_pack_1/addon_1/models/test1.mdl") {
        Placement::Copy { dest } => assert_eq!(dest, "./output/addon_pack_1/models/test1.mdl"),
        other => panic!("expected a copy, got {:?}", placement_kind(&other)),
    }
    match resolve(&pack, &config, "addon_pack_1/addon_1/materials/test1/test1_mat1.vtf") {
        Placement::Copy { dest } => {
            assert_eq!(dest, "./output/addon_pack_1/materials/test1/test1_mat1.vtf")
        }
        other => panic!("expected a copy, got {:?}", placement_kind(&other)),
    }
    match resolve(&pack, &config, "addon_pack_1/addon_1/sounds/effects/boom.wav") {
        Placement::Copy { dest } => {
            assert_eq!(dest, "./output/addon_pack_1/sounds/effects/boom.wav")
        }
        other => panic!("expected a copy, got {:?}", placement_kind(&other)),
    }
}

fn placement_kind(p: &Placement) -> &'static str {
    match p {
        Placement::Discard => "discard",
        Placement::Copy { .. } => "copy",
        Placement::CopyScript { .. } => "copy-script",
    }
}

#[test]
fn scripts_go_to_both_staging_trees() {
    let config = test_config(false);
    let pack = fresh_pack(false);

    match resolve(&pack, &config, "addon_pack_1/addon_1/lua/autorun/init.lua") {
        Placement::CopyScript { staging, merged } => {
            assert_eq!(staging, "./output/_lua/addon_1/lua/autorun/init.lua");
            assert_eq!(merged, "./output/_lua_merged/addon_pack_1/lua/autorun/init.lua");
        }
        other => panic!("expected a script copy, got {:?}", placement_kind(&other)),
    }
}

#[test]
fn whitelist_loads_stems_from_manifest() {
    let config = test_config(true);
    let mut pack = fresh_pack(false);

    let manifest = "[\"models/props/test1.mdl\", \"models/other/test9.mdl\"]".to_string();
    pack.load_whitelist(&config, Some(&manifest)).expect("manifest should parse");

    assert!(pack.whitelist);
    assert_eq!(pack.used_models, vec!["test1".to_string(), "test9".to_string()]);
}

#[test]
fn missing_manifest_leaves_whitelist_inactive() {
    let config = test_config(true);
    let mut pack = fresh_pack(false);

    pack.load_whitelist(&config, None).expect("a missing manifest is no error");

    assert!(!pack.whitelist);
    assert!(pack.used_models.is_empty());
}

#[test]
fn disabled_whitelist_ignores_manifest() {
    let config = test_config(false);
    let mut pack = fresh_pack(false);

    let manifest = "[\"models/test1.mdl\"]".to_string();
    pack.load_whitelist(&config, Some(&manifest)).expect("nothing to do");

    assert!(!pack.whitelist);
    assert!(pack.used_models.is_empty());
}

#[test]
fn malformed_manifest_is_an_error() {
    let config = test_config(true);
    let mut pack = fresh_pack(false);

    let manifest = "{\"not\": \"an array\"}".to_string();
    assert!(pack.load_whitelist(&config, Some(&manifest)).is_err());
    assert!(!pack.whitelist);
}

#[test]
fn whitelist_keeps_listed_model_and_its_materials_only() {
    let config = test_config(true);
    let mut pack = fresh_pack(false);
    let manifest = "[\"models/test1.mdl\"]".to_string();
    pack.load_whitelist(&config, Some(&manifest)).expect("manifest should parse");

    // The listed model "test1" is kept and must be decoded.
    let listed = "addon_pack_1/addon_1/models/test1.mdl".to_string();
    let addon = "addon_1".to_string();
    let r = resolve_file(&pack, &config, &addon, &listed);
    assert!(matches!(r.placement, Placement::Copy { .. }));
    assert!(r.decode_model);

    // Its companion files share the stem and are kept, without decoding.
    let companion = "addon_pack_1/addon_1/models/test1.dx80.vtx".to_string();
    let r = resolve_file(&pack, &config, &addon, &companion);
    assert!(matches!(r.placement, Placement::Copy { .. }));
    assert!(!r.decode_model);

    // The unlisted model "test2" is dropped and never decoded.
    let unlisted = "addon_pack_1/addon_1/models/test2.mdl".to_string();
    let r = resolve_file(&pack, &config, &addon, &unlisted);
    assert!(matches!(r.placement, Placement::Discard));
    assert!(!r.decode_model);

    // Decode the listed model, as the walker would.
    let file = build_model(&["test1/"], &["test1_mat1"]);
    pack.register_model(&file).expect("decoding failed");

    // A material derived from the listed model is kept.
    match resolve(&pack, &config, "addon_pack_1/addon_1/materials/test1/test1_mat1.vtf") {
        Placement::Copy { dest } => {
            assert_eq!(dest, "./output/addon_pack_1/materials/test1/test1_mat1.vtf")
        }
        other => panic!("expected a copy, got {:?}", placement_kind(&other)),
    }

    // A material only the unlisted model would have referenced is dropped.
    match resolve(&pack, &config, "addon_pack_1/addon_1/materials/test2/test2_mat1.vtf") {
        Placement::Discard => (),
        other => panic!("expected a discard, got {:?}", placement_kind(&other)),
    }
}

#[test]
fn material_membership_is_case_folded() {
    let config = test_config(true);
    let mut pack = fresh_pack(true);

    let file = build_model(&["Fence\\"], &["Rusty"]);
    pack.register_model(&file).expect("decoding failed");

    match resolve(&pack, &config, "addon_pack_1/addon_1/materials/FENCE/RUSTY.vmt") {
        Placement::Copy { .. } => (),
        other => panic!("expected a copy, got {:?}", placement_kind(&other)),
    }
}

#[test]
fn register_model_grows_the_used_set_in_order() {
    let mut pack = fresh_pack(true);

    let first = build_model(&["a/"], &["x"]);
    let second = build_model(&["b/"], &["y"]);
    pack.register_model(&first).expect("decoding failed");
    pack.register_model(&second).expect("decoding failed");

    assert_eq!(
        pack.used_materials,
        vec![
            "materials/a/x.vtf".to_string(),
            "materials/a/x.vmt".to_string(),
            "materials/b/y.vtf".to_string(),
            "materials/b/y.vmt".to_string(),
        ]
    );
}

#[test]
fn register_model_rejects_bad_buffers_untouched() {
    let mut pack = fresh_pack(true);

    let bad: Vec<u8> = "no model".as_bytes().to_vec();
    assert!(pack.register_model(&bad).is_err());
    assert!(pack.used_materials.is_empty());
}

#[test]
fn ignored_packs_are_never_processed() {
    let mut config = test_config(true);
    config.ignored_addon_packs = vec!["addon_pack_1".to_string()];

    let folders = vec!["addon_pack_1".to_string(), "addon_pack_2".to_string()];
    let packs = get_addon_packs(&folders, &config);

    assert_eq!(packs.len(), 1);
    assert_eq!(packs[0].name, "addon_pack_2");
    assert_eq!(packs[0].path, "./input/addon_pack_2");
    assert!(!packs[0].whitelist);
    assert_eq!(packs[0].total_size, 0);
}

#[test]
fn pack_names_strip_extensions() {
    let config = test_config(false);

    let folders = vec!["pack.v2".to_string()];
    let packs = get_addon_packs(&folders, &config);

    assert_eq!(packs.len(), 1);
    assert_eq!(packs[0].name, "pack");
}

#[test]
fn size_accounting_sums_materialized_bytes() {
    let mut pack = fresh_pack(false);

    pack.add_size(100);
    pack.add_size(23);
    assert_eq!(pack.total_size, 123);

    pack.add_size(u64::MAX);
    assert_eq!(pack.total_size, u64::MAX);
}

#[test]
fn resolution_is_deterministic() {
    let config = test_config(true);
    let mut pack = fresh_pack(false);
    let manifest = "[\"models/test1.mdl\"]".to_string();
    pack.load_whitelist(&config, Some(&manifest)).expect("manifest should parse");
    let file = build_model(&["test1/"], &["test1_mat1"]);
    pack.register_model(&file).expect("decoding failed");

    let addon = "addon_1".to_string();
    let rels = [
        "addon_pack_1/addon_1/models/test1.mdl",
        "addon_pack_1/addon_1/materials/test1/test1_mat1.vtf",
        "addon_pack_1/addon_1/materials/test2/test2_mat1.vtf",
        "addon_pack_1/addon_1/lua/autorun/init.lua",
        "addon_pack_1/addon_1/sounds/boom.wav",
    ];
    for rel in rels.iter() {
        let rel_string = rel.to_string();
        let first = resolve_file(&pack, &config, &addon, &rel_string);
        let second = resolve_file(&pack, &config, &addon, &rel_string);
        assert_eq!(first.decode_model, second.decode_model);
        assert_eq!(placement_fields(&first.placement), placement_fields(&second.placement));
    }
}

fn placement_fields(p: &Placement) -> (u8, String, String) {
    match p {
        Placement::Discard => (0, String::new(), String::new()),
        Placement::Copy { dest } => (1, dest.clone(), String::new()),
        Placement::CopyScript { staging, merged } => (2, staging.clone(), merged.clone()),
    }
}

#[test]
fn parsed_model_feeds_resolution_like_the_walker() {
    // One addon, walked in order: the model comes first, then the
    // materials; what the model derives decides the materials.
    let config = test_config(true);
    let mut pack = fresh_pack(false);
    let manifest = "[\"models/fence.mdl\"]".to_string();
    pack.load_whitelist(&config, Some(&manifest)).expect("manifest should parse");

    let file = build_model(&["fence/"], &["fence_mat1", "fence_mat2"]);
    let parsed = parse_model(&file).expect("decoding failed");
    assert_eq!(parsed.used_paths.len(), 4);

    pack.register_model(&file).expect("decoding failed");

    match resolve(&pack, &config, "addon_pack_1/addon_1/materials/fence/fence_mat2.vmt") {
        Placement::Copy { .. } => (),
        other => panic!("expected a copy, got {:?}", placement_kind(&other)),
    }
}
