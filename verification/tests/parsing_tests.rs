use roam::config::config_from_jar_path;
use roam::players::{lookup_name, parse_usercache, player_record, steps_from_cm, ticks_played};
use roam::properties::{level_name, parse_properties, write_properties_content};
use roam::worlds::{backup_file_name, total_size};

fn pairs_as_strings(pairs: Vec<(Vec<u8>, Vec<u8>)>) -> Vec<(String, String)> {
    pairs
        .into_iter()
        .map(|(k, v)| (String::from_utf8(k).unwrap(), String::from_utf8(v).unwrap()))
        .collect()
}

#[test]
fn parse_properties_reads_key_value_lines() {
    let content = b"level-name=world\nmax-players=20\n";
    let props = pairs_as_strings(parse_properties(content));
    assert_eq!(
        props,
        vec![
            ("level-name".to_string(), "world".to_string()),
            ("max-players".to_string(), "20".to_string()),
        ]
    );
}

#[test]
fn parse_properties_skips_comments_and_blanks() {
    let content = b"# a comment\n\nmotd=Hello=World\n   # indented comment\nnoequals\n";
    let props = pairs_as_strings(parse_properties(content));
    assert_eq!(props, vec![("motd".to_string(), "Hello=World".to_string())]);
}

#[test]
fn parse_properties_trims_keys_and_values() {
    let content = b"  spawn-protection =  16 \r\n";
    let props = pairs_as_strings(parse_properties(content));
    assert_eq!(props, vec![("spawn-protection".to_string(), "16".to_string())]);
}

#[test]
fn parse_properties_of_empty_input_is_empty() {
    assert!(parse_properties(b"").is_empty());
}

#[test]
fn write_properties_renders_header_and_lines() {
    let pairs = vec![
        ("level-name".to_string(), "world".to_string()),
        ("pvp".to_string(), "true".to_string()),
    ];
    let content = write_properties_content(&pairs);
    assert_eq!(content, "# Updated by Roam MC Manager\nlevel-name=world\npvp=true\n");
}

#[test]
fn properties_round_trip() {
    let pairs = vec![
        ("a".to_string(), "1".to_string()),
        ("b".to_string(), "two words".to_string()),
    ];
    let content = write_properties_content(&pairs);
    let parsed = pairs_as_strings(parse_properties(content.as_bytes()));
    assert_eq!(parsed, pairs);
}

#[test]
fn level_name_defaults_to_world() {
    assert_eq!(level_name(b"pvp=true\n"), b"world".to_vec());
    assert_eq!(level_name(b""), b"world".to_vec());
}

#[test]
fn level_name_reads_configured_name() {
    let content = b"pvp=true\nlevel-name=skyblock \nmotd=hi\n";
    assert_eq!(level_name(content), b"skyblock".to_vec());
}

#[test]
fn steps_are_seventy_five_centimetres() {
    assert_eq!(steps_from_cm(0), 0);
    assert_eq!(steps_from_cm(74), 0);
    assert_eq!(steps_from_cm(75), 1);
    assert_eq!(steps_from_cm(750), 10);
}

#[test]
fn ticks_prefer_modern_counter() {
    assert_eq!(ticks_played(Some(100), Some(7)), 100);
    assert_eq!(ticks_played(None, Some(7)), 7);
    assert_eq!(ticks_played(None, None), 0);
}

#[test]
fn player_record_extracts_counters() {
    let json = r#"{"stats":{"minecraft:custom":{"minecraft:play_time":72000,"minecraft:walk_one_cm":1500}}}"#;
    let p = player_record("u-1".to_string(), "Steve".to_string(), json).expect("valid json");
    assert_eq!(p.uuid, "u-1");
    assert_eq!(p.name, "Steve");
    assert_eq!(p.play_ticks, 72000);
    assert_eq!(p.steps, 20);
}

#[test]
fn player_record_falls_back_to_legacy_counter() {
    let json = r#"{"stats":{"minecraft:custom":{"minecraft:play_one_minute":1200}}}"#;
    let p = player_record("u".to_string(), "n".to_string(), json).expect("valid json");
    assert_eq!(p.play_ticks, 1200);
    assert_eq!(p.steps, 0);
}

#[test]
fn player_record_of_invalid_json_is_none() {
    assert!(player_record("u".to_string(), "n".to_string(), "not json {").is_none());
}

#[test]
fn player_record_without_stats_section_reads_zero() {
    let p = player_record("u".to_string(), "n".to_string(), "{}").expect("valid json");
    assert_eq!(p.play_ticks, 0);
    assert_eq!(p.steps, 0);
}

#[test]
fn usercache_pairs_and_lookup() {
    let cache = r#"[{"uuid":"u-1","name":"Steve"},{"uuid":"u-2","name":"Alex"},{"noise":true}]"#;
    let pairs = parse_usercache(cache);
    assert_eq!(
        pairs,
        vec![
            ("u-1".to_string(), "Steve".to_string()),
            ("u-2".to_string(), "Alex".to_string()),
        ]
    );
    assert_eq!(lookup_name(&pairs, &"u-2".to_string()), "Alex");
    assert_eq!(lookup_name(&pairs, &"u-3".to_string()), "u-3");
}

#[test]
fn duplicated_uuid_takes_the_last_name() {
    // As when the pairs are read into a map by insertion.
    let pairs = vec![
        ("u-1".to_string(), "Old".to_string()),
        ("u-1".to_string(), "New".to_string()),
    ];
    assert_eq!(lookup_name(&pairs, &"u-1".to_string()), "New");
}

#[test]
fn usercache_that_is_not_an_array_gives_nothing() {
    assert!(parse_usercache(r#"{"uuid":"u-1"}"#).is_empty());
    assert!(parse_usercache("garbage").is_empty());
}

#[test]
fn total_size_sums_exactly() {
    assert_eq!(total_size(&vec![]), 0);
    assert_eq!(total_size(&vec![1, 2, 3]), 6);
    assert_eq!(total_size(&vec![1024, 4096]), 5120);
}

#[test]
fn total_size_saturates_at_the_ceiling() {
    assert_eq!(total_size(&vec![u64::MAX, 1]), u64::MAX);
    assert_eq!(total_size(&vec![u64::MAX / 2 + 1, u64::MAX / 2 + 1]), u64::MAX);
}

#[test]
fn backup_file_name_joins_world_and_timestamp() {
    assert_eq!(
        backup_file_name("skyblock", "2024-05-01_12-30-00"),
        "skyblock_2024-05-01_12-30-00.zip"
    );
}

#[test]
fn config_from_jar_path_splits_directory_and_file() {
    let c = config_from_jar_path("/srv/mc/server.jar").expect("valid path");
    assert_eq!(c.path, "/srv/mc");
    assert_eq!(c.jar_name, "server.jar");
    assert_eq!(c.min_ram, "1G");
    assert_eq!(c.max_ram, "2G");
    assert!(c.name.is_none());
}

#[test]
fn config_from_jar_path_normalizes_backslashes() {
    let c = config_from_jar_path("C:\\servers\\mc\\server.jar").expect("valid path");
    assert_eq!(c.path, "C:/servers/mc");
    assert_eq!(c.jar_name, "server.jar");
}

#[test]
fn config_from_jar_path_ignores_trailing_separators() {
    // As Path::file_name does: the last component still counts.
    let c = config_from_jar_path("/usr/bin/").expect("valid path");
    assert_eq!(c.path, "/usr");
    assert_eq!(c.jar_name, "bin");
}

#[test]
fn config_from_jar_path_needs_a_file_name() {
    assert!(config_from_jar_path("").is_none());
    assert!(config_from_jar_path("/").is_none());
    assert!(config_from_jar_path("///").is_none());
}

#[test]
fn config_from_bare_file_name_has_empty_root() {
    let c = config_from_jar_path("server.jar").expect("valid path");
    assert_eq!(c.path, "");
    assert_eq!(c.jar_name, "server.jar");
}
