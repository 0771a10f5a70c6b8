use voxel_world::game::chunk::BlockId;
use voxel_world::game::manifest::{
    block_id_of_name, has_short_digit_runs, parse_manifest, read_entry, read_manifest, sides_of,
    ManifestError, TexturePaths, DIGIT_RUN_LIMIT,
};
use voxel_world::game::texture::TextureId;
use voxel_world::game::Dir;

fn error_of(text: &str) -> Option<ManifestError> {
    parse_manifest(text).err()
}

#[test]
fn manifest_lists_names_and_paths() {
    let text = r#"[
        ["stone", "stone.png"],
        ["grass", "grass_top.png", "dirt.png", "grass_side.png"],
        ["lamp", "a.png", "b.png", "c.png", "d.png", "e.png", "f.png"],
        ["nothing"]
    ]"#;
    let entries = parse_manifest(text).ok().unwrap();
    assert_eq!(entries.len(), 4);
    assert_eq!(entries[0].name, "stone");
    assert_eq!(entries[0].textures, vec!["stone.png"]);
    assert_eq!(entries[1].name, "grass");
    assert_eq!(entries[1].textures, vec!["grass_top.png", "dirt.png", "grass_side.png"]);
    assert_eq!(entries[2].name, "lamp");
    assert_eq!(entries[2].textures.len(), 6);
    assert_eq!(entries[2].textures[5], "f.png");
    assert_eq!(entries[3].name, "nothing");
    assert!(entries[3].textures.is_empty());
}

#[test]
fn empty_manifest() {
    assert_eq!(parse_manifest("[]").ok().unwrap().len(), 0);
}

#[test]
fn manifest_that_is_no_json() {
    assert_eq!(error_of(""), Some(ManifestError::NotJson));
    assert_eq!(error_of("[[\"stone\", \"a.png\"]"), Some(ManifestError::NotJson));
    assert_eq!(error_of("stone"), Some(ManifestError::NotJson));
}

#[test]
fn manifest_that_is_no_array() {
    assert_eq!(error_of("{}"), Some(ManifestError::NotAnArray));
    assert_eq!(error_of("\"stone\""), Some(ManifestError::NotAnArray));
    assert_eq!(error_of("3"), Some(ManifestError::NotAnArray));
    assert_eq!(error_of("null"), Some(ManifestError::NotAnArray));
}

#[test]
fn entry_that_is_no_array() {
    assert_eq!(error_of("[\"stone\"]"), Some(ManifestError::EntryNotAnArray));
    assert_eq!(error_of("[[\"stone\", \"a.png\"], 7]"), Some(ManifestError::EntryNotAnArray));
    assert_eq!(error_of("[{\"stone\": \"a.png\"}]"), Some(ManifestError::EntryNotAnArray));
}

#[test]
fn entry_without_a_name() {
    assert_eq!(error_of("[[]]"), Some(ManifestError::MissingName));
    assert_eq!(error_of("[[1, \"a.png\"]]"), Some(ManifestError::MissingName));
    assert_eq!(error_of("[[null]]"), Some(ManifestError::MissingName));
}

#[test]
fn path_that_is_no_string() {
    assert_eq!(error_of("[[\"stone\", 1]]"), Some(ManifestError::PathNotAString));
    assert_eq!(error_of("[[\"stone\", \"a\", \"b\", null]]"), Some(ManifestError::PathNotAString));
    // the second item is looked at before the number of textures
    assert_eq!(error_of("[[\"stone\", false, \"b\"]]"), Some(ManifestError::PathNotAString));
}

#[test]
fn wrong_number_of_textures() {
    assert_eq!(error_of("[[\"stone\", \"a\", \"b\"]]"), Some(ManifestError::WrongTextureCount));
    assert_eq!(
        error_of("[[\"stone\", \"a\", \"b\", \"c\", \"d\"]]"),
        Some(ManifestError::WrongTextureCount)
    );
    assert_eq!(
        error_of("[[\"s\", \"a\", \"b\", \"c\", \"d\", \"e\", \"f\", \"g\"]]"),
        Some(ManifestError::WrongTextureCount)
    );
    // the number of textures is looked at before the items behind the second
    assert_eq!(error_of("[[\"stone\", \"a\", 2]]"), Some(ManifestError::WrongTextureCount));
}

#[test]
fn first_wrong_entry_decides() {
    assert_eq!(
        error_of("[[\"stone\", \"a\"], [\"x\", \"a\", \"b\"], 5]"),
        Some(ManifestError::WrongTextureCount)
    );
    assert_eq!(error_of("[[\"stone\", \"a\"], 5, [\"x\", \"a\", \"b\"]]"), Some(ManifestError::EntryNotAnArray));
}

#[test]
fn entry_is_read_from_its_items() {
    let raw = Some(vec![Some("dirt".to_string()), Some("d.png".to_string())]);
    let entry = read_entry(&raw).ok().unwrap();
    assert_eq!(entry.name, "dirt");
    assert_eq!(entry.textures, vec!["d.png"]);
    assert_eq!(read_entry(&None).err(), Some(ManifestError::EntryNotAnArray));
    assert_eq!(read_entry(&Some(vec![None])).err(), Some(ManifestError::MissingName));
}

#[test]
fn names_of_block_kinds() {
    assert_eq!(block_id_of_name(&"stone".to_string()), Some(BlockId::Stone));
    assert_eq!(block_id_of_name(&"grass".to_string()), Some(BlockId::Grass));
    assert_eq!(block_id_of_name(&"dirt".to_string()), Some(BlockId::Dirt));
    for name in ["snow", "snow_grass", "air", "Stone", "stone ", ""] {
        assert_eq!(block_id_of_name(&name.to_string()), None);
    }
}

#[test]
fn sides_from_texture_indices() {
    let id = TextureId;
    let none = TextureId(u32::MAX);
    assert_eq!(sides_of(&vec![]).unwrap().all(), [none; 6]);
    assert_eq!(sides_of(&vec![id(4)]).unwrap().all(), [id(4); 6]);
    let three = sides_of(&vec![id(1), id(2), id(3)]).unwrap();
    assert_eq!(three.all(), [id(1), id(2), id(3), id(3), id(3), id(3)]);
    assert_eq!(three.in_direction(Dir::PY), id(1));
    let six = sides_of(&vec![id(10), id(11), id(12), id(13), id(14), id(15)]).unwrap();
    assert_eq!(six.top, id(10));
    assert_eq!(six.all(), [id(10), id(11), id(12), id(13), id(14), id(15)]);
    assert_eq!(six.bottom, id(11));
    assert_eq!(six.left, id(12));
    assert_eq!(six.right, id(13));
    assert_eq!(six.front, id(14));
    assert_eq!(six.back, id(15));
    assert!(sides_of(&vec![id(1), id(2)]).is_none());
    assert!(sides_of(&vec![id(1); 4]).is_none());
    assert!(sides_of(&vec![id(1); 5]).is_none());
    assert!(sides_of(&vec![id(1); 7]).is_none());
}

#[test]
fn texture_indices_count_distinct_paths() {
    let mut paths = TexturePaths::new();
    assert_eq!(paths.len(), 0);
    assert_eq!(paths.id_of(&"a.png".to_string()), Some((TextureId(0), true)));
    assert_eq!(paths.id_of(&"b.png".to_string()), Some((TextureId(1), true)));
    assert_eq!(paths.id_of(&"a.png".to_string()), Some((TextureId(0), false)));
    assert_eq!(paths.id_of(&"c.png".to_string()), Some((TextureId(2), true)));
    assert_eq!(paths.id_of(&"b.png".to_string()), Some((TextureId(1), false)));
    assert_eq!(paths.len(), 3);
    assert_eq!(paths.path(TextureId(1)).map(|p| p.as_str()), Some("b.png"));
    assert_eq!(paths.path(TextureId(3)), None);
}

#[test]
fn long_lists_are_read() {
    let mut text = String::from("[");
    for i in 0..5000 {
        if i > 0 {
            text.push(',');
        }
        text.push_str(&format!("[\"block{}\", \"textures/block{}.png\"]", i, i));
    }
    text.push(']');
    assert!(text.len() > 4 * DIGIT_RUN_LIMIT);
    assert!(has_short_digit_runs(&text));
    let entries = parse_manifest(&text).ok().unwrap();
    assert_eq!(entries.len(), 5000);
    assert_eq!(entries[4999].name, "block4999");
    assert_eq!(entries[4999].textures, vec!["textures/block4999.png"]);
}

#[test]
fn too_many_digits_in_a_row_are_refused() {
    assert_eq!(DIGIT_RUN_LIMIT, 32768);
    // one digit fewer than the limit is read: the number is no path
    let mut text = String::from("[[\"stone\", 0.");
    text.push_str(&"0".repeat(DIGIT_RUN_LIMIT - 1));
    text.push_str("]]");
    assert!(has_short_digit_runs(&text));
    assert_eq!(error_of(&text), Some(ManifestError::PathNotAString));
    // with one digit more nothing is read
    let mut text = String::from("[[\"stone\", 0.");
    text.push_str(&"0".repeat(DIGIT_RUN_LIMIT));
    text.push_str("]]");
    assert!(!has_short_digit_runs(&text));
    assert_eq!(error_of(&text), Some(ManifestError::NumberTooLong));
    // whatever else the text holds, and wherever the digits stand
    let mut text = String::from("not json ");
    text.push_str(&"7".repeat(DIGIT_RUN_LIMIT + 5));
    assert_eq!(error_of(&text), Some(ManifestError::NumberTooLong));
    let mut text = String::from("[[\"");
    text.push_str(&"1".repeat(DIGIT_RUN_LIMIT));
    text.push_str("\"]]");
    assert_eq!(error_of(&text), Some(ManifestError::NumberTooLong));
}

#[test]
fn digit_runs_are_counted_one_by_one() {
    assert!(has_short_digit_runs(""));
    assert!(has_short_digit_runs("no digits at all"));
    // many digits, but never the limit in a row
    let mut text = String::new();
    for _ in 0..4 {
        text.push_str(&"9".repeat(DIGIT_RUN_LIMIT - 1));
        text.push('.');
    }
    assert!(has_short_digit_runs(&text));
    text.push_str(&"0123456789".repeat(3277));
    assert!(!has_short_digit_runs(&text));
    // the bytes next to the digits are no digits
    let mut text = "5".repeat(DIGIT_RUN_LIMIT - 1);
    text.push('/');
    text.push(':');
    text.push_str(&"5".repeat(DIGIT_RUN_LIMIT - 1));
    assert!(has_short_digit_runs(&text));
}

#[test]
fn long_numbers_below_the_limit_are_read() {
    // as many digits before the point as the limit lets through, and as
    // many behind it
    let mut text = String::from("[[\"stone\", 1");
    text.push_str(&"9".repeat(DIGIT_RUN_LIMIT - 2));
    text.push('.');
    text.push_str(&"9".repeat(DIGIT_RUN_LIMIT - 1));
    text.push_str("e-");
    text.push_str(&"9".repeat(DIGIT_RUN_LIMIT - 1));
    text.push_str("]]");
    assert!(has_short_digit_runs(&text));
    assert_eq!(error_of(&text), Some(ManifestError::PathNotAString));
}

#[test]
fn document_is_read_whatever_its_length() {
    assert_eq!(read_manifest(None).err(), Some(ManifestError::NotJson));
    assert_eq!(read_manifest(Some(None)).err(), Some(ManifestError::NotAnArray));
    let entry = Some(vec![Some("dirt".to_string()), Some("d.png".to_string())]);
    let list = read_manifest(Some(Some(vec![entry]))).ok().unwrap();
    assert_eq!(list.len(), 1);
    assert_eq!(list[0].name, "dirt");
}
