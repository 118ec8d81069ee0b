use std::io::Cursor;

use libgm::builder::DataBuilder;
use libgm::create_data_file::new_data_file;
use libgm::element::GMElement;
use libgm::elements::game_objects::{GMGameObjectEvent, GMGameObjectEvents, GMGameObjects};
use libgm::elements::general_info::GMGeneralInfo;
use libgm::elements::languages::{GMLanguageData, GMLanguageInfo};
use libgm::elements::rooms::GMRoomLayerDataTiles;
use libgm::elements::sprites::{GMSpriteSpineTextureEntry, GMSpriteSpineTextureEntryData};
use libgm::chunk::GMChunk;
use libgm::parse::{detect_gamemaker_version, parse_data_file};
use libgm::reader::DataReader;
use libgm::refs::GMRef;
use libgm::version::{GMVersion, LTSBranch};

fn le(v: u32) -> [u8; 4] {
    v.to_le_bytes()
}

/// A general info chunk of GameMaker 1.4 with bytecode 13 whose names all refer to the
/// string whose characters start at `string_pos`, with two rooms.
fn gen8_content(string_pos: u32) -> Vec<u8> {
    let mut d = vec![0u8; 136];
    d[0] = 1;
    d[1] = 13;
    for pos in [4usize, 8, 40, 100] {
        d[pos..pos + 4].copy_from_slice(&le(string_pos));
    }
    d[44..48].copy_from_slice(&le(1));
    d[48..52].copy_from_slice(&le(4));
    d[60..64].copy_from_slice(&le(640));
    d[64..68].copy_from_slice(&le(480));
    d[92..100].copy_from_slice(&1431648000i64.to_le_bytes());
    d[124..128].copy_from_slice(&le(2));
    d[128..132].copy_from_slice(&le(3));
    d[132..136].copy_from_slice(&le(7));
    d
}

fn push_chunk(out: &mut Vec<u8>, name: &str, content: &[u8]) {
    out.extend_from_slice(name.as_bytes());
    out.extend_from_slice(&le(content.len() as u32));
    out.extend_from_slice(content);
}

/// A small data file of GameMaker 1.4 compiled with YYC: one string, the general info, no
/// game objects or backgrounds, and empty chunks for what this library keeps as bytes.
/// `extra` names one more chunk, put last.
fn small_data_file(extra: Option<&str>) -> Vec<u8> {
    let mut body = Vec::new();
    // STRG: one pointer (to 24), the string "a" at 24, zeros up to position 128.
    let mut strg = Vec::new();
    strg.extend_from_slice(&le(1));
    strg.extend_from_slice(&le(24));
    strg.extend_from_slice(&le(1));
    strg.push(b'a');
    strg.push(0);
    strg.resize(112, 0);
    push_chunk(&mut body, "STRG", &strg);
    push_chunk(&mut body, "GEN8", &gen8_content(28));
    for name in ["TXTR", "TPAG", "SCPT", "FONT", "SPRT"] {
        push_chunk(&mut body, name, &[]);
    }
    push_chunk(&mut body, "OBJT", &le(0));
    push_chunk(&mut body, "ROOM", &[]);
    push_chunk(&mut body, "BGND", &le(0));
    push_chunk(&mut body, "AUDO", &[]);
    push_chunk(&mut body, "SOND", &le(0));
    if let Some(name) = extra {
        push_chunk(&mut body, name, &le(0));
    }
    let mut out = Vec::new();
    out.extend_from_slice(b"FORM");
    out.extend_from_slice(&le(body.len() as u32));
    out.extend_from_slice(&body);
    out
}

#[test]
fn parse_small_data_file() {
    let raw = small_data_file(None);
    let data = parse_data_file(&raw).unwrap();
    assert!(data.strings.exists);
    assert_eq!(data.strings.strings, vec!["a".to_string()]);
    assert!(data.other.general_info.exists);
    assert_eq!(data.other.general_info.game_name.index, 0);
    assert_eq!(data.bytecode_version, 13);
    assert_eq!(data.gm_version, GMVersion::new(1, 4, 0, 0));
    assert!(data.game_objects.exists);
    assert!(data.game_objects.game_objects.is_empty());
    assert!(!data.codes.exists);
    assert!(!data.variables.exists);
    let names: Vec<&str> = data.other.raw_chunks.iter().map(|c| c.name.as_str()).collect();
    assert_eq!(names, vec!["TXTR", "TPAG", "SCPT", "FONT", "SPRT", "ROOM", "AUDO", "SOND"]);
    assert_eq!(data.other.raw_chunks.last().unwrap().bytes, vec![0, 0, 0, 0]);
}

#[test]
fn parse_rejects_unknown_chunk() {
    let raw = small_data_file(Some("ZZZZ"));
    let err = parse_data_file(&raw).err().unwrap();
    assert!(err.starts_with("Not all chunks in the data file were read"));
    assert!(err.ends_with("ZZZZ"));
}

#[test]
fn parse_keeps_known_optional_chunk() {
    let raw = small_data_file(Some("TAGS"));
    let data = parse_data_file(&raw).unwrap();
    assert_eq!(data.other.raw_chunks.last().unwrap().name, "TAGS");
}

#[test]
fn parse_rejects_bad_root_and_missing_chunks() {
    assert!(parse_data_file(b"NOPE\x00\x00\x00\x00").is_err());
    let mut raw = Vec::new();
    raw.extend_from_slice(b"FORM");
    raw.extend_from_slice(&le(12));
    push_chunk(&mut raw, "GEN8", &le(0));
    assert!(parse_data_file(&raw).err().unwrap().contains("STRG"));
}

fn tiny_png(width: u32, height: u32) -> Vec<u8> {
    let img = image::RgbaImage::new(width, height);
    let mut buf = Vec::new();
    img.write_to(&mut Cursor::new(&mut buf), image::ImageFormat::Png).unwrap();
    buf
}

#[test]
fn new_data_file_builds_game() {
    let png = tiny_png(2, 3);
    let data = new_data_file(GMVersion::new(2023, 6, 0, 0), 17, 1_700_000_000, &png).unwrap();
    let strings: Vec<&str> = data.strings.strings.iter().map(|s| s.as_str()).collect();
    assert_eq!(strings, vec![
        "new_acorngm_game", "Default", "New AcornGM Game", "@@SleepMargin", "0", "@@DrawColour", "4294967295",
        "spr_whatever", "obj_whatever", "Room1",
    ]);
    let gi = &data.other.general_info;
    assert!(gi.exists);
    assert_eq!(gi.display_name.index, 2);
    assert_eq!(gi.timestamp_created, 1_700_000_000);
    assert_eq!(gi.debugger_port, Some(0));
    assert_eq!(gi.version, GMVersion { major: 2023, minor: 6, release: 0, build: 0, branch: LTSBranch::LTS });
    assert_eq!(gi.gms2_info.as_ref().unwrap().fps, 60.0f32.to_bits());
    assert_eq!(data.game_objects.game_objects[0].name.index, 8);
    assert_eq!(data.other.options.constants[1].value.index, 6);
    let tex = &data.other.embedded_textures[0];
    let size = tex.data_2022_9.as_ref().unwrap();
    assert_eq!((size.texture_width, size.texture_height), (2, 3));
    assert_eq!(tex.image, png);
}

#[test]
fn new_data_file_old_target() {
    let data = new_data_file(GMVersion::new(1, 4, 0, 0), 13, 0, &tiny_png(1, 1)).unwrap();
    assert!(data.other.general_info.gms2_info.is_none());
    assert_eq!(data.other.general_info.debugger_port, None);
}

#[test]
fn new_data_file_rejects_bad_image() {
    assert!(new_data_file(GMVersion::new(2023, 6, 0, 0), 17, 0, b"not an image").is_err());
}

#[test]
fn general_info_serialize_writes_head() {
    let content = gen8_content(28);
    let mut reader = DataReader::new(&content);
    reader.string_occurrences.insert(28, 0);
    let info = GMGeneralInfo::deserialize(&mut reader).unwrap();
    let mut builder = DataBuilder::new(13, GMVersion::new(1, 4, 0, 0));
    info.serialize(&mut builder).unwrap();
    assert_eq!(builder.bytes.len(), 136);
    assert_eq!(&builder.bytes[0..4], &content[0..4]);
    assert_eq!(&builder.bytes[4..8], &0xDEADC0DEu32.to_le_bytes());
    assert_eq!(&builder.bytes[44..100], &content[44..100]);
    assert_eq!(&builder.bytes[104..136], &content[104..136]);
}

#[test]
fn game_objects_serialize_empty_list() {
    let objects = GMGameObjects { game_objects: vec![], exists: true };
    let mut builder = DataBuilder::new(17, GMVersion::new(2023, 6, 0, 0));
    objects.serialize(&mut builder).unwrap();
    assert_eq!(builder.bytes, vec![0, 0, 0, 0]);
}

#[test]
fn game_object_events_serialize_pointer_list() {
    let events = GMGameObjectEvents { events: vec![GMGameObjectEvent { subtype: 5, actions: vec![] }] };
    let mut builder = DataBuilder::new(17, GMVersion::new(2023, 6, 0, 0));
    events.serialize(&mut builder).unwrap();
    let mut expected = Vec::new();
    expected.extend_from_slice(&le(1));
    expected.extend_from_slice(&le(8));
    expected.extend_from_slice(&le(5));
    expected.extend_from_slice(&le(0));
    assert_eq!(builder.bytes, expected);
}

#[test]
fn language_info_serialize_bytes() {
    let info = GMLanguageInfo {
        unknown1: 1,
        languages: vec![GMLanguageData { name: GMRef::new(1), region: GMRef::new(2), entries: vec![GMRef::new(3)] }],
        entry_ids: vec![GMRef::new(0)],
        exists: true,
    };
    let mut builder = DataBuilder::new(17, GMVersion::new(2023, 6, 0, 0));
    info.serialize(&mut builder).unwrap();
    let mut expected = Vec::new();
    for w in [1u32, 1, 1, 0xDEADC0DE, 0xDEADC0DE, 0xDEADC0DE, 0xDEADC0DE] {
        expected.extend_from_slice(&le(w));
    }
    assert_eq!(builder.bytes, expected);
}

#[test]
fn tiles_serialize_words_before_compression() {
    let tiles = GMRoomLayerDataTiles { background: GMRef::new(3), tile_data: vec![5, 6], width: 2, height: 1 };
    let mut builder = DataBuilder::new(17, GMVersion::new(2023, 6, 0, 0));
    tiles.serialize(&mut builder).unwrap();
    let mut expected = Vec::new();
    for w in [3u32, 2, 1, 5, 6] {
        expected.extend_from_slice(&le(w));
    }
    assert_eq!(builder.bytes, expected);
}

#[test]
fn spine_texture_entry_serialize_by_version() {
    let entry = GMSpriteSpineTextureEntry { page_width: 4, page_height: 8, data: GMSpriteSpineTextureEntryData::Post2023_1(7) };
    let mut builder = DataBuilder::new(17, GMVersion::new(2023, 6, 0, 0));
    entry.serialize(&mut builder).unwrap();
    let mut expected = Vec::new();
    for w in [4u32, 8, 7] {
        expected.extend_from_slice(&le(w));
    }
    assert_eq!(builder.bytes, expected);
    let old = GMSpriteSpineTextureEntry { page_width: 4, page_height: 8, data: GMSpriteSpineTextureEntryData::Pre2023_1(vec![9]) };
    let mut builder = DataBuilder::new(17, GMVersion::new(2023, 6, 0, 0));
    assert!(old.serialize(&mut builder).is_err());
}

fn reader_with_chunks<'a>(data: &'a [u8], names: &[&str]) -> DataReader<'a> {
    let mut reader = DataReader::new(data);
    for name in names {
        reader.chunks.push(GMChunk { name: name.to_string(), start_pos: 0, end_pos: 0, is_last_chunk: false });
    }
    reader
}

#[test]
fn detect_version_from_chunks() {
    let data: [u8; 0] = [];
    let reader = reader_with_chunks(&data, &["STRG", "SEQN"]);
    assert_eq!(detect_gamemaker_version(&reader, GMVersion::new(2, 0, 0, 0)), GMVersion::new(2, 3, 0, 0));
    let reader = reader_with_chunks(&data, &["TGIN", "FEAT"]);
    assert_eq!(detect_gamemaker_version(&reader, GMVersion::new(2, 0, 0, 0)), GMVersion::new(2022, 8, 0, 0));
    let reader = reader_with_chunks(&data, &["PSEM"]);
    assert_eq!(
        detect_gamemaker_version(&reader, GMVersion::new(2, 0, 0, 0)),
        GMVersion { major: 2023, minor: 2, release: 0, build: 0, branch: LTSBranch::PostLTS }
    );
    let reader = reader_with_chunks(&data, &[]);
    assert_eq!(
        detect_gamemaker_version(&reader, GMVersion::new(2023, 4, 0, 0)),
        GMVersion { major: 2023, minor: 4, release: 0, build: 0, branch: LTSBranch::LTS }
    );
    assert_eq!(detect_gamemaker_version(&reader, GMVersion::new(2, 0, 0, 0)), GMVersion::new(2, 0, 0, 0));
}
