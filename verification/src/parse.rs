//! Reading a whole data file: the chunk table, then every chunk GameMaker defines, in the
//! order the chunks depend on one another.

use vstd::prelude::*;
use crate::chunk::GMChunk;
use crate::chunk_table::{
    chunk_matches, chunk_named, chunk_table, entered, first_chunk_index, lemma_chunk_named_index, parse_chunk_table,
    ChunkEntry,
};
use crate::data::{GMData, GMOtherChunks, GMRawChunk};
use crate::element::{GMChunkElement, GMElement};
use crate::elements::audio_groups::GMAudioGroups;
use crate::elements::backgrounds::GMBackgrounds;
use crate::elements::codes::GMCodes;
use crate::elements::data_files::GMDataFiles;
use crate::elements::embedded_images::GMEmbeddedImages;
use crate::elements::extensions::GMExtensions;
use crate::elements::feature_flags::GMFeatureFlags;
use crate::elements::filter_effects::GMFilterEffects;
use crate::elements::functions::GMFunctions;
use crate::elements::game_objects::GMGameObjects;
use crate::elements::general_info::GMGeneralInfo;
use crate::elements::languages::GMLanguageInfo;
use crate::elements::options::GMOptions;
use crate::elements::strings::GMStrings;
use crate::elements::variables::GMVariables;
use crate::reader::DataReader;
use crate::version::{version_at_least, GMVersion, LTSBranch};

verus! {

/// The chunks GameMaker defines, which a data file may hold.
pub open spec fn known_chunk_name(n: Seq<char>) -> bool {
    ||| n == "STRG"@ ||| n == "GEN8"@ ||| n == "VARI"@ ||| n == "FUNC"@ ||| n == "CODE"@
    ||| n == "TXTR"@ ||| n == "TPAG"@ ||| n == "SCPT"@ ||| n == "FONT"@ ||| n == "SPRT"@
    ||| n == "OBJT"@ ||| n == "ROOM"@ ||| n == "BGND"@ ||| n == "AUDO"@ ||| n == "SOND"@
    ||| n == "PATH"@ ||| n == "OPTN"@ ||| n == "SEQN"@ ||| n == "PSYS"@ ||| n == "PSEM"@
    ||| n == "LANG"@ ||| n == "EXTN"@ ||| n == "AGRP"@ ||| n == "GLOB"@ ||| n == "GMEN"@
    ||| n == "SHDR"@ ||| n == "UILR"@ ||| n == "DAFL"@ ||| n == "TMLN"@ ||| n == "EMBI"@
    ||| n == "TGIN"@ ||| n == "TAGS"@ ||| n == "FEAT"@ ||| n == "FEDS"@ ||| n == "ACRV"@
}

/// The chunks every data file must hold.
pub open spec fn required_chunk_name(n: Seq<char>) -> bool {
    ||| n == "STRG"@ ||| n == "GEN8"@ ||| n == "TXTR"@ ||| n == "TPAG"@ ||| n == "SCPT"@
    ||| n == "FONT"@ ||| n == "SPRT"@ ||| n == "OBJT"@ ||| n == "ROOM"@ ||| n == "BGND"@
    ||| n == "AUDO"@ ||| n == "SOND"@
}

/// The chunk table `t` has a chunk named `n`.
pub open spec fn table_has(t: Seq<ChunkEntry>, n: Seq<char>) -> bool {
    exists|j: int| 0 <= j < t.len() && (#[trigger] t[j]).1 == n
}

/// Of the chunks `orig` of a file, those no longer in the table `cur` have known names, and
/// `cur` holds chunks of `orig` only.
pub open spec fn unread_or_known(orig: Seq<GMChunk>, cur: Seq<GMChunk>) -> bool {
    &&& forall|j: int| 0 <= j < orig.len() ==> cur.contains(#[trigger] orig[j]) || known_chunk_name(orig[j].name@)
    &&& forall|k: int| 0 <= k < cur.len() ==> orig.contains(#[trigger] cur[k])
}

/// `after` is the chunk table `before` with its chunk named `name` taken off, if it had one.
pub open spec fn took(before: Seq<GMChunk>, after: Seq<GMChunk>, name: Seq<char>) -> bool {
    match first_chunk_index(before, name, 0) {
        None => after == before,
        Some(i) => after == before.remove(i),
    }
}

/// `chunks` holds a chunk named `name`.
pub open spec fn has_chunk(chunks: Seq<GMChunk>, name: Seq<char>) -> bool {
    exists|j: int| 0 <= j < chunks.len() && (#[trigger] chunks[j]).name@ == name
}

/// Taking a chunk with a known name off the table keeps the unread chunks unknown-free;
/// a chunk found there is one of the file's.
proof fn lemma_took(orig: Seq<GMChunk>, before: Seq<GMChunk>, after: Seq<GMChunk>, name: Seq<char>)
    requires
        unread_or_known(orig, before),
        took(before, after, name),
        known_chunk_name(name),
    ensures
        unread_or_known(orig, after),
        first_chunk_index(before, name, 0) is Some ==> has_chunk(orig, name),
{
    lemma_chunk_named_index(before, name, 0);
    match first_chunk_index(before, name, 0) {
        None => {},
        Some(i) => {
            assert(orig.contains(before[i]));
            let w = choose|w: int| 0 <= w < orig.len() && orig[w] == before[i];
            assert(orig[w].name@ == name);
            assert forall|j: int| 0 <= j < orig.len() implies after.contains(#[trigger] orig[j])
                || known_chunk_name(orig[j].name@) by {
                if before.contains(orig[j]) && !known_chunk_name(orig[j].name@) {
                    let k = choose|k: int| 0 <= k < before.len() && before[k] == orig[j];
                    assert(k != i);
                    let k2 = if k < i { k } else { k - 1 };
                    assert(after[k2] == orig[j]);
                }
            }
            assert forall|k: int| 0 <= k < after.len() implies orig.contains(#[trigger] after[k]) by {
                let k2 = if k < i { k } else { k + 1 };
                assert(after[k] == before[k2]);
            }
        },
    }
}

/// Takes the chunk named `name` off the reader's chunk table, if it is there.
fn take_chunk(reader: &mut DataReader, name: &str) -> (r: Option<GMChunk>)
    ensures
        *final(reader) == (DataReader { chunks: final(reader).chunks, ..*old(reader) }),
        took(old(reader).chunks@, final(reader).chunks@, name@),
        match first_chunk_index(old(reader).chunks@, name@, 0) {
            None => r is None,
            Some(i) => r == Some(old(reader).chunks@[i]) && old(reader).chunks@[i].name@ == name@,
        },
{
    let key = name.to_owned();
    proof {
        lemma_chunk_named_index(old(reader).chunks@, name@, 0);
    }
    match reader.chunk_index(&key) {
        None => None,
        Some(i) => Some(reader.chunks.remove(i)),
    }
}

/// Moves the reader to the start of `chunk`, which must lie within the data.
fn enter_chunk(reader: &mut DataReader, chunk: GMChunk) -> (r: Result<(), String>)
    ensures
        r is Ok <==> chunk.start_pos <= chunk.end_pos && chunk.end_pos <= old(reader).data@.len(),
        r is Ok ==> *final(reader) == entered(*old(reader), chunk) && final(reader).wf(),
        r is Err ==> *final(reader) == *old(reader),
{
    if !(chunk.start_pos <= chunk.end_pos && chunk.end_pos as usize <= reader.data.len()) {
        return Err("Chunk lies outside the data".to_owned());
    }
    reader.cur_pos = chunk.start_pos;
    reader.chunk = chunk;
    Ok(())
}

/// Reads the padding after a chunk's content; the reader must then stand at the chunk's end.
fn finish_chunk(reader: &mut DataReader) -> (r: Result<(), String>)
    requires
        old(reader).wf(),
        old(reader).chunk_padding != 0,
    ensures
        final(reader).wf(),
        final(reader).chunk_padding != 0,
        *final(reader) == (DataReader {
            cur_pos: final(reader).cur_pos,
            chunk_padding: final(reader).chunk_padding,
            ..*old(reader)
        }),
        r is Ok ==> final(reader).cur_pos == final(reader).chunk.end_pos,
{
    reader.read_chunk_padding()?;
    if reader.cur_pos != reader.chunk.end_pos {
        return Err("Misaligned chunk: the reader did not end at the chunk's end".to_owned());
    }
    Ok(())
}

/// The bytes of `data` from `start` up to `end`.
fn copy_bytes(data: &[u8], start: u32, end: u32) -> (r: Vec<u8>)
    requires
        start <= end <= data@.len(),
    ensures
        r@ == data@.subrange(start as int, end as int),
{
    let mut out: Vec<u8> = Vec::new();
    let mut i: usize = start as usize;
    while i < end as usize
        invariant
            start <= i <= end <= data@.len(),
            out@ == data@.subrange(start as int, i as int),
        decreases end - i,
    {
        out.push(data[i]);
        i = i + 1;
    }
    out
}

/// Takes the chunk named `name` off the table and keeps its bytes as they are; `None` when
/// the table has no such chunk.
fn read_raw_chunk(reader: &mut DataReader, name: &str) -> (r: Result<Option<GMRawChunk>, String>)
    ensures
        *final(reader) == (DataReader { chunks: final(reader).chunks, ..*old(reader) }),
        took(old(reader).chunks@, final(reader).chunks@, name@),
        match first_chunk_index(old(reader).chunks@, name@, 0) {
            None => r matches Ok(None),
            Some(i) => {
                let c = old(reader).chunks@[i];
                &&& (c.start_pos <= c.end_pos && c.end_pos <= old(reader).data@.len()) <==> r is Ok
                &&& r matches Ok(raw) ==> raw matches Some(rc) && rc.name@ == name@
                    && rc.bytes@ == old(reader).data@.subrange(c.start_pos as int, c.end_pos as int)
            },
        },
{
    match take_chunk(reader, name) {
        None => Ok(None),
        Some(c) => {
            if !(c.start_pos <= c.end_pos && c.end_pos as usize <= reader.data.len()) {
                return Err("Chunk lies outside the data".to_owned());
            }
            let bytes = copy_bytes(reader.data, c.start_pos, c.end_pos);
            Ok(Some(GMRawChunk { name: name.to_owned(), bytes }))
        },
    }
}

/// Like [`read_raw_chunk`], for a chunk the file must have.
fn read_raw_required(reader: &mut DataReader, name: &str) -> (r: Result<GMRawChunk, String>)
    ensures
        *final(reader) == (DataReader { chunks: final(reader).chunks, ..*old(reader) }),
        took(old(reader).chunks@, final(reader).chunks@, name@),
        first_chunk_index(old(reader).chunks@, name@, 0) is None ==> r is Err,
        r matches Ok(rc) ==> rc.name@ == name@,
{
    match read_raw_chunk(reader, name)? {
        Some(rc) => Ok(rc),
        None => Err("Required chunk not found in the chunk table".to_owned()),
    }
}

/// Whether the data file was compiled with YYC, which leaves no bytecode: chunk `CODE`
/// missing, or empty together with `VARI` and `FUNC` before bytecode 17. `None` where the
/// three chunks contradict each other.
pub open spec fn yyc_check(chunks: Seq<GMChunk>, bytecode_version: u8) -> Option<bool> {
    match chunk_named(chunks, "CODE"@, 0) {
        None => Some(true),
        Some(code) => match (chunk_named(chunks, "VARI"@, 0), chunk_named(chunks, "FUNC"@, 0)) {
            (Some(vari), Some(func)) => if code.start_pos != code.end_pos {
                Some(false)
            } else if bytecode_version > 16 {
                None
            } else if vari.start_pos != vari.end_pos || func.start_pos != func.end_pos {
                None
            } else {
                Some(true)
            },
            _ => None,
        },
    }
}

/// Checks whether the data file was compiled with YYC, from the chunk table and the
/// bytecode version of the reader.
pub fn check_yyc(reader: &DataReader) -> (r: Result<bool, String>)
    ensures
        match yyc_check(reader.chunks@, reader.bytecode_version) {
            Some(b) => r == Ok::<bool, String>(b),
            None => r is Err,
        },
{
    let code_name = "CODE".to_owned();
    let code = match reader.find_chunk(&code_name) {
        None => {
            return Ok(true);
        },
        Some(c) => c,
    };
    let vari = match reader.find_chunk(&"VARI".to_owned()) {
        None => {
            return Err("Chunk CODE exists but VARI doesn't".to_owned());
        },
        Some(c) => c,
    };
    let func = match reader.find_chunk(&"FUNC".to_owned()) {
        None => {
            return Err("Chunk CODE and VARI exist but FUNC doesn't".to_owned());
        },
        Some(c) => c,
    };
    if !code.is_empty() {
        return Ok(false);
    }
    if reader.bytecode_version > 16 {
        return Err("Empty, but existant CODE chunk before bytecode 17".to_owned());
    }
    if !vari.is_empty() {
        return Err("Chunk CODE is empty but VARI is not".to_owned());
    }
    if !func.is_empty() {
        return Err("Chunk CODE and VARI are empty but FUNC is not".to_owned());
    }
    Ok(true)
}

/// `v` raised to `r` when `cond` holds and `v` is older.
pub open spec fn raised(v: GMVersion, cond: bool, r: GMVersion) -> GMVersion {
    if cond && !version_at_least(v, r) { r } else { v }
}

/// A version with the given numbers on the branch before the long-term support release.
pub open spec fn pre_lts(major: u32, minor: u32, release: u32) -> GMVersion {
    GMVersion { major, minor, release, build: 0, branch: LTSBranch::PreLTS }
}

/// The table `chunks` has a chunk named `name`.
pub open spec fn has_named(chunks: Seq<GMChunk>, name: Seq<char>) -> bool {
    chunk_named(chunks, name, 0) is Some
}

/// The version that a GameMaker 2 game's chunks show it has at least, starting from the
/// stored version `v`: chunk `TGIN` appeared in 2.2.1, `SEQN` in 2.3, `FEDS` in 2.3.6,
/// `FEAT` in 2022.8, `PSEM` in 2023.2 and `UILR` in 2024.13 (both after the long-term
/// support release); a version from 2023.1 on that is still before that release is taken
/// as the release itself.
pub open spec fn detected_version(chunks: Seq<GMChunk>, v: GMVersion) -> GMVersion {
    let v1 = raised(v, has_named(chunks, "TGIN"@), pre_lts(2, 2, 1));
    let v2 = raised(v1, has_named(chunks, "SEQN"@), pre_lts(2, 3, 0));
    let v3 = raised(v2, has_named(chunks, "FEDS"@), pre_lts(2, 3, 6));
    let v4 = raised(v3, has_named(chunks, "FEAT"@), pre_lts(2022, 8, 0));
    let v5 = raised(v4, has_named(chunks, "PSEM"@), GMVersion { major: 2023, minor: 2, release: 0, build: 0, branch: LTSBranch::PostLTS });
    let v6 = raised(v5, has_named(chunks, "UILR"@), GMVersion { major: 2024, minor: 13, release: 0, build: 0, branch: LTSBranch::PostLTS });
    if version_at_least(v6, pre_lts(2023, 1, 0)) && v6.branch == LTSBranch::PreLTS {
        GMVersion { branch: LTSBranch::LTS, ..v6 }
    } else {
        v6
    }
}

/// Raises `version` to `req` when the reader's chunk table has a chunk named `name`.
fn raise_if_present(reader: &DataReader, name: &str, version: &mut GMVersion, req: &GMVersion)
    ensures
        *final(version) == raised(*old(version), has_named(reader.chunks@, name@), *req),
{
    if reader.find_chunk(&name.to_owned()).is_some() {
        version.set_version_at_least(req);
    }
}

/// Detects the version of a GameMaker 2 game, which stores only `2.0.0.0`, from the chunks
/// it has, starting from the stored version.
pub fn detect_gamemaker_version(reader: &DataReader, stored: GMVersion) -> (v: GMVersion)
    ensures
        v == detected_version(reader.chunks@, stored),
{
    let mut v = stored;
    raise_if_present(reader, "TGIN", &mut v, &GMVersion::new(2, 2, 1, 0));
    raise_if_present(reader, "SEQN", &mut v, &GMVersion::new(2, 3, 0, 0));
    raise_if_present(reader, "FEDS", &mut v, &GMVersion::new(2, 3, 6, 0));
    raise_if_present(reader, "FEAT", &mut v, &GMVersion::new(2022, 8, 0, 0));
    raise_if_present(reader, "PSEM", &mut v,
        &GMVersion { major: 2023, minor: 2, release: 0, build: 0, branch: LTSBranch::PostLTS });
    raise_if_present(reader, "UILR", &mut v,
        &GMVersion { major: 2024, minor: 13, release: 0, build: 0, branch: LTSBranch::PostLTS });
    if v.is_version_at_least(&GMVersion::new(2023, 1, 0, 0)) && v.branch == LTSBranch::PreLTS {
        v.branch = LTSBranch::LTS;
    }
    v
}

/// The invariant of reading: the reader lies within its data, pads chunks and keeps the
/// file's chunk table minus chunks with known names.
pub open spec fn reading<'a>(reader: DataReader<'a>, orig: Seq<GMChunk>, data: &'a [u8]) -> bool {
    &&& reader.wf()
    &&& reader.chunk_padding != 0
    &&& reader.data == data
    &&& unread_or_known(orig, reader.chunks@)
}

/// Reads the chunk named `name` if the table has it, with `T`'s reader.
fn read_optional<'a, T: GMChunkElement>(reader: &mut DataReader<'a>, name: &str, Ghost(orig): Ghost<Seq<GMChunk>>) -> (r: Result<T, String>)
    requires
        reading(*old(reader), orig, old(reader).data),
        known_chunk_name(name@),
    ensures
        r is Ok ==> reading(*final(reader), orig, old(reader).data),
{
    let key = name.to_owned();
    let v = reader.read_chunk_optional::<T>(&key)?;
    proof {
        lemma_took(orig, old(reader).chunks@, reader.chunks@, name@);
    }
    Ok(v)
}

/// Reads the chunk named `name`, which the table must have, with `T`'s reader.
fn read_required<'a, T: GMChunkElement>(reader: &mut DataReader<'a>, name: &str, Ghost(orig): Ghost<Seq<GMChunk>>) -> (r: Result<T, String>)
    requires
        reading(*old(reader), orig, old(reader).data),
        known_chunk_name(name@),
    ensures
        r is Ok ==> reading(*final(reader), orig, old(reader).data) && has_chunk(orig, name@),
        r matches Ok(v) ==> exists|c: GMChunk, mid: DataReader<'a>| #[trigger] T::deserialized(entered(*old(reader), c), mid, v),
{
    let key = name.to_owned();
    let v = reader.read_chunk_required::<T>(&key)?;
    proof {
        lemma_took(orig, old(reader).chunks@, reader.chunks@, name@);
        let i = first_chunk_index(old(reader).chunks@, name@, 0)->Some_0;
        let c = old(reader).chunks@[i];
        let mid = choose|mid: DataReader<'a>| T::deserialized(entered(*old(reader), c), mid, v);
        assert(T::deserialized(entered(*old(reader), c), mid, v));
    }
    Ok(v)
}

/// Keeps the bytes of the chunk named `name`, if the table has it.
fn keep_raw<'a>(reader: &mut DataReader<'a>, name: &str, kept: &mut Vec<GMRawChunk>, Ghost(orig): Ghost<Seq<GMChunk>>) -> (r: Result<(), String>)
    requires
        reading(*old(reader), orig, old(reader).data),
        known_chunk_name(name@),
    ensures
        r is Ok ==> reading(*final(reader), orig, old(reader).data),
{
    let rc = read_raw_chunk(reader, name)?;
    proof {
        lemma_took(orig, old(reader).chunks@, reader.chunks@, name@);
    }
    if let Some(c) = rc {
        kept.push(c);
    }
    Ok(())
}

/// Keeps the bytes of the chunk named `name`, which the table must have.
fn keep_raw_required<'a>(reader: &mut DataReader<'a>, name: &str, kept: &mut Vec<GMRawChunk>, Ghost(orig): Ghost<Seq<GMChunk>>) -> (r: Result<(), String>)
    requires
        reading(*old(reader), orig, old(reader).data),
        known_chunk_name(name@),
    ensures
        r is Ok ==> reading(*final(reader), orig, old(reader).data) && has_chunk(orig, name@),
{
    let c = read_raw_required(reader, name)?;
    proof {
        lemma_took(orig, old(reader).chunks@, reader.chunks@, name@);
    }
    kept.push(c);
    Ok(())
}

/// Reads the string table, chunk `STRG`, which the table must have.
fn read_strings<'a>(reader: &mut DataReader<'a>, Ghost(orig): Ghost<Seq<GMChunk>>) -> (r: Result<GMStrings, String>)
    requires
        reading(*old(reader), orig, old(reader).data),
    ensures
        r is Ok ==> reading(*final(reader), orig, old(reader).data) && has_chunk(orig, "STRG"@),
        r matches Ok(s) ==> s.exists,
{
    let chunk = match take_chunk(reader, "STRG") {
        Some(c) => c,
        None => {
            return Err("Required chunk STRG not found in the chunk table".to_owned());
        },
    };
    proof {
        lemma_took(orig, old(reader).chunks@, reader.chunks@, "STRG"@);
    }
    enter_chunk(reader, chunk)?;
    let strings = GMStrings::deserialize(reader)?;
    finish_chunk(reader)?;
    Ok(strings)
}

/// Reads the general info, chunk `GEN8`, which the table must have.
fn read_general_info<'a>(reader: &mut DataReader<'a>, Ghost(orig): Ghost<Seq<GMChunk>>) -> (r: Result<GMGeneralInfo, String>)
    requires
        reading(*old(reader), orig, old(reader).data),
    ensures
        r is Ok ==> reading(*final(reader), orig, old(reader).data) && has_chunk(orig, "GEN8"@),
        r matches Ok(g) ==> g.exists,
{
    let g: GMGeneralInfo = read_required(reader, "GEN8", Ghost(orig))?;
    proof {
        let (c, mid) = choose|c: GMChunk, mid: DataReader<'a>| GMGeneralInfo::deserialized(entered(*old(reader), c), mid, g);
        assert(GMGeneralInfo::deserialized(entered(*old(reader), c), mid, g));
    }
    Ok(g)
}

/// Reads the game objects, chunk `OBJT`, which the table must have.
fn read_game_objects<'a>(reader: &mut DataReader<'a>, Ghost(orig): Ghost<Seq<GMChunk>>) -> (r: Result<GMGameObjects, String>)
    requires
        reading(*old(reader), orig, old(reader).data),
    ensures
        r is Ok ==> reading(*final(reader), orig, old(reader).data) && has_chunk(orig, "OBJT"@),
        r matches Ok(g) ==> g.exists,
{
    let g: GMGameObjects = read_required(reader, "OBJT", Ghost(orig))?;
    proof {
        let (c, mid) = choose|c: GMChunk, mid: DataReader<'a>| GMGameObjects::deserialized(entered(*old(reader), c), mid, g);
        assert(GMGameObjects::deserialized(entered(*old(reader), c), mid, g));
    }
    Ok(g)
}

/// Reads the chunks of the bytecode, `VARI`, `FUNC` and `CODE`, unless the file was
/// compiled with YYC; then all three are missing.
fn read_bytecode_chunks<'a>(reader: &mut DataReader<'a>, Ghost(orig): Ghost<Seq<GMChunk>>)
    -> (r: Result<(GMVariables, GMFunctions, GMCodes), String>)
    requires
        reading(*old(reader), orig, old(reader).data),
    ensures
        r is Ok ==> reading(*final(reader), orig, old(reader).data),
{
    if check_yyc(reader)? {
        return Ok((GMVariables::empty(), GMFunctions::empty(), GMCodes { codes: Vec::new(), exists: false }));
    }
    let vari = match take_chunk(reader, "VARI") {
        Some(c) => c,
        None => {
            return Err("Chunk VARI not found in the chunk table".to_owned());
        },
    };
    proof {
        lemma_took(orig, old(reader).chunks@, reader.chunks@, "VARI"@);
    }
    enter_chunk(reader, vari)?;
    let variables = GMVariables::deserialize(reader)?;
    finish_chunk(reader)?;
    let ghost before_func = *reader;
    let func = match take_chunk(reader, "FUNC") {
        Some(c) => c,
        None => {
            return Err("Chunk FUNC not found in the chunk table".to_owned());
        },
    };
    proof {
        lemma_took(orig, before_func.chunks@, reader.chunks@, "FUNC"@);
    }
    enter_chunk(reader, func)?;
    let functions = GMFunctions::deserialize(reader)?;
    finish_chunk(reader)?;
    let ghost before_code = *reader;
    let code = match take_chunk(reader, "CODE") {
        Some(c) => c,
        None => {
            return Err("Chunk CODE not found in the chunk table".to_owned());
        },
    };
    proof {
        lemma_took(orig, before_code.chunks@, reader.chunks@, "CODE"@);
    }
    enter_chunk(reader, code)?;
    let codes = GMCodes::deserialize(reader)?;
    finish_chunk(reader)?;
    Ok((variables, functions, codes))
}

/// Parses a GameMaker data file (`data.win`, `game.unx` and the like): the chunk table,
/// then the strings and the general info, the bytecode chunks unless the game was compiled
/// with YYC, then every other chunk GameMaker defines. Fails when the file holds a chunk
/// it does not know, so that nothing is lost when the data is written back.
#[verifier::rlimit(40)]
pub fn parse_data_file(raw: &[u8]) -> (r: Result<GMData, String>)
    ensures
        r is Ok ==> chunk_table(raw@) is Some,
        r is Ok ==> forall|j: int| 0 <= j < chunk_table(raw@)->Some_0.1.len()
            ==> known_chunk_name(#[trigger] chunk_table(raw@)->Some_0.1[j].1),
        (chunk_table(raw@) matches Some((e, t)) && exists|j: int| 0 <= j < t.len() && !known_chunk_name(#[trigger] t[j].1))
            ==> r is Err,
        r is Ok ==> forall|n: Seq<char>| required_chunk_name(n) ==> #[trigger] table_has(chunk_table(raw@)->Some_0.1, n),
        r matches Ok(d) ==> {
            &&& d.strings.exists
            &&& d.other.general_info.exists
            &&& d.game_objects.exists
            &&& d.bytecode_version == d.other.general_info.bytecode_version
            &&& d.gm_version == d.other.general_info.version
        },
{
    let (endianness, chunks) = parse_chunk_table(raw)?;
    let ghost t = chunk_table(raw@)->Some_0.1;
    let ghost orig = chunks@;
    let mut reader = DataReader::new(raw);
    reader.endianness = endianness;
    reader.chunks = chunks;
    proof {
        assert forall|j: int| 0 <= j < orig.len() implies reader.chunks@.contains(#[trigger] orig[j])
            || known_chunk_name(orig[j].name@) by {
            assert(reader.chunks@[j] == orig[j]);
        }
        assert forall|k: int| 0 <= k < reader.chunks@.len() implies orig.contains(#[trigger] reader.chunks@[k]) by {
            assert(orig[k] == reader.chunks@[k]);
        }
    }
    let strings = read_strings(&mut reader, Ghost(orig))?;
    let mut general_info = read_general_info(&mut reader, Ghost(orig))?;
    if general_info.version.major >= 2 {
        general_info.version = detect_gamemaker_version(&reader, general_info.version);
    }
    reader.bytecode_version = general_info.bytecode_version;
    reader.gm_version = general_info.version;
    reader.general_info_exists = true;
    let (variables, functions, codes) = read_bytecode_chunks(&mut reader, Ghost(orig))?;
    let mut raw_chunks: Vec<GMRawChunk> = Vec::new();
    keep_raw_required(&mut reader, "TXTR", &mut raw_chunks, Ghost(orig))?;
    keep_raw_required(&mut reader, "TPAG", &mut raw_chunks, Ghost(orig))?;
    keep_raw_required(&mut reader, "SCPT", &mut raw_chunks, Ghost(orig))?;
    keep_raw_required(&mut reader, "FONT", &mut raw_chunks, Ghost(orig))?;
    keep_raw_required(&mut reader, "SPRT", &mut raw_chunks, Ghost(orig))?;
    let game_objects = read_game_objects(&mut reader, Ghost(orig))?;
    keep_raw_required(&mut reader, "ROOM", &mut raw_chunks, Ghost(orig))?;
    let backgrounds: GMBackgrounds = read_required(&mut reader, "BGND", Ghost(orig))?;
    keep_raw_required(&mut reader, "AUDO", &mut raw_chunks, Ghost(orig))?;
    keep_raw_required(&mut reader, "SOND", &mut raw_chunks, Ghost(orig))?;
    keep_raw(&mut reader, "PATH", &mut raw_chunks, Ghost(orig))?;
    let options: GMOptions = read_optional(&mut reader, "OPTN", Ghost(orig))?;
    keep_raw(&mut reader, "SEQN", &mut raw_chunks, Ghost(orig))?;
    keep_raw(&mut reader, "PSYS", &mut raw_chunks, Ghost(orig))?;
    keep_raw(&mut reader, "PSEM", &mut raw_chunks, Ghost(orig))?;
    let language_info: GMLanguageInfo = read_optional(&mut reader, "LANG", Ghost(orig))?;
    let extensions: GMExtensions = read_optional(&mut reader, "EXTN", Ghost(orig))?;
    let audio_groups: GMAudioGroups = read_optional(&mut reader, "AGRP", Ghost(orig))?;
    keep_raw(&mut reader, "GLOB", &mut raw_chunks, Ghost(orig))?;
    keep_raw(&mut reader, "GMEN", &mut raw_chunks, Ghost(orig))?;
    keep_raw(&mut reader, "SHDR", &mut raw_chunks, Ghost(orig))?;
    keep_raw(&mut reader, "UILR", &mut raw_chunks, Ghost(orig))?;
    let data_files: GMDataFiles = read_optional(&mut reader, "DAFL", Ghost(orig))?;
    keep_raw(&mut reader, "TMLN", &mut raw_chunks, Ghost(orig))?;
    let embedded_images: GMEmbeddedImages = read_optional(&mut reader, "EMBI", Ghost(orig))?;
    keep_raw(&mut reader, "TGIN", &mut raw_chunks, Ghost(orig))?;
    keep_raw(&mut reader, "TAGS", &mut raw_chunks, Ghost(orig))?;
    let feature_flags: GMFeatureFlags = read_optional(&mut reader, "FEAT", Ghost(orig))?;
    let filter_effects: GMFilterEffects = read_optional(&mut reader, "FEDS", Ghost(orig))?;
    keep_raw(&mut reader, "ACRV", &mut raw_chunks, Ghost(orig))?;
    if reader.chunks.len() != 0 {
        let mut message = "Not all chunks in the data file were read, which would lead to data loss when writing. \
            The following chunks are unknown or not supported:".to_owned();
        let mut k: usize = 0;
        while k < reader.chunks.len()
            invariant
                k <= reader.chunks@.len(),
            decreases reader.chunks@.len() - k,
        {
            message.append(" ");
            message.append(reader.chunks[k].name.as_str());
            k = k + 1;
        }
        return Err(message);
    }
    proof {
        assert forall|j: int| 0 <= j < t.len() implies known_chunk_name(#[trigger] t[j].1) by {
            assert(chunk_matches(orig[j], t[j]));
            assert(!reader.chunks@.contains(orig[j]));
        }
        assert forall|n: Seq<char>| required_chunk_name(n) implies #[trigger] table_has(t, n) by {
            let j = choose|j: int| 0 <= j < orig.len() && (#[trigger] orig[j]).name@ == n;
            assert(chunk_matches(orig[j], t[j]));
        }
    }
    let other = GMOtherChunks {
        general_info,
        backgrounds,
        options,
        language_info,
        extensions,
        audio_groups,
        data_files,
        embedded_images,
        feature_flags,
        filter_effects,
        raw_chunks,
        embedded_textures: Vec::new(),
    };
    Ok(GMData {
        bytecode_version: other.general_info.bytecode_version,
        gm_version: other.general_info.version,
        strings,
        variables,
        functions,
        game_objects,
        codes,
        other,
    })
}

} // verus!
