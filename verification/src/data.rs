//! A data file: its chunks, with the versions that decide their binary form.

use vstd::prelude::*;
use crate::element::GMChunkElement;
use crate::elements::audio_groups::GMAudioGroups;
use crate::elements::backgrounds::GMBackgrounds;
use crate::elements::codes::GMCodes;
use crate::elements::data_files::GMDataFiles;
use crate::elements::embedded_images::GMEmbeddedImages;
use crate::elements::extensions::GMExtensions;
use crate::elements::feature_flags::GMFeatureFlags;
use crate::elements::filter_effects::GMFilterEffects;
use crate::elements::functions::GMFunctions;
use crate::elements::game_objects::GMGameObjects;
use crate::elements::general_info::GMGeneralInfo;
use crate::elements::languages::GMLanguageInfo;
use crate::elements::options::GMOptions;
use crate::elements::strings::GMStrings;
use crate::elements::variables::GMVariables;
use crate::version::GMVersion;

verus! {

/// A chunk that GameMaker defines and that this library keeps as it is: its name and
/// its bytes.
pub struct GMRawChunk {
    pub name: String,
    pub bytes: Vec<u8>,
}

/// The size fields of a texture page from GameMaker 2022.9 on.
pub struct GMEmbeddedTexture2022_9 {
    pub texture_width: i32,
    pub texture_height: i32,
    pub index_in_group: i32,
}

/// A texture page built for a new data file: its settings and its encoded image.
pub struct GMEmbeddedTexture {
    pub scaled: u32,
    pub generated_mips: Option<u32>,
    pub texture_block_size: Option<u32>,
    pub data_2022_9: Option<GMEmbeddedTexture2022_9>,
    /// The image as encoded (PNG).
    pub image: Vec<u8>,
}

/// The chunks of a data file besides those that code refers to.
pub struct GMOtherChunks {
    pub general_info: GMGeneralInfo,
    pub backgrounds: GMBackgrounds,
    pub options: GMOptions,
    pub language_info: GMLanguageInfo,
    pub extensions: GMExtensions,
    pub audio_groups: GMAudioGroups,
    pub data_files: GMDataFiles,
    pub embedded_images: GMEmbeddedImages,
    pub feature_flags: GMFeatureFlags,
    pub filter_effects: GMFilterEffects,
    /// The chunks kept as bytes, in the order they were read.
    pub raw_chunks: Vec<GMRawChunk>,
    /// Texture pages built for a new data file; a parsed file keeps chunk `TXTR` as bytes.
    pub embedded_textures: Vec<GMEmbeddedTexture>,
}

impl GMOtherChunks {
    /// No chunks: a placeholder general info and every other chunk missing.
    pub fn empty() -> (r: GMOtherChunks)
        ensures
            !r.general_info.exists,
            !r.backgrounds.exists && !r.options.exists && !r.language_info.exists && !r.extensions.exists,
            !r.audio_groups.exists && !r.data_files.exists && !r.embedded_images.exists,
            !r.feature_flags.exists && !r.filter_effects.exists,
            r.raw_chunks@.len() == 0,
            r.embedded_textures@.len() == 0,
    {
        GMOtherChunks {
            general_info: GMGeneralInfo::stub(),
            backgrounds: GMBackgrounds::empty(),
            options: GMOptions::empty(),
            language_info: GMLanguageInfo::empty(),
            extensions: GMExtensions::empty(),
            audio_groups: GMAudioGroups::empty(),
            data_files: GMDataFiles::empty(),
            embedded_images: GMEmbeddedImages::empty(),
            feature_flags: GMFeatureFlags::empty(),
            filter_effects: GMFilterEffects::empty(),
            raw_chunks: Vec::new(),
            embedded_textures: Vec::new(),
        }
    }
}

/// A data file's chunks, with the versions that decide their binary form: the strings,
/// variables, functions, game objects and code entries that code refers to, and the others.
pub struct GMData {
    pub bytecode_version: u8,
    pub gm_version: GMVersion,
    pub strings: GMStrings,
    pub variables: GMVariables,
    pub functions: GMFunctions,
    pub game_objects: GMGameObjects,
    pub codes: GMCodes,
    pub other: GMOtherChunks,
}

} // verus!
