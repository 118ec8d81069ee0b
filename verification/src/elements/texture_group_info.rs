//! Texture group info entries of GameMaker 2022.9 and later.

use vstd::prelude::*;
use crate::builder::{i32_bytes, lemma_extends_trans, lemma_prefix_extends, ref_placeholder, DataBuilder};
use crate::bytes::spec_i32_at;
use crate::element::GMElement;
use crate::reader::DataReader;
use crate::refs::GMRef;
use crate::resources::string_at;

verus! {

/// Where the textures of a texture group are.
#[derive(Clone, Copy, Debug, PartialEq, Eq, Structural)]
pub enum GMTextureGroupInfoLoadType {
    /// In this file.
    InFile,
    /// Outside, one file per texture group.
    SeparateGroup,
    /// Outside, one file per texture.
    SeparateTextures,
}

/// The load type numbered `n` (0 to 2).
pub open spec fn load_type_of(n: i32) -> Option<GMTextureGroupInfoLoadType> {
    if n == 0 { Some(GMTextureGroupInfoLoadType::InFile) }
    else if n == 1 { Some(GMTextureGroupInfoLoadType::SeparateGroup) }
    else if n == 2 { Some(GMTextureGroupInfoLoadType::SeparateTextures) }
    else { None }
}

/// The number of a load type.
pub open spec fn load_type_code(t: GMTextureGroupInfoLoadType) -> i32 {
    match t {
        GMTextureGroupInfoLoadType::InFile => 0,
        GMTextureGroupInfoLoadType::SeparateGroup => 1,
        GMTextureGroupInfoLoadType::SeparateTextures => 2,
    }
}

impl GMTextureGroupInfoLoadType {
    /// The load type numbered `n`; fails for a number that names none.
    pub fn from_i32(n: i32) -> (r: Result<Self, String>)
        ensures
            match r {
                Ok(t) => load_type_of(n) == Some(t),
                Err(_) => load_type_of(n) is None,
            },
    {
        match n {
            0 => Ok(GMTextureGroupInfoLoadType::InFile),
            1 => Ok(GMTextureGroupInfoLoadType::SeparateGroup),
            2 => Ok(GMTextureGroupInfoLoadType::SeparateTextures),
            _ => Err("Invalid texture group load type".to_owned()),
        }
    }

    /// The load type's number.
    pub fn to_i32(&self) -> (r: i32)
        ensures
            r == load_type_code(*self),
    {
        match self {
            GMTextureGroupInfoLoadType::InFile => 0,
            GMTextureGroupInfoLoadType::SeparateGroup => 1,
            GMTextureGroupInfoLoadType::SeparateTextures => 2,
        }
    }
}

/// The directory, file extension and load type of a texture group.
pub struct GMTextureGroupInfo2022_9 {
    pub directory: GMRef<String>,
    pub extension: GMRef<String>,
    pub load_type: GMTextureGroupInfoLoadType,
}

impl GMElement for GMTextureGroupInfo2022_9 {
    open spec fn readable<'a>(before: DataReader<'a>) -> bool {
        let p = before.cur_pos as int;
        &&& before.can_read(12)
        &&& string_at(before, p) is Some
        &&& string_at(before, p + 4) is Some
        &&& load_type_of(spec_i32_at(before.data@, p + 8)) is Some
    }

    open spec fn read_end<'a>(before: DataReader<'a>) -> int {
        before.cur_pos + 12
    }

    open spec fn writable(&self, before: DataBuilder) -> bool {
        before.bytes@.len() + 4 <= u32::MAX
    }

    open spec fn written(&self, before: DataBuilder, after: DataBuilder) -> bool {
        after.bytes@ == before.bytes@ + ref_placeholder() + ref_placeholder() + i32_bytes(load_type_code(self.load_type))
    }

    open spec fn deserialized<'a>(before: DataReader<'a>, after: DataReader<'a>, value: GMTextureGroupInfo2022_9) -> bool {
        let p = before.cur_pos as int;
        &&& before.can_read(12)
        &&& after == before.moved(p + 12)
        &&& string_at(before, p) == Some(value.directory)
        &&& string_at(before, p + 4) == Some(value.extension)
        &&& load_type_of(spec_i32_at(before.data@, p + 8)) == Some(value.load_type)
    }

    fn deserialize(reader: &mut DataReader) -> (r: Result<GMTextureGroupInfo2022_9, String>) {
        let directory = reader.read_gm_string()?;
        let extension = reader.read_gm_string()?;
        let load_type = GMTextureGroupInfoLoadType::from_i32(reader.read_i32()?)?;
        Ok(GMTextureGroupInfo2022_9 { directory, extension, load_type })
    }

    fn serialize(&self, builder: &mut DataBuilder) -> (r: Result<(), String>) {
        builder.write_gm_string(&self.directory)?;
        let ghost b1 = *builder;
        let res = builder.write_gm_string(&self.extension);
        proof {
            lemma_extends_trans(*old(builder), b1, *builder);
        }
        res?;
        let ghost b2 = *builder;
        builder.write_i32(self.load_type.to_i32());
        proof {
            lemma_prefix_extends(b2, *builder);
            lemma_extends_trans(*old(builder), b2, *builder);
        }
        Ok(())
    }
}

} // verus!
