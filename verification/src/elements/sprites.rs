//! Parts of sprites: Spine data with its obfuscated text, Spine texture entries, nine-slice
//! settings and collision masks.

use vstd::prelude::*;
use vstd::utf8::{decode_utf8, encode_utf8, valid_utf8};
use crate::builder::{bool32_bytes, i32_bytes, lemma_extends_refl, lemma_extends_trans, lemma_prefix_extends, DataBuilder};
use crate::bytes::{bytes_to_vec, spec_i32_at, spec_u32_at, u32_le_bytes};
use crate::element::GMElement;
use crate::elements::backgrounds::bool32_at;
use crate::reader::DataReader;
use crate::trusted::utf8_decode;
use crate::version::{version_at_least, version_req, GMVersion};

verus! {

/// The key that obfuscates byte `i` of a Spine text: 42 for the first byte, then
/// `k * (k + 1)` of the previous key, wrapping in 32 bits; each byte uses the key's low byte.
pub open spec fn spine_key(i: nat) -> u32
    decreases i,
{
    if i == 0 {
        42
    } else {
        let k = spine_key((i - 1) as nat);
        k.wrapping_mul(k.wrapping_add(1))
    }
}

/// A blob with each byte raised by its key (wrapping).
pub open spec fn spine_encoded(blob: Seq<u8>) -> Seq<u8> {
    Seq::new(blob.len(), |i: int| blob[i].wrapping_add(spine_key(i as nat) as u8))
}

/// A blob with each byte lowered by its key (wrapping).
pub open spec fn spine_decoded(blob: Seq<u8>) -> Seq<u8> {
    Seq::new(blob.len(), |i: int| blob[i].wrapping_sub(spine_key(i as nat) as u8))
}

/// Decoding an encoded blob gives it back, and so does encoding a decoded one.
pub proof fn law_spine_blob_roundtrip(blob: Seq<u8>)
    ensures
        spine_decoded(spine_encoded(blob)) == blob,
        spine_encoded(spine_decoded(blob)) == blob,
{
    assert(spine_decoded(spine_encoded(blob)) =~= blob);
    assert(spine_encoded(spine_decoded(blob)) =~= blob);
}

/// Spine data of a sprite.
pub struct GMSpriteTypeSpine {
    pub version: i32,
    pub textures: Vec<GMSpriteSpineTextureEntry>,
    pub json: String,
    pub atlas: String,
}

impl GMSpriteTypeSpine {
    /// Removes the obfuscation of a Spine text blob.
    pub fn decode_spine_blob(blob: &mut Vec<u8>)
        ensures
            final(blob)@ == spine_decoded(old(blob)@),
    {
        let mut k: u32 = 42;
        let mut i: usize = 0;
        while i < blob.len()
            invariant
                i <= blob@.len(),
                blob@.len() == old(blob)@.len(),
                k == spine_key(i as nat),
                forall|j: int| 0 <= j < i ==> blob@[j] == spine_decoded(old(blob)@)[j],
                forall|j: int| i <= j < blob@.len() ==> blob@[j] == old(blob)@[j],
            decreases blob@.len() - i,
        {
            let low: u8 = #[verifier::truncate] (k as u8);
            let byte = blob[i].wrapping_sub(low);
            blob.set(i, byte);
            k = k.wrapping_mul(k.wrapping_add(1));
            i = i + 1;
        }
        assert(blob@ =~= spine_decoded(old(blob)@));
    }

    /// Obfuscates a Spine text blob.
    pub fn encode_spine_blob(blob: &mut Vec<u8>)
        ensures
            final(blob)@ == spine_encoded(old(blob)@),
    {
        let mut k: u32 = 42;
        let mut i: usize = 0;
        while i < blob.len()
            invariant
                i <= blob@.len(),
                blob@.len() == old(blob)@.len(),
                k == spine_key(i as nat),
                forall|j: int| 0 <= j < i ==> blob@[j] == spine_encoded(old(blob)@)[j],
                forall|j: int| i <= j < blob@.len() ==> blob@[j] == old(blob)@[j],
            decreases blob@.len() - i,
        {
            let low: u8 = #[verifier::truncate] (k as u8);
            let byte = blob[i].wrapping_add(low);
            blob.set(i, byte);
            k = k.wrapping_mul(k.wrapping_add(1));
            i = i + 1;
        }
        assert(blob@ =~= spine_encoded(old(blob)@));
    }

    /// Reads `size` obfuscated bytes and the UTF-8 text they hide; fails when the bytes
    /// leave the chunk or the text is not UTF-8.
    pub fn read_weird_string(reader: &mut DataReader, size: u32) -> (r: Result<String, String>)
        requires
            old(reader).wf(),
        ensures
            final(reader).wf(),
            old(reader).only_moved(*final(reader)),
            r is Ok <==> old(reader).can_read(size as int) && valid_utf8(spine_decoded(old(reader).ahead(size as int))),
            r matches Ok(s) ==> s@ == decode_utf8(spine_decoded(old(reader).ahead(size as int))),
    {
        let bytes = reader.read_bytes_dyn(size)?;
        let mut blob: Vec<u8> = bytes_to_vec(bytes);
        Self::decode_spine_blob(&mut blob);
        match utf8_decode(blob.as_slice()) {
            Some(s) => Ok(s),
            None => Err("Could not get UTF-8 String while reading Sprite Spine data".to_owned()),
        }
    }

    /// The obfuscated UTF-8 bytes of `string`.
    pub fn build_weird_string(string: &String) -> (r: Vec<u8>)
        ensures
            r@ == spine_encoded(encode_utf8(string@)),
    {
        let mut blob: Vec<u8> = bytes_to_vec(string.as_str().as_bytes());
        Self::encode_spine_blob(&mut blob);
        blob
    }
}

/// The data of a Spine texture entry: a raw blob before GameMaker 2023.1, a length after.
pub enum GMSpriteSpineTextureEntryData {
    Pre2023_1(Vec<u8>),
    Post2023_1(u32),
}

/// The bytes of a Spine texture page's data: its number, or the length and bytes of its blob.
pub open spec fn spine_data_bytes(d: GMSpriteSpineTextureEntryData) -> Seq<u8> {
    match d {
        GMSpriteSpineTextureEntryData::Post2023_1(n) => u32_le_bytes(n),
        GMSpriteSpineTextureEntryData::Pre2023_1(b) => u32_le_bytes(b@.len() as u32) + b@,
    }
}

/// A texture page of Spine data.
pub struct GMSpriteSpineTextureEntry {
    pub page_width: u32,
    pub page_height: u32,
    pub data: GMSpriteSpineTextureEntryData,
}

impl GMElement for GMSpriteSpineTextureEntry {
    open spec fn readable<'a>(before: DataReader<'a>) -> bool {
        let p = before.cur_pos as int;
        &&& before.can_read(12)
        &&& (!version_at_least(before.gm_version, version_req(2023, 1))
            ==> before.can_read(12 + spec_u32_at(before.data@, p + 8) as int))
    }

    open spec fn read_end<'a>(before: DataReader<'a>) -> int {
        if version_at_least(before.gm_version, version_req(2023, 1)) {
            before.cur_pos + 12
        } else {
            before.cur_pos + 12 + spec_u32_at(before.data@, before.cur_pos + 8)
        }
    }

    /// The data has the form of the version: a number from GameMaker 2023.1 on, else a blob
    /// whose length fits in 32 bits.
    open spec fn writable(&self, before: DataBuilder) -> bool {
        if version_at_least(before.gm_version, version_req(2023, 1)) {
            self.data is Post2023_1
        } else {
            self.data matches GMSpriteSpineTextureEntryData::Pre2023_1(b) && b@.len() <= u32::MAX
        }
    }

    /// The page width and height, then the data.
    open spec fn written(&self, before: DataBuilder, after: DataBuilder) -> bool {
        after.bytes@ == before.bytes@ + u32_le_bytes(self.page_width) + u32_le_bytes(self.page_height)
            + spine_data_bytes(self.data)
    }

    open spec fn deserialized<'a>(before: DataReader<'a>, after: DataReader<'a>, value: GMSpriteSpineTextureEntry) -> bool {
        let p = before.cur_pos as int;
        let d = before.data@;
        &&& before.can_read(12)
        &&& value.page_width == spec_u32_at(d, p)
        &&& value.page_height == spec_u32_at(d, p + 4)
        &&& if version_at_least(before.gm_version, version_req(2023, 1)) {
            &&& after == before.moved(p + 12)
            &&& value.data == GMSpriteSpineTextureEntryData::Post2023_1(spec_u32_at(d, p + 8))
        } else {
            let n = spec_u32_at(d, p + 8) as int;
            &&& before.can_read(12 + n)
            &&& after == before.moved(p + 12 + n)
            &&& value.data matches GMSpriteSpineTextureEntryData::Pre2023_1(blob) && blob@ == d.subrange(p + 12, p + 12 + n)
        }
    }

    fn deserialize(reader: &mut DataReader) -> (r: Result<GMSpriteSpineTextureEntry, String>) {
        let page_width = reader.read_u32()?;
        let page_height = reader.read_u32()?;
        let data = if reader.gm_version.is_version_at_least(&GMVersion::new(2023, 1, 0, 0)) {
            let texture_entry_length = reader.read_u32()?;
            GMSpriteSpineTextureEntryData::Post2023_1(texture_entry_length)
        } else {
            let size = reader.read_u32()?;
            let texture_blob: Vec<u8> = bytes_to_vec(reader.read_bytes_dyn(size)?);
            GMSpriteSpineTextureEntryData::Pre2023_1(texture_blob)
        };
        Ok(GMSpriteSpineTextureEntry { page_width, page_height, data })
    }

    /// Fails when the data does not have the form the version asks for.
    fn serialize(&self, builder: &mut DataBuilder) -> (r: Result<(), String>)
        ensures
            version_at_least(old(builder).gm_version, version_req(2023, 1)) ==> (r is Ok <==> self.data is Post2023_1),
    {
        builder.write_u32(self.page_width);
        builder.write_u32(self.page_height);
        let ghost b1 = *builder;
        proof {
            lemma_prefix_extends(*old(builder), b1);
        }
        if builder.is_gm_version_at_least(&GMVersion::new(2023, 1, 0, 0)) {
            match &self.data {
                GMSpriteSpineTextureEntryData::Post2023_1(n) => {
                    builder.write_u32(*n);
                    proof {
                        lemma_prefix_extends(b1, *builder);
                        lemma_extends_trans(*old(builder), b1, *builder);
                        assert(builder.bytes@ =~= old(builder).bytes@ + u32_le_bytes(self.page_width)
                            + u32_le_bytes(self.page_height) + spine_data_bytes(self.data));
                    }
                },
                _ => return Err("Expected Post2023_1 Spine Texture Entry data".to_owned()),
            }
        } else {
            match &self.data {
                GMSpriteSpineTextureEntryData::Pre2023_1(blob) => {
                    if let Err(e) = builder.write_usize(blob.len()) {
                        return Err(e);
                    }
                    builder.write_bytes(blob.as_slice());
                    proof {
                        lemma_prefix_extends(b1, *builder);
                        lemma_extends_trans(*old(builder), b1, *builder);
                        assert(builder.bytes@ =~= old(builder).bytes@ + u32_le_bytes(self.page_width)
                            + u32_le_bytes(self.page_height) + spine_data_bytes(self.data));
                    }
                },
                _ => return Err("Expected Pre2023_1 Spine Texture Entry data".to_owned()),
            }
        }
        Ok(())
    }
}

/// How a part of a nine-slice sprite fills its area.
#[derive(Clone, Copy, Debug, PartialEq, Eq, Structural)]
pub enum GMSpriteNineSliceTileMode {
    Stretch,
    Repeat,
    Mirror,
    BlankRepeat,
    Hide,
}

/// The tile mode numbered `n` (0 to 4).
/// The number of a tile mode.
pub open spec fn tile_mode_code(m: GMSpriteNineSliceTileMode) -> i32 {
    match m {
        GMSpriteNineSliceTileMode::Stretch => 0,
        GMSpriteNineSliceTileMode::Repeat => 1,
        GMSpriteNineSliceTileMode::Mirror => 2,
        GMSpriteNineSliceTileMode::BlankRepeat => 3,
        GMSpriteNineSliceTileMode::Hide => 4,
    }
}

/// The words written for a sequence of tile modes, one each.
pub open spec fn tile_modes_bytes(modes: Seq<GMSpriteNineSliceTileMode>) -> Seq<u8>
    decreases modes.len(),
{
    if modes.len() == 0 {
        Seq::empty()
    } else {
        tile_modes_bytes(modes.drop_last()) + i32_bytes(tile_mode_code(modes.last()))
    }
}

pub open spec fn tile_mode_of(n: i32) -> Option<GMSpriteNineSliceTileMode> {
    if n == 0 { Some(GMSpriteNineSliceTileMode::Stretch) }
    else if n == 1 { Some(GMSpriteNineSliceTileMode::Repeat) }
    else if n == 2 { Some(GMSpriteNineSliceTileMode::Mirror) }
    else if n == 3 { Some(GMSpriteNineSliceTileMode::BlankRepeat) }
    else if n == 4 { Some(GMSpriteNineSliceTileMode::Hide) }
    else { None }
}

impl GMSpriteNineSliceTileMode {
    /// The tile mode numbered `n`; fails for a number that names none.
    pub fn from_i32(n: i32) -> (r: Result<Self, String>)
        ensures
            match r {
                Ok(m) => tile_mode_of(n) == Some(m),
                Err(_) => tile_mode_of(n) is None,
            },
    {
        match n {
            0 => Ok(GMSpriteNineSliceTileMode::Stretch),
            1 => Ok(GMSpriteNineSliceTileMode::Repeat),
            2 => Ok(GMSpriteNineSliceTileMode::Mirror),
            3 => Ok(GMSpriteNineSliceTileMode::BlankRepeat),
            4 => Ok(GMSpriteNineSliceTileMode::Hide),
            _ => Err("Invalid nine-slice tile mode".to_owned()),
        }
    }

    /// The tile mode's number.
    pub fn to_i32(&self) -> (r: i32)
        ensures
            tile_mode_of(r) == Some(*self),
            r == tile_mode_code(*self),
    {
        match self {
            GMSpriteNineSliceTileMode::Stretch => 0,
            GMSpriteNineSliceTileMode::Repeat => 1,
            GMSpriteNineSliceTileMode::Mirror => 2,
            GMSpriteNineSliceTileMode::BlankRepeat => 3,
            GMSpriteNineSliceTileMode::Hide => 4,
        }
    }
}

/// The nine-slice settings of a sprite: the borders, whether they are on, and the tile mode
/// of each of the five areas.
pub struct GMSpriteNineSlice {
    pub left: i32,
    pub top: i32,
    pub right: i32,
    pub bottom: i32,
    pub enabled: bool,
    pub tile_modes: [GMSpriteNineSliceTileMode; 5],
}

impl GMElement for GMSpriteNineSlice {
    open spec fn readable<'a>(before: DataReader<'a>) -> bool {
        let p = before.cur_pos as int;
        &&& before.can_read(40)
        &&& bool32_at(before.data@, p + 16) is Some
        &&& tile_mode_of(spec_i32_at(before.data@, p + 20)) is Some
        &&& tile_mode_of(spec_i32_at(before.data@, p + 24)) is Some
        &&& tile_mode_of(spec_i32_at(before.data@, p + 28)) is Some
        &&& tile_mode_of(spec_i32_at(before.data@, p + 32)) is Some
        &&& tile_mode_of(spec_i32_at(before.data@, p + 36)) is Some
    }

    open spec fn read_end<'a>(before: DataReader<'a>) -> int {
        before.cur_pos + 40
    }

    open spec fn writable(&self, before: DataBuilder) -> bool {
        true
    }

    open spec fn written(&self, before: DataBuilder, after: DataBuilder) -> bool {
        after.bytes@ == before.bytes@ + i32_bytes(self.left) + i32_bytes(self.top) + i32_bytes(self.right)
            + i32_bytes(self.bottom) + bool32_bytes(self.enabled) + tile_modes_bytes(self.tile_modes@)
    }

    open spec fn deserialized<'a>(before: DataReader<'a>, after: DataReader<'a>, value: GMSpriteNineSlice) -> bool {
        let p = before.cur_pos as int;
        let d = before.data@;
        &&& before.can_read(40)
        &&& after == before.moved(p + 40)
        &&& value.left == spec_i32_at(d, p)
        &&& value.top == spec_i32_at(d, p + 4)
        &&& value.right == spec_i32_at(d, p + 8)
        &&& value.bottom == spec_i32_at(d, p + 12)
        &&& bool32_at(d, p + 16) == Some(value.enabled)
        &&& forall|k: int| 0 <= k < 5 ==> tile_mode_of(spec_i32_at(d, p + 20 + 4 * k)) == Some(#[trigger] value.tile_modes@[k])
    }

    fn deserialize(reader: &mut DataReader) -> (r: Result<GMSpriteNineSlice, String>) {
        let left = reader.read_i32()?;
        let top = reader.read_i32()?;
        let right = reader.read_i32()?;
        let bottom = reader.read_i32()?;
        let enabled = reader.read_bool32()?;
        let m0 = GMSpriteNineSliceTileMode::from_i32(reader.read_i32()?)?;
        let m1 = GMSpriteNineSliceTileMode::from_i32(reader.read_i32()?)?;
        let m2 = GMSpriteNineSliceTileMode::from_i32(reader.read_i32()?)?;
        let m3 = GMSpriteNineSliceTileMode::from_i32(reader.read_i32()?)?;
        let m4 = GMSpriteNineSliceTileMode::from_i32(reader.read_i32()?)?;
        let tile_modes = [m0, m1, m2, m3, m4];
        Ok(GMSpriteNineSlice { left, top, right, bottom, enabled, tile_modes })
    }

    fn serialize(&self, builder: &mut DataBuilder) -> (r: Result<(), String>) {
        builder.write_i32(self.left);
        builder.write_i32(self.top);
        builder.write_i32(self.right);
        builder.write_i32(self.bottom);
        builder.write_bool32(self.enabled);
        let ghost b1 = *builder;
        proof {
            lemma_prefix_extends(*old(builder), b1);
        }
        let mut k: usize = 0;
        assert(self.tile_modes@.take(0) =~= Seq::<GMSpriteNineSliceTileMode>::empty());
        while k < 5
            invariant
                k <= 5,
                builder.extends(old(builder)),
                builder.bytes@ == b1.bytes@ + tile_modes_bytes(self.tile_modes@.take(k as int)),
            decreases 5 - k,
        {
            let ghost b = *builder;
            builder.write_i32(self.tile_modes[k].to_i32());
            proof {
                lemma_prefix_extends(b, *builder);
                lemma_extends_trans(*old(builder), b, *builder);
                assert(self.tile_modes@.take(k + 1).drop_last() =~= self.tile_modes@.take(k as int));
                assert(builder.bytes@ =~= b1.bytes@ + tile_modes_bytes(self.tile_modes@.take(k + 1)));
            }
            k = k + 1;
        }
        assert(self.tile_modes@.take(5) =~= self.tile_modes@);
        Ok(())
    }
}

/// The kind of a sprite's separate collision masks.
#[derive(Clone, Copy, Debug, PartialEq, Eq, Structural)]
pub enum GMSpriteSepMaskType {
    AxisAlignedRect,
    Precise,
    RotatedRect,
}

/// The mask type numbered `n` (0 to 2).
pub open spec fn sep_mask_type_of(n: u32) -> Option<GMSpriteSepMaskType> {
    if n == 0 { Some(GMSpriteSepMaskType::AxisAlignedRect) }
    else if n == 1 { Some(GMSpriteSepMaskType::Precise) }
    else if n == 2 { Some(GMSpriteSepMaskType::RotatedRect) }
    else { None }
}

impl GMSpriteSepMaskType {
    /// The mask type numbered `n`; fails for a number that names none.
    pub fn from_u32(n: u32) -> (r: Result<Self, String>)
        ensures
            match r {
                Ok(t) => sep_mask_type_of(n) == Some(t),
                Err(_) => sep_mask_type_of(n) is None,
            },
    {
        match n {
            0 => Ok(GMSpriteSepMaskType::AxisAlignedRect),
            1 => Ok(GMSpriteSepMaskType::Precise),
            2 => Ok(GMSpriteSepMaskType::RotatedRect),
            _ => Err("Invalid separate mask type".to_owned()),
        }
    }
}

/// A collision mask: one bit per pixel, each row padded to whole bytes.
pub struct GMSpriteMaskEntry {
    pub data: Vec<u8>,
    pub width: usize,
    pub height: usize,
}

/// The bytes that `mask_count` masks of `width` by `height` pixels take, rows rounded up to
/// whole bytes and the total rounded up to whole 32-bit words.
pub open spec fn mask_data_size(width: int, height: int, mask_count: int) -> int {
    let rounded_width = (width + 7) / 8 * 8;
    let data_bits = rounded_width * height * mask_count;
    ((data_bits + 31) / 32 * 32) / 8
}

/// The bytes that `mask_count` masks of `width` by `height` pixels take.
pub fn calculate_mask_data_size(width: usize, height: usize, mask_count: usize) -> (r: usize)
    requires
        width + 7 <= usize::MAX,
        ((width + 7) / 8 * 8) * height <= usize::MAX,
        ((width + 7) / 8 * 8) * height * mask_count + 31 <= usize::MAX,
    ensures
        r == mask_data_size(width as int, height as int, mask_count as int),
{
    let rounded_width: usize = (width + 7) / 8 * 8;
    let data_bits: usize = rounded_width * height * mask_count;
    let data_bytes: usize = ((data_bits + 31) / 32 * 32) / 8;
    data_bytes
}

} // verus!
