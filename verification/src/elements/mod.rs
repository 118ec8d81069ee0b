//! The elements (chunks and their entries) of a data file.

pub mod functions;
pub mod variables;
pub mod game_objects;
pub mod strings;
pub mod codes;
pub mod general_info;
pub mod filter_effects;
pub mod data_files;
pub mod audio_groups;
pub mod feature_flags;
pub mod embedded_images;
pub mod sounds;
pub mod languages;
pub mod backgrounds;
pub mod extensions;
pub mod options;
pub mod texture_group_info;
pub mod animation_curves;
pub mod sprites;
pub mod rooms;
