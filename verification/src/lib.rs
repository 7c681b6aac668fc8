//! Resolves the cross-references inside an unpacked Unity package and rebinds the
//! texture of converted binary glTF containers.

pub mod args;
pub mod asset;
pub mod container;
pub mod decimal;
pub mod paths;
pub mod primitives;
pub mod text;
pub mod unpacker;
pub mod yaml_helpers;
