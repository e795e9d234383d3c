//! Verified core of the PCB Forge documentation back end.
pub mod text;
pub mod typst;
pub mod svg;
pub mod fields;
pub mod paths;
pub mod templates;
pub mod assets;
pub mod status;
pub mod markdown;
pub mod icon;
pub mod kicad;
pub mod project;
pub mod merge;
