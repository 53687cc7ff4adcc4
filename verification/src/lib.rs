//! Readers, decoders and archive logic for the file formats of the game
//! "Tree of Savior": IPF archives, IES tables, TOK token documents, FSB5
//! sound banks and the chunked XAC / XSM / XPM model and motion files.

pub mod bytes;
pub mod decode;
pub mod text;
pub mod binary;
pub mod ipf;
pub mod ies_tool;
pub mod order;
pub mod category;
pub mod sort;
pub mod paths;
pub mod ies;
pub mod tok;
pub mod fsb;
pub mod api;
pub mod xml;
pub mod tsv;
pub mod xac;
pub mod xsm;
pub mod xpm;
pub mod mesh;
pub mod shared_formats;
pub mod threedworld;
pub mod ipf_parser;
pub mod gltf;
pub mod stb;
pub mod xac_file;
pub mod xsm_file;
pub mod ies_file;
pub mod render_util;
