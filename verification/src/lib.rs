//! Setting up a game for neural rendering, without the input and output.
pub mod anticheat;
pub mod api;
pub mod api_laws;
pub mod bytes;
pub mod chars;
pub mod cli;
pub mod cli_laws;
pub mod diagnose;
pub mod diagnose_laws;
pub mod exes;
pub mod exes_laws;
pub mod feed_cfg;
pub mod file_laws;
pub mod game;
pub mod game_laws;
pub mod gpu;
pub mod gpu_laws;
pub mod gpupref;
pub mod ini_file_laws;
pub mod ini_kept_laws;
pub mod ini_laws;
pub mod ini_value_laws;
pub mod json;
pub mod library;
pub mod library_laws;
pub mod message_marks;
pub mod messages;
pub mod net;
pub mod net_laws;
pub mod numbers;
pub mod order;
pub mod outside;
pub mod paths;
pub mod pe;
pub mod renodx;
pub mod renodx_laws;
pub mod reshade_ini;
pub mod session;
pub mod setup;
pub mod shelf;
pub mod store_laws;
pub mod str_laws;
pub mod strs;
pub mod text;
pub mod tiles;
pub mod tree;
pub mod tree_laws;
pub mod window_laws;
