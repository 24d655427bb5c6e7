pub mod adapters;
pub mod alias;
pub mod capability;
pub mod cargo_cli;
pub mod chain;
pub mod filter;
pub mod fold;
pub mod for_each;
pub mod idset;
pub mod map;
pub mod name_map;
pub mod par_fold;
pub mod permission;
pub mod rayon_import;
pub mod region;
pub mod rules;
pub mod samples;
pub mod syntax;
pub mod text;
pub mod to_iter;
pub mod translation;
pub mod type_usage;
pub mod usage;
pub mod utils;
pub mod validity;
pub mod variable_check;
