use vstd::prelude::*;

pub mod text;
pub mod chain;
pub mod json;
pub mod advanced_query;
pub mod alias;
pub mod auth;
pub mod extension;
pub mod notebooks;
pub mod events;
pub mod dashboards;
pub mod profiling;
pub mod notebook_images;
pub mod logs;
pub mod duration;
pub mod strmap;
pub mod idp;
pub mod bits;
pub mod cases;
pub mod model_lab;
pub mod install;
pub mod format;

verus! {

} // verus!
