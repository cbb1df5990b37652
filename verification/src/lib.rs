//! Comment-moderation core: a hot-swappable rule cache with an exact-word
//! matcher and a regex rule set behind one decision procedure.

pub mod automaton;
pub mod cache;
pub mod errors;
pub mod laws;
pub mod models;
pub mod rawcache;
pub mod regexes;
pub mod text;
pub mod validate;
