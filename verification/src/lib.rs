//! Layout core of a typesetting engine.
//!
//! Nodes are composed into trees behind hashed handles and laid out into
//! regions. Each result comes with the constraints under which it may be used
//! again, and a cache scoped to the running calls uses them to skip work.
//!
//! - `geom`, `frame`, `regions`, `constraints`: the data that layout works on.
//! - `hash`, `styles`, `node`: hashing, the style context and the node tree.
//! - `incremental`: the cache.
//! - `model`: what each node yields, as functions of node and regions.
//! - `layout`: the layout calls themselves.
//! - `laws`: what holds of every layout.

pub mod geom;
pub mod frame;
pub mod regions;
pub mod constraints;
pub mod hash;
pub mod seqs;
pub mod styles;
pub mod node;
pub mod incremental;
pub mod model;
pub mod laws;
pub mod layout;
