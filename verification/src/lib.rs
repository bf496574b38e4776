//! Scene-graph nodes of a closed set of kinds, held in one value type and
//! stored in a self-describing binary form: the kind identifier comes first,
//! the fields of the kind's payload follow.
//!
//! Every function is verified against a contract over the views of the types.

pub mod error;
pub mod scene;
pub mod visitor;
