//! DevOps agent backend core: permission rules, sandbox path and network
//! policies, token accounting, prompt slots, tool-use loop bookkeeping and
//! DAG planning, each stated and proved with Verus.
#![allow(unused_imports)]

pub mod clock;
pub mod json;
pub mod llm;
pub mod memory;
pub mod permissions;
pub mod sandbox;
pub mod security;
pub mod token;
pub mod text;

use vstd::prelude::*;

verus! {

} // verus!
