//! The embedded viewer and editor: how a file is sniffed, and how its bytes
//! become text and back.
use vstd::prelude::*;

pub mod codec;
pub mod edit;
pub mod find;
pub mod hex;
pub mod page;
pub mod probe;
pub mod session;

verus! {
}
