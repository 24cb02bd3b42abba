//! Block-import and state-access core of a blockchain client.
//!
//! The client keeps a chain of blocks whose headers are linked by their
//! hashes, executes each block that is imported against the state of its
//! parent, checks that a block is vouched for by the authorities of its
//! parent, and tells subscribers of the blocks that it has accepted.
//!
//! - `codec`, `hash`, `generic`: the wire encoding and the block model.
//! - `journal`, `state_machine`: state as a map, pending writes over it, and
//!   the bridge to the executor of the on-chain code.
//! - `blockchain`, `backend`: what the client asks of a chain index and of a
//!   state backend; `in_mem` answers both from memory.
//! - `ed25519`, `bft`, `authorities`: signatures, justifications, and the
//!   authority set as the state holds it.
//! - `events`: import notifications and the channels that carry them.
//! - `client`, `block_builder`: the client itself, and the building of new
//!   blocks on top of it.
//!
//! Every function states what it returns and changes in terms of views:
//! `Seq`, `Map` and plain structs that say what a value holds. Where a
//! function calls the executor or a closure, its contract says what they were
//! handed and gives the result in terms of what they answered.

pub mod authorities;
pub mod backend;
pub mod bft;
pub mod block_builder;
pub mod blockchain;
pub mod client;
pub mod codec;
pub mod ed25519;
pub mod error;
pub mod events;
pub mod generic;
pub mod hash;
pub mod in_mem;
pub mod journal;
pub mod state_machine;
