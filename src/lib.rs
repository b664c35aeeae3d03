use vstd::prelude::*;

pub mod auxiliary;
pub mod board;
pub mod game;
pub mod laws;

verus! {

/// Keys under which a host keeps its collections of boards and games.
#[derive(Clone, Copy, Debug, PartialEq, Eq, Structural)]
pub enum StorageKey {
    Boards,
    Games,
}

} // verus!
