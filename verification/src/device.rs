//! The device handed to an application's `main`: the selected board's
//! peripherals together with the executor's spawner.

use vstd::prelude::*;
use embassy_executor::Spawner;

verus! {

/// The executor's task spawner, carried through unchanged.
#[verifier::external_type_specification]
#[verifier::external_body]
pub struct ExSpawner(embassy_executor::Spawner);

/// A board's peripherals and the spawner of the executor that runs the
/// application.
pub struct Device<B> {
    board: B,
    spawner: Spawner,
}

impl<B> Device<B> {
    /// The board the device holds.
    pub closed spec fn board_of(&self) -> B {
        self.board
    }

    /// The spawner the device holds.
    pub closed spec fn spawner_of(&self) -> Spawner {
        self.spawner
    }

    /// A device for `board`, run by the executor behind `spawner`.
    pub fn new(board: B, spawner: Spawner) -> (d: Self)
        ensures
            d.board_of() == board,
            d.spawner_of() == spawner,
    {
        Device { board, spawner }
    }

    /// The board's peripherals, for the application to use.
    pub fn peripherals(&mut self) -> (b: &mut B)
        ensures
            *b == old(self).board_of(),
            final(self).board_of() == *final(b),
            final(self).spawner_of() == old(self).spawner_of(),
    {
        &mut self.board
    }
}

} // verus!
