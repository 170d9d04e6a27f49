use crate::utils::ui::mode::mode::ModeType;
use vstd::prelude::*;

pub mod matching;
pub mod mode;
pub mod normal;
pub mod reg;
pub mod route;
pub mod state;

verus! {

/// What a state machine asks once it has handled a key.
#[derive(Debug, PartialEq, Eq, Clone, Copy)]
pub enum StateCallback {
    Nothing,
    Reset,
    Exit(ModeType),
}

} // verus!
