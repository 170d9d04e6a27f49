use crate::utils::ui::mode::mode::ModeType;
use vstd::prelude::*;

verus! {

/// What a state machine asks once it has handled a key.
#[derive(Debug, PartialEq, Eq, Clone, Copy)]
pub enum StateCallback {
    Nothing,
    Reset,
    Exit(ModeType),
}

} // verus!
