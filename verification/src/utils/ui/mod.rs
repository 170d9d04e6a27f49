use vstd::prelude::*;

pub mod event;
pub mod mode;
pub mod uicore;
pub mod undotree;

verus! {

/// A message for the status bar, with its level.
#[derive(Debug)]
pub struct AppInfo {
    pub level: InfoLevel,
    pub info: String,
}

impl AppInfo {
    /// Clears the message and sets the level back to plain information.
    pub fn reset(&mut self)
        ensures
            final(self).level == InfoLevel::Info,
            final(self).info@ == Seq::<char>::empty(),
    {
        self.level = InfoLevel::Info;
        self.info = String::new();
    }
}

/// How serious a message is.
#[derive(Debug, Clone, Copy, PartialEq, Eq)]
pub enum InfoLevel {
    Info,
    Warn,
    Error,
}

} // verus!
