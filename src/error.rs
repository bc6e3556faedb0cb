use vstd::prelude::*;

verus! {

/// The failures of the window manager's operations. None of them is fatal: callers report them
/// and go on with the next event.
#[derive(Clone, Debug, PartialEq, Eq)]
pub enum Error {
    WorkspaceNotFound,
    ActionNotFound,
    NoScreensFound,
    WindowNotFound,
    FailedToGetWmClass,
    NoMouseMoveStart,
    NoButtonPressGeometry,
    FailedToDeserializeFromJson(String),
}

} // verus!
