//! Editor widget state that does not depend on drawing: the dock's panes and
//! optional values switched on and off by a checkbox.
use vstd::prelude::*;

verus! {

/// The panes of the editor's dock.
#[derive(Debug, Clone, Copy, PartialEq, Eq, Structural)]
pub enum Pane {
    RightPanel,
    Scene,
    WorldPanel,
}

impl Pane {
    /// The text on the pane's tab.
    pub fn title(&self) -> (title: &'static str)
        ensures
            title@ == match self {
                Pane::RightPanel => "\u{1f5fa}\u{fe0f} CSM Preview"@,
                Pane::WorldPanel => "\u{1f4cb} Control Panel"@,
                Pane::Scene => "\u{1f3ac} Scene"@,
            },
    {
        match self {
            Pane::RightPanel => "\u{1f5fa}\u{fe0f} CSM Preview",
            Pane::WorldPanel => "\u{1f4cb} Control Panel",
            Pane::Scene => "\u{1f3ac} Scene",
        }
    }
}

/// Follows a change of an optional value's checkbox: checking it gives an
/// absent value `default_value`, unchecking it removes the value, and a value
/// that is already present stays as it is while the box stays checked.
pub fn set_option_checked<T>(opt: &mut Option<T>, checked: bool, default_value: T)
    ensures
        checked && *old(opt) is None ==> *final(opt) == Some(default_value),
        checked && *old(opt) is Some ==> *final(opt) == *old(opt),
        !checked ==> *final(opt) is None,
        (*final(opt) is Some) == checked,
{
    if checked && opt.is_none() {
        *opt = Some(default_value);
    }
    if !checked && opt.is_some() {
        *opt = None;
    }
}

} // verus!
