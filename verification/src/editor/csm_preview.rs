//! When the cascaded-shadow-map preview is refreshed.
use vstd::prelude::*;

verus! {

/// The preview refreshes every frame while `continuous` is on, or once after
/// "Refresh Once" set `refresh_once`.
#[derive(Debug, Clone, Copy, Default)]
pub struct CsmPreviewRefreshState {
    pub continuous: bool,
    pub refresh_once: bool,
}

/// Whether a frame in state `s` refreshes the preview, and the state after it:
/// a one-off request is used up by the refresh.
pub open spec fn spec_take_refresh(s: CsmPreviewRefreshState) -> (bool, CsmPreviewRefreshState) {
    let refresh = s.continuous || s.refresh_once;
    (refresh, CsmPreviewRefreshState { continuous: s.continuous, refresh_once: s.refresh_once && !refresh })
}

impl CsmPreviewRefreshState {
    /// Whether to refresh the preview this frame; a one-off request is used up.
    pub fn take_refresh(&mut self) -> (refresh: bool)
        ensures
            (refresh, *final(self)) == spec_take_refresh(*old(self)),
    {
        let refresh = self.continuous || self.refresh_once;
        if refresh {
            self.refresh_once = false;
        }
        refresh
    }

    /// The "Refresh Once" button.
    pub fn request_refresh(&mut self)
        ensures
            final(self).refresh_once,
            final(self).continuous == old(self).continuous,
    {
        self.refresh_once = true;
    }

    /// The "Continuous" button.
    pub fn toggle_continuous(&mut self)
        ensures
            final(self).continuous == !old(self).continuous,
            final(self).refresh_once == old(self).refresh_once,
    {
        self.continuous = !self.continuous;
    }
}

/// A one-off request refreshes exactly once: the frame after a refresh
/// refreshes again only when the preview is continuous.
pub proof fn lemma_refresh_once_is_used_up(s: CsmPreviewRefreshState)
    ensures
        spec_take_refresh(spec_take_refresh(s).1).0 == s.continuous,
{
}

} // verus!
