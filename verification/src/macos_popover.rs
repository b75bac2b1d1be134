//! The window flags that make the menubar popover float over fullscreen
//! Spaces: the popover's collection behaviour gains four flags, OR'd into
//! the existing behaviour rather than overwriting it, and its style mask
//! gains the non-activating panel bit when it lacks it.

use vstd::prelude::*;

verus! {

/// `NSWindowCollectionBehaviorCanJoinAllSpaces`.
pub const CAN_JOIN_ALL_SPACES: u64 = 1;

/// `NSWindowCollectionBehaviorStationary`.
pub const STATIONARY: u64 = 16;

/// `NSWindowCollectionBehaviorIgnoresCycle`.
pub const IGNORES_CYCLE: u64 = 64;

/// `NSWindowCollectionBehaviorFullScreenAuxiliary`.
pub const FULL_SCREEN_AUXILIARY: u64 = 256;

/// `NSPopUpMenuWindowLevel`: the tier of native menu-bar extras.
pub const POPUP_MENU_WINDOW_LEVEL: i64 = 101;

/// `NSWindowStyleMaskNonactivatingPanel`: clicks do not activate the app.
pub const NONACTIVATING_PANEL: usize = 128;

/// The four flags that a popover adds to its collection behaviour.
pub open spec fn popover_flags() -> u64 {
    CAN_JOIN_ALL_SPACES | STATIONARY | FULL_SCREEN_AUXILIARY | IGNORES_CYCLE
}

/// The collection behaviour of a popover whose window had `existing`.
pub fn popover_collection_behavior(existing: u64) -> (r: u64)
    ensures
        r == existing | popover_flags(),
{
    existing | (CAN_JOIN_ALL_SPACES | STATIONARY | FULL_SCREEN_AUXILIARY | IGNORES_CYCLE)
}

/// The style mask to set on a popover whose window has `style_mask`: the
/// mask with the non-activating bit added, or none when the bit is already
/// there and nothing is to be set.
pub fn popover_style_mask(style_mask: usize) -> (r: Option<usize>)
    ensures
        r == if style_mask & NONACTIVATING_PANEL == 0 {
            Some(style_mask | NONACTIVATING_PANEL)
        } else {
            None::<usize>
        },
{
    if style_mask & NONACTIVATING_PANEL == 0 {
        Some(style_mask | NONACTIVATING_PANEL)
    } else {
        None
    }
}

/// The popover flags are OR'd into the existing behaviour: every bit that
/// was set stays set, the four flags are set, and configuring twice changes
/// nothing more.
pub proof fn lemma_popover_behavior_keeps_existing(existing: u64)
    ensures
        (existing | popover_flags()) & existing == existing,
        (existing | popover_flags()) & popover_flags() == popover_flags(),
        (existing | popover_flags()) | popover_flags() == existing | popover_flags(),
{
    let f = popover_flags();
    assert((existing | f) & existing == existing) by (bit_vector);
    assert((existing | f) & f == f) by (bit_vector);
    assert((existing | f) | f == existing | f) by (bit_vector);
}

/// The style mask set on a popover keeps every bit it had and adds the
/// non-activating bit; once that bit is there, nothing more is set.
pub proof fn lemma_popover_style_mask(style_mask: usize)
    ensures
        (style_mask | NONACTIVATING_PANEL) & style_mask == style_mask,
        (style_mask | NONACTIVATING_PANEL) & NONACTIVATING_PANEL != 0,
{
    assert((style_mask | 128usize) & style_mask == style_mask) by (bit_vector);
    assert((style_mask | 128usize) & 128usize != 0) by (bit_vector);
}

} // verus!
