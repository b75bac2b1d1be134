//! The decisions of the quick-paste panel setup. The window work (finding
//! the window, turning it into a panel, configuring the panel) happens
//! outside; this machine says what to do next and whether the panel is ready.

use vstd::prelude::*;

verus! {

/// What the setup does next.
#[derive(Debug, Clone, Copy, PartialEq, Eq, Structural)]
pub enum PanelSetupAction {
    /// Look for the quick-paste window.
    FindWindow,
    /// Turn the window into a non-activating panel.
    ConvertWindow,
    /// Give the panel its floating level, non-activating style, the
    /// fullscreen-auxiliary and join-all-spaces behaviour, and keep it shown
    /// when the app deactivates.
    ConfigurePanel,
    /// Stop; the setup reports the given outcome.
    Finish(bool),
}

/// What happened since the last step.
#[derive(Debug, Clone, Copy, PartialEq, Eq, Structural)]
pub enum PanelSetupEvent {
    /// A setup was asked for.
    Begin,
    /// The quick-paste window was found, or not.
    WindowFound(bool),
    /// The window was turned into a panel, or the conversion failed.
    PanelConverted(bool),
    /// The panel was configured.
    PanelConfigured,
}

/// The next readiness and action of the setup, given whether the panel is
/// ready and what just happened.
pub open spec fn setup_transition(ready: bool, event: PanelSetupEvent) -> (bool, PanelSetupAction) {
    match event {
        PanelSetupEvent::Begin => if ready {
            (true, PanelSetupAction::Finish(true))
        } else {
            (false, PanelSetupAction::FindWindow)
        },
        PanelSetupEvent::WindowFound(found) => if found {
            (ready, PanelSetupAction::ConvertWindow)
        } else {
            (ready, PanelSetupAction::Finish(false))
        },
        PanelSetupEvent::PanelConverted(ok) => if ok {
            (ready, PanelSetupAction::ConfigurePanel)
        } else {
            (ready, PanelSetupAction::Finish(false))
        },
        PanelSetupEvent::PanelConfigured => (true, PanelSetupAction::Finish(true)),
    }
}

/// One step of the quick-paste panel setup.
pub fn setup_step(ready: bool, event: PanelSetupEvent) -> (r: (bool, PanelSetupAction))
    ensures
        r == setup_transition(ready, event),
{
    match event {
        PanelSetupEvent::Begin => if ready {
            (true, PanelSetupAction::Finish(true))
        } else {
            (false, PanelSetupAction::FindWindow)
        },
        PanelSetupEvent::WindowFound(found) => if found {
            (ready, PanelSetupAction::ConvertWindow)
        } else {
            (ready, PanelSetupAction::Finish(false))
        },
        PanelSetupEvent::PanelConverted(ok) => if ok {
            (ready, PanelSetupAction::ConfigurePanel)
        } else {
            (ready, PanelSetupAction::Finish(false))
        },
        PanelSetupEvent::PanelConfigured => (true, PanelSetupAction::Finish(true)),
    }
}

/// Once the panel is ready it stays ready, and a setup asked for then
/// finishes at once, successfully, with no window work.
pub proof fn lemma_ready_is_final(event: PanelSetupEvent)
    ensures
        setup_transition(true, event).0,
        setup_transition(true, PanelSetupEvent::Begin) == (true, PanelSetupAction::Finish(true)),
{
}

/// A setup reports success only when the panel is ready afterwards.
pub proof fn lemma_success_means_ready(ready: bool, event: PanelSetupEvent)
    ensures
        setup_transition(ready, event).1 == PanelSetupAction::Finish(true) ==> setup_transition(
            ready,
            event,
        ).0,
{
}

/// A whole setup: begun with readiness `ready`, where looking for the window
/// finds it when `window_found`, and turning it into a panel succeeds when
/// `converted`. Gives the readiness afterwards and the outcome reported.
pub open spec fn setup_run(ready: bool, window_found: bool, converted: bool) -> (bool, bool) {
    let s1 = setup_transition(ready, PanelSetupEvent::Begin);
    if let PanelSetupAction::Finish(b) = s1.1 {
        (s1.0, b)
    } else {
        let s2 = setup_transition(s1.0, PanelSetupEvent::WindowFound(window_found));
        if let PanelSetupAction::Finish(b) = s2.1 {
            (s2.0, b)
        } else {
            let s3 = setup_transition(s2.0, PanelSetupEvent::PanelConverted(converted));
            if let PanelSetupAction::Finish(b) = s3.1 {
                (s3.0, b)
            } else {
                let s4 = setup_transition(s3.0, PanelSetupEvent::PanelConfigured);
                (s4.0, s4.1 == PanelSetupAction::Finish(true))
            }
        }
    }
}

/// Every setup reports whether the panel is ready when it ends: success
/// exactly when the panel was ready already, or the window was found and
/// turned into a panel.
pub proof fn lemma_setup_reports_readiness(ready: bool, window_found: bool, converted: bool)
    ensures
        setup_run(ready, window_found, converted).0 == setup_run(ready, window_found, converted).1,
        setup_run(ready, window_found, converted).1 == (ready || (window_found && converted)),
{
}

} // verus!
