//! The payloads pushed to the frontend when something happens on its own: an
//! operation's progress, prompts and end, a panel changed underneath, the
//! configuration reloaded. Each wraps the data it carries, one for one.
use vstd::prelude::*;
use crate::types::{CollisionPrompt, OpErrorInfo, OpOutcome, OpProgress, PanelChanged};

verus! {

/// Progress tick for a running operation.
#[derive(Debug, Clone)]
pub struct OpProgressEvent(pub OpProgress);

/// A name collision needs a user decision.
#[derive(Debug, Clone)]
pub struct OpCollisionEvent(pub CollisionPrompt);

/// An operation item failed and needs a user decision.
#[derive(Debug, Clone)]
pub struct OpErrorEvent(pub OpErrorInfo);

/// An operation finished.
#[derive(Debug, Clone)]
pub struct OpCompleteEvent(pub OpOutcome);

/// A panel's state changed out of band.
#[derive(Debug, Clone)]
pub struct PanelChangedEvent(pub PanelChanged);

/// The configuration was reloaded. No payload.
#[derive(Debug, Clone, Copy, PartialEq, Eq)]
pub struct ConfigChangedEvent;

} // verus!
