//! Listening to events and emitting them.
use vstd::prelude::*;

use crate::hook::HookId;

verus! {

/// Names a listener.
#[derive(Clone, Copy, PartialEq, Eq, Structural, Debug)]
pub struct EventId(pub u32);

/// Whom an event is for, or who listens.
#[derive(PartialEq, Eq, Debug)]
pub enum EventTarget {
    /// Everything.
    Any,
    /// Any window or webview of that label.
    AnyLabel { label: String },
    /// The application and its handles.
    App,
    Window { label: String },
    Webview { label: String },
    WebviewWindow { label: String },
}

/// A change of who listens.
#[derive(PartialEq, Eq, Debug)]
pub enum ListenCall {
    /// Call the function at each event of that name.
    Listen { event: String, target: EventTarget, handler: HookId },
    /// Call the function at the next event of that name.
    Once { event: String, target: EventTarget, handler: HookId },
    /// Call it no more.
    Unlisten(EventId),
}

/// An event to be emitted. The payload is JSON.
#[derive(PartialEq, Eq, Debug)]
pub enum EmitCall {
    /// To all listeners.
    Emit { event: String, payload: String },
    /// To the listeners that the target covers.
    EmitTo { target: EventTarget, event: String, payload: String },
    /// To the listeners for which the function says so.
    EmitFilter { event: String, payload: String, filter: HookId },
}

} // verus!
