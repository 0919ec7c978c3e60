//! What the application asks of the runtime.
use vstd::prelude::*;

use crate::error::{hand_on, Error, RuntimeError};
use crate::event::{PrecisePosition, Theme};
use crate::hook::HookId;

verus! {

/// Names the runtime that the host holds, and its event loop with it.
#[derive(Clone, Copy, PartialEq, Eq, Structural, Debug)]
pub struct Runtime(pub u64);

/// Names a handle to the runtime that the host holds. It reaches the event loop from any thread.
#[derive(Clone, Copy, PartialEq, Eq, Structural, Debug)]
pub struct RuntimeHandle(pub u64);

/// Who is asked.
#[derive(Clone, Copy, PartialEq, Eq, Structural, Debug)]
pub enum RuntimeOrDispatch {
    /// The runtime itself.
    Runtime(Runtime),
    /// The runtime through its handle.
    RuntimeHandle(RuntimeHandle),
}

/// When device events are delivered to windows without focus.
#[derive(Clone, Copy, PartialEq, Eq, Structural, Debug)]
pub enum DeviceEventFilter {
    /// Device events are always kept back.
    Always,
    /// Device events are kept back from windows without focus.
    Unfocused,
    /// Device events are delivered to all windows.
    Never,
}

impl Default for DeviceEventFilter {
    fn default() -> (filter: Self)
        ensures
            filter == DeviceEventFilter::Unfocused,
    {
        DeviceEventFilter::Unfocused
    }
}

/// How macOS shows the application.
#[derive(Clone, Copy, PartialEq, Eq, Structural, Debug)]
pub enum ActivationPolicy {
    Regular,
    Accessory,
    Prohibited,
}

/// Names a window of the windowing library that the host holds.
#[derive(Clone, Copy, PartialEq, Eq, Structural, Debug)]
pub struct TaoWindowId(pub u64);

/// Names a message for such a window that the host holds.
#[derive(Clone, Copy, PartialEq, Eq, Structural, Debug)]
pub struct WindowMessage(pub u64);

/// A request to the runtime.
#[derive(Clone, Copy, PartialEq, Eq, Structural, Debug)]
pub enum RuntimeCall {
    /// Call the function on the main thread.
    RunOnMainThread(HookId),
    /// End the event loop, after asking the application.
    RequestExit(i32),
    SetActivationPolicy(ActivationPolicy),
    SetDeviceEventFilter(DeviceEventFilter),
    PrimaryMonitor,
    MonitorFromPoint(PrecisePosition),
    AvailableMonitors,
    CursorPosition,
    SetTheme(Option<Theme>),
    /// Show the application.
    Show,
    /// Take the application out of sight.
    Conceal,
    /// Create the window that the function describes.
    CreateTaoWindow(HookId),
    /// Send a message to a window.
    SendTaoWindowEvent(TaoWindowId, WindowMessage),
    /// Add the plugin of the runtime that the function builds.
    AddPlugin(HookId),
}

/// A request, with whom it goes to and what becomes of a refusal.
#[derive(Clone, Copy, PartialEq, Eq, Structural, Debug)]
pub struct RuntimeRequest {
    pub to: RuntimeOrDispatch,
    pub call: RuntimeCall,
    /// Whether the caller hears of a refusal.
    pub reports: bool,
}

impl RuntimeRequest {
    /// What the caller hears once the runtime has answered.
    pub fn settle(&self, answer: Result<(), RuntimeError>) -> (result: Result<(), Error>)
        ensures
            result == (if self.reports {
                crate::error::runtime_result(answer)
            } else {
                Ok(())
            }),
    {
        if self.reports {
            hand_on(answer)
        } else {
            Ok(())
        }
    }
}

} // verus!
