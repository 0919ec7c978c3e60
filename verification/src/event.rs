//! The events of windows, webviews and the application, and how the runtime's become the
//! application's.
use vstd::prelude::*;

use crate::target::Target;

verus! {

/// A URL, from the `url` crate. It is only handed on.
#[verifier::external_type_specification]
#[verifier::external_body]
pub struct ExUrl(url::Url);

/// A path, from std. It is only handed on.
#[verifier::external_type_specification]
#[verifier::external_body]
pub struct ExPathBuf(std::path::PathBuf);

/// Names the sending half of a channel that the host holds for a pending event.
#[derive(Clone, Copy, PartialEq, Eq, Structural, Debug)]
pub struct Channel(pub u64);

/// A message for the host to send on a channel.
#[derive(Clone, Copy, PartialEq, Eq, Structural, Debug)]
pub enum Signal {
    /// What to do about a requested exit.
    Exit { channel: Channel, action: ExitRequestedEventAction },
    /// Whether to keep a window that was asked to close.
    Close { channel: Channel, prevent: bool },
}

/// What to do about a requested exit.
#[derive(Clone, Copy, PartialEq, Eq, Structural, Debug)]
pub enum ExitRequestedEventAction {
    /// Keep the application running.
    Prevent,
}

/// Api exposed on the `ExitRequested` event.
#[derive(PartialEq, Eq, Structural, Debug)]
pub struct ExitRequestApi(pub Channel);

impl ExitRequestApi {
    /// The message that prevents the exit.
    pub open spec fn prevention(&self) -> Signal {
        Signal::Exit { channel: self.0, action: ExitRequestedEventAction::Prevent }
    }

    /// Prevents the app from exiting.
    ///
    /// This is ignored when the exit belongs to a restart.
    #[must_use]
    pub fn prevent_exit(&self) -> (signal: Signal)
        ensures
            signal == self.prevention(),
    {
        Signal::Exit { channel: self.0, action: ExitRequestedEventAction::Prevent }
    }
}

/// Api exposed on the `CloseRequested` event.
#[derive(Clone, Copy, PartialEq, Eq, Structural, Debug)]
pub struct CloseRequestApi(pub Channel);

impl CloseRequestApi {
    /// The message that keeps the window.
    pub open spec fn prevention(&self) -> Signal {
        Signal::Close { channel: self.0, prevent: true }
    }

    /// Prevents the window from being closed.
    #[must_use]
    pub fn prevent_close(&self) -> (signal: Signal)
        ensures
            signal == self.prevention(),
    {
        Signal::Close { channel: self.0, prevent: true }
    }
}

/// A double-precision number, by its bits.
#[derive(Clone, Copy, PartialEq, Eq, Structural, Debug)]
pub struct DoubleBits(pub u64);

/// A size in physical pixels.
#[derive(Clone, Copy, PartialEq, Eq, Structural, Debug)]
pub struct PhysicalSize {
    pub width: u32,
    pub height: u32,
}

/// A position in whole physical pixels.
#[derive(Clone, Copy, PartialEq, Eq, Structural, Debug)]
pub struct PhysicalPosition {
    pub x: i32,
    pub y: i32,
}

/// A position in physical pixels and parts of them.
#[derive(Clone, Copy, PartialEq, Eq, Structural, Debug)]
pub struct PrecisePosition {
    pub x: DoubleBits,
    pub y: DoubleBits,
}

/// The theme of a window.
#[derive(Clone, Copy, PartialEq, Eq, Structural, Debug)]
pub enum Theme {
    Light,
    Dark,
}

/// Whether a button went down or up.
#[derive(Clone, Copy, PartialEq, Eq, Structural, Debug)]
pub enum ElementState {
    Pressed,
    Released,
}

/// A button of the mouse.
#[derive(Clone, Copy, PartialEq, Eq, Structural, Debug)]
pub enum MouseButton {
    Left,
    Right,
    Middle,
    Other(u16),
}

/// The modifier keys that are down, one bit for each.
#[derive(Clone, Copy, PartialEq, Eq, Structural, Debug)]
pub struct ModifiersState(pub u32);

/// Something dragged over or dropped on a window.
#[derive(Clone, PartialEq, Eq, Debug)]
pub enum DragDropEvent {
    /// The drag came in.
    Enter { paths: Vec<std::path::PathBuf>, position: PrecisePosition },
    /// The drag moved.
    Over { position: PrecisePosition },
    /// The paths were dropped.
    Drop { paths: Vec<std::path::PathBuf>, position: PrecisePosition },
    /// The drag left or was given up.
    Leave,
}

/// An event of a window, as the runtime tells it.
#[derive(Clone, PartialEq, Eq, Debug)]
pub enum RuntimeWindowEvent {
    Resized(PhysicalSize),
    Moved(PhysicalPosition),
    CloseRequested { signal_tx: Channel },
    Destroyed,
    Focused(bool),
    ScaleFactorChanged { scale_factor: DoubleBits, new_inner_size: PhysicalSize },
    DragDrop(DragDropEvent),
    ThemeChanged(Theme),
    MouseInput { state: ElementState, button: MouseButton, modifiers: ModifiersState },
}

/// An event from a window.
#[derive(Clone, PartialEq, Eq, Debug)]
#[non_exhaustive]
pub enum WindowEvent {
    /// The size of the window has changed. Contains the client area's new dimensions.
    Resized(PhysicalSize),
    /// The position of the window has changed. Contains the window's new position.
    Moved(PhysicalPosition),
    /// A mouse button press has been received.
    MouseInput { state: ElementState, button: MouseButton, modifiers: ModifiersState },
    /// The window has been requested to close.
    CloseRequested {
        /// An API to modify the behavior of the close requested event.
        api: CloseRequestApi,
    },
    /// The window has been destroyed.
    Destroyed,
    /// The window gained or lost focus.
    ///
    /// The parameter is true if the window has gained focus, and false if it has lost focus.
    Focused(bool),
    /// The window's scale factor has changed.
    ScaleFactorChanged {
        /// The new scale factor.
        scale_factor: DoubleBits,
        /// The window inner size.
        new_inner_size: PhysicalSize,
    },
    /// An event associated with the drag and drop action.
    DragDrop(DragDropEvent),
    /// The system window theme has changed.
    ThemeChanged(Theme),
}

/// The window event for what the runtime tells of a window.
pub open spec fn window_event_of(event: RuntimeWindowEvent) -> WindowEvent {
    match event {
        RuntimeWindowEvent::Resized(size) => WindowEvent::Resized(size),
        RuntimeWindowEvent::Moved(position) => WindowEvent::Moved(position),
        RuntimeWindowEvent::CloseRequested { signal_tx } => WindowEvent::CloseRequested {
            api: CloseRequestApi(signal_tx),
        },
        RuntimeWindowEvent::Destroyed => WindowEvent::Destroyed,
        RuntimeWindowEvent::Focused(flag) => WindowEvent::Focused(flag),
        RuntimeWindowEvent::ScaleFactorChanged {
            scale_factor,
            new_inner_size,
        } => WindowEvent::ScaleFactorChanged { scale_factor, new_inner_size },
        RuntimeWindowEvent::DragDrop(event) => WindowEvent::DragDrop(event),
        RuntimeWindowEvent::ThemeChanged(theme) => WindowEvent::ThemeChanged(theme),
        RuntimeWindowEvent::MouseInput { state, button, modifiers } => WindowEvent::MouseInput {
            state,
            button,
            modifiers,
        },
    }
}

impl From<RuntimeWindowEvent> for WindowEvent {
    fn from(event: RuntimeWindowEvent) -> (converted: Self) {
        match event {
            RuntimeWindowEvent::Resized(size) => Self::Resized(size),
            RuntimeWindowEvent::Moved(position) => Self::Moved(position),
            RuntimeWindowEvent::CloseRequested { signal_tx } => Self::CloseRequested {
                api: CloseRequestApi(signal_tx),
            },
            RuntimeWindowEvent::Destroyed => Self::Destroyed,
            RuntimeWindowEvent::Focused(flag) => Self::Focused(flag),
            RuntimeWindowEvent::ScaleFactorChanged {
                scale_factor,
                new_inner_size,
            } => Self::ScaleFactorChanged { scale_factor, new_inner_size },
            RuntimeWindowEvent::DragDrop(event) => Self::DragDrop(event),
            RuntimeWindowEvent::ThemeChanged(theme) => Self::ThemeChanged(theme),
            RuntimeWindowEvent::MouseInput { state, button, modifiers } => Self::MouseInput {
                state,
                button,
                modifiers,
            },
        }
    }
}

impl vstd::std_specs::convert::FromSpecImpl<RuntimeWindowEvent> for WindowEvent {
    open spec fn obeys_from_spec() -> bool {
        true
    }

    open spec fn from_spec(event: RuntimeWindowEvent) -> Self {
        window_event_of(event)
    }
}

/// An event of a webview, as the runtime tells it.
#[derive(Clone, PartialEq, Eq, Debug)]
pub enum RuntimeWebviewEvent {
    DragDrop(DragDropEvent),
}

/// An event from a webview.
#[derive(Clone, PartialEq, Eq, Debug)]
#[non_exhaustive]
pub enum WebviewEvent {
    /// An event associated with the drag and drop action.
    DragDrop(DragDropEvent),
}

/// The webview event for what the runtime tells of a webview.
pub open spec fn webview_event_of(event: RuntimeWebviewEvent) -> WebviewEvent {
    match event {
        RuntimeWebviewEvent::DragDrop(e) => WebviewEvent::DragDrop(e),
    }
}

impl From<RuntimeWebviewEvent> for WebviewEvent {
    fn from(event: RuntimeWebviewEvent) -> (converted: Self) {
        match event {
            RuntimeWebviewEvent::DragDrop(e) => Self::DragDrop(e),
        }
    }
}

impl vstd::std_specs::convert::FromSpecImpl<RuntimeWebviewEvent> for WebviewEvent {
    open spec fn obeys_from_spec() -> bool {
        true
    }

    open spec fn from_spec(event: RuntimeWebviewEvent) -> Self {
        webview_event_of(event)
    }
}

/// An item of a menu was chosen.
#[derive(Clone, PartialEq, Eq, Debug)]
pub struct MenuEvent {
    /// The id of the item.
    pub id: String,
}

/// The place of a tray icon on the screen.
#[derive(Clone, Copy, PartialEq, Eq, Structural, Debug)]
pub struct TrayRect {
    pub position: PrecisePosition,
    pub width: DoubleBits,
    pub height: DoubleBits,
}

/// Something the mouse did to a tray icon.
#[derive(Clone, PartialEq, Eq, Debug)]
pub enum TrayIconEvent {
    /// A button went down or up.
    Click {
        id: String,
        position: PrecisePosition,
        rect: TrayRect,
        button: MouseButton,
        button_state: ElementState,
    },
    /// A button was pressed twice.
    DoubleClick { id: String, position: PrecisePosition, rect: TrayRect, button: MouseButton },
    /// The mouse came in.
    Enter { id: String, position: PrecisePosition, rect: TrayRect },
    /// The mouse moved.
    Move { id: String, position: PrecisePosition, rect: TrayRect },
    /// The mouse left.
    Leave { id: String, position: PrecisePosition, rect: TrayRect },
}

impl TrayIconEvent {
    /// The id of the tray icon that the event is about.
    pub open spec fn spec_id(self) -> String {
        match self {
            TrayIconEvent::Click { id, .. } => id,
            TrayIconEvent::DoubleClick { id, .. } => id,
            TrayIconEvent::Enter { id, .. } => id,
            TrayIconEvent::Move { id, .. } => id,
            TrayIconEvent::Leave { id, .. } => id,
        }
    }

    /// The id of the tray icon that the event is about.
    pub fn id(&self) -> (id: &String)
        ensures
            *id == self.spec_id(),
    {
        match self {
            TrayIconEvent::Click { id, .. } => id,
            TrayIconEvent::DoubleClick { id, .. } => id,
            TrayIconEvent::Enter { id, .. } => id,
            TrayIconEvent::Move { id, .. } => id,
            TrayIconEvent::Leave { id, .. } => id,
        }
    }
}

/// A message that the application sends to its own event loop.
#[derive(Clone, PartialEq, Eq, Debug)]
pub enum EventLoopMessage {
    /// An event from a menu item.
    MenuEvent(MenuEvent),
    /// An event from a tray icon.
    TrayIconEvent(TrayIconEvent),
}

/// An event of the event loop, as the runtime tells it.
#[derive(PartialEq, Eq, Debug)]
pub enum RuntimeRunEvent {
    Exit,
    ExitRequested { code: Option<i32>, tx: Channel },
    WindowEvent { label: String, event: RuntimeWindowEvent },
    WebviewEvent { label: String, event: RuntimeWebviewEvent },
    Ready,
    Resumed,
    MainEventsCleared,
    Opened { urls: Vec<url::Url> },
    Reopen { has_visible_windows: bool },
    UserEvent(EventLoopMessage),
}

/// An application event, triggered from the event loop.
#[derive(PartialEq, Eq, Debug)]
#[non_exhaustive]
pub enum RunEvent {
    /// Event loop is exiting.
    Exit,
    /// The app is about to exit
    ExitRequested {
        /// Exit code.
        /// [`Option::None`] when the exit is requested by user interaction,
        /// [`Option::Some`] when requested by the program, to exit or to restart.
        code: Option<i32>,
        /// Event API
        api: ExitRequestApi,
    },
    /// An event associated with a window.
    WindowEvent {
        /// The window label.
        label: String,
        /// The detailed event.
        event: WindowEvent,
    },
    /// An event associated with a webview.
    WebviewEvent {
        /// The window label.
        label: String,
        /// The detailed event.
        event: WebviewEvent,
    },
    /// Application ready.
    Ready,
    /// Sent if the event loop is being resumed.
    Resumed,
    /// Emitted when all of the event loop's input events have been processed and redraw processing
    /// is about to begin.
    MainEventsCleared,
    /// Emitted when the user wants to open the specified resource with the app, on macOS and iOS.
    Opened {
        /// The URL of the resources that is being open.
        urls: Vec<url::Url>,
    },
    /// An event from a menu item, could be on the window menu bar, application menu bar (on macOS)
    /// or tray icon menu.
    MenuEvent(MenuEvent),
    /// An event from a tray icon.
    TrayIconEvent(TrayIconEvent),
    /// Emitted on macOS when the application is asked to handle a reopen.
    Reopen {
        /// Indicates whether the application found any visible windows.
        has_visible_windows: bool,
    },
}

/// The application's event for a message to the event loop.
pub open spec fn message_event_of(event: EventLoopMessage) -> RunEvent {
    match event {
        EventLoopMessage::MenuEvent(e) => RunEvent::MenuEvent(e),
        EventLoopMessage::TrayIconEvent(e) => RunEvent::TrayIconEvent(e),
    }
}

impl From<EventLoopMessage> for RunEvent {
    fn from(event: EventLoopMessage) -> (converted: Self) {
        match event {
            EventLoopMessage::MenuEvent(e) => Self::MenuEvent(e),
            EventLoopMessage::TrayIconEvent(e) => Self::TrayIconEvent(e),
        }
    }
}

impl vstd::std_specs::convert::FromSpecImpl<EventLoopMessage> for RunEvent {
    open spec fn obeys_from_spec() -> bool {
        true
    }

    open spec fn from_spec(event: EventLoopMessage) -> Self {
        message_event_of(event)
    }
}

/// Whether the runtime of `target` tells events like `event`.
pub open spec fn tells(target: Target, event: RuntimeRunEvent) -> bool {
    match event {
        RuntimeRunEvent::Opened { .. } => target.opens_urls(),
        RuntimeRunEvent::Reopen { .. } => target.is_macos(),
        RuntimeRunEvent::UserEvent(EventLoopMessage::MenuEvent(_)) => target.is_desktop(),
        RuntimeRunEvent::UserEvent(EventLoopMessage::TrayIconEvent(_)) => target.has_tray(),
        _ => true,
    }
}

/// The application's event for an event of the runtime.
pub open spec fn run_event_of(event: RuntimeRunEvent) -> RunEvent {
    match event {
        RuntimeRunEvent::Exit => RunEvent::Exit,
        RuntimeRunEvent::ExitRequested { code, tx } => RunEvent::ExitRequested {
            code,
            api: ExitRequestApi(tx),
        },
        RuntimeRunEvent::WindowEvent { label, event } => RunEvent::WindowEvent {
            label,
            event: window_event_of(event),
        },
        RuntimeRunEvent::WebviewEvent { label, event } => RunEvent::WebviewEvent {
            label,
            event: webview_event_of(event),
        },
        RuntimeRunEvent::Ready => RunEvent::Ready,
        RuntimeRunEvent::Resumed => RunEvent::Resumed,
        RuntimeRunEvent::MainEventsCleared => RunEvent::MainEventsCleared,
        RuntimeRunEvent::Opened { urls } => RunEvent::Opened { urls },
        RuntimeRunEvent::Reopen { has_visible_windows } => RunEvent::Reopen {
            has_visible_windows,
        },
        RuntimeRunEvent::UserEvent(message) => message_event_of(message),
    }
}

impl RuntimeRunEvent {
    /// Whether the runtime of `target` tells events like this one.
    pub fn is_told(&self, target: &Target) -> (told: bool)
        ensures
            told == tells(*target, *self),
    {
        match self {
            RuntimeRunEvent::Opened { .. } => target.opens_urls(),
            RuntimeRunEvent::Reopen { .. } => target.is_macos(),
            RuntimeRunEvent::UserEvent(EventLoopMessage::MenuEvent(_)) => target.is_desktop(),
            RuntimeRunEvent::UserEvent(EventLoopMessage::TrayIconEvent(_)) => target.has_tray(),
            _ => true,
        }
    }

    /// The application's event for this event of the runtime.
    pub fn into_run_event(self) -> (converted: RunEvent)
        ensures
            converted == run_event_of(self),
    {
        match self {
            RuntimeRunEvent::Exit => RunEvent::Exit,
            RuntimeRunEvent::ExitRequested { code, tx } => RunEvent::ExitRequested {
                code,
                api: ExitRequestApi(tx),
            },
            RuntimeRunEvent::WindowEvent { label, event } => RunEvent::WindowEvent {
                label,
                event: WindowEvent::from(event),
            },
            RuntimeRunEvent::WebviewEvent { label, event } => RunEvent::WebviewEvent {
                label,
                event: WebviewEvent::from(event),
            },
            RuntimeRunEvent::Ready => RunEvent::Ready,
            RuntimeRunEvent::Resumed => RunEvent::Resumed,
            RuntimeRunEvent::MainEventsCleared => RunEvent::MainEventsCleared,
            RuntimeRunEvent::Opened { urls } => RunEvent::Opened { urls },
            RuntimeRunEvent::Reopen { has_visible_windows } => RunEvent::Reopen {
                has_visible_windows,
            },
            RuntimeRunEvent::UserEvent(message) => RunEvent::from(message),
        }
    }
}

/// Nothing that the runtime tells is lost: two of its events that become the same event of the
/// application are the same.
pub proof fn law_events_are_kept_apart(one: RuntimeRunEvent, other: RuntimeRunEvent)
    requires
        run_event_of(one) == run_event_of(other),
    ensures
        one == other,
{
}

/// Whoever asked for an exit is answered: the application hears of the request with its code, and
/// what prevents the exit is sent to where the request came from.
pub proof fn law_prevented_exit_answers_its_request(code: Option<i32>, tx: Channel)
    ensures
        run_event_of(RuntimeRunEvent::ExitRequested { code, tx }) matches RunEvent::ExitRequested {
            code: told,
            api,
        } && told == code && api.prevention() == (Signal::Exit {
            channel: tx,
            action: ExitRequestedEventAction::Prevent,
        }),
{
}

/// Whoever asked a window to close is answered: the application hears of the request with the label
/// of the window, and what keeps the window is sent to where the request came from.
pub proof fn law_prevented_close_answers_its_request(label: String, signal_tx: Channel)
    ensures
        run_event_of(
            RuntimeRunEvent::WindowEvent {
                label,
                event: RuntimeWindowEvent::CloseRequested { signal_tx },
            },
        ) matches RunEvent::WindowEvent {
            label: told,
            event: WindowEvent::CloseRequested { api },
        } && told == label && api.prevention() == (Signal::Close {
            channel: signal_tx,
            prevent: true,
        }),
{
}

/// An event of a window reaches the application as what it is, with everything that it says.
pub proof fn law_window_events_say_the_same(event: RuntimeWindowEvent)
    ensures
        match window_event_of(event) {
            WindowEvent::Resized(size) => event == RuntimeWindowEvent::Resized(size),
            WindowEvent::Moved(position) => event == RuntimeWindowEvent::Moved(position),
            WindowEvent::CloseRequested { api } => event == (RuntimeWindowEvent::CloseRequested {
                signal_tx: api.0,
            }),
            WindowEvent::Destroyed => event is Destroyed,
            WindowEvent::Focused(flag) => event == RuntimeWindowEvent::Focused(flag),
            WindowEvent::ScaleFactorChanged { scale_factor, new_inner_size } => event == (
            RuntimeWindowEvent::ScaleFactorChanged { scale_factor, new_inner_size }),
            WindowEvent::DragDrop(dropped) => event == RuntimeWindowEvent::DragDrop(dropped),
            WindowEvent::ThemeChanged(theme) => event == RuntimeWindowEvent::ThemeChanged(theme),
            WindowEvent::MouseInput { state, button, modifiers } => event == (
            RuntimeWindowEvent::MouseInput { state, button, modifiers }),
        },
{
}

/// An event of the runtime reaches the application as what it is, with everything that it says.
pub proof fn law_events_say_the_same(event: RuntimeRunEvent)
    ensures
        match run_event_of(event) {
            RunEvent::Exit => event is Exit,
            RunEvent::ExitRequested { code, api } => event == (RuntimeRunEvent::ExitRequested {
                code,
                tx: api.0,
            }),
            RunEvent::WindowEvent { label, event: told } => event
                matches RuntimeRunEvent::WindowEvent { label: own, event: inner } && label == own
                && told == window_event_of(inner),
            RunEvent::WebviewEvent { label, event: WebviewEvent::DragDrop(dropped) } => event == (
            RuntimeRunEvent::WebviewEvent { label, event: RuntimeWebviewEvent::DragDrop(dropped) }),
            RunEvent::Ready => event is Ready,
            RunEvent::Resumed => event is Resumed,
            RunEvent::MainEventsCleared => event is MainEventsCleared,
            RunEvent::Opened { urls } => event == (RuntimeRunEvent::Opened { urls }),
            RunEvent::MenuEvent(chosen) => event == RuntimeRunEvent::UserEvent(
                EventLoopMessage::MenuEvent(chosen),
            ),
            RunEvent::TrayIconEvent(done) => event == RuntimeRunEvent::UserEvent(
                EventLoopMessage::TrayIconEvent(done),
            ),
            RunEvent::Reopen { has_visible_windows } => event == (RuntimeRunEvent::Reopen {
                has_visible_windows,
            }),
        },
{
}

/// Which systems tell which events: macOS and iOS ask to open resources, macOS alone to reopen the
/// application, desktops have menus, and where tray icons are built in desktops have them. Every
/// other event is told everywhere.
pub proof fn law_events_of_a_system(target: Target, event: RuntimeRunEvent)
    ensures
        event is Opened ==> (tells(target, event) <==> target.os is MacOs || target.os is Ios),
        event is Reopen ==> (tells(target, event) <==> target.os is MacOs),
        event matches RuntimeRunEvent::UserEvent(EventLoopMessage::MenuEvent(_)) ==> (tells(
            target,
            event,
        ) <==> !(target.os is Ios || target.os is Android)),
        event matches RuntimeRunEvent::UserEvent(EventLoopMessage::TrayIconEvent(_)) ==> (tells(
            target,
            event,
        ) <==> target.tray_icon && !(target.os is Ios || target.os is Android)),
        !(event is Opened || event is Reopen || event is UserEvent) ==> tells(target, event),
{
}

/// An event of a tray icon is about the tray icon that it names.
pub proof fn law_tray_events_name_their_icon(event: TrayIconEvent)
    ensures
        match event {
            TrayIconEvent::Click { id, .. } => event.spec_id() == id,
            TrayIconEvent::DoubleClick { id, .. } => event.spec_id() == id,
            TrayIconEvent::Enter { id, .. } => event.spec_id() == id,
            TrayIconEvent::Move { id, .. } => event.spec_id() == id,
            TrayIconEvent::Leave { id, .. } => event.spec_id() == id,
        },
{
}

} // verus!
