//! The handle to the running application.
use vstd::prelude::*;

use crate::asset::AssetResolver;
use crate::config::{Config, Image, PackageInfo};
use crate::error::{Error, RuntimeError};
use crate::event::{
    Channel, ExitRequestedEventAction, PrecisePosition, RunEvent, RuntimeRunEvent, Theme,
};
use crate::hook::HookId;
use crate::listen::{EmitCall, EventId, EventTarget, ListenCall};
use crate::manager::{AppManager, ResourceTable, TrayIcon};
use crate::menu::{Menu, MenuManager};
use crate::plugin::PluginRequest;
use crate::runtime::{
    ActivationPolicy, RuntimeCall, RuntimeHandle, RuntimeOrDispatch, RuntimeRequest, TaoWindowId,
    WindowMessage,
};

verus! {

/// The exit code of a requested exit that belongs to [`AppHandle::restart`].
pub const RESTART_EXIT_CODE: i32 = 2147483647;

/// A handle to the currently running application.
pub struct AppHandle {
    pub runtime_handle: RuntimeHandle,
    pub manager: AppManager,
    /// Whether the process is to start anew once the event loop has exited.
    pub restart_due: bool,
}

/// An exit that the runtime is being asked for.
#[derive(Clone, Copy, PartialEq, Eq, Structural, Debug)]
pub struct ExitRequest {
    /// What the runtime is asked.
    pub request: RuntimeRequest,
    /// The code that the process ends with.
    pub code: i32,
}

/// What is left to be done about an exit.
#[derive(PartialEq, Eq, Debug)]
pub enum ExitStep {
    /// Nothing: the event loop goes on to ask the application.
    Requested,
    /// The runtime refused. The process is to end, once the windows are hidden.
    ExitProcess { code: i32, to_hide: Vec<String>, reason: RuntimeError },
}

impl ExitRequest {
    /// Goes on once the runtime has answered.
    ///
    /// Where the runtime refuses, everything is cleaned up and the process is to end.
    pub fn resolve(self, handle: &mut AppHandle, answer: Result<(), RuntimeError>) -> (step:
        ExitStep)
        ensures
            match answer {
                Ok(_) => step is Requested && *final(handle) == *old(handle),
                Err(error) => {
                    &&& step matches ExitStep::ExitProcess { code, to_hide, reason }
                    &&& code == self.code
                    &&& reason == error
                    &&& crate::menu_change::texts(to_hide@) == crate::manager::windows_to_hide(
                        old(handle).manager,
                    )
                    &&& crate::manager::cleaned_up(old(handle).manager, final(handle).manager)
                    &&& *final(handle) == (AppHandle {
                        manager: final(handle).manager,
                        ..*old(handle)
                    })
                },
            },
    {
        match answer {
            Ok(_) => ExitStep::Requested,
            Err(reason) => {
                let to_hide = handle.cleanup_before_exit();
                ExitStep::ExitProcess { code: self.code, to_hide, reason }
            },
        }
    }
}

impl PluginRequest {
    /// Goes on once the host has initialized the plugin, or tried to.
    ///
    /// The plugin takes the place of any other of its name, and the others stay. A plugin that could
    /// not be initialized is not added, and the caller hears why.
    pub fn resolve(self, handle: &mut AppHandle, initialized: Result<(), Error>) -> (result: Result<
        (),
        Error,
    >)
        ensures
            result == initialized,
            *final(handle) == (AppHandle {
                manager: AppManager {
                    plugins: final(handle).manager.plugins,
                    ..old(handle).manager
                },
                ..*old(handle)
            }),
            final(handle).manager.plugins@ == (if initialized is Ok {
                crate::plugin::registered(old(handle).manager.plugins@, self.name@)
            } else {
                old(handle).manager.plugins@
            }),
            result is Ok ==> final(handle).manager.plugins@.contains(self.name@),
            forall|other: Seq<char>|
                other != self.name@ ==> (#[trigger] final(handle).manager.plugins@.contains(other)
                    <==> old(handle).manager.plugins@.contains(other)),
    {
        proof {
            crate::plugin::law_register_then_remove(handle.manager.plugins@, self.name@);
        }
        match initialized {
            Ok(done) => {
                let _ = handle.manager.plugins.register(self.name);
                Ok(done)
            },
            Err(error) => Err(error),
        }
    }
}

/// A restart for which the runtime is being asked to exit.
#[derive(Clone, Copy, PartialEq, Eq, Structural, Debug)]
pub struct RestartRequest {
    /// What the runtime is asked.
    pub request: RuntimeRequest,
}

/// The process is to start anew, once the windows are hidden.
#[derive(PartialEq, Eq, Debug)]
pub struct RestartProcess {
    pub to_hide: Vec<String>,
}

/// What is left to be done about a restart.
#[derive(PartialEq, Eq, Debug)]
pub enum RestartStep {
    /// Nothing yet: the event loop goes on to tell the application, and the restart follows its
    /// exit.
    AfterExit,
    /// The runtime refused. The process is to start anew at once.
    Now(RestartProcess),
}

/// What the answer of the runtime to a restart comes to.
pub open spec fn restart_resolved(
    before: AppHandle,
    answer: Result<(), RuntimeError>,
    after: AppHandle,
    step: RestartStep,
) -> bool {
    match answer {
        Ok(_) => step is AfterExit && after == (AppHandle { restart_due: true, ..before }),
        Err(_) => {
            &&& step matches RestartStep::Now(process)
            &&& crate::menu_change::texts(process.to_hide@) == crate::manager::windows_to_hide(
                before.manager,
            )
            &&& crate::manager::cleaned_up(before.manager, after.manager)
            &&& after == AppHandle { manager: after.manager, restart_due: false, ..before }
        },
    }
}

impl RestartRequest {
    /// Goes on once the runtime has answered.
    ///
    /// The process starts anew whatever the answer is. Where the runtime accepts, the application
    /// first hears that it exits; where it refuses, everything is cleaned up.
    pub fn resolve(self, handle: &mut AppHandle, answer: Result<(), RuntimeError>) -> (step:
        RestartStep)
        ensures
            restart_resolved(*old(handle), answer, *final(handle), step),
    {
        match answer {
            Ok(_) => {
                handle.restart_due = true;
                RestartStep::AfterExit
            },
            Err(_) => {
                handle.restart_due = false;
                let to_hide = handle.cleanup_before_exit();
                RestartStep::Now(RestartProcess { to_hide })
            },
        }
    }
}

impl AppHandle {
    /// Whether the event loop exits once the application was asked about an exit with that code.
    ///
    /// The application can prevent an exit, but not one that belongs to a restart: one with the code
    /// of a restart, while a restart is due.
    pub open spec fn exit_goes_on(
        &self,
        code: Option<i32>,
        action: Option<ExitRequestedEventAction>,
    ) -> bool {
        action is None || (self.restart_due && code == Some(RESTART_EXIT_CODE))
    }

    /// Whether the event loop exits once the application was asked about an exit with that code.
    pub fn exits(&self, code: Option<i32>, action: Option<ExitRequestedEventAction>) -> (exits:
        bool)
        ensures
            exits == self.exit_goes_on(code, action),
    {
        match (code, action) {
            (_, None) => true,
            (Some(code), Some(_)) => self.restart_due && code == RESTART_EXIT_CODE,
            (None, Some(_)) => false,
        }
    }
}

/// The theme of a menu.
#[derive(Clone, Copy, PartialEq, Eq, Structural, Debug)]
pub enum MenuTheme {
    Light,
    Dark,
    /// The one of the system.
    Auto,
}

/// The theme that menus take with a theme of the application.
pub open spec fn menu_theme_of(theme: Option<Theme>) -> MenuTheme {
    match theme {
        Some(Theme::Light) => MenuTheme::Light,
        Some(Theme::Dark) => MenuTheme::Dark,
        None => MenuTheme::Auto,
    }
}

/// A change of the theme of the application.
#[derive(PartialEq, Eq, Debug)]
pub struct ThemeChange {
    /// The windows whose menus take another theme first. Whether one can makes no difference.
    pub menus: Vec<String>,
    /// The theme that they take.
    pub menu_theme: MenuTheme,
    /// What the runtime is asked.
    pub request: RuntimeRequest,
}

impl AppManager {
    /// Changes the theme, asking the runtime in the given way.
    pub fn change_theme(&self, to: RuntimeOrDispatch, theme: Option<Theme>) -> (change: ThemeChange)
        ensures
            crate::menu_change::texts(change.menus@) == (if self.target.is_windows() {
                crate::manager::windows_with_menu(*self, false)
            } else {
                Seq::empty()
            }),
            change.menu_theme == menu_theme_of(theme),
            change.request == (RuntimeRequest {
                to,
                call: RuntimeCall::SetTheme(theme),
                reports: false,
            }),
    {
        let menus = if self.target.is_windows() {
            self.list_windows_with_menu(false)
        } else {
            Vec::new()
        };
        let menu_theme = match theme {
            Some(Theme::Light) => MenuTheme::Light,
            Some(Theme::Dark) => MenuTheme::Dark,
            None => MenuTheme::Auto,
        };
        ThemeChange {
            menus,
            menu_theme,
            request: RuntimeRequest { to, call: RuntimeCall::SetTheme(theme), reports: false },
        }
    }
}

/// A command of a webview, on its way to the function that runs it.
pub struct CommandItem<'a> {
    /// The name of the command.
    pub name: &'a str,
    /// The handle to the application that the webview belongs to.
    pub app_handle: &'a AppHandle,
}

/// Why an argument of a command could not be found, as JSON.
#[derive(PartialEq, Eq, Debug)]
pub struct InvokeError(pub String);

impl AppHandle {
    /// The handle that a command asks for: the one of the webview that sent it. This never fails.
    pub fn from_command<'a>(command: CommandItem<'a>) -> (handle: Result<&'a AppHandle, InvokeError>)
        ensures
            handle == Ok::<&'a AppHandle, InvokeError>(command.app_handle),
    {
        Ok(command.app_handle)
    }

    /// A request that goes through the handle, and of whose refusal the caller hears.
    pub open spec fn request_of(&self, call: RuntimeCall) -> RuntimeRequest {
        RuntimeRequest {
            to: RuntimeOrDispatch::RuntimeHandle(self.runtime_handle),
            call,
            reports: true,
        }
    }

    fn request(&self, call: RuntimeCall) -> (request: RuntimeRequest)
        ensures
            request == self.request_of(call),
    {
        RuntimeRequest { to: self.runtime(), call, reports: true }
    }

    /// Who is asked: the runtime through its handle.
    pub fn runtime(&self) -> (runtime: RuntimeOrDispatch)
        ensures
            runtime == RuntimeOrDispatch::RuntimeHandle(self.runtime_handle),
    {
        RuntimeOrDispatch::RuntimeHandle(self.runtime_handle)
    }

    /// The resources of the application.
    pub fn resources_table(&self) -> (table: &ResourceTable)
        ensures
            *table == self.manager.resources,
    {
        &self.manager.resources
    }

    /// Create a new tao window using a callback. The event loop must be running at this point.
    pub fn create_tao_window(&self, f: HookId) -> (request: RuntimeRequest)
        ensures
            request == self.request_of(RuntimeCall::CreateTaoWindow(f)),
    {
        self.request(RuntimeCall::CreateTaoWindow(f))
    }

    /// Sends a window message to the event loop.
    pub fn send_tao_window_event(&self, window_id: TaoWindowId, message: WindowMessage) -> (request:
        RuntimeRequest)
        ensures
            request == self.request_of(RuntimeCall::SendTaoWindowEvent(window_id, message)),
    {
        self.request(RuntimeCall::SendTaoWindowEvent(window_id, message))
    }

    /// Runs the given function on the main thread.
    pub fn run_on_main_thread(&self, f: HookId) -> (request: RuntimeRequest)
        ensures
            request == self.request_of(RuntimeCall::RunOnMainThread(f)),
    {
        self.request(RuntimeCall::RunOnMainThread(f))
    }

    /// Adds a plugin.
    ///
    /// The host is to initialize it with this handle and with the section of the plugins of the
    /// configuration. Only then is it registered, by [`PluginRequest::resolve`].
    pub fn plugin(&self, name: String) -> (request: PluginRequest)
        ensures
            request == (PluginRequest { name, config: self.manager.config.plugins }),
    {
        PluginRequest { name, config: self.manager.config.plugins.clone() }
    }

    /// Removes the plugin with the given name.
    ///
    /// Tells whether there was one.
    pub fn remove_plugin(&mut self, plugin: &str) -> (removed: bool)
        ensures
            removed == old(self).manager.plugins@.contains(plugin@),
            *final(self) == (AppHandle {
                manager: AppManager { plugins: final(self).manager.plugins, ..old(self).manager },
                ..*old(self)
            }),
            final(self).manager.plugins@ == crate::plugin::without(
                old(self).manager.plugins@,
                plugin@,
            ),
    {
        self.manager.plugins.unregister(plugin)
    }

    /// Exits the app by triggering `ExitRequested` and `Exit`.
    pub fn exit(&self, exit_code: i32) -> (exit: ExitRequest)
        ensures
            exit == (ExitRequest {
                request: self.request_of(RuntimeCall::RequestExit(exit_code)),
                code: exit_code,
            }),
    {
        ExitRequest { request: self.request(RuntimeCall::RequestExit(exit_code)), code: exit_code }
    }

    /// Restarts the app by triggering `ExitRequested` with code [`RESTART_EXIT_CODE`] and `Exit`.
    ///
    /// The restart is due from now on, so that the event loop knows of it whenever it gets to ask
    /// the application.
    pub fn restart(&mut self) -> (restart: RestartRequest)
        ensures
            restart == (RestartRequest {
                request: old(self).request_of(RuntimeCall::RequestExit(RESTART_EXIT_CODE)),
            }),
            *final(self) == (AppHandle { restart_due: true, ..*old(self) }),
    {
        self.restart_due = true;
        RestartRequest { request: self.request(RuntimeCall::RequestExit(RESTART_EXIT_CODE)) }
    }

    /// Whether the process is to start anew, once the event loop has exited and everything was
    /// cleaned up that is to be.
    pub fn restart_after_exit(&self) -> (restarts: bool)
        ensures
            restarts == self.restart_due,
    {
        self.restart_due
    }

    /// Sets the activation policy for the application. It is set to `Regular` by default.
    pub fn set_activation_policy(&self, activation_policy: ActivationPolicy) -> (request:
        RuntimeRequest)
        requires
            self.manager.target.is_macos(),
        ensures
            request == self.request_of(RuntimeCall::SetActivationPolicy(activation_policy)),
    {
        self.request(RuntimeCall::SetActivationPolicy(activation_policy))
    }

    /// Registers a global menu event listener.
    pub fn on_menu_event(&mut self, handler: HookId)
        requires
            old(self).manager.target.is_desktop(),
        ensures
            final(self).manager.menu.global_event_listeners@
                == old(self).manager.menu.global_event_listeners@.push(handler),
            *final(self) == (AppHandle {
                manager: AppManager {
                    menu: MenuManager {
                        global_event_listeners: final(self).manager.menu.global_event_listeners,
                        ..old(self).manager.menu
                    },
                    ..old(self).manager
                },
                ..*old(self)
            }),
    {
        self.manager.menu.global_event_listeners.push(handler);
    }

    /// Registers a global tray icon event listener.
    pub fn on_tray_icon_event(&mut self, handler: HookId)
        requires
            old(self).manager.target.has_tray(),
        ensures
            final(self).manager.tray.global_event_listeners@
                == old(self).manager.tray.global_event_listeners@.push(handler),
            *final(self) == (AppHandle {
                manager: AppManager {
                    tray: crate::manager::TrayManager {
                        global_event_listeners: final(self).manager.tray.global_event_listeners,
                        ..old(self).manager.tray
                    },
                    ..old(self).manager
                },
                ..*old(self)
            }),
    {
        self.manager.tray.global_event_listeners.push(handler);
    }

    /// Gets a tray icon using the provided id.
    pub fn tray_by_id(&self, id: &str) -> (icon: Option<&TrayIcon>)
        requires
            self.manager.target.has_tray(),
        ensures
            match icon {
                Some(icon) => self.manager.tray.has(id@) && *icon
                    == self.manager.tray.icons@[crate::manager::tray_place(
                    self.manager.tray.icons@,
                    id@,
                )],
                None => !self.manager.tray.has(id@),
            },
    {
        self.manager.tray.tray_by_id(id)
    }

    /// Removes a tray icon using the provided id and returns it.
    pub fn remove_tray_by_id(&mut self, id: &str) -> (icon: Option<TrayIcon>)
        requires
            old(self).manager.target.has_tray(),
        ensures
            match icon {
                Some(icon) => old(self).manager.tray.has(id@) && icon
                    == old(self).manager.tray.icons@[crate::manager::tray_place(
                    old(self).manager.tray.icons@,
                    id@,
                )] && final(self).manager.tray.icons@ == old(self).manager.tray.icons@.remove(
                    crate::manager::tray_place(old(self).manager.tray.icons@, id@),
                ),
                None => !old(self).manager.tray.has(id@) && final(self).manager.tray.icons@
                    == old(self).manager.tray.icons@,
            },
            *final(self) == (AppHandle {
                manager: AppManager {
                    tray: crate::manager::TrayManager {
                        icons: final(self).manager.tray.icons,
                        ..old(self).manager.tray
                    },
                    ..old(self).manager
                },
                ..*old(self)
            }),
    {
        self.manager.tray.remove_tray_by_id(id)
    }

    /// Gets the app's configuration.
    pub fn config(&self) -> (config: &Config)
        ensures
            *config == self.manager.config,
    {
        &self.manager.config
    }

    /// Gets the app's package information.
    pub fn package_info(&self) -> (info: &PackageInfo)
        ensures
            *info == self.manager.package_info,
    {
        &self.manager.package_info
    }

    /// The application's asset resolver.
    pub fn asset_resolver(&self) -> (resolver: AssetResolver<'_>)
        ensures
            *resolver.manager == self.manager,
    {
        AssetResolver { manager: &self.manager }
    }

    /// Asks for the primary monitor of the system.
    ///
    /// The answer is `None` where no monitor can be identified as the primary one.
    pub fn primary_monitor(&self) -> (request: RuntimeRequest)
        ensures
            request == self.request_of(RuntimeCall::PrimaryMonitor),
    {
        self.request(RuntimeCall::PrimaryMonitor)
    }

    /// Asks for the monitor that contains the given point.
    pub fn monitor_from_point(&self, point: PrecisePosition) -> (request: RuntimeRequest)
        ensures
            request == self.request_of(RuntimeCall::MonitorFromPoint(point)),
    {
        self.request(RuntimeCall::MonitorFromPoint(point))
    }

    /// Asks for all the monitors available on the system.
    pub fn available_monitors(&self) -> (request: RuntimeRequest)
        ensures
            request == self.request_of(RuntimeCall::AvailableMonitors),
    {
        self.request(RuntimeCall::AvailableMonitors)
    }

    /// Asks for the cursor position relative to the top-left hand corner of the desktop.
    pub fn cursor_position(&self) -> (request: RuntimeRequest)
        ensures
            request == self.request_of(RuntimeCall::CursorPosition),
    {
        self.request(RuntimeCall::CursorPosition)
    }

    /// Set the app theme.
    pub fn set_theme(&self, theme: Option<Theme>) -> (change: ThemeChange)
        ensures
            crate::menu_change::texts(change.menus@) == (if self.manager.target.is_windows() {
                crate::manager::windows_with_menu(self.manager, false)
            } else {
                Seq::empty()
            }),
            change.menu_theme == menu_theme_of(theme),
            change.request == (RuntimeRequest {
                reports: false,
                ..self.request_of(RuntimeCall::SetTheme(theme))
            }),
    {
        self.manager.change_theme(self.runtime(), theme)
    }

    /// Returns the default window icon.
    pub fn default_window_icon(&self) -> (icon: Option<&Image>)
        ensures
            match icon {
                Some(icon) => self.manager.default_window_icon == Some(*icon),
                None => self.manager.default_window_icon is None,
            },
    {
        self.manager.default_window_icon.as_ref()
    }

    /// Returns the app-wide menu.
    pub fn menu(&self) -> (menu: Option<&Menu>)
        requires
            self.manager.target.is_desktop(),
        ensures
            match menu {
                Some(menu) => self.manager.menu.menu == Some(*menu),
                None => self.manager.menu.menu is None,
            },
    {
        self.manager.menu.menu.as_ref()
    }

    /// Shows the application, but does not automatically focus it.
    pub fn show(&self) -> (request: RuntimeRequest)
        requires
            self.manager.target.is_macos(),
        ensures
            request == self.request_of(RuntimeCall::Show),
    {
        self.request(RuntimeCall::Show)
    }

    /// Takes the application out of sight.
    pub fn conceal(&self) -> (request: RuntimeRequest)
        requires
            self.manager.target.is_macos(),
        ensures
            request == self.request_of(RuntimeCall::Conceal),
    {
        self.request(RuntimeCall::Conceal)
    }

    /// Runs necessary cleanup tasks before exiting the process.
    ///
    /// The app should exit immediately after this function returns. Returns the labels of the
    /// windows to hide, in their order.
    pub fn cleanup_before_exit(&mut self) -> (to_hide: Vec<String>)
        ensures
            crate::manager::cleaned_up(old(self).manager, final(self).manager),
            *final(self) == (AppHandle { manager: final(self).manager, ..*old(self) }),
            crate::menu_change::texts(to_hide@) == crate::manager::windows_to_hide(
                old(self).manager,
            ),
    {
        let to_hide = self.manager.cleanup_before_exit();
        assert(crate::menu_change::texts(to_hide@) =~= to_hide@.map_values(|label: String| label@));
        to_hide
    }

    /// Gets the invoke key that must be referenced by the messages of a webview.
    pub fn invoke_key(&self) -> (key: &str)
        ensures
            key@ == self.manager.invoke_key@,
    {
        self.manager.invoke_key.as_str()
    }

    /// Listen to an event on this app.
    pub fn listen(&self, event: String, handler: HookId) -> (call: ListenCall)
        ensures
            call == (ListenCall::Listen { event, target: EventTarget::App, handler }),
    {
        ListenCall::Listen { event, target: EventTarget::App, handler }
    }

    /// Listen to an event on this app only once.
    pub fn once(&self, event: String, handler: HookId) -> (call: ListenCall)
        ensures
            call == (ListenCall::Once { event, target: EventTarget::App, handler }),
    {
        ListenCall::Once { event, target: EventTarget::App, handler }
    }

    /// Unlisten to an event on this app.
    pub fn unlisten(&self, id: EventId) -> (call: ListenCall)
        ensures
            call == ListenCall::Unlisten(id),
    {
        ListenCall::Unlisten(id)
    }

    /// Emits an event to all targets.
    pub fn emit(&self, event: String, payload: String) -> (call: EmitCall)
        ensures
            call == (EmitCall::Emit { event, payload }),
    {
        EmitCall::Emit { event, payload }
    }

    /// Emits an event to all targets matching the given target.
    pub fn emit_to(&self, target: EventTarget, event: String, payload: String) -> (call: EmitCall)
        ensures
            call == (EmitCall::EmitTo { target, event, payload }),
    {
        EmitCall::EmitTo { target, event, payload }
    }

    /// Emits an event to all targets based on the given filter.
    pub fn emit_filter(&self, event: String, payload: String, filter: HookId) -> (call: EmitCall)
        ensures
            call == (EmitCall::EmitFilter { event, payload, filter }),
    {
        EmitCall::EmitFilter { event, payload, filter }
    }
}

/// The runtime is asked for the same exit by `exit` and by `restart` only where the code given to
/// `exit` is the one that belongs to a restart.
pub proof fn law_restart_code_is_its_own(handle: AppHandle, exit_code: i32)
    ensures
        handle.request_of(RuntimeCall::RequestExit(exit_code)) == handle.request_of(
            RuntimeCall::RequestExit(RESTART_EXIT_CODE),
        ) <==> exit_code == RESTART_EXIT_CODE,
{
}

/// Whatever its code, an exit can be prevented unless it belongs to a restart.
pub proof fn law_only_a_restart_cannot_be_prevented(
    handle: AppHandle,
    code: Option<i32>,
    action: ExitRequestedEventAction,
)
    ensures
        handle.exit_goes_on(code, None),
        !handle.exit_goes_on(code, Some(action)) <==> !handle.restart_due || code != Some(
            RESTART_EXIT_CODE,
        ),
{
}

/// A restart that the runtime accepted follows the exit: the application hears that an exit was
/// requested with the code of a restart and then that it exits, and only after that the process
/// starts anew. Preventing the exit does not keep it.
pub proof fn law_restart_follows_the_exit(
    before: AppHandle,
    after: AppHandle,
    step: RestartStep,
    answer: Result<(), RuntimeError>,
    tx: Channel,
    action: Option<ExitRequestedEventAction>,
    mode: crate::app::LoopMode,
    event: RuntimeRunEvent,
    k: int,
)
    requires
        answer is Ok,
        restart_resolved(before, answer, after, step),
        0 <= k < crate::app::run_steps(mode, event).len(),
        crate::app::run_steps(mode, event)[k] == crate::app::RunStep::Restart,
    ensures
        step is AfterExit,
        after.restart_due,
        crate::event::run_event_of(
            RuntimeRunEvent::ExitRequested { code: Some(RESTART_EXIT_CODE), tx },
        ) matches RunEvent::ExitRequested { code, .. } && code == Some(RESTART_EXIT_CODE),
        after.exit_goes_on(Some(RESTART_EXIT_CODE), action),
        event is Exit,
        crate::event::run_event_of(event) is Exit,
        crate::app::dispatch_place(mode, event) + 1 < k,
        crate::app::run_steps(mode, event)[crate::app::dispatch_place(mode, event) + 1]
            == crate::app::RunStep::Callback,
{
    crate::app::law_every_event_reaches_the_application(mode, event, k);
    crate::app::law_every_event_reaches_the_application(
        mode,
        event,
        crate::app::dispatch_place(mode, event) + 1,
    );
}

/// Menus take the theme of the application, and that of the system where the application has none.
pub proof fn law_menus_take_the_theme(theme: Option<Theme>)
    ensures
        menu_theme_of(theme) == MenuTheme::Light <==> theme == Some(Theme::Light),
        menu_theme_of(theme) == MenuTheme::Dark <==> theme == Some(Theme::Dark),
        menu_theme_of(theme) == MenuTheme::Auto <==> theme is None,
{
}

/// What the handle asks goes the way of the handle as it is, and the caller hears of a refusal.
pub proof fn law_the_handle_asks_for_what_it_is_told(handle: AppHandle, call: RuntimeCall)
    ensures
        handle.request_of(call).to == RuntimeOrDispatch::RuntimeHandle(handle.runtime_handle),
        handle.request_of(call).call == call,
        handle.request_of(call).reports,
{
}

/// A restart that the runtime refuses happens at once, after everything was given up, and is not due
/// any more. Whatever the answer, the process starts anew.
pub proof fn law_a_refused_restart_happens_at_once(
    before: AppHandle,
    error: RuntimeError,
    after: AppHandle,
    step: RestartStep,
    label: Seq<char>,
)
    requires
        restart_resolved(before, Err(error), after, step),
    ensures
        step is Now,
        !after.restart_due,
        after.runtime_handle == before.runtime_handle,
        after.manager.resources.ids@.len() == 0,
        crate::menu_change::texts(step->Now_0.to_hide@).contains(label)
            <==> before.manager.target.os is Windows && before.manager.windows@.contains_key(
            label,
        ),
{
    crate::manager::law_windows_are_hidden(before.manager, label);
    crate::manager::law_everything_is_given_up(
        before.manager,
        after.manager,
        label,
        Seq::empty(),
    );
}

/// A restart that the runtime accepts leaves everything as it is until the event loop exits.
pub proof fn law_an_accepted_restart_waits(
    before: AppHandle,
    answer: Result<(), RuntimeError>,
    after: AppHandle,
    step: RestartStep,
)
    requires
        restart_resolved(before, answer, after, step),
        answer is Ok,
    ensures
        step is AfterExit,
        after.restart_due,
        after.manager == before.manager,
        after.runtime_handle == before.runtime_handle,
{
}

} // verus!
