//! The running application: setting it up and running its event loop.
use vstd::prelude::*;

use crate::asset::AssetResolver;
use crate::config::{Config, Image, PackageInfo, WindowConfig};
use crate::error::Error;
use crate::event::{PrecisePosition, RuntimeRunEvent, Theme};
use crate::handle::{AppHandle, ThemeChange};
use crate::hook::HookId;
use crate::listen::{EmitCall, EventId, EventTarget, ListenCall};
use crate::manager::{AppManager, ResourceTable, TrayIcon, TrayManager};
use crate::menu::{Menu, MenuManager};
use crate::menu_change::{MenuChange, MenuTurn};
use crate::plugin::CorePlugin;
use crate::runtime::{
    ActivationPolicy, DeviceEventFilter, Runtime, RuntimeCall, RuntimeOrDispatch, RuntimeRequest,
};
use crate::series::{Progress, Series};
use crate::target::Target;

verus! {

/// What is run when the application is set up.
#[derive(Clone, Copy, PartialEq, Eq, Structural, Debug)]
pub enum SetupHook {
    /// Nothing.
    Nothing,
    /// The function. It can fail.
    Call(HookId),
}

/// The instance of the currently running application.
pub struct App {
    /// The runtime, until the event loop takes it.
    pub runtime: Option<Runtime>,
    /// What is run when the application is set up, until it was.
    pub setup: Option<SetupHook>,
    pub handle: AppHandle,
    /// Whether the application was set up, or is being.
    pub ran_setup: bool,
}

/// A step of setting the application up.
#[derive(PartialEq, Eq, Debug)]
pub enum SetupStep {
    /// Create the window that stands at this place of the configuration. This can fail.
    CreateWindow(usize),
    /// Let the assets prepare themselves.
    SetupAssets,
    /// Call the function. This can fail.
    RunHook(HookId),
}

/// The steps that create windows, from place `i` of the configuration on: one for each window that
/// is to be created.
pub open spec fn window_steps(windows: Seq<WindowConfig>, i: int) -> Seq<SetupStep>
    decreases windows.len() - i,
{
    if i < 0 || i >= windows.len() {
        Seq::empty()
    } else if windows[i].create {
        seq![SetupStep::CreateWindow(i as usize)] + window_steps(windows, i + 1)
    } else {
        window_steps(windows, i + 1)
    }
}

/// The steps that run a hook.
pub open spec fn hook_steps(setup: Option<SetupHook>) -> Seq<SetupStep> {
    match setup {
        Some(SetupHook::Call(hook)) => seq![SetupStep::RunHook(hook)],
        _ => Seq::empty(),
    }
}

/// The steps of setting an application up.
pub open spec fn setup_steps(app: App) -> Seq<SetupStep> {
    window_steps(app.handle.manager.config.app.windows@, 0) + seq![SetupStep::SetupAssets]
        + hook_steps(app.setup)
}

/// What is being done.
#[derive(Clone, Copy, PartialEq, Eq, Structural, Debug)]
pub enum SetupPlace {
    /// Nothing was done yet.
    Start,
    /// The window at this place of the configuration is being created.
    Window(usize),
    /// The assets prepare themselves.
    Assets,
    /// The hook runs.
    Hook,
    /// Everything was done, or something failed.
    Over,
}

/// What is being done while a step is taken.
pub open spec fn place_of(step: SetupStep) -> SetupPlace {
    match step {
        SetupStep::CreateWindow(i) => SetupPlace::Window(i),
        SetupStep::SetupAssets => SetupPlace::Assets,
        SetupStep::RunHook(_) => SetupPlace::Hook,
    }
}

/// How setting the application up goes on.
#[derive(PartialEq, Eq, Debug)]
pub enum SetupProgress {
    /// This is to be done next.
    Perform(SetupStep),
    /// It is over.
    Finished(Result<(), Error>),
}

/// An application that is being set up.
#[derive(Clone, Copy, PartialEq, Eq, Structural, Debug)]
pub struct Setup {
    pub place: SetupPlace,
}

impl Setup {
    /// The steps that are still to be taken after the one that is being taken, if none fails.
    pub open spec fn pending(&self, app: App) -> Seq<SetupStep> {
        let windows = app.handle.manager.config.app.windows@;
        match self.place {
            SetupPlace::Start => setup_steps(app),
            SetupPlace::Window(i) => window_steps(windows, i + 1) + seq![SetupStep::SetupAssets]
                + hook_steps(app.setup),
            SetupPlace::Assets => hook_steps(app.setup),
            SetupPlace::Hook => Seq::empty(),
            SetupPlace::Over => Seq::empty(),
        }
    }

    /// What the failure of the step that is being taken comes to. Only windows and the hook can
    /// fail.
    pub open spec fn failure(&self, outcome: Result<(), Error>) -> Option<Error> {
        match (self.place, outcome) {
            (SetupPlace::Window(_), Err(error)) => Some(error),
            (SetupPlace::Hook, Err(error)) => Some(Error::Setup(Box::new(error))),
            _ => None,
        }
    }

    /// Goes on once a step was taken.
    ///
    /// The first step that fails ends it, and the failure of the hook is an [`Error::Setup`]. The
    /// hook is taken out of the application before it runs.
    pub fn resume(&mut self, app: &mut App, outcome: Result<(), Error>) -> (progress: SetupProgress)
        ensures
            setup_resumed(*old(self), *old(app), outcome, *final(self), *final(app), progress),
    {
        let from: usize = match self.place {
            SetupPlace::Start => 0,
            SetupPlace::Window(i) => {
                if let Err(error) = outcome {
                    self.place = SetupPlace::Over;
                    return SetupProgress::Finished(Err(error));
                }
                if i < app.handle.manager.config.app.windows.len() {
                    i + 1
                } else {
                    i
                }
            },
            SetupPlace::Assets => {
                match app.setup.take() {
                    Some(SetupHook::Call(hook)) => {
                        self.place = SetupPlace::Hook;
                        let progress = SetupProgress::Perform(SetupStep::RunHook(hook));
                        assert(hook_steps(old(app).setup) =~= seq![SetupStep::RunHook(hook)]
                            + self.pending(*app));
                        return progress;
                    },
                    _ => {
                        self.place = SetupPlace::Over;
                        return SetupProgress::Finished(Ok(()));
                    },
                }
            },
            SetupPlace::Hook => {
                self.place = SetupPlace::Over;
                return match outcome {
                    Ok(_) => SetupProgress::Finished(Ok(())),
                    Err(error) => SetupProgress::Finished(Err(Error::Setup(Box::new(error)))),
                };
            },
            SetupPlace::Over => {
                return SetupProgress::Finished(Ok(()));
            },
        };
        let windows = &app.handle.manager.config.app.windows;
        let mut i: usize = from;
        while i < windows.len()
            invariant
                windows == app.handle.manager.config.app.windows,
                window_steps(windows@, from as int) == window_steps(windows@, i as int),
                old(self).pending(*old(app)) == window_steps(windows@, from as int)
                    + seq![SetupStep::SetupAssets] + hook_steps(app.setup),
                *app == *old(app),
                old(self).failure(outcome) is None,
                old(self).place is Start || old(self).place is Window,
            decreases windows.len() - i,
        {
            if windows[i].create {
                self.place = SetupPlace::Window(i);
                assert(old(self).pending(*old(app)) =~= seq![SetupStep::CreateWindow(i)]
                    + self.pending(*app));
                return SetupProgress::Perform(SetupStep::CreateWindow(i));
            }
            i += 1;
        }
        self.place = SetupPlace::Assets;
        assert(old(self).pending(*old(app)) =~= seq![SetupStep::SetupAssets] + self.pending(*app));
        SetupProgress::Perform(SetupStep::SetupAssets)
    }
}

/// What going on with setting an application up comes to, once its step had that outcome.
pub open spec fn setup_resumed(
    before: Setup,
    app: App,
    outcome: Result<(), Error>,
    after: Setup,
    new_app: App,
    progress: SetupProgress,
) -> bool {
    match before.failure(outcome) {
        Some(error) => {
            &&& progress == SetupProgress::Finished(Err(error))
            &&& after.place == SetupPlace::Over
            &&& new_app == app
        },
        None => {
            &&& match progress {
                SetupProgress::Perform(step) => {
                    &&& before.pending(app) == seq![step] + after.pending(new_app)
                    &&& step == before.pending(app)[0]
                    &&& after.place == place_of(step)
                },
                SetupProgress::Finished(result) => {
                    &&& result is Ok
                    &&& before.pending(app).len() == 0
                    &&& after.place == SetupPlace::Over
                },
            }
            &&& new_app == App {
                setup: if after.place == SetupPlace::Hook || (after.place == SetupPlace::Over
                    && before.place == SetupPlace::Assets) {
                    None
                } else {
                    app.setup
                },
                ..app
            }
        },
    }
}

/// Begins to set the application up.
///
/// From now on it counts as set up, whether or not a step fails.
pub fn setup(app: &mut App) -> (setup: Setup)
    ensures
        *final(app) == (App { ran_setup: true, ..*old(app) }),
        setup.place == SetupPlace::Start,
        setup.pending(*final(app)) == setup_steps(*old(app)),
{
    app.ran_setup = true;
    Setup { place: SetupPlace::Start }
}

/// The windows that are created from place `from` of the configuration on are those that are to be
/// created.
proof fn lemma_window_steps(windows: Seq<WindowConfig>, from: int, i: int)
    requires
        0 <= from,
        windows.len() <= usize::MAX,
    ensures
        window_steps(windows, from).contains(SetupStep::CreateWindow(i as usize)) && 0 <= i
            <= usize::MAX ==> from <= i < windows.len() && windows[i].create,
        from <= i < windows.len() && windows[i].create ==> window_steps(windows, from).contains(
            SetupStep::CreateWindow(i as usize),
        ),
        forall|k: int|
            0 <= k < window_steps(windows, from).len() ==> #[trigger] window_steps(
                windows,
                from,
            )[k] is CreateWindow,
    decreases windows.len() - from,
{
    if from < windows.len() {
        let steps = window_steps(windows, from);
        let rest = window_steps(windows, from + 1);
        lemma_window_steps(windows, from + 1, i);
        let step = SetupStep::CreateWindow(i as usize);
        if windows[from].create {
            assert forall|k: int| 0 <= k < steps.len() implies #[trigger] steps[k] is CreateWindow by {
                if k > 0 {
                    assert(steps[k] == rest[k - 1]);
                }
            }
            if rest.contains(step) {
                assert(steps[rest.index_of(step) + 1] == step);
            }
            if steps.contains(step) {
                let k = steps.index_of(step);
                if k > 0 {
                    assert(rest[k - 1] == step);
                }
            }
            assert(steps[0] == SetupStep::CreateWindow(from as usize));
        }
    }
}

/// Setting the application up creates each window of the configuration that is to be created, and
/// no other.
pub proof fn law_configured_windows_are_created(app: App, i: int)
    requires
        0 <= i <= usize::MAX,
        app.handle.manager.config.app.windows@.len() <= usize::MAX,
    ensures
        setup_steps(app).contains(SetupStep::CreateWindow(i as usize)) <==> i
            < app.handle.manager.config.app.windows@.len()
            && app.handle.manager.config.app.windows@[i].create,
{
    let windows = app.handle.manager.config.app.windows@;
    let step = SetupStep::CreateWindow(i as usize);
    let first = window_steps(windows, 0);
    let all = setup_steps(app);
    lemma_window_steps(windows, 0, i);
    if first.contains(step) {
        assert(all[first.index_of(step)] == step);
    }
    if all.contains(step) {
        let k = all.index_of(step);
        assert(k < first.len());
        assert(first[k] == step);
    }
}

/// The hook is the last thing to run, after the windows and the assets.
pub proof fn law_hook_runs_last(app: App)
    requires
        app.handle.manager.config.app.windows@.len() <= usize::MAX,
    ensures
        forall|k: int|
            0 <= k < setup_steps(app).len() && #[trigger] setup_steps(app)[k] is RunHook ==> k
                == setup_steps(app).len() - 1 && app.setup == Some(
                SetupHook::Call(setup_steps(app)[k]->RunHook_0),
            ),
{
    let windows = app.handle.manager.config.app.windows@;
    let first = window_steps(windows, 0);
    lemma_window_steps(windows, 0, 0);
    let all = setup_steps(app);
    assert forall|k: int| 0 <= k < all.len() && #[trigger] all[k] is RunHook implies k == all.len()
        - 1 && app.setup == Some(SetupHook::Call(all[k]->RunHook_0)) by {
        if k < first.len() {
            assert(all[k] == first[k]);
        }
    }
}

/// However often an application is set up, the hook runs at most once: from the set-up in which it
/// is called on, it is gone, and setting up takes no other step that calls one.
pub proof fn law_hook_runs_only_once(
    before: Setup,
    app: App,
    outcome: Result<(), Error>,
    after: Setup,
    called: App,
    hook: HookId,
    again: Setup,
    new_outcome: Result<(), Error>,
    next: Setup,
    left: App,
    progress: SetupProgress,
)
    requires
        setup_resumed(
            before,
            app,
            outcome,
            after,
            called,
            SetupProgress::Perform(SetupStep::RunHook(hook)),
        ),
        called.handle.manager.config.app.windows@.len() <= usize::MAX,
        setup_resumed(again, called, new_outcome, next, left, progress),
    ensures
        called.setup is None,
        left.setup is None,
        !(progress matches SetupProgress::Perform(SetupStep::RunHook(_))),
        forall|k: int|
            0 <= k < setup_steps(called).len() ==> !(#[trigger] setup_steps(called)[k] is RunHook),
{
    let windows = called.handle.manager.config.app.windows@;
    law_hook_runs_last(called);
    lemma_window_steps(windows, 0, 0);
    if let SetupPlace::Window(i) = again.place {
        lemma_window_steps(windows, i + 1, 0);
        let first = window_steps(windows, i + 1);
        let all = again.pending(called);
        if first.len() > 0 {
            assert(all[0] == first[0]);
        } else {
            assert(all[0] == SetupStep::SetupAssets);
        }
    }
    if again.place is Start {
        let first = window_steps(windows, 0);
        let all = again.pending(called);
        if first.len() > 0 {
            assert(all[0] == first[0]);
        } else {
            assert(all[0] == SetupStep::SetupAssets);
        }
    }
}

/// A hook that fails fails the set-up, as an [`Error::Setup`]; one that does not fail does not.
pub proof fn law_failed_hook_fails_the_setup(
    before: Setup,
    app: App,
    outcome: Result<(), Error>,
    after: Setup,
    called: App,
    hook: HookId,
    said: Result<(), Error>,
    over: Setup,
    left: App,
    progress: SetupProgress,
)
    requires
        setup_resumed(
            before,
            app,
            outcome,
            after,
            called,
            SetupProgress::Perform(SetupStep::RunHook(hook)),
        ),
        setup_resumed(after, called, said, over, left, progress),
    ensures
        progress matches SetupProgress::Finished(result) && match said {
            Ok(_) => result is Ok,
            Err(error) => result == Err::<(), Error>(Error::Setup(Box::new(error))),
        },
        left.setup is None,
{
}

/// What is done about an event of the event loop.
#[derive(Clone, Copy, PartialEq, Eq, Structural, Debug)]
pub enum RunStep {
    /// Set the application up. Where that fails, the process is given up with the error.
    Setup,
    /// Tell everyone who listens.
    Dispatch,
    /// Call the function that the application was run with.
    Callback,
    /// Give up every resource.
    Cleanup,
    /// Start the process anew, if [`AppHandle::restart_after_exit`] says so.
    Restart,
}

/// Who drives the event loop.
#[derive(Clone, Copy, PartialEq, Eq, Structural, Debug)]
pub enum LoopMode {
    /// The runtime, until the application exits.
    Run,
    /// The application, one iteration at a time.
    Iteration,
}

/// What is done about an event, in its order.
///
/// The application is set up once it is ready and cleaned up once it exits, but only where the
/// runtime drives the event loop. A restart that was asked for follows the exit.
pub open spec fn run_steps(mode: LoopMode, event: RuntimeRunEvent) -> Seq<RunStep> {
    match (mode, event) {
        (LoopMode::Run, RuntimeRunEvent::Ready) => seq![
            RunStep::Setup,
            RunStep::Dispatch,
            RunStep::Callback,
        ],
        (LoopMode::Run, RuntimeRunEvent::Exit) => seq![
            RunStep::Dispatch,
            RunStep::Callback,
            RunStep::Cleanup,
            RunStep::Restart,
        ],
        (LoopMode::Iteration, RuntimeRunEvent::Exit) => seq![
            RunStep::Dispatch,
            RunStep::Callback,
            RunStep::Restart,
        ],
        _ => seq![RunStep::Dispatch, RunStep::Callback],
    }
}

/// What is to be done about an event, one thing after the other.
///
/// Only setting up can fail. It ends the rest: nobody else hears of the event.
pub fn on_event(mode: LoopMode, event: &RuntimeRunEvent) -> (series: Series<RunStep>)
    ensures
        crate::series::consists_of(series, run_steps(mode, *event)),
{
    let ready = matches!(event, RuntimeRunEvent::Ready);
    let exit = matches!(event, RuntimeRunEvent::Exit);
    let run = mode == LoopMode::Run;
    let mut steps: Vec<RunStep> = Vec::new();
    if run && ready {
        steps.push(RunStep::Setup);
    }
    steps.push(RunStep::Dispatch);
    steps.push(RunStep::Callback);
    if run && exit {
        steps.push(RunStep::Cleanup);
    }
    if exit {
        steps.push(RunStep::Restart);
    }
    assert(steps@ =~= run_steps(mode, *event));
    Series::new(steps)
}

/// Where in the steps for an event the listeners are told. The application is told right after
/// them.
pub open spec fn dispatch_place(mode: LoopMode, event: RuntimeRunEvent) -> int {
    if mode == LoopMode::Run && event is Ready {
        1
    } else {
        0
    }
}

/// Every event is told to the listeners and then, once, to the application. Setting up comes before
/// that, when the application is ready; cleaning up and a restart come after it, when it exits.
#[verifier::spinoff_prover]
pub proof fn law_every_event_reaches_the_application(
    mode: LoopMode,
    event: RuntimeRunEvent,
    k: int,
)
    requires
        0 <= k < run_steps(mode, event).len(),
    ensures
        dispatch_place(mode, event) + 1 < run_steps(mode, event).len(),
        run_steps(mode, event)[k] == RunStep::Dispatch <==> k == dispatch_place(mode, event),
        run_steps(mode, event)[k] == RunStep::Callback <==> k == dispatch_place(mode, event) + 1,
        run_steps(mode, event)[k] == RunStep::Setup ==> k == 0 && event is Ready && mode
            == LoopMode::Run,
        run_steps(mode, event)[k] == RunStep::Cleanup ==> k == 2 && event is Exit && mode
            == LoopMode::Run,
        run_steps(mode, event)[k] == RunStep::Restart <==> event is Exit && k == run_steps(
            mode,
            event,
        ).len() - 1,
{
    let steps = run_steps(mode, event);
    if event is Exit {
        if mode == LoopMode::Run {
            assert(steps.len() == 4);
            assert(k == 0 || k == 1 || k == 2 || k == 3);
        } else {
            assert(steps.len() == 3);
            assert(k == 0 || k == 1 || k == 2);
        }
    } else if mode == LoopMode::Run && event is Ready {
        assert(steps.len() == 3);
        assert(k == 0 || k == 1 || k == 2);
    } else {
        assert(steps.len() == 2);
        assert(k == 0 || k == 1);
    }
}

/// A set-up that fails when the application is ready ends what is done about that: neither the
/// listeners and plugins nor the application hear that it is ready, and the error comes out.
pub proof fn law_failed_setup_keeps_ready_away(
    first: Series<RunStep>,
    setting_up: Series<RunStep>,
    ended: Series<RunStep>,
    outcome: Result<(), Error>,
    error: Error,
    progress: (Progress<RunStep>, Progress<RunStep>),
)
    requires
        crate::series::consists_of(first, run_steps(LoopMode::Run, RuntimeRunEvent::Ready)),
        crate::series::went_on(first, outcome, setting_up, progress.0),
        crate::series::went_on(setting_up, Err(error), ended, progress.1),
    ensures
        progress.0 == Progress::Perform(RunStep::Setup),
        progress.1 == Progress::<RunStep>::Finished(Err(error)),
        crate::series::consists_of(ended, Seq::empty()),
{
}

/// A part of an iteration of the event loop.
#[derive(Clone, Copy, PartialEq, Eq, Structural, Debug)]
pub enum IterationStep {
    /// Set the application up. Where that fails, the process is given up with the error.
    Setup,
    /// Let the runtime make the iteration.
    RunLoop(Runtime),
}

/// The parts of an iteration by that runtime: the application is set up first, unless it was
/// before.
pub open spec fn iteration_steps(ran_setup: bool, runtime: Runtime) -> Seq<IterationStep> {
    if ran_setup {
        seq![IterationStep::RunLoop(runtime)]
    } else {
        seq![IterationStep::Setup, IterationStep::RunLoop(runtime)]
    }
}

/// A set-up that fails keeps the event loop from running, and the error comes out. Once set up, or
/// having failed to, the application is not set up again by an iteration.
pub proof fn law_failed_setup_keeps_the_loop_from_running(
    app: App,
    runtime: Runtime,
    first: Series<IterationStep>,
    setting_up: Series<IterationStep>,
    ended: Series<IterationStep>,
    outcome: Result<(), Error>,
    error: Error,
    progress: (Progress<IterationStep>, Progress<IterationStep>),
    after: App,
)
    requires
        !app.ran_setup,
        after == (App { ran_setup: true, ..app }),
        crate::series::consists_of(first, iteration_steps(app.ran_setup, runtime)),
        crate::series::went_on(first, outcome, setting_up, progress.0),
        crate::series::went_on(setting_up, Err(error), ended, progress.1),
    ensures
        progress.0 == Progress::Perform(IterationStep::Setup),
        progress.1 == Progress::<IterationStep>::Finished(Err(error)),
        crate::series::consists_of(ended, Seq::empty()),
        !iteration_steps(after.ran_setup, runtime).contains(IterationStep::Setup),
{
}

/// The plugins that an application brings itself, in the order in which they are registered.
pub open spec fn core_plugins(target: Target) -> Seq<CorePlugin> {
    let everywhere = seq![
        CorePlugin::Path,
        CorePlugin::Event,
        CorePlugin::Window,
        CorePlugin::Webview,
        CorePlugin::App,
        CorePlugin::Resources,
        CorePlugin::Image,
    ];
    let with_menu = if target.is_desktop() {
        everywhere.push(CorePlugin::Menu)
    } else {
        everywhere
    };
    if target.has_tray() {
        with_menu.push(CorePlugin::Tray)
    } else {
        with_menu
    }
}

impl App {
    /// Who is asked: the runtime, until the event loop has taken it, and then its handle.
    pub open spec fn spec_runtime(&self) -> RuntimeOrDispatch {
        match self.runtime {
            Some(runtime) => RuntimeOrDispatch::Runtime(runtime),
            None => RuntimeOrDispatch::RuntimeHandle(self.handle.runtime_handle),
        }
    }

    /// A request to whom the application asks, and of whose refusal the caller hears.
    pub open spec fn request_of(&self, call: RuntimeCall) -> RuntimeRequest {
        RuntimeRequest { to: self.spec_runtime(), call, reports: true }
    }

    fn request(&self, call: RuntimeCall) -> (request: RuntimeRequest)
        ensures
            request == self.request_of(call),
    {
        RuntimeRequest { to: self.runtime(), call, reports: true }
    }

    /// Who is asked: the runtime, until the event loop has taken it, and then its handle.
    pub fn runtime(&self) -> (runtime: RuntimeOrDispatch)
        ensures
            runtime == self.spec_runtime(),
    {
        match self.runtime {
            Some(runtime) => RuntimeOrDispatch::Runtime(runtime),
            None => self.handle.runtime(),
        }
    }

    /// The plugins that the application brings itself, in the order in which they are registered.
    ///
    /// The first that cannot be initialized ends them.
    pub fn register_core_plugins(target: &Target) -> (plugins: Vec<CorePlugin>)
        ensures
            plugins@ == core_plugins(*target),
    {
        let mut plugins: Vec<CorePlugin> = Vec::new();
        plugins.push(CorePlugin::Path);
        plugins.push(CorePlugin::Event);
        plugins.push(CorePlugin::Window);
        plugins.push(CorePlugin::Webview);
        plugins.push(CorePlugin::App);
        plugins.push(CorePlugin::Resources);
        plugins.push(CorePlugin::Image);
        if target.is_desktop() {
            plugins.push(CorePlugin::Menu);
        }
        if target.has_tray() {
            plugins.push(CorePlugin::Tray);
        }
        assert(plugins@ =~= core_plugins(*target));
        plugins
    }

    /// Adds a plugin to the runtime.
    pub fn wry_plugin(&mut self, plugin: HookId) -> (request: RuntimeRequest)
        ensures
            request == (RuntimeRequest {
                to: RuntimeOrDispatch::RuntimeHandle(old(self).handle.runtime_handle),
                call: RuntimeCall::AddPlugin(plugin),
                reports: false,
            }),
            *final(self) == *old(self),
    {
        RuntimeRequest {
            to: self.handle.runtime(),
            call: RuntimeCall::AddPlugin(plugin),
            reports: false,
        }
    }

    /// Runs the given function on the main thread.
    pub fn run_on_main_thread(&self, f: HookId) -> (request: RuntimeRequest)
        ensures
            request == self.handle.request_of(RuntimeCall::RunOnMainThread(f)),
    {
        self.handle.run_on_main_thread(f)
    }

    /// Gets a handle to the application instance.
    pub fn handle(&self) -> (handle: &AppHandle)
        ensures
            *handle == self.handle,
    {
        &self.handle
    }

    /// Sets the activation policy for the application. It is set to `Regular` by default.
    ///
    /// Nobody hears of a refusal.
    pub fn set_activation_policy(&mut self, activation_policy: ActivationPolicy) -> (request:
        RuntimeRequest)
        requires
            old(self).handle.manager.target.is_macos(),
        ensures
            request == (RuntimeRequest {
                reports: false,
                ..old(self).request_of(RuntimeCall::SetActivationPolicy(activation_policy))
            }),
            *final(self) == *old(self),
    {
        let call = RuntimeCall::SetActivationPolicy(activation_policy);
        match self.runtime {
            Some(runtime) => RuntimeRequest {
                to: RuntimeOrDispatch::Runtime(runtime),
                call,
                reports: false,
            },
            None => {
                let request = self.handle.set_activation_policy(activation_policy);
                RuntimeRequest { reports: false, ..request }
            },
        }
    }

    /// Change the device event filter mode.
    ///
    /// Only the runtime itself can be asked, so this comes before the event loop takes it.
    pub fn set_device_event_filter(&mut self, filter: DeviceEventFilter) -> (request: RuntimeRequest)
        requires
            old(self).runtime is Some,
        ensures
            request == (RuntimeRequest {
                to: RuntimeOrDispatch::Runtime(old(self).runtime->0),
                call: RuntimeCall::SetDeviceEventFilter(filter),
                reports: false,
            }),
            *final(self) == *old(self),
    {
        RuntimeRequest {
            to: self.runtime(),
            call: RuntimeCall::SetDeviceEventFilter(filter),
            reports: false,
        }
    }

    /// Gives the runtime away to run the application.
    ///
    /// What is to be done about each of its events [`on_event`] says, in [`LoopMode::Run`].
    pub fn run(&mut self) -> (runtime: Runtime)
        requires
            old(self).runtime is Some,
        ensures
            old(self).runtime == Some(runtime),
            *final(self) == (App { runtime: None, ..*old(self) }),
    {
        self.runtime.take().unwrap()
    }

    /// Begins an iteration of the event loop.
    ///
    /// The application is to be set up before the first one. Where that fails, the event loop is
    /// not run. What is to be done about each event [`on_event`] says, in [`LoopMode::Iteration`].
    pub fn run_iteration(&self) -> (series: Series<IterationStep>)
        requires
            self.handle.manager.target.is_desktop(),
            self.runtime is Some,
        ensures
            crate::series::consists_of(series, iteration_steps(self.ran_setup, self.runtime->0)),
    {
        let mut steps: Vec<IterationStep> = Vec::new();
        if !self.ran_setup {
            steps.push(IterationStep::Setup);
        }
        steps.push(IterationStep::RunLoop(self.runtime.unwrap()));
        assert(steps@ =~= iteration_steps(self.ran_setup, self.runtime->0));
        Series::new(steps)
    }

    /// The resources of the application.
    pub fn resources_table(&self) -> (table: &ResourceTable)
        ensures
            *table == self.handle.manager.resources,
    {
        self.handle.resources_table()
    }

    /// Gets the app's configuration.
    pub fn config(&self) -> (config: &Config)
        ensures
            *config == self.handle.manager.config,
    {
        self.handle.config()
    }

    /// Gets the app's package information.
    pub fn package_info(&self) -> (info: &PackageInfo)
        ensures
            *info == self.handle.manager.package_info,
    {
        self.handle.package_info()
    }

    /// The application's asset resolver.
    pub fn asset_resolver(&self) -> (resolver: AssetResolver<'_>)
        ensures
            *resolver.manager == self.handle.manager,
    {
        self.handle.asset_resolver()
    }

    /// Asks for the primary monitor of the system.
    ///
    /// The answer is `None` where no monitor can be identified as the primary one.
    pub fn primary_monitor(&self) -> (request: RuntimeRequest)
        ensures
            request == self.request_of(RuntimeCall::PrimaryMonitor),
    {
        self.request(RuntimeCall::PrimaryMonitor)
    }

    /// Asks for the monitor that contains the given point.
    pub fn monitor_from_point(&self, point: PrecisePosition) -> (request: RuntimeRequest)
        ensures
            request == self.request_of(RuntimeCall::MonitorFromPoint(point)),
    {
        self.request(RuntimeCall::MonitorFromPoint(point))
    }

    /// Asks for all the monitors available on the system.
    pub fn available_monitors(&self) -> (request: RuntimeRequest)
        ensures
            request == self.request_of(RuntimeCall::AvailableMonitors),
    {
        self.request(RuntimeCall::AvailableMonitors)
    }

    /// Asks for the cursor position relative to the top-left hand corner of the desktop.
    pub fn cursor_position(&self) -> (request: RuntimeRequest)
        ensures
            request == self.request_of(RuntimeCall::CursorPosition),
    {
        self.request(RuntimeCall::CursorPosition)
    }

    /// Set the app theme.
    pub fn set_theme(&self, theme: Option<Theme>) -> (change: ThemeChange)
        ensures
            crate::menu_change::texts(change.menus@) == (if self.handle.manager.target.is_windows() {
                crate::manager::windows_with_menu(self.handle.manager, false)
            } else {
                Seq::empty()
            }),
            change.menu_theme == crate::handle::menu_theme_of(theme),
            change.request == (RuntimeRequest {
                reports: false,
                ..self.request_of(RuntimeCall::SetTheme(theme))
            }),
    {
        self.handle.manager.change_theme(self.runtime(), theme)
    }

    /// Returns the default window icon.
    pub fn default_window_icon(&self) -> (icon: Option<&Image>)
        ensures
            match icon {
                Some(icon) => self.handle.manager.default_window_icon == Some(*icon),
                None => self.handle.manager.default_window_icon is None,
            },
    {
        self.handle.default_window_icon()
    }

    /// Shows the application, but does not automatically focus it.
    pub fn show(&self) -> (request: RuntimeRequest)
        requires
            self.handle.manager.target.is_macos(),
        ensures
            request == self.request_of(RuntimeCall::Show),
    {
        self.request(RuntimeCall::Show)
    }

    /// Takes the application out of sight.
    pub fn conceal(&self) -> (request: RuntimeRequest)
        requires
            self.handle.manager.target.is_macos(),
        ensures
            request == self.request_of(RuntimeCall::Conceal),
    {
        self.request(RuntimeCall::Conceal)
    }

    /// Runs necessary cleanup tasks before exiting the process.
    ///
    /// The app should exit immediately after this function returns. Returns the labels of the
    /// windows to hide, in their order.
    pub fn cleanup_before_exit(&mut self) -> (to_hide: Vec<String>)
        ensures
            crate::manager::cleaned_up(old(self).handle.manager, final(self).handle.manager),
            *final(self) == (App {
                handle: AppHandle {
                    manager: final(self).handle.manager,
                    ..old(self).handle
                },
                ..*old(self)
            }),
            crate::menu_change::texts(to_hide@) == crate::manager::windows_to_hide(
                old(self).handle.manager,
            ),
    {
        self.handle.cleanup_before_exit()
    }

    /// Gets the invoke key that must be referenced by the messages of a webview.
    pub fn invoke_key(&self) -> (key: &str)
        ensures
            key@ == self.handle.manager.invoke_key@,
    {
        self.handle.invoke_key()
    }

    /// Registers a global menu event listener.
    pub fn on_menu_event(&mut self, handler: HookId)
        requires
            old(self).handle.manager.target.is_desktop(),
        ensures
            final(self).handle.manager.menu.global_event_listeners@
                == old(self).handle.manager.menu.global_event_listeners@.push(handler),
            *final(self) == (App {
                handle: AppHandle {
                    manager: AppManager {
                        menu: MenuManager {
                            global_event_listeners: final(self).handle.manager.menu.global_event_listeners,
                            ..old(self).handle.manager.menu
                        },
                        ..old(self).handle.manager
                    },
                    ..old(self).handle
                },
                ..*old(self)
            }),
    {
        self.handle.on_menu_event(handler)
    }

    /// Registers a global tray icon event listener.
    pub fn on_tray_icon_event(&mut self, handler: HookId)
        requires
            old(self).handle.manager.target.has_tray(),
        ensures
            final(self).handle.manager.tray.global_event_listeners@
                == old(self).handle.manager.tray.global_event_listeners@.push(handler),
            *final(self) == (App {
                handle: AppHandle {
                    manager: AppManager {
                        tray: TrayManager {
                            global_event_listeners: final(self).handle.manager.tray.global_event_listeners,
                            ..old(self).handle.manager.tray
                        },
                        ..old(self).handle.manager
                    },
                    ..old(self).handle
                },
                ..*old(self)
            }),
    {
        self.handle.on_tray_icon_event(handler)
    }

    /// Gets a tray icon using the provided id.
    pub fn tray_by_id(&self, id: &str) -> (icon: Option<&TrayIcon>)
        requires
            self.handle.manager.target.has_tray(),
        ensures
            match icon {
                Some(icon) => self.handle.manager.tray.has(id@) && *icon
                    == self.handle.manager.tray.icons@[crate::manager::tray_place(
                    self.handle.manager.tray.icons@,
                    id@,
                )],
                None => !self.handle.manager.tray.has(id@),
            },
    {
        self.handle.tray_by_id(id)
    }

    /// Removes a tray icon using the provided id and returns it.
    pub fn remove_tray_by_id(&mut self, id: &str) -> (icon: Option<TrayIcon>)
        requires
            old(self).handle.manager.target.has_tray(),
        ensures
            match icon {
                Some(icon) => {
                    let icons = old(self).handle.manager.tray.icons@;
                    let place = crate::manager::tray_place(icons, id@);
                    &&& old(self).handle.manager.tray.has(id@)
                    &&& icon == icons[place]
                    &&& final(self).handle.manager.tray.icons@ == icons.remove(place)
                },
                None => !old(self).handle.manager.tray.has(id@)
                    && final(self).handle.manager.tray.icons@
                    == old(self).handle.manager.tray.icons@,
            },
            *final(self) == (App {
                handle: AppHandle {
                    manager: AppManager {
                        tray: TrayManager {
                            icons: final(self).handle.manager.tray.icons,
                            ..old(self).handle.manager.tray
                        },
                        ..old(self).handle.manager
                    },
                    ..old(self).handle
                },
                ..*old(self)
            }),
    {
        self.handle.remove_tray_by_id(id)
    }

    /// Returns the app-wide menu.
    pub fn menu(&self) -> (menu: Option<&Menu>)
        requires
            self.handle.manager.target.is_desktop(),
        ensures
            match menu {
                Some(menu) => self.handle.manager.menu.menu == Some(*menu),
                None => self.handle.manager.menu.menu is None,
            },
    {
        self.handle.menu()
    }

    /// Sets the app-wide menu.
    pub fn set_menu(&self, menu: Menu) -> (change: MenuChange)
        requires
            self.handle.manager.target.is_desktop(),
        ensures
            crate::menu_change::begins(self.handle.manager, Some(menu), change),
    {
        self.handle.set_menu(menu)
    }

    /// Removes the app-wide menu.
    pub fn remove_menu(&self) -> (change: MenuChange)
        requires
            self.handle.manager.target.is_desktop(),
        ensures
            crate::menu_change::begins(self.handle.manager, None, change),
    {
        self.handle.remove_menu()
    }

    /// Hides the app-wide menu from the windows that show it, one after the other.
    pub fn hide_menu(&self) -> (series: Series<MenuTurn>)
        requires
            self.handle.manager.target.is_desktop(),
        ensures
            crate::menu_change::turns(series.rest@) == crate::menu_change::hiding(
                crate::menu_change::windows_to_turn(self.handle.manager),
            ),
            !series.busy,
    {
        self.handle.hide_menu()
    }

    /// Shows the app-wide menu in the windows that have it, one after the other.
    pub fn show_menu(&self) -> (series: Series<MenuTurn>)
        requires
            self.handle.manager.target.is_desktop(),
        ensures
            crate::menu_change::turns(series.rest@) == crate::menu_change::showing(
                crate::menu_change::windows_to_turn(self.handle.manager),
            ),
            !series.busy,
    {
        self.handle.show_menu()
    }

    /// Listen to an event on this app.
    pub fn listen(&self, event: String, handler: HookId) -> (call: ListenCall)
        ensures
            call == (ListenCall::Listen { event, target: EventTarget::App, handler }),
    {
        self.handle.listen(event, handler)
    }

    /// Listen to an event on this app only once.
    pub fn once(&self, event: String, handler: HookId) -> (call: ListenCall)
        ensures
            call == (ListenCall::Once { event, target: EventTarget::App, handler }),
    {
        self.handle.once(event, handler)
    }

    /// Unlisten to an event on this app.
    pub fn unlisten(&self, id: EventId) -> (call: ListenCall)
        ensures
            call == ListenCall::Unlisten(id),
    {
        self.handle.unlisten(id)
    }

    /// Emits an event to all targets.
    pub fn emit(&self, event: String, payload: String) -> (call: EmitCall)
        ensures
            call == (EmitCall::Emit { event, payload }),
    {
        self.handle.emit(event, payload)
    }

    /// Emits an event to all targets matching the given target.
    pub fn emit_to(&self, target: EventTarget, event: String, payload: String) -> (call: EmitCall)
        ensures
            call == (EmitCall::EmitTo { target, event, payload }),
    {
        self.handle.emit_to(target, event, payload)
    }

    /// Emits an event to all targets based on the given filter.
    pub fn emit_filter(&self, event: String, payload: String, filter: HookId) -> (call: EmitCall)
        ensures
            call == (EmitCall::EmitFilter { event, payload, filter }),
    {
        self.handle.emit_filter(event, payload, filter)
    }
}

/// The steps that create windows come in the order of the configuration.
proof fn lemma_windows_in_order(windows: Seq<WindowConfig>, from: int)
    requires
        0 <= from,
        windows.len() <= usize::MAX,
    ensures
        forall|k: int|
            0 <= k < window_steps(windows, from).len() ==> (#[trigger] window_steps(
                windows,
                from,
            )[k] matches SetupStep::CreateWindow(i) && from <= i < windows.len()),
        forall|k: int, l: int|
            #![trigger window_steps(windows, from)[k], window_steps(windows, from)[l]]
            0 <= k < l < window_steps(windows, from).len() ==> window_steps(
                windows,
                from,
            )[k]->CreateWindow_0 < window_steps(windows, from)[l]->CreateWindow_0,
    decreases windows.len() - from,
{
    if from < windows.len() {
        lemma_windows_in_order(windows, from + 1);
        let steps = window_steps(windows, from);
        let rest = window_steps(windows, from + 1);
        if windows[from].create {
            assert forall|k: int| 0 <= k < steps.len() implies (#[trigger] steps[k]
                matches SetupStep::CreateWindow(i) && from <= i < windows.len()) by {
                if k > 0 {
                    assert(steps[k] == rest[k - 1]);
                }
            }
            assert forall|k: int, l: int|
                #![trigger steps[k], steps[l]]
                0 <= k < l < steps.len() implies steps[k]->CreateWindow_0
                < steps[l]->CreateWindow_0 by {
                assert(steps[l] == rest[l - 1]);
                if k > 0 {
                    assert(steps[k] == rest[k - 1]);
                }
            }
        }
    }
}

/// On every system and in every build, setting the application up creates windows in the order of
/// the configuration, then lets the assets prepare themselves, once, and then runs the hook that
/// there is, or nothing.
pub proof fn law_setup_takes_its_steps_in_order(app: App)
    requires
        app.handle.manager.config.app.windows@.len() <= usize::MAX,
    ensures
        match app.setup {
            Some(SetupHook::Call(hook)) => {
                &&& setup_steps(app).len() >= 2
                &&& setup_steps(app).last() == SetupStep::RunHook(hook)
                &&& setup_steps(app)[setup_steps(app).len() - 2] == SetupStep::SetupAssets
                &&& forall|k: int|
                    0 <= k < setup_steps(app).len() - 2 ==> #[trigger] setup_steps(
                        app,
                    )[k] is CreateWindow
            },
            _ => {
                &&& setup_steps(app).len() >= 1
                &&& setup_steps(app).last() == SetupStep::SetupAssets
                &&& forall|k: int|
                    0 <= k < setup_steps(app).len() - 1 ==> #[trigger] setup_steps(
                        app,
                    )[k] is CreateWindow
            },
        },
        forall|k: int, l: int|
            #![trigger setup_steps(app)[k], setup_steps(app)[l]]
            0 <= k < l < setup_steps(app).len() && setup_steps(app)[l] is CreateWindow
                ==> setup_steps(app)[k]->CreateWindow_0 < setup_steps(app)[l]->CreateWindow_0,
{
    let windows = app.handle.manager.config.app.windows@;
    let first = window_steps(windows, 0);
    let all = setup_steps(app);
    lemma_windows_in_order(windows, 0);
    assert forall|k: int| 0 <= k < first.len() implies #[trigger] all[k] == first[k] by {}
    assert(all[first.len() as int] == SetupStep::SetupAssets);
}

/// The window that is created first from a place of the configuration on is the first there that is
/// to be created.
proof fn lemma_next_window(windows: Seq<WindowConfig>, from: int, at: int)
    requires
        0 <= from <= at <= windows.len() <= usize::MAX,
        forall|i: int| from <= i < at ==> !(#[trigger] windows[i]).create,
    ensures
        window_steps(windows, from) == window_steps(windows, at),
        at < windows.len() && windows[at].create ==> window_steps(windows, from).len() > 0
            && window_steps(windows, from)[0] == SetupStep::CreateWindow(at as usize),
        at == windows.len() ==> window_steps(windows, from).len() == 0,
    decreases at - from,
{
    if from < at {
        assert(!windows[from].create);
        lemma_next_window(windows, from + 1, at);
    }
}

/// How setting up goes on from each place. After a window that could be created comes the next one
/// of the configuration that is to be created, `at`, or the assets where there is none; after the
/// assets the hook, whatever the assets said; and after the hook nothing. A window that could not
/// be created ends it with its error, and so does a hook that failed, as an [`Error::Setup`].
pub proof fn law_setup_goes_on(
    before: Setup,
    app: App,
    outcome: Result<(), Error>,
    after: Setup,
    new_app: App,
    progress: SetupProgress,
    at: int,
)
    requires
        setup_resumed(before, app, outcome, after, new_app, progress),
        app.handle.manager.config.app.windows@.len() <= usize::MAX,
        match before.place {
            SetupPlace::Start => 0 <= at,
            SetupPlace::Window(i) => i < at,
            _ => true,
        },
        at <= app.handle.manager.config.app.windows@.len(),
        at < app.handle.manager.config.app.windows@.len()
            ==> app.handle.manager.config.app.windows@[at].create,
        forall|i: int|
            (match before.place {
                SetupPlace::Window(last) => last as int,
                _ => -1,
            }) < i < at ==> !(#[trigger] app.handle.manager.config.app.windows@[i]).create,
    ensures
        match (before.place, outcome) {
            (SetupPlace::Window(_), Err(error)) => progress == SetupProgress::Finished(Err(error))
                && after.place == SetupPlace::Over && new_app == app,
            (SetupPlace::Start, _) | (SetupPlace::Window(_), Ok(_)) => {
                &&& new_app == app
                &&& if at < app.handle.manager.config.app.windows@.len() {
                    &&& progress == SetupProgress::Perform(SetupStep::CreateWindow(at as usize))
                    &&& after.place == SetupPlace::Window(at as usize)
                } else {
                    &&& progress == SetupProgress::Perform(SetupStep::SetupAssets)
                    &&& after.place == SetupPlace::Assets
                }
            },
            (SetupPlace::Assets, _) => {
                &&& new_app == App { setup: None, ..app }
                &&& match app.setup {
                    Some(SetupHook::Call(hook)) => {
                        &&& progress == SetupProgress::Perform(SetupStep::RunHook(hook))
                        &&& after.place == SetupPlace::Hook
                    },
                    _ => {
                        &&& progress matches SetupProgress::Finished(result)
                        &&& result is Ok
                        &&& after.place == SetupPlace::Over
                    },
                }
            },
            (SetupPlace::Hook, Err(error)) => progress == SetupProgress::Finished(
                Err(Error::Setup(Box::new(error))),
            ) && after.place == SetupPlace::Over && new_app == app,
            (SetupPlace::Hook, Ok(_)) | (SetupPlace::Over, _) => {
                &&& progress matches SetupProgress::Finished(result)
                &&& result is Ok
                &&& after.place == SetupPlace::Over
                &&& new_app == app
            },
        },
{
    let windows = app.handle.manager.config.app.windows@;
    let from = match before.place {
        SetupPlace::Window(i) => i + 1,
        _ => 0int,
    };
    if before.place is Start || before.place is Window {
        lemma_next_window(windows, from, at);
        let first = window_steps(windows, from);
        let all = first + seq![SetupStep::SetupAssets] + hook_steps(app.setup);
        if first.len() > 0 {
            assert(all[0] == first[0]);
        } else {
            assert(all[0] == SetupStep::SetupAssets);
        }
    }
}

/// The application is set up exactly where the runtime drives the event loop and is ready, cleaned
/// up exactly where such a loop exits, and started anew only once everything else was done about an
/// exit. Nothing is done twice.
#[verifier::spinoff_prover]
pub proof fn law_what_is_done_about_an_event(mode: LoopMode, event: RuntimeRunEvent)
    ensures
        run_steps(mode, event).contains(RunStep::Dispatch),
        run_steps(mode, event).contains(RunStep::Callback),
        run_steps(mode, event).contains(RunStep::Setup) <==> mode == LoopMode::Run
            && event is Ready,
        run_steps(mode, event).contains(RunStep::Cleanup) <==> mode == LoopMode::Run
            && event is Exit,
        run_steps(mode, event).contains(RunStep::Restart) <==> event is Exit,
        event is Exit ==> run_steps(mode, event).last() == RunStep::Restart,
        event is Ready && mode == LoopMode::Run ==> run_steps(mode, event)[0] == RunStep::Setup,
        forall|k: int, l: int|
            0 <= k < l < run_steps(mode, event).len() ==> #[trigger] run_steps(mode, event)[k]
                != #[trigger] run_steps(mode, event)[l],
{
    let steps = run_steps(mode, event);
    if mode == LoopMode::Run && event is Ready {
        assert(steps[0] == RunStep::Setup);
        assert(steps[1] == RunStep::Dispatch);
        assert(steps[2] == RunStep::Callback);
    } else {
        assert(steps[0] == RunStep::Dispatch);
        assert(steps[1] == RunStep::Callback);
        if event is Exit {
            if mode == LoopMode::Run {
                assert(steps[2] == RunStep::Cleanup);
                assert(steps[3] == RunStep::Restart);
            } else {
                assert(steps[2] == RunStep::Restart);
            }
        }
    }
}

/// Every iteration ends with the runtime running the event loop. The application is set up before
/// that exactly if it was not before.
pub proof fn law_an_iteration_runs_the_loop(ran_setup: bool, runtime: Runtime)
    ensures
        iteration_steps(ran_setup, runtime).len() > 0,
        iteration_steps(ran_setup, runtime).last() == IterationStep::RunLoop(runtime),
        iteration_steps(ran_setup, runtime)[0] == IterationStep::Setup <==> !ran_setup,
        forall|k: int|
            0 <= k < iteration_steps(ran_setup, runtime).len() - 1 ==> #[trigger] iteration_steps(
                ran_setup,
                runtime,
            )[k] == IterationStep::Setup,
        iteration_steps(ran_setup, runtime).len() <= 2,
{
}

/// The plugins that an application brings itself: those for menus on desktops alone, and those for
/// tray icons where they are built in. They come in this order, each once.
pub proof fn law_core_plugins(target: Target)
    ensures
        core_plugins(target).take(7) == seq![
            CorePlugin::Path,
            CorePlugin::Event,
            CorePlugin::Window,
            CorePlugin::Webview,
            CorePlugin::App,
            CorePlugin::Resources,
            CorePlugin::Image,
        ],
        core_plugins(target).skip(7) == (if target.os is Ios || target.os is Android {
            Seq::<CorePlugin>::empty()
        } else if target.tray_icon {
            seq![CorePlugin::Menu, CorePlugin::Tray]
        } else {
            seq![CorePlugin::Menu]
        }),
{
    let all = core_plugins(target);
    assert(all.take(7) =~= seq![
        CorePlugin::Path,
        CorePlugin::Event,
        CorePlugin::Window,
        CorePlugin::Webview,
        CorePlugin::App,
        CorePlugin::Resources,
        CorePlugin::Image,
    ]);
    if target.os is Ios || target.os is Android {
        assert(all.skip(7) =~= Seq::empty());
    } else if target.tray_icon {
        assert(all.skip(7) =~= seq![CorePlugin::Menu, CorePlugin::Tray]);
    } else {
        assert(all.skip(7) =~= seq![CorePlugin::Menu]);
    }
}

/// What the application asks reaches the runtime itself while the application has it. Once the event
/// loop has taken it, it goes the way of the handle, which is the same for everyone. The caller hears
/// of a refusal.
pub proof fn law_requests_reach_the_runtime(app: App, call: RuntimeCall)
    ensures
        app.request_of(call).call == call,
        app.request_of(call).reports,
        app.handle.request_of(call).call == call,
        app.handle.request_of(call).reports,
        app.handle.request_of(call).to == RuntimeOrDispatch::RuntimeHandle(
            app.handle.runtime_handle,
        ),
        app.runtime matches Some(runtime) ==> app.request_of(call).to
            == RuntimeOrDispatch::Runtime(runtime),
        app.runtime is None ==> app.request_of(call) == app.handle.request_of(call),
{
}

} // verus!
