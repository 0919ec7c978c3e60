//! Building an application out of its description.
use vstd::prelude::*;

use crate::app::{App, SetupHook};
use crate::builder::{Builder, MenuFactory};
use crate::config::{Config, Context, WebviewInstallMode};
use crate::error::Error;
use crate::handle::AppHandle;
use crate::hook::HookId;
use crate::manager::{AppManager, TrayIcon, TrayManager, Webview, Window};
use crate::menu::{Menu, MenuManager};
use crate::plugin::{CorePlugin, PluginRequest};
use crate::runtime::{DeviceEventFilter, Runtime, RuntimeHandle};
use crate::series::Series;
use crate::state::StateKey;
use crate::target::Target;

verus! {

/// The tray icon of the configuration, as it is to be built.
#[derive(PartialEq, Eq, Debug)]
pub struct TrayIconRequest {
    pub id: String,
    pub icon_as_template: bool,
    pub menu_on_left_click: bool,
    /// Whether the icon shows the picture that the application came with.
    pub with_picture: bool,
    pub title: Option<String>,
    pub tooltip: Option<String>,
}

/// A step of building an application that the host takes.
#[derive(PartialEq, Eq, Debug)]
pub enum BuildStep {
    /// Create the runtime. This can fail.
    ///
    /// With `msg_hook` the runtime looks for menu accelerators in the messages of the system.
    CreateRuntime { any_thread: bool, app_id: Option<String>, msg_hook: bool },
    /// Send menu events to the event loop.
    SetMenuEventHandler,
    /// Send tray icon events to the event loop.
    SetTrayEventHandler,
    /// Set the device event filter of the runtime.
    SetDeviceEventFilter(DeviceEventFilter),
    /// Make the menu of the application. This can fail.
    CreateMenu(MenuFactory),
    /// Make the menu the one of the application. This can fail.
    InitAppMenu,
    /// Initialize a plugin that the application brings itself, with that section of the
    /// configuration. This can fail.
    InitializePlugin { plugin: CorePlugin, config: String },
    /// Make the value of a managed type.
    Manage(StateKey),
    /// Make the scope of the asset protocol. This can fail.
    CreateAssetScope { scope: String },
    /// Let the webview be loaded from a directory among the resources. Where the resources cannot
    /// be found, the installed one is used.
    SetWebviewFolder { path: String },
    /// Build the tray icon of the configuration. This can fail.
    BuildTrayIcon(TrayIconRequest),
    /// Initialize all plugins, as [`AppManager::initialize_plugins`] lists them. The first that fails
    /// ends it.
    InitializePlugins,
}

/// What a [`TrayIconRequest`] says.
#[verifier::ext_equal]
pub struct TrayIconView {
    pub id: Seq<char>,
    pub icon_as_template: bool,
    pub menu_on_left_click: bool,
    pub with_picture: bool,
    pub title: Option<String>,
    pub tooltip: Option<String>,
}

/// What a [`BuildStep`] says.
pub enum BuildStepView {
    CreateRuntime { any_thread: bool, app_id: Option<String>, msg_hook: bool },
    SetMenuEventHandler,
    SetTrayEventHandler,
    SetDeviceEventFilter(DeviceEventFilter),
    CreateMenu(MenuFactory),
    InitAppMenu,
    InitializePlugin { plugin: CorePlugin, config: String },
    Manage(StateKey),
    CreateAssetScope { scope: String },
    SetWebviewFolder { path: String },
    BuildTrayIcon(TrayIconView),
    InitializePlugins,
}

impl View for BuildStep {
    type V = BuildStepView;

    open spec fn view(&self) -> BuildStepView {
        match *self {
            BuildStep::CreateRuntime {
                any_thread,
                app_id,
                msg_hook,
            } => BuildStepView::CreateRuntime { any_thread, app_id, msg_hook },
            BuildStep::SetMenuEventHandler => BuildStepView::SetMenuEventHandler,
            BuildStep::SetTrayEventHandler => BuildStepView::SetTrayEventHandler,
            BuildStep::SetDeviceEventFilter(filter) => BuildStepView::SetDeviceEventFilter(filter),
            BuildStep::CreateMenu(factory) => BuildStepView::CreateMenu(factory),
            BuildStep::InitAppMenu => BuildStepView::InitAppMenu,
            BuildStep::InitializePlugin { plugin, config } => BuildStepView::InitializePlugin {
                plugin,
                config,
            },
            BuildStep::Manage(key) => BuildStepView::Manage(key),
            BuildStep::CreateAssetScope { scope } => BuildStepView::CreateAssetScope { scope },
            BuildStep::SetWebviewFolder { path } => BuildStepView::SetWebviewFolder { path },
            BuildStep::BuildTrayIcon(request) => BuildStepView::BuildTrayIcon(
                TrayIconView {
                    id: request.id@,
                    icon_as_template: request.icon_as_template,
                    menu_on_left_click: request.menu_on_left_click,
                    with_picture: request.with_picture,
                    title: request.title,
                    tooltip: request.tooltip,
                },
            ),
            BuildStep::InitializePlugins => BuildStepView::InitializePlugins,
        }
    }
}

/// The id of a tray icon whose configuration gives none.
pub const DEFAULT_TRAY_ID: &'static str = "main";

/// One step where the condition holds, and none where it does not.
pub open spec fn step_if(condition: bool, step: BuildStepView) -> Seq<BuildStepView> {
    if condition {
        seq![step]
    } else {
        Seq::empty()
    }
}

/// What makes the menu: what the builder was given, or on macOS the default, unless that was
/// disabled.
pub open spec fn menu_factory(builder: Builder) -> Option<MenuFactory> {
    if builder.target.is_macos() && builder.menu is None && builder.enable_macos_default_menu {
        Some(MenuFactory::Default)
    } else {
        builder.menu
    }
}

/// The steps until the event loop stands.
pub open spec fn runtime_steps(builder: Builder, config: Config) -> Seq<BuildStepView> {
    let target = builder.target;
    seq![
        BuildStepView::CreateRuntime {
            any_thread: target.allows_any_thread() && builder.runtime_any_thread,
            app_id: if target.has_gtk_app_id() && config.app.enable_gtk_app_id {
                Some(config.identifier)
            } else {
                None
            },
            msg_hook: target.is_windows(),
        },
    ] + step_if(target.is_desktop(), BuildStepView::SetMenuEventHandler) + step_if(
        target.has_tray(),
        BuildStepView::SetTrayEventHandler,
    ) + seq![BuildStepView::SetDeviceEventFilter(builder.device_event_filter)]
}

/// The steps that make the menu.
pub open spec fn menu_steps(target: Target, factory: Option<MenuFactory>) -> Seq<BuildStepView> {
    match factory {
        Some(factory) if target.is_desktop() => seq![BuildStepView::CreateMenu(factory)] + step_if(
            target.is_macos(),
            BuildStepView::InitAppMenu,
        ),
        _ => Seq::empty(),
    }
}

/// The steps that initialize plugins, in their order.
pub open spec fn plugin_steps(plugins: Seq<CorePlugin>, config: Config) -> Seq<BuildStepView> {
    plugins.map_values(
        |plugin: CorePlugin|
            BuildStepView::InitializePlugin { plugin, config: config.plugins },
    )
}

/// The steps that fill the managed state.
pub open spec fn state_steps(target: Target, config: Config) -> Seq<BuildStepView> {
    seq![BuildStepView::Manage(StateKey::Env)] + step_if(
        target.protocol_asset,
        BuildStepView::CreateAssetScope { scope: config.app.security.asset_protocol.scope },
    ) + seq![
        BuildStepView::Manage(StateKey::Scopes),
        BuildStepView::Manage(StateKey::ChannelDataIpcQueue),
        BuildStepView::InitializePlugin { plugin: CorePlugin::Channel, config: config.plugins },
    ]
}

/// The steps that find the webview.
pub open spec fn webview_steps(target: Target, config: Config) -> Seq<BuildStepView> {
    match config.webview_install_mode {
        WebviewInstallMode::FixedRuntime { path } if target.is_windows() => seq![
            BuildStepView::SetWebviewFolder { path },
        ],
        _ => Seq::empty(),
    }
}

/// The steps that build the tray icon of the configuration.
pub open spec fn tray_steps(target: Target, config: Config, with_picture: bool) -> Seq<
    BuildStepView,
> {
    match config.app.tray_icon {
        Some(tray) if target.has_tray() => seq![
            BuildStepView::BuildTrayIcon(
                TrayIconView {
                    id: match tray.id {
                        Some(id) => id@,
                        None => DEFAULT_TRAY_ID@,
                    },
                    icon_as_template: tray.icon_as_template,
                    menu_on_left_click: tray.menu_on_left_click,
                    with_picture,
                    title: tray.title,
                    tooltip: tray.tooltip,
                },
            ),
        ],
        _ => Seq::empty(),
    }
}

/// The steps of building an application, in their order.
pub open spec fn build_steps(builder: Builder, context: Context) -> Seq<BuildStepView> {
    let target = builder.target;
    let config = context.config;
    runtime_steps(builder, config) + menu_steps(target, menu_factory(builder)) + plugin_steps(
        crate::app::core_plugins(target),
        config,
    ) + state_steps(target, config) + webview_steps(target, config) + tray_steps(
        target,
        config,
        context.tray_icon is Some,
    ) + seq![BuildStepView::InitializePlugins]
}

/// What the steps say.
pub open spec fn views(steps: Seq<BuildStep>) -> Seq<BuildStepView> {
    steps.map_values(|step: BuildStep| step@)
}

/// What became of a step.
#[derive(PartialEq, Eq, Debug)]
pub enum BuildOutcome {
    /// It was taken.
    Done,
    /// The runtime was created.
    RuntimeCreated { runtime: Runtime, handle: RuntimeHandle },
    /// The menu was made.
    MenuCreated(Menu),
    /// The plugin was initialized. This is its name.
    PluginInitialized { name: String },
    /// It failed.
    Failed(Error),
}

/// Whether an outcome is one that the step can have.
pub open spec fn fits(step: BuildStepView, outcome: BuildOutcome) -> bool {
    match step {
        BuildStepView::CreateRuntime { .. } => outcome is RuntimeCreated || outcome is Failed,
        BuildStepView::CreateMenu(_) => outcome is MenuCreated || outcome is Failed,
        BuildStepView::InitializePlugin { .. } => outcome is PluginInitialized || outcome is Failed,
        BuildStepView::InitAppMenu => outcome is Done || outcome is Failed,
        BuildStepView::CreateAssetScope { .. } => outcome is Done || outcome is Failed,
        BuildStepView::BuildTrayIcon(_) => outcome is Done || outcome is Failed,
        BuildStepView::InitializePlugins => outcome is Done || outcome is Failed,
        _ => outcome is Done,
    }
}

/// An application that is being built.
pub struct AppBuild {
    pub manager: AppManager,
    pub setup: SetupHook,
    /// The runtime, once it was created.
    pub runtime: Option<(Runtime, RuntimeHandle)>,
    /// The menu, once it was made.
    pub menu: Option<Menu>,
    /// The steps, in their order.
    pub steps: Vec<BuildStep>,
    /// The place of the step that is being taken.
    pub next: usize,
}

/// Whether a manager holds what the builder and the context give it, and nothing else.
pub open spec fn assembled(builder: Builder, context: Context, manager: AppManager) -> bool {
    &&& manager.target == builder.target
    &&& manager.config == context.config
    &&& manager.package_info == context.package_info
    &&& manager.config_parent == context.config_parent
    &&& manager.assets == context.assets
    &&& manager.app_icon == context.app_icon
    &&& manager.default_window_icon == context.default_window_icon
    &&& manager.windows@ == Map::<Seq<char>, Window>::empty()
    &&& manager.webviews@ == Map::<Seq<char>, Webview>::empty()
    &&& manager.menu.menu is None
    &&& manager.menu.stash@ == Map::<Seq<char>, Menu>::empty()
    &&& manager.menu.global_event_listeners == builder.menu_event_listeners
    &&& manager.menu.event_listeners@ == Map::<Seq<char>, HookId>::empty()
    &&& manager.tray.icon == context.tray_icon
    &&& manager.tray.icons@ == Seq::<TrayIcon>::empty()
    &&& manager.tray.global_event_listeners@ == Seq::<HookId>::empty()
    &&& manager.tray.event_listeners@ == Map::<Seq<char>, HookId>::empty()
    &&& manager.plugins == builder.plugins
    &&& manager.state == builder.state
    &&& manager.resources.ids@ == Seq::<u32>::empty()
    &&& manager.invoke_handler == builder.invoke_handler
    &&& manager.on_page_load == builder.on_page_load
    &&& manager.uri_scheme_protocols == builder.uri_scheme_protocols
    &&& manager.window_event_listeners == builder.window_event_listeners
    &&& manager.webview_event_listeners == builder.webview_event_listeners
    &&& manager.invoke_initialization_script == builder.invoke_initialization_script
    &&& manager.invoke_key == builder.invoke_key
}

fn copy_text(text: &Option<String>) -> (copy: Option<String>)
    ensures
        copy == *text,
{
    match text {
        Some(text) => Some(text.clone()),
        None => None,
    }
}

/// Puts a step behind the others.
fn add_step(steps: &mut Vec<BuildStep>, step: BuildStep)
    ensures
        views(final(steps)@) == views(old(steps)@) + seq![step@],
{
    let ghost before = views(steps@);
    let ghost said = step@;
    steps.push(step);
    assert(views(steps@) =~= before + seq![said]);
}

/// Puts the steps that initialize plugins behind the others.
fn add_plugins(steps: &mut Vec<BuildStep>, plugins: &Vec<CorePlugin>, config: &Config)
    ensures
        views(final(steps)@) == views(old(steps)@) + plugin_steps(plugins@, *config),
{
    let ghost before = views(steps@);
    let mut i: usize = 0;
    assert(before + plugin_steps(plugins@.take(0), *config) =~= before);
    while i < plugins.len()
        invariant
            i <= plugins.len(),
            views(steps@) == before + plugin_steps(plugins@.take(i as int), *config),
        decreases plugins.len() - i,
    {
        let plugin = plugins[i];
        add_step(steps, BuildStep::InitializePlugin { plugin, config: config.plugins.clone() });
        assert(before + plugin_steps(plugins@.take(i + 1), *config) =~= before + plugin_steps(
            plugins@.take(i as int),
            *config,
        ) + seq![BuildStepView::InitializePlugin { plugin, config: config.plugins }]);
        i += 1;
    }
    assert(plugins@.take(i as int) =~= plugins@);
}

impl Builder {
    /// The steps until the event loop stands.
    fn list_runtime_steps(&self, config: &Config) -> (steps: Vec<BuildStep>)
        ensures
            views(steps@) == runtime_steps(*self, *config),
    {
        let target = self.target;
        let mut steps: Vec<BuildStep> = Vec::new();
        let app_id = if target.has_gtk_app_id() && config.app.enable_gtk_app_id {
            Some(config.identifier.clone())
        } else {
            None
        };
        add_step(
            &mut steps,
            BuildStep::CreateRuntime {
                any_thread: target.allows_any_thread() && self.runtime_any_thread,
                app_id,
                msg_hook: target.is_windows(),
            },
        );
        if target.is_desktop() {
            add_step(&mut steps, BuildStep::SetMenuEventHandler);
        }
        if target.has_tray() {
            add_step(&mut steps, BuildStep::SetTrayEventHandler);
        }
        add_step(&mut steps, BuildStep::SetDeviceEventFilter(self.device_event_filter));
        assert(views(steps@) =~= runtime_steps(*self, *config));
        steps
    }

    /// Puts the steps that make the menu behind the others.
    fn add_menu_steps(&self, steps: &mut Vec<BuildStep>)
        ensures
            views(final(steps)@) == views(old(steps)@) + menu_steps(
                self.target,
                menu_factory(*self),
            ),
    {
        let target = self.target;
        let ghost before = views(steps@);
        let factory = if target.is_macos() && self.menu.is_none()
            && self.enable_macos_default_menu {
            Some(MenuFactory::Default)
        } else {
            self.menu
        };
        if target.is_desktop() {
            if let Some(factory) = factory {
                add_step(steps, BuildStep::CreateMenu(factory));
                if target.is_macos() {
                    add_step(steps, BuildStep::InitAppMenu);
                }
            }
        }
        assert(views(steps@) =~= before + menu_steps(target, menu_factory(*self)));
    }

    /// Puts the steps that fill the managed state behind the others.
    fn add_state_steps(&self, steps: &mut Vec<BuildStep>, config: &Config)
        ensures
            views(final(steps)@) == views(old(steps)@) + state_steps(self.target, *config),
    {
        let ghost before = views(steps@);
        add_step(steps, BuildStep::Manage(StateKey::Env));
        if self.target.protocol_asset {
            let scope = config.app.security.asset_protocol.scope.clone();
            add_step(steps, BuildStep::CreateAssetScope { scope });
        }
        add_step(steps, BuildStep::Manage(StateKey::Scopes));
        add_step(steps, BuildStep::Manage(StateKey::ChannelDataIpcQueue));
        add_step(
            steps,
            BuildStep::InitializePlugin {
                plugin: CorePlugin::Channel,
                config: config.plugins.clone(),
            },
        );
        assert(views(steps@) =~= before + state_steps(self.target, *config));
    }

    /// Puts the steps that find the webview behind the others.
    fn add_webview_steps(&self, steps: &mut Vec<BuildStep>, config: &Config)
        ensures
            views(final(steps)@) == views(old(steps)@) + webview_steps(self.target, *config),
    {
        let ghost before = views(steps@);
        if self.target.is_windows() {
            if let WebviewInstallMode::FixedRuntime { path } = &config.webview_install_mode {
                add_step(steps, BuildStep::SetWebviewFolder { path: path.clone() });
            }
        }
        assert(views(steps@) =~= before + webview_steps(self.target, *config));
    }

    /// Puts the steps that build the tray icon behind the others.
    fn add_tray_steps(&self, steps: &mut Vec<BuildStep>, config: &Config, with_picture: bool)
        ensures
            views(final(steps)@) == views(old(steps)@) + tray_steps(
                self.target,
                *config,
                with_picture,
            ),
    {
        let ghost before = views(steps@);
        if self.target.has_tray() {
            if let Some(tray) = &config.app.tray_icon {
                let id = match &tray.id {
                    Some(id) => id.clone(),
                    None => DEFAULT_TRAY_ID.to_owned(),
                };
                add_step(
                    steps,
                    BuildStep::BuildTrayIcon(
                        TrayIconRequest {
                            id,
                            icon_as_template: tray.icon_as_template,
                            menu_on_left_click: tray.menu_on_left_click,
                            with_picture,
                            title: copy_text(&tray.title),
                            tooltip: copy_text(&tray.tooltip),
                        },
                    ),
                );
            }
        }
        assert(views(steps@) =~= before + tray_steps(self.target, *config, with_picture));
    }

    /// The steps of building the application, in their order.
    fn list_steps(&self, context: &Context) -> (steps: Vec<BuildStep>)
        ensures
            views(steps@) == build_steps(*self, *context),
    {
        let mut steps = self.list_runtime_steps(&context.config);
        self.add_menu_steps(&mut steps);
        add_plugins(&mut steps, &App::register_core_plugins(&self.target), &context.config);
        self.add_state_steps(&mut steps, &context.config);
        self.add_webview_steps(&mut steps, &context.config);
        self.add_tray_steps(&mut steps, &context.config, context.tray_icon.is_some());
        add_step(&mut steps, BuildStep::InitializePlugins);
        steps
    }

    /// Begins to build the application.
    pub fn build(self, context: Context) -> (build: AppBuild)
        ensures
            views(build.steps@) == build_steps(self, context),
            build.next == 0,
            build.setup == self.setup,
            build.runtime is None,
            build.menu is None,
            build.wf(),
            assembled(self, context, build.manager),
    {
        let steps = self.list_steps(&context);
        let manager = AppManager::with_handlers(
            self.target,
            context,
            self.plugins,
            self.invoke_handler,
            self.on_page_load,
            self.uri_scheme_protocols,
            self.state,
            self.menu_event_listeners,
            self.window_event_listeners,
            self.webview_event_listeners,
            self.invoke_initialization_script,
            self.invoke_key,
        );
        AppBuild { manager, setup: self.setup, runtime: None, menu: None, steps, next: 0 }
    }
}

impl AppManager {
    /// Initializes the plugins, one after the other, each with the section of the plugins of the
    /// configuration.
    ///
    /// The first that fails ends it, with its error.
    pub fn initialize_plugins(&self) -> (series: Series<PluginRequest>)
        ensures
            crate::plugin::requests(series.rest@) == crate::plugin::initializing(
                self.plugins@,
                self.config.plugins,
            ),
            !series.busy,
    {
        Series::new(self.plugins.initialize_all(&self.config.plugins))
    }
}

/// Whether `after` is `before` once its step had that outcome.
pub open spec fn resumed(before: AppBuild, outcome: BuildOutcome, after: AppBuild) -> bool {
    let step = before.steps@[before.next as int]@;
    let manager = before.manager;
    &&& after.steps == before.steps
    &&& after.next == before.next + 1
    &&& after.setup == before.setup
    &&& after.runtime == match outcome {
        BuildOutcome::RuntimeCreated { runtime, handle } => Some((runtime, handle)),
        _ => before.runtime,
    }
    &&& match outcome {
        BuildOutcome::MenuCreated(menu) => crate::menu::same_menu(after.menu, Some(menu)),
        _ => after.menu == before.menu,
    }
    &&& match (step, outcome) {
        (BuildStepView::CreateMenu(_), BuildOutcome::MenuCreated(menu)) => {
            &&& after.manager == AppManager {
                menu: MenuManager {
                    stash: after.manager.menu.stash,
                    menu: after.manager.menu.menu,
                    ..manager.menu
                },
                ..manager
            }
            &&& if manager.target.is_macos() {
                after.manager.menu.menu == manager.menu.menu
            } else {
                crate::menu::same_menu(after.manager.menu.menu, Some(menu))
            }
            &&& after.manager.menu.stash@ == manager.menu.stash@.insert(menu.id@, menu)
        },
        (BuildStepView::InitAppMenu, _) => {
            &&& after.manager == AppManager {
                menu: MenuManager { menu: after.manager.menu.menu, ..manager.menu },
                ..manager
            }
            &&& crate::menu::same_menu(after.manager.menu.menu, before.menu)
        },
        (BuildStepView::InitializePlugin { .. }, BuildOutcome::PluginInitialized { name }) => {
            &&& after.manager == AppManager { plugins: after.manager.plugins, ..manager }
            &&& after.manager.plugins@ == crate::plugin::registered(manager.plugins@, name@)
        },
        (BuildStepView::Manage(key), _) => {
            &&& after.manager == AppManager { state: after.manager.state, ..manager }
            &&& after.manager.state@ == manager.state@.insert(key)
        },
        (BuildStepView::BuildTrayIcon(request), _) => {
            &&& after.manager == AppManager {
                tray: TrayManager { icons: after.manager.tray.icons, ..manager.tray },
                ..manager
            }
            &&& after.manager.tray.icons@.len() == manager.tray.icons@.len() + 1
            &&& after.manager.tray.icons@.drop_last() == manager.tray.icons@
            &&& after.manager.tray.icons@.last().id@ == request.id
        },
        _ => after.manager == manager,
    }
}

impl AppBuild {
    /// The step that is to be taken, unless all were.
    pub fn step(&self) -> (step: Option<&BuildStep>)
        ensures
            match step {
                Some(step) => {
                    &&& self.next < views(self.steps@).len()
                    &&& step@ == views(self.steps@)[self.next as int]
                    &&& *step == self.steps@[self.next as int]
                },
                None => self.next >= views(self.steps@).len(),
            },
    {
        if self.next < self.steps.len() {
            Some(&self.steps[self.next])
        } else {
            None
        }
    }

    /// Goes on once a step was taken.
    ///
    /// A step that failed ends the building: nothing is left of it but the error.
    pub fn resume(self, outcome: BuildOutcome) -> (result: Result<AppBuild, Error>)
        requires
            self.next < views(self.steps@).len(),
            fits(views(self.steps@)[self.next as int], outcome),
        ensures
            match outcome {
                BuildOutcome::Failed(error) => result == Err::<AppBuild, Error>(error),
                _ => result matches Ok(build) && resumed(self, outcome, build),
            },
    {
        let mut build = self;
        assert(build.next < build.steps.len());
        let step = &build.steps[build.next];
        match outcome {
            BuildOutcome::Failed(error) => {
                return Err(error);
            },
            BuildOutcome::RuntimeCreated { runtime, handle } => {
                build.runtime = Some((runtime, handle));
            },
            BuildOutcome::MenuCreated(menu) => {
                build.menu = Some(menu.clone());
                if !build.manager.target.is_macos() {
                    build.manager.menu.menu = Some(menu.clone());
                }
                build.manager.menu.insert_menu_into_stash(menu);
            },
            BuildOutcome::PluginInitialized { name } => {
                let _ = build.manager.plugins.register(name);
            },
            BuildOutcome::Done => {
                match step {
                    BuildStep::InitAppMenu => {
                        build.manager.menu.menu = match &build.menu {
                            Some(menu) => Some(menu.clone()),
                            None => None,
                        };
                    },
                    BuildStep::Manage(key) => {
                        let _ = build.manager.state.set(*key);
                    },
                    BuildStep::BuildTrayIcon(request) => {
                        let ghost before = build.manager.tray.icons@;
                        build.manager.tray.icons.push(TrayIcon { id: request.id.clone() });
                        assert(build.manager.tray.icons@.drop_last() =~= before);
                    },
                    _ => {},
                }
            },
        }
        build.next += 1;
        Ok(build)
    }

    /// The application, once every step was taken.
    pub fn finish(self) -> (app: Option<App>)
        ensures
            match app {
                Some(app) => {
                    &&& self.next >= self.steps@.len()
                    &&& self.runtime matches Some((runtime, runtime_handle))
                    &&& app == App {
                        runtime: Some(runtime),
                        setup: Some(self.setup),
                        handle: AppHandle {
                            runtime_handle,
                            manager: self.manager,
                            restart_due: false,
                        },
                        ran_setup: false,
                    }
                },
                None => self.next < self.steps@.len() || self.runtime is None,
            },
    {
        if self.next < self.steps.len() {
            return None;
        }
        match self.runtime {
            Some((runtime, runtime_handle)) => Some(
                App {
                    runtime: Some(runtime),
                    setup: Some(self.setup),
                    handle: AppHandle {
                        runtime_handle,
                        manager: self.manager,
                        restart_due: false,
                    },
                    ran_setup: false,
                },
            ),
            None => None,
        }
    }
}

impl AppBuild {
    /// Whether the application shows that the step at place `i` was taken.
    pub open spec fn shows(&self, i: int) -> bool {
        match self.steps@[i]@ {
            BuildStepView::CreateRuntime { .. } => self.runtime is Some,
            BuildStepView::CreateMenu(_) => {
                &&& self.menu matches Some(made)
                &&& self.manager.menu.stash@.contains_key(made.id@)
                &&& self.manager.menu.stash@[made.id@]@ == made@
                &&& !self.manager.target.is_macos() ==> crate::menu::same_menu(
                    self.manager.menu.menu,
                    self.menu,
                )
            },
            BuildStepView::InitAppMenu => self.makes_no_menu_after(i) ==> crate::menu::same_menu(
                self.manager.menu.menu,
                self.menu,
            ),
            BuildStepView::Manage(key) => self.manager.state@.contains(key),
            BuildStepView::BuildTrayIcon(request) => self.manager.tray.has(request.id),
            _ => true,
        }
    }

    /// Whether no menu is made after the step at place `i`.
    pub open spec fn makes_no_menu_after(&self, i: int) -> bool {
        forall|j: int| i < j < self.steps@.len() ==> !((#[trigger] self.steps@[j])@ is CreateMenu)
    }

    /// The application shows each step that was taken.
    pub open spec fn wf(&self) -> bool {
        forall|i: int| 0 <= i < self.next && i < self.steps@.len() ==> #[trigger] self.shows(i)
    }
}

/// A tray icon is there while others come.
proof fn lemma_tray_stays(icons: Seq<TrayIcon>, more: Seq<TrayIcon>, id: Seq<char>)
    requires
        more.len() == icons.len() + 1,
        more.drop_last() == icons,
    ensures
        crate::manager::tray_place(icons, id) < icons.len() || more.last().id@ == id
            ==> crate::manager::tray_place(more, id) < more.len(),
{
    crate::manager::lemma_tray_place(icons, id);
    crate::manager::lemma_tray_place(more, id);
    let place = crate::manager::tray_place(icons, id);
    if place < icons.len() {
        assert(more[place] == icons[place]);
    }
    assert(more.last() == more[more.len() - 1]);
}

/// What a step has done stays done while the building goes on.
pub proof fn law_steps_stay_done(before: AppBuild, outcome: BuildOutcome, after: AppBuild)
    requires
        before.wf(),
        before.next < before.steps@.len(),
        fits(before.steps@[before.next as int]@, outcome),
        !(outcome is Failed),
        resumed(before, outcome, after),
    ensures
        after.wf(),
        after.steps == before.steps,
        after.manager.target == before.manager.target,
{
    assert forall|i: int| 0 <= i < after.next && i < after.steps@.len() implies #[trigger] after.shows(
        i,
    ) by {
        if i < before.next {
            assert(before.shows(i));
        }
        if after.steps@[i]@ is InitAppMenu && after.makes_no_menu_after(i) {
            assert(before.makes_no_menu_after(i));
            if i < before.next {
                assert(!(before.steps@[before.next as int]@ is CreateMenu));
            }
        }
        if before.steps@[before.next as int]@ is BuildTrayIcon {
            if let BuildStepView::BuildTrayIcon(request) = after.steps@[i]@ {
                lemma_tray_stays(
                    before.manager.tray.icons@,
                    after.manager.tray.icons@,
                    request.id,
                );
            }
        }
    }
}

/// What the builder was given is there while the building goes on: managed state and plugins are
/// only added to, and everything that listens or answers stays as it is.
pub proof fn law_building_keeps_what_was_given(
    before: AppBuild,
    outcome: BuildOutcome,
    after: AppBuild,
    key: StateKey,
    plugin: Seq<char>,
)
    requires
        before.next < before.steps@.len(),
        fits(before.steps@[before.next as int]@, outcome),
        resumed(before, outcome, after),
    ensures
        after.setup == before.setup,
        before.manager.state@.contains(key) ==> after.manager.state@.contains(key),
        before.manager.plugins@.contains(plugin) ==> after.manager.plugins@.contains(plugin),
        !(outcome is MenuCreated) ==> after.menu == before.menu && after.manager.menu.stash
            == before.manager.menu.stash,
        after.manager == (AppManager {
            menu: MenuManager {
                stash: after.manager.menu.stash,
                menu: after.manager.menu.menu,
                ..before.manager.menu
            },
            tray: TrayManager { icons: after.manager.tray.icons, ..before.manager.tray },
            plugins: after.manager.plugins,
            state: after.manager.state,
            ..before.manager
        }),
{
    if let BuildOutcome::PluginInitialized { name } = outcome {
        crate::plugin::law_register_then_remove(before.manager.plugins@, name@);
    }
}

/// What stands in one of seven lists stands in all of them together.
proof fn lemma_stands(
    lists: (Seq<BuildStepView>, Seq<BuildStepView>, Seq<BuildStepView>, Seq<BuildStepView>),
    more: (Seq<BuildStepView>, Seq<BuildStepView>, Seq<BuildStepView>),
    step: BuildStepView,
)
    requires
        lists.0.contains(step) || lists.1.contains(step) || lists.3.contains(step)
            || more.1.contains(step),
    ensures
        (lists.0 + lists.1 + lists.2 + lists.3 + more.0 + more.1 + more.2).contains(step),
        forall|k: int|
            0 <= k < lists.1.len() ==> (lists.0 + lists.1 + lists.2 + lists.3 + more.0 + more.1
                + more.2)[lists.0.len() + k] == #[trigger] lists.1[k],
{
    let all = lists.0 + lists.1 + lists.2 + lists.3 + more.0 + more.1 + more.2;
    let second = lists.0.len();
    let fourth = second + lists.1.len() + lists.2.len();
    let sixth = fourth + lists.3.len() + more.0.len();
    if lists.0.contains(step) {
        assert(all[lists.0.index_of(step)] == step);
    } else if lists.1.contains(step) {
        assert(all[second + lists.1.index_of(step)] == step);
    } else if lists.3.contains(step) {
        assert(all[fourth + lists.3.index_of(step)] == step);
    } else {
        assert(all[sixth + more.1.index_of(step)] == step);
    }
}

/// A step of one of the parts is a step of the whole.
proof fn lemma_is_built(builder: Builder, context: Context, step: BuildStepView)
    requires
        runtime_steps(builder, context.config).contains(step) || menu_steps(
            builder.target,
            menu_factory(builder),
        ).contains(step) || state_steps(builder.target, context.config).contains(step)
            || tray_steps(
            builder.target,
            context.config,
            context.tray_icon is Some,
        ).contains(step),
    ensures
        build_steps(builder, context).contains(step),
        forall|k: int|
            0 <= k < menu_steps(builder.target, menu_factory(builder)).len() ==> build_steps(
                builder,
                context,
            )[runtime_steps(builder, context.config).len() + k] == #[trigger] menu_steps(
                builder.target,
                menu_factory(builder),
            )[k],
{
    let target = builder.target;
    let config = context.config;
    lemma_stands(
        (
            runtime_steps(builder, config),
            menu_steps(target, menu_factory(builder)),
            plugin_steps(crate::app::core_plugins(target), config),
            state_steps(target, config),
        ),
        (
            webview_steps(target, config),
            tray_steps(target, config, context.tray_icon is Some),
            seq![BuildStepView::InitializePlugins],
        ),
        step,
    );
}

/// What holds of none of the last five of seven lists holds of nothing behind the first two.
proof fn lemma_behind(
    lists: (Seq<BuildStepView>, Seq<BuildStepView>, Seq<BuildStepView>, Seq<BuildStepView>),
    more: (Seq<BuildStepView>, Seq<BuildStepView>, Seq<BuildStepView>),
)
    requires
        forall|k: int| 0 <= k < lists.2.len() ==> !(#[trigger] lists.2[k] is CreateMenu),
        forall|k: int| 0 <= k < lists.3.len() ==> !(#[trigger] lists.3[k] is CreateMenu),
        forall|k: int| 0 <= k < more.0.len() ==> !(#[trigger] more.0[k] is CreateMenu),
        forall|k: int| 0 <= k < more.1.len() ==> !(#[trigger] more.1[k] is CreateMenu),
        forall|k: int| 0 <= k < more.2.len() ==> !(#[trigger] more.2[k] is CreateMenu),
    ensures
        forall|k: int|
            lists.0.len() + lists.1.len() <= k < (lists.0 + lists.1 + lists.2 + lists.3 + more.0
                + more.1 + more.2).len() ==> !(#[trigger] (lists.0 + lists.1 + lists.2 + lists.3
                + more.0 + more.1 + more.2)[k] is CreateMenu),
{
    let all = lists.0 + lists.1 + lists.2 + lists.3 + more.0 + more.1 + more.2;
    let third = lists.0.len() + lists.1.len();
    let fourth = third + lists.2.len();
    let fifth = fourth + lists.3.len();
    let sixth = fifth + more.0.len();
    let seventh = sixth + more.1.len();
    assert forall|k: int| third <= k < all.len() implies !(#[trigger] all[k] is CreateMenu) by {
        if k < fourth {
            assert(all[k] == lists.2[k - third]);
        } else if k < fifth {
            assert(all[k] == lists.3[k - fourth]);
        } else if k < sixth {
            assert(all[k] == more.0[k - fifth]);
        } else if k < seventh {
            assert(all[k] == more.1[k - sixth]);
        } else {
            assert(all[k] == more.2[k - seventh]);
        }
    }
}

/// No menu is made behind the steps that make the menu.
proof fn lemma_menu_is_made_once(builder: Builder, context: Context)
    ensures
        forall|k: int|
            runtime_steps(builder, context.config).len() + menu_steps(
                builder.target,
                menu_factory(builder),
            ).len() <= k < build_steps(builder, context).len() ==> !(#[trigger] build_steps(
                builder,
                context,
            )[k] is CreateMenu),
{
    let target = builder.target;
    let config = context.config;
    lemma_behind(
        (
            runtime_steps(builder, config),
            menu_steps(target, menu_factory(builder)),
            plugin_steps(crate::app::core_plugins(target), config),
            state_steps(target, config),
        ),
        (
            webview_steps(target, config),
            tray_steps(target, config, context.tray_icon is Some),
            seq![BuildStepView::InitializePlugins],
        ),
    );
}

/// A step of building an application was taken, once all were.
proof fn lemma_was_taken(
    builder: Builder,
    context: Context,
    build: AppBuild,
    step: BuildStepView,
) -> (i: int)
    requires
        views(build.steps@) == build_steps(builder, context),
        build.wf(),
        build.next >= build.steps@.len(),
        build_steps(builder, context).contains(step),
    ensures
        0 <= i < build.steps@.len(),
        build.steps@[i]@ == step,
        build.shows(i),
{
    let i = build_steps(builder, context).index_of(step);
    assert(views(build.steps@)[i] == build.steps@[i]@);
    i
}

/// Whether an application has a runtime and the state that its parts need, the menu that was made
/// where one was asked for, and the tray icon of its configuration.
pub open spec fn has_what_it_needs(builder: Builder, context: Context, build: AppBuild) -> bool {
    &&& build.runtime is Some
    &&& build.manager.state@.contains(StateKey::Env)
    &&& build.manager.state@.contains(StateKey::Scopes)
    &&& build.manager.state@.contains(StateKey::ChannelDataIpcQueue)
    &&& builder.target.is_desktop() && menu_factory(builder) is Some ==> {
        &&& build.menu matches Some(made)
        &&& crate::menu::same_menu(build.manager.menu.menu, Some(made))
        &&& build.manager.menu.stash@.contains_key(made.id@)
        &&& build.manager.menu.stash@[made.id@]@ == made@
    }
    &&& builder.target.has_tray() ==> match context.config.app.tray_icon {
        Some(tray) => build.manager.tray.has(
            match tray.id {
                Some(id) => id@,
                None => DEFAULT_TRAY_ID@,
            },
        ),
        None => true,
    }
}

/// What the steps have left behind, once all were taken.
proof fn lemma_all_steps_show(builder: Builder, context: Context, build: AppBuild)
    requires
        views(build.steps@) == build_steps(builder, context),
        build.wf(),
        build.next >= build.steps@.len(),
        build.manager.target == builder.target,
    ensures
        has_what_it_needs(builder, context, build),
{
    let target = builder.target;
    let runtime = runtime_steps(builder, context.config);
    assert(runtime[0] is CreateRuntime);
    assert(runtime.contains(runtime[0]));
    lemma_is_built(builder, context, runtime[0]);
    let i = lemma_was_taken(builder, context, build, runtime[0]);
    let state = state_steps(target, context.config);
    let env = BuildStepView::Manage(StateKey::Env);
    let scopes = BuildStepView::Manage(StateKey::Scopes);
    let queue = BuildStepView::Manage(StateKey::ChannelDataIpcQueue);
    assert(state[0] == env);
    assert(state[state.len() - 3] == scopes);
    assert(state[state.len() - 2] == queue);
    lemma_is_built(builder, context, env);
    lemma_is_built(builder, context, scopes);
    lemma_is_built(builder, context, queue);
    let i = lemma_was_taken(builder, context, build, env);
    let i = lemma_was_taken(builder, context, build, scopes);
    let i = lemma_was_taken(builder, context, build, queue);
    if target.is_desktop() {
        if let Some(factory) = menu_factory(builder) {
            let menu = menu_steps(target, menu_factory(builder));
            let create = BuildStepView::CreateMenu(factory);
            assert(menu[0] == create);
            lemma_is_built(builder, context, create);
            let i = lemma_was_taken(builder, context, build, create);
            if target.is_macos() {
                let at = runtime.len() as int;
                assert(menu[1] == BuildStepView::InitAppMenu);
                assert(views(build.steps@)[at] == build.steps@[at]@);
                assert(views(build.steps@)[at + 1] == build.steps@[at + 1]@);
                lemma_menu_is_made_once(builder, context);
                assert forall|j: int| at + 1 < j < build.steps@.len() implies !(
                (#[trigger] build.steps@[j])@ is CreateMenu) by {
                    assert(views(build.steps@)[j] == build.steps@[j]@);
                }
                assert(build.makes_no_menu_after(at + 1));
                assert(build.shows(at + 1));
            }
        }
    }
    if target.has_tray() && context.config.app.tray_icon is Some {
        let tray = tray_steps(target, context.config, context.tray_icon is Some);
        assert(tray.contains(tray[0]));
        lemma_is_built(builder, context, tray[0]);
        let i = lemma_was_taken(builder, context, build, tray[0]);
    }
}

/// Whether the application came from one place of `stages` to the next by an outcome that its step
/// can have.
pub open spec fn went_on(stages: Seq<AppBuild>, outcomes: Seq<BuildOutcome>, i: int) -> bool {
    let before = stages[i];
    &&& before.next < before.steps@.len()
    &&& fits(before.steps@[before.next as int]@, outcomes[i])
    &&& !(outcomes[i] is Failed)
    &&& resumed(before, outcomes[i], stages[i + 1])
}

/// Whether an application was built through `stages` with those outcomes, from what
/// [`Builder::build`] gives until every step was taken.
pub open spec fn built_through(
    builder: Builder,
    context: Context,
    stages: Seq<AppBuild>,
    outcomes: Seq<BuildOutcome>,
) -> bool {
    &&& stages.len() == outcomes.len() + 1
    &&& views(stages[0].steps@) == build_steps(builder, context)
    &&& stages[0].next == 0
    &&& stages[0].setup == builder.setup
    &&& assembled(builder, context, stages[0].manager)
    &&& forall|i: int| 0 <= i < outcomes.len() ==> #[trigger] went_on(stages, outcomes, i)
    &&& stages.last().next >= stages.last().steps@.len()
}

/// What holds of every stage.
proof fn lemma_stage(
    builder: Builder,
    context: Context,
    stages: Seq<AppBuild>,
    outcomes: Seq<BuildOutcome>,
    i: int,
)
    requires
        built_through(builder, context, stages, outcomes),
        0 <= i < stages.len(),
    ensures
        stages[i].wf(),
        stages[i].next == i,
        stages[i].steps == stages[0].steps,
        stages[i].setup == builder.setup,
        stages[i].manager.target == builder.target,
    decreases i,
{
    if i > 0 {
        lemma_stage(builder, context, stages, outcomes, i - 1);
        assert(went_on(stages, outcomes, i - 1));
        law_steps_stay_done(stages[i - 1], outcomes[i - 1], stages[i]);
    }
}

/// Plugins and managed state of one stage are there in every later one.
proof fn lemma_stays(
    builder: Builder,
    context: Context,
    stages: Seq<AppBuild>,
    outcomes: Seq<BuildOutcome>,
    key: StateKey,
    plugin: Seq<char>,
    i: int,
    j: int,
)
    requires
        built_through(builder, context, stages, outcomes),
        0 <= i <= j < stages.len(),
    ensures
        stages[i].manager.plugins@.contains(plugin) ==> stages[j].manager.plugins@.contains(plugin),
        stages[i].manager.state@.contains(key) ==> stages[j].manager.state@.contains(key),
    decreases j - i,
{
    if i < j {
        lemma_stays(builder, context, stages, outcomes, key, plugin, i, j - 1);
        assert(went_on(stages, outcomes, j - 1));
        law_building_keeps_what_was_given(stages[j - 1], outcomes[j - 1], stages[j], key, plugin);
    }
}

/// An application that was built has a runtime and the state that its parts need. Where a menu was
/// asked for, the one that was made is its menu and is kept, and it has the tray icon of its
/// configuration. The plugins and the state that the builder was given are there, and so is each
/// plugin that was initialized on the way, which every plugin that the application brings itself
/// was.
pub proof fn law_built_application_is_complete(
    builder: Builder,
    context: Context,
    stages: Seq<AppBuild>,
    outcomes: Seq<BuildOutcome>,
)
    requires
        built_through(builder, context, stages, outcomes),
    ensures
        has_what_it_needs(builder, context, stages.last()),
        stages.last().setup == builder.setup,
        forall|plugin: Seq<char>| #[trigger]
            builder.plugins@.contains(plugin) ==> stages.last().manager.plugins@.contains(plugin),
        forall|key: StateKey| #[trigger]
            builder.state@.contains(key) ==> stages.last().manager.state@.contains(key),
        outcomes.len() == build_steps(builder, context).len(),
        forall|i: int|
            0 <= i < outcomes.len() && (#[trigger] build_steps(builder, context)[i]
                is InitializePlugin) ==> {
                &&& outcomes[i] matches BuildOutcome::PluginInitialized { name }
                &&& stages.last().manager.plugins@.contains(name@)
            },
{
    let end = stages.len() - 1;
    lemma_stage(builder, context, stages, outcomes, end);
    if end > 0 {
        lemma_stage(builder, context, stages, outcomes, end - 1);
        assert(went_on(stages, outcomes, end - 1));
    }
    lemma_all_steps_show(builder, context, stages.last());
    assert forall|plugin: Seq<char>| #[trigger]
        builder.plugins@.contains(plugin) implies stages.last().manager.plugins@.contains(plugin) by {
        lemma_stays(builder, context, stages, outcomes, StateKey::Env, plugin, 0, end);
    }
    assert forall|key: StateKey| #[trigger] builder.state@.contains(key) implies
        stages.last().manager.state@.contains(key) by {
        lemma_stays(builder, context, stages, outcomes, key, Seq::empty(), 0, end);
    }
    assert forall|i: int|
        0 <= i < outcomes.len() && (#[trigger] build_steps(builder, context)[i]
            is InitializePlugin) implies {
        &&& outcomes[i] matches BuildOutcome::PluginInitialized { name }
        &&& stages.last().manager.plugins@.contains(name@)
    } by {
        lemma_stage(builder, context, stages, outcomes, i);
        assert(went_on(stages, outcomes, i));
        assert(views(stages[i].steps@)[i] == stages[i].steps@[i]@);
        if let BuildOutcome::PluginInitialized { name } = outcomes[i] {
            crate::plugin::law_register_then_remove(stages[i].manager.plugins@, name@);
            lemma_stays(builder, context, stages, outcomes, StateKey::Env, name@, i + 1, end);
        }
    }
}

/// What has to come first while an application is built: the runtime, then its handlers and filter,
/// the menu, the plugins that the application brings itself, the state, the webview, the tray icon,
/// and at last the plugins of the builder.
pub open spec fn step_rank(step: BuildStepView) -> int {
    match step {
        BuildStepView::CreateRuntime { .. } => 0,
        BuildStepView::SetMenuEventHandler => 1,
        BuildStepView::SetTrayEventHandler => 2,
        BuildStepView::SetDeviceEventFilter(_) => 3,
        BuildStepView::CreateMenu(_) => 4,
        BuildStepView::InitAppMenu => 5,
        BuildStepView::InitializePlugin { plugin, .. } => match plugin {
            CorePlugin::Path => 6,
            CorePlugin::Event => 7,
            CorePlugin::Window => 8,
            CorePlugin::Webview => 9,
            CorePlugin::App => 10,
            CorePlugin::Resources => 11,
            CorePlugin::Image => 12,
            CorePlugin::Menu => 13,
            CorePlugin::Tray => 14,
            CorePlugin::Channel => 19,
        },
        BuildStepView::Manage(key) => match key {
            StateKey::Env => 15,
            StateKey::Scopes => 17,
            StateKey::ChannelDataIpcQueue => 18,
            StateKey::User(_) => 23,
        },
        BuildStepView::CreateAssetScope { .. } => 16,
        BuildStepView::SetWebviewFolder { .. } => 20,
        BuildStepView::BuildTrayIcon(_) => 21,
        BuildStepView::InitializePlugins => 22,
    }
}

/// Whether steps come in their order, each kind once, and have ranks from `low` up to `high`.
pub open spec fn ranked(steps: Seq<BuildStepView>, low: int, high: int) -> bool {
    &&& forall|i: int| 0 <= i < steps.len() ==> low <= step_rank(#[trigger] steps[i]) < high
    &&& forall|i: int, j: int|
        #![trigger steps[i], steps[j]]
        0 <= i < j < steps.len() ==> step_rank(steps[i]) < step_rank(steps[j])
}

/// Lists of which one has to come before the other come in their order together.
proof fn lemma_ranked_add(
    one: Seq<BuildStepView>,
    other: Seq<BuildStepView>,
    low: int,
    middle: int,
    high: int,
)
    requires
        ranked(one, low, middle),
        ranked(other, middle, high),
        low <= middle <= high,
    ensures
        ranked(one + other, low, high),
{
    let all = one + other;
    assert forall|i: int| 0 <= i < all.len() implies low <= step_rank(#[trigger] all[i]) < high by {
        if i < one.len() {
            assert(all[i] == one[i]);
        } else {
            assert(all[i] == other[i - one.len()]);
        }
    }
    assert forall|i: int, j: int| #![trigger all[i], all[j]] 0 <= i < j < all.len() implies step_rank(
        all[i],
    ) < step_rank(all[j]) by {
        if j < one.len() {
            assert(all[i] == one[i] && all[j] == one[j]);
        } else if i < one.len() {
            assert(all[i] == one[i] && all[j] == other[j - one.len()]);
        } else {
            assert(all[i] == other[i - one.len()] && all[j] == other[j - one.len()]);
        }
    }
}

/// A step stands in two lists together if it stands in one of them.
proof fn lemma_in_either(one: Seq<BuildStepView>, other: Seq<BuildStepView>, step: BuildStepView)
    ensures
        (one + other).contains(step) <==> one.contains(step) || other.contains(step),
{
    let all = one + other;
    if one.contains(step) {
        assert(all[one.index_of(step)] == step);
    }
    if other.contains(step) {
        assert(all[one.len() + other.index_of(step)] == step);
    }
    if all.contains(step) {
        let k = all.index_of(step);
        if k < one.len() {
            assert(one[k] == step);
        } else {
            assert(other[k - one.len()] == step);
        }
    }
}

/// A single step, if it is taken.
proof fn lemma_one(condition: bool, step: BuildStepView, other: BuildStepView)
    ensures
        ranked(step_if(condition, step), step_rank(step), step_rank(step) + 1),
        step_if(condition, step).contains(other) <==> condition && other == step,
        ranked(seq![step], step_rank(step), step_rank(step) + 1),
        seq![step].contains(other) <==> other == step,
{
    assert(seq![step][0] == step);
}

/// Which steps come until the event loop stands.
proof fn lemma_runtime_steps(builder: Builder, config: Config, step: BuildStepView)
    ensures
        ranked(runtime_steps(builder, config), 0, 4),
        runtime_steps(builder, config).contains(step) <==> match step {
            BuildStepView::CreateRuntime { any_thread, app_id, msg_hook } => {
                &&& any_thread == (builder.runtime_any_thread && (builder.target.os is Windows
                    || builder.target.os is Linux))
                &&& app_id == (if config.app.enable_gtk_app_id && (builder.target.os is Linux
                    || builder.target.os is DragonFly || builder.target.os is FreeBsd
                    || builder.target.os is NetBsd || builder.target.os is OpenBsd) {
                    Some(config.identifier)
                } else {
                    None
                })
                &&& msg_hook == (builder.target.os is Windows)
            },
            BuildStepView::SetMenuEventHandler => !(builder.target.os is Ios
                || builder.target.os is Android),
            BuildStepView::SetTrayEventHandler => builder.target.tray_icon && !(builder.target.os
                is Ios || builder.target.os is Android),
            BuildStepView::SetDeviceEventFilter(filter) => filter == builder.device_event_filter,
            _ => false,
        },
{
    let target = builder.target;
    let create = runtime_steps(builder, config)[0];
    let menu = BuildStepView::SetMenuEventHandler;
    let tray = BuildStepView::SetTrayEventHandler;
    let filter = BuildStepView::SetDeviceEventFilter(builder.device_event_filter);
    let a = seq![create];
    let b = step_if(target.is_desktop(), menu);
    let c = step_if(target.has_tray(), tray);
    let d = seq![filter];
    assert(runtime_steps(builder, config) =~= a + b + c + d);
    lemma_one(true, create, step);
    lemma_one(target.is_desktop(), menu, step);
    lemma_one(target.has_tray(), tray, step);
    lemma_one(true, filter, step);
    lemma_ranked_add(a, b, 0, 1, 2);
    lemma_ranked_add(a + b, c, 0, 2, 3);
    lemma_ranked_add(a + b + c, d, 0, 3, 4);
    lemma_in_either(a, b, step);
    lemma_in_either(a + b, c, step);
    lemma_in_either(a + b + c, d, step);
}

/// Which steps make the menu.
proof fn lemma_menu_steps(builder: Builder, step: BuildStepView)
    ensures
        ranked(menu_steps(builder.target, menu_factory(builder)), 4, 6),
        menu_steps(builder.target, menu_factory(builder)).contains(step) <==> match step {
            BuildStepView::CreateMenu(factory) => {
                &&& !(builder.target.os is Ios || builder.target.os is Android)
                &&& match builder.menu {
                    Some(given) => factory == given,
                    None => factory == MenuFactory::Default && builder.target.os is MacOs
                        && builder.enable_macos_default_menu,
                }
            },
            BuildStepView::InitAppMenu => builder.target.os is MacOs && (builder.menu is Some
                || builder.enable_macos_default_menu),
            _ => false,
        },
{
    let target = builder.target;
    if let Some(factory) = menu_factory(builder) {
        if target.is_desktop() {
            let create = BuildStepView::CreateMenu(factory);
            let init = BuildStepView::InitAppMenu;
            lemma_one(true, create, step);
            lemma_one(target.is_macos(), init, step);
            lemma_ranked_add(seq![create], step_if(target.is_macos(), init), 4, 5, 6);
            lemma_in_either(seq![create], step_if(target.is_macos(), init), step);
        }
    }
}

/// Which plugins the application brings itself.
proof fn lemma_plugin_steps(target: Target, config: Config, step: BuildStepView)
    ensures
        ranked(plugin_steps(crate::app::core_plugins(target), config), 6, 15),
        plugin_steps(crate::app::core_plugins(target), config).contains(step) <==> match step {
            BuildStepView::InitializePlugin { plugin, config: section } => section
                == config.plugins && match plugin {
                CorePlugin::Channel => false,
                CorePlugin::Menu => !(target.os is Ios || target.os is Android),
                CorePlugin::Tray => target.tray_icon && !(target.os is Ios || target.os
                    is Android),
                _ => true,
            },
            _ => false,
        },
{
    let plugins = crate::app::core_plugins(target);
    let steps = plugin_steps(plugins, config);
    crate::app::law_core_plugins(target);
    assert(plugins =~= plugins.take(7) + plugins.skip(7));
    assert(steps.len() == plugins.len());
    assert forall|i: int| 0 <= i < steps.len() implies #[trigger] steps[i]
        == (BuildStepView::InitializePlugin { plugin: plugins[i], config: config.plugins }) && step_rank(
        steps[i],
    ) == 6 + i by {
        if i < 7 {
            assert(plugins[i] == plugins.take(7)[i]);
        } else {
            assert(plugins[i] == plugins.skip(7)[i - 7]);
        }
    }
    if let BuildStepView::InitializePlugin { plugin, config: section } = step {
        if section == config.plugins && !(plugin is Channel) {
            let at = step_rank(step) - 6;
            if at < plugins.len() {
                assert(steps[at] == step) by {
                    if at < 7 {
                        assert(plugins[at] == plugins.take(7)[at]);
                    } else {
                        assert(plugins[at] == plugins.skip(7)[at - 7]);
                    }
                }
            }
        }
    }
    if steps.contains(step) {
        let i = steps.index_of(step);
        assert(steps[i] == step);
        assert(step_rank(step) == 6 + i);
    }
}

/// Which steps fill the managed state.
proof fn lemma_state_steps(target: Target, config: Config, step: BuildStepView)
    ensures
        ranked(state_steps(target, config), 15, 20),
        state_steps(target, config).contains(step) <==> match step {
            BuildStepView::Manage(key) => !(key is User),
            BuildStepView::CreateAssetScope { scope } => target.protocol_asset && scope
                == config.app.security.asset_protocol.scope,
            BuildStepView::InitializePlugin { plugin, config: section } => plugin is Channel
                && section == config.plugins,
            _ => false,
        },
{
    let env = BuildStepView::Manage(StateKey::Env);
    let scope = BuildStepView::CreateAssetScope {
        scope: config.app.security.asset_protocol.scope,
    };
    let scopes = BuildStepView::Manage(StateKey::Scopes);
    let queue = BuildStepView::Manage(StateKey::ChannelDataIpcQueue);
    let channel = BuildStepView::InitializePlugin {
        plugin: CorePlugin::Channel,
        config: config.plugins,
    };
    let a = seq![env];
    let b = step_if(target.protocol_asset, scope);
    let c = seq![scopes];
    let d = seq![queue];
    let e = seq![channel];
    assert(state_steps(target, config) =~= a + b + c + d + e);
    lemma_one(true, env, step);
    lemma_one(target.protocol_asset, scope, step);
    lemma_one(true, scopes, step);
    lemma_one(true, queue, step);
    lemma_one(true, channel, step);
    lemma_ranked_add(a, b, 15, 16, 17);
    lemma_ranked_add(a + b, c, 15, 17, 18);
    lemma_ranked_add(a + b + c, d, 15, 18, 19);
    lemma_ranked_add(a + b + c + d, e, 15, 19, 20);
    lemma_in_either(a, b, step);
    lemma_in_either(a + b, c, step);
    lemma_in_either(a + b + c, d, step);
    lemma_in_either(a + b + c + d, e, step);
}

/// Which steps find the webview, build the tray icon and initialize the plugins.
proof fn lemma_last_steps(target: Target, config: Config, with_picture: bool, step: BuildStepView)
    ensures
        ranked(webview_steps(target, config), 20, 21),
        webview_steps(target, config).contains(step) <==> (step
            matches BuildStepView::SetWebviewFolder { path } && target.os is Windows
            && config.webview_install_mode == (WebviewInstallMode::FixedRuntime { path })),
        ranked(tray_steps(target, config, with_picture), 21, 22),
        tray_steps(target, config, with_picture).contains(step) <==> (step
            matches BuildStepView::BuildTrayIcon(request) && target.tray_icon && !(target.os is Ios
            || target.os is Android) && (config.app.tray_icon matches Some(tray) && request.id == (
        match tray.id {
            Some(id) => id@,
            None => "main"@,
        }) && request.icon_as_template == tray.icon_as_template && request.menu_on_left_click
            == tray.menu_on_left_click && request.with_picture == with_picture && request.title
            == tray.title && request.tooltip == tray.tooltip)),
        ranked(seq![BuildStepView::InitializePlugins], 22, 23),
        seq![BuildStepView::InitializePlugins].contains(step) <==> step is InitializePlugins,
{
    lemma_one(true, BuildStepView::InitializePlugins, step);
    if webview_steps(target, config).len() > 0 {
        lemma_one(true, webview_steps(target, config)[0], step);
        assert(webview_steps(target, config) =~= seq![webview_steps(target, config)[0]]);
    }
    let tray = tray_steps(target, config, with_picture);
    if tray.len() > 0 {
        lemma_one(true, tray[0], step);
        assert(tray =~= seq![tray[0]]);
    }
}

/// Which steps building an application takes, on each system and for each builder and context: these
/// and no others, each once, and in their order.
pub proof fn law_building_takes_its_steps_in_order(
    builder: Builder,
    context: Context,
    step: BuildStepView,
)
    ensures
        ranked(build_steps(builder, context), 0, 23),
        build_steps(builder, context).contains(step) <==> match step {
            BuildStepView::CreateRuntime { any_thread, app_id, msg_hook } => {
                &&& any_thread == (builder.runtime_any_thread && (builder.target.os is Windows
                    || builder.target.os is Linux))
                &&& app_id == (if context.config.app.enable_gtk_app_id && (builder.target.os
                    is Linux || builder.target.os is DragonFly || builder.target.os is FreeBsd
                    || builder.target.os is NetBsd || builder.target.os is OpenBsd) {
                    Some(context.config.identifier)
                } else {
                    None
                })
                &&& msg_hook == (builder.target.os is Windows)
            },
            BuildStepView::SetMenuEventHandler => !(builder.target.os is Ios
                || builder.target.os is Android),
            BuildStepView::SetTrayEventHandler => builder.target.tray_icon && !(builder.target.os
                is Ios || builder.target.os is Android),
            BuildStepView::SetDeviceEventFilter(filter) => filter == builder.device_event_filter,
            BuildStepView::CreateMenu(factory) => {
                &&& !(builder.target.os is Ios || builder.target.os is Android)
                &&& match builder.menu {
                    Some(given) => factory == given,
                    None => factory == MenuFactory::Default && builder.target.os is MacOs
                        && builder.enable_macos_default_menu,
                }
            },
            BuildStepView::InitAppMenu => builder.target.os is MacOs && (builder.menu is Some
                || builder.enable_macos_default_menu),
            BuildStepView::InitializePlugin { plugin, config } => config == context.config.plugins
                && match plugin {
                CorePlugin::Menu => !(builder.target.os is Ios || builder.target.os is Android),
                CorePlugin::Tray => builder.target.tray_icon && !(builder.target.os is Ios
                    || builder.target.os is Android),
                _ => true,
            },
            BuildStepView::Manage(key) => !(key is User),
            BuildStepView::CreateAssetScope { scope } => builder.target.protocol_asset && scope
                == context.config.app.security.asset_protocol.scope,
            BuildStepView::SetWebviewFolder { path } => builder.target.os is Windows
                && context.config.webview_install_mode == (WebviewInstallMode::FixedRuntime {
                path,
            }),
            BuildStepView::BuildTrayIcon(request) => {
                &&& builder.target.tray_icon
                &&& !(builder.target.os is Ios || builder.target.os is Android)
                &&& context.config.app.tray_icon matches Some(tray)
                &&& request.id == (match tray.id {
                    Some(id) => id@,
                    None => "main"@,
                })
                &&& request.icon_as_template == tray.icon_as_template
                &&& request.menu_on_left_click == tray.menu_on_left_click
                &&& request.with_picture == (context.tray_icon is Some)
                &&& request.title == tray.title
                &&& request.tooltip == tray.tooltip
            },
            BuildStepView::InitializePlugins => true,
        },
{
    let target = builder.target;
    let config = context.config;
    let a = runtime_steps(builder, config);
    let b = menu_steps(target, menu_factory(builder));
    let c = plugin_steps(crate::app::core_plugins(target), config);
    let d = state_steps(target, config);
    let e = webview_steps(target, config);
    let f = tray_steps(target, config, context.tray_icon is Some);
    let g = seq![BuildStepView::InitializePlugins];
    lemma_runtime_steps(builder, config, step);
    lemma_menu_steps(builder, step);
    lemma_plugin_steps(target, config, step);
    lemma_state_steps(target, config, step);
    lemma_last_steps(target, config, context.tray_icon is Some, step);
    lemma_all_ranked((a, b, c, d), (e, f, g), step);
    assert(build_steps(builder, context) == a + b + c + d + e + f + g);
}

/// The parts come in their order together.
proof fn lemma_all_ranked(
    first: (Seq<BuildStepView>, Seq<BuildStepView>, Seq<BuildStepView>, Seq<BuildStepView>),
    last: (Seq<BuildStepView>, Seq<BuildStepView>, Seq<BuildStepView>),
    step: BuildStepView,
)
    requires
        ranked(first.0, 0, 4),
        ranked(first.1, 4, 6),
        ranked(first.2, 6, 15),
        ranked(first.3, 15, 20),
        ranked(last.0, 20, 21),
        ranked(last.1, 21, 22),
        ranked(last.2, 22, 23),
    ensures
        ranked(first.0 + first.1 + first.2 + first.3 + last.0 + last.1 + last.2, 0, 23),
        (first.0 + first.1 + first.2 + first.3 + last.0 + last.1 + last.2).contains(step)
            <==> first.0.contains(step) || first.1.contains(step) || first.2.contains(step)
            || first.3.contains(step) || last.0.contains(step) || last.1.contains(step)
            || last.2.contains(step),
{
    let two = first.0 + first.1;
    let three = two + first.2;
    let four = three + first.3;
    let five = four + last.0;
    let six = five + last.1;
    lemma_ranked_add(first.0, first.1, 0, 4, 6);
    lemma_ranked_add(two, first.2, 0, 6, 15);
    lemma_ranked_add(three, first.3, 0, 15, 20);
    lemma_ranked_add(four, last.0, 0, 20, 21);
    lemma_ranked_add(five, last.1, 0, 21, 22);
    lemma_ranked_add(six, last.2, 0, 22, 23);
    lemma_in_either(first.0, first.1, step);
    lemma_in_either(two, first.2, step);
    lemma_in_either(three, first.3, step);
    lemma_in_either(four, last.0, step);
    lemma_in_either(five, last.1, step);
    lemma_in_either(six, last.2, step);
}

/// The runtime is told the filter that the builder was given, whatever it is, and it is told one
/// once.
pub proof fn law_the_given_filter_is_set(
    builder: Builder,
    context: Context,
    i: int,
    j: int,
    filter: DeviceEventFilter,
)
    ensures
        build_steps(builder, context).contains(BuildStepView::SetDeviceEventFilter(filter))
            <==> filter == builder.device_event_filter,
        0 <= i < j < build_steps(builder, context).len() && build_steps(builder, context)[i]
            is SetDeviceEventFilter ==> !(build_steps(builder, context)[j]
            is SetDeviceEventFilter),
{
    law_building_takes_its_steps_in_order(
        builder,
        context,
        BuildStepView::SetDeviceEventFilter(filter),
    );
}

/// What no step touches is in every stage what it was in the first.
proof fn lemma_untouched(
    builder: Builder,
    context: Context,
    stages: Seq<AppBuild>,
    outcomes: Seq<BuildOutcome>,
    j: int,
)
    requires
        built_through(builder, context, stages, outcomes),
        0 <= j < stages.len(),
    ensures
        ({
            let first = stages[0].manager;
            let now = stages[j].manager;
            now == (AppManager {
                menu: MenuManager { stash: now.menu.stash, menu: now.menu.menu, ..first.menu },
                tray: TrayManager { icons: now.tray.icons, ..first.tray },
                plugins: now.plugins,
                state: now.state,
                ..first
            })
        }),
    decreases j,
{
    if j > 0 {
        lemma_untouched(builder, context, stages, outcomes, j - 1);
        assert(went_on(stages, outcomes, j - 1));
        law_building_keeps_what_was_given(
            stages[j - 1],
            outcomes[j - 1],
            stages[j],
            StateKey::Env,
            Seq::empty(),
        );
    }
}

/// A built application has everything that its builder and its context were given: its handlers and
/// listeners, its protocols, its script and its key, its configuration, its assets and its icons. No
/// window and no webview is there yet.
pub proof fn law_built_application_has_what_was_given(
    builder: Builder,
    context: Context,
    stages: Seq<AppBuild>,
    outcomes: Seq<BuildOutcome>,
    label: Seq<char>,
)
    requires
        built_through(builder, context, stages, outcomes),
    ensures
        ({
            let built = stages.last().manager;
            &&& built.target == builder.target
            &&& built.invoke_handler == builder.invoke_handler
            &&& built.on_page_load == builder.on_page_load
            &&& built.uri_scheme_protocols == builder.uri_scheme_protocols
            &&& built.menu.global_event_listeners == builder.menu_event_listeners
            &&& built.window_event_listeners == builder.window_event_listeners
            &&& built.webview_event_listeners == builder.webview_event_listeners
            &&& built.invoke_initialization_script == builder.invoke_initialization_script
            &&& built.invoke_key == builder.invoke_key
            &&& built.config == context.config
            &&& built.package_info == context.package_info
            &&& built.config_parent == context.config_parent
            &&& built.assets == context.assets
            &&& built.app_icon == context.app_icon
            &&& built.default_window_icon == context.default_window_icon
            &&& built.tray.icon == context.tray_icon
            &&& !built.windows@.contains_key(label)
            &&& !built.webviews@.contains_key(label)
            &&& !built.menu.event_listeners@.contains_key(label)
            &&& !built.tray.event_listeners@.contains_key(label)
            &&& built.tray.global_event_listeners@.len() == 0
            &&& built.resources.ids@.len() == 0
        }),
{
    lemma_untouched(builder, context, stages, outcomes, stages.len() - 1);
}

/// Two steps at different places are not of the same kind.
proof fn lemma_kinds_differ(builder: Builder, context: Context, build: AppBuild, i: int, j: int)
    requires
        views(build.steps@) == build_steps(builder, context),
        0 <= i < j < build.steps@.len(),
    ensures
        step_rank(build.steps@[i]@) < step_rank(build.steps@[j]@),
{
    law_building_takes_its_steps_in_order(builder, context, BuildStepView::InitializePlugins);
    assert(views(build.steps@)[i] == build.steps@[i]@);
    assert(views(build.steps@)[j] == build.steps@[j]@);
}

/// The runtime and the menu of a stage, once they were made.
proof fn lemma_made(
    builder: Builder,
    context: Context,
    stages: Seq<AppBuild>,
    outcomes: Seq<BuildOutcome>,
    i: int,
    j: int,
)
    requires
        built_through(builder, context, stages, outcomes),
        0 <= i < j < stages.len(),
    ensures
        outcomes[i] matches BuildOutcome::RuntimeCreated { runtime, handle } ==> stages[j].runtime
            == Some((runtime, handle)),
        outcomes[i] matches BuildOutcome::MenuCreated(menu) ==> crate::menu::same_menu(
            stages[j].menu,
            Some(menu),
        ),
    decreases j - i,
{
    lemma_stage(builder, context, stages, outcomes, i);
    assert(went_on(stages, outcomes, i));
    if i + 1 < j {
        lemma_made(builder, context, stages, outcomes, i, j - 1);
        lemma_stage(builder, context, stages, outcomes, j - 1);
        assert(went_on(stages, outcomes, j - 1));
        lemma_kinds_differ(builder, context, stages[0], i, j - 1);
    }
}

/// What the host makes on the way is what the application has in the end: the runtime that was
/// created, and the menu that was made, with its id and its items. The first step creates the
/// runtime.
pub proof fn law_built_application_has_what_was_made(
    builder: Builder,
    context: Context,
    stages: Seq<AppBuild>,
    outcomes: Seq<BuildOutcome>,
    i: int,
)
    requires
        built_through(builder, context, stages, outcomes),
        0 <= i < outcomes.len(),
    ensures
        outcomes[i] matches BuildOutcome::RuntimeCreated { runtime, handle }
            ==> stages.last().runtime == Some((runtime, handle)),
        outcomes[i] matches BuildOutcome::MenuCreated(menu) ==> {
            &&& stages.last().manager.menu.menu matches Some(shown)
            &&& shown.id@ == menu.id@
            &&& shown.items@ == menu.items@
        },
        outcomes[i] is RuntimeCreated <==> i == 0,
{
    let end = stages.len() - 1;
    lemma_made(builder, context, stages, outcomes, i, end);
    lemma_stage(builder, context, stages, outcomes, i);
    lemma_stage(builder, context, stages, outcomes, end);
    assert(went_on(stages, outcomes, i));
    assert(views(stages[i].steps@)[i] == stages[i].steps@[i]@);
    law_built_application_is_complete(builder, context, stages, outcomes);
    let steps = build_steps(builder, context);
    lemma_first_step(builder, context, i);
    if let BuildOutcome::MenuCreated(menu) = outcomes[i] {
        if let BuildStepView::CreateMenu(factory) = steps[i] {
            assert(steps.contains(steps[i]));
            law_building_takes_its_steps_in_order(builder, context, steps[i]);
        }
    }
}

/// The runtime is created by the first step and no other.
proof fn lemma_first_step(builder: Builder, context: Context, i: int)
    requires
        0 <= i < build_steps(builder, context).len(),
    ensures
        build_steps(builder, context)[i] is CreateRuntime <==> i == 0,
{
    let steps = build_steps(builder, context);
    let create = runtime_steps(builder, context.config)[0];
    assert(create is CreateRuntime);
    assert(runtime_steps(builder, context.config).contains(create));
    lemma_is_built(builder, context, create);
    law_building_takes_its_steps_in_order(builder, context, create);
    let at = steps.index_of(create);
    assert(steps[at] == create);
    if at > 0 {
        assert(step_rank(steps[0]) < step_rank(steps[at]));
    }
    if i > 0 {
        assert(step_rank(steps[0]) < step_rank(steps[i]));
    }
}

/// Where the plugins and the state of a stage come from.
proof fn lemma_nothing_else(
    builder: Builder,
    context: Context,
    stages: Seq<AppBuild>,
    outcomes: Seq<BuildOutcome>,
    name: Seq<char>,
    key: StateKey,
    j: int,
)
    requires
        built_through(builder, context, stages, outcomes),
        0 <= j < stages.len(),
    ensures
        stages[j].manager.plugins@.contains(name) ==> builder.plugins@.contains(name) || exists|
            i: int,
        |
            0 <= i < j && (#[trigger] outcomes[i] matches BuildOutcome::PluginInitialized {
                name: own,
            } && own@ == name),
        stages[j].manager.state@.contains(key) ==> builder.state@.contains(key) || !(key is User),
    decreases j,
{
    if j > 0 {
        lemma_nothing_else(builder, context, stages, outcomes, name, key, j - 1);
        lemma_stage(builder, context, stages, outcomes, j - 1);
        assert(went_on(stages, outcomes, j - 1));
        let before = stages[j - 1];
        assert(views(before.steps@)[j - 1] == before.steps@[j - 1]@);
        let step = build_steps(builder, context)[j - 1];
        assert(build_steps(builder, context).contains(step));
        law_building_takes_its_steps_in_order(builder, context, step);
        if let BuildOutcome::PluginInitialized { name: own } = outcomes[j - 1] {
            crate::plugin::law_register_then_remove(before.manager.plugins@, own@);
        }
    }
}

/// A built application has no plugin but those of its builder and those that were initialized on
/// the way, and manages no type of the user that its builder did not.
pub proof fn law_built_application_has_nothing_else(
    builder: Builder,
    context: Context,
    stages: Seq<AppBuild>,
    outcomes: Seq<BuildOutcome>,
    name: Seq<char>,
    key: StateKey,
)
    requires
        built_through(builder, context, stages, outcomes),
    ensures
        stages.last().manager.plugins@.contains(name) ==> builder.plugins@.contains(name)
            || exists|i: int|
            0 <= i < outcomes.len() && (#[trigger] outcomes[i]
                matches BuildOutcome::PluginInitialized { name: own } && own@ == name),
        stages.last().manager.state@.contains(key) && key is User ==> builder.state@.contains(key),
{
    lemma_nothing_else(builder, context, stages, outcomes, name, key, stages.len() - 1);
}

/// What a step says is what is done.
pub proof fn law_build_steps_are_told_apart(one: BuildStep, other: BuildStep)
    requires
        one@ == other@,
    ensures
        match (one, other) {
            (BuildStep::BuildTrayIcon(a), BuildStep::BuildTrayIcon(b)) => {
                &&& a.id@ == b.id@
                &&& a.icon_as_template == b.icon_as_template
                &&& a.menu_on_left_click == b.menu_on_left_click
                &&& a.with_picture == b.with_picture
                &&& a.title == b.title
                &&& a.tooltip == b.tooltip
            },
            _ => one == other,
        },
{
}

/// Which steps can fail: creating the runtime, making and showing the menu, initializing plugins,
/// making the scope and building the tray icon. Every step can be taken too, and what it then makes
/// is its own.
pub proof fn law_which_steps_can_fail(step: BuildStepView, outcome: BuildOutcome)
    ensures
        outcome is Failed ==> (fits(step, outcome) <==> step is CreateRuntime || step is CreateMenu
            || step is InitAppMenu || step is InitializePlugin || step is CreateAssetScope || step
            is BuildTrayIcon || step is InitializePlugins),
        outcome is RuntimeCreated ==> (fits(step, outcome) <==> step is CreateRuntime),
        outcome is MenuCreated ==> (fits(step, outcome) <==> step is CreateMenu),
        outcome is PluginInitialized ==> (fits(step, outcome) <==> step is InitializePlugin),
        outcome is Done ==> (fits(step, outcome) <==> !(step is CreateRuntime || step is CreateMenu
            || step is InitializePlugin)),
{
}

/// Steps that are taken one after the other are counted one after the other, none is passed over,
/// and none changes which steps there are.
pub proof fn law_no_step_is_passed_over(before: AppBuild, outcome: BuildOutcome, after: AppBuild)
    requires
        resumed(before, outcome, after),
    ensures
        after.next == before.next + 1,
        after.steps == before.steps,
        !(outcome is RuntimeCreated) ==> after.runtime == before.runtime,
        !(outcome is MenuCreated) ==> after.menu == before.menu,
{
}

/// What the steps say is said of each of them, in their order.
pub proof fn law_every_step_is_said(steps: Seq<BuildStep>, i: int)
    requires
        0 <= i < steps.len(),
    ensures
        views(steps).len() == steps.len(),
        views(steps)[i] == steps[i]@,
{
}

} // verus!
