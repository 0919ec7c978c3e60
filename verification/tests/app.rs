use tauri_app::app::{
    on_event, setup, App, IterationStep, LoopMode, RunStep, SetupPlace, SetupProgress, SetupStep,
};
use tauri_app::app_build::{BuildOutcome, BuildStep};
use tauri_app::asset::AssetResolver;
use tauri_app::builder::{Builder, IpcScripts};
use tauri_app::config::{
    AppConfig, AssetProtocolConfig, BuildConfig, Config, Context, PackageInfo, SecurityConfig,
    WebviewInstallMode, WindowConfig,
};
use tauri_app::error::Error;
use tauri_app::event::{DoubleBits, PrecisePosition, RuntimeRunEvent, Theme};
use tauri_app::handle::{AppHandle, MenuTheme};
use tauri_app::hook::HookId;
use tauri_app::listen::{EmitCall, EventId, EventTarget, ListenCall};
use tauri_app::manager::{ResourceTable, TrayIcon, Window};
use tauri_app::menu::{Menu, WindowMenu};
use tauri_app::menu_change::{MenuStep, MenuTurn};
use tauri_app::plugin::CorePlugin;
use tauri_app::runtime::{
    ActivationPolicy, DeviceEventFilter, Runtime, RuntimeCall, RuntimeHandle, RuntimeOrDispatch,
    RuntimeRequest,
};
use tauri_app::series::Progress;
use tauri_app::target::{Os, Target};

fn target(os: Os) -> Target {
    Target { os, dev: false, tray_icon: true, protocol_asset: true }
}

fn scripts() -> IpcScripts {
    IpcScripts {
        template: "run(__RAW_process_ipc_message_fn__, __TEMPLATE_os_name__, \
                   __TEMPLATE_fetch_channel_data_command__, __TEMPLATE_invoke_key__)"
            .to_string(),
        process_ipc_message_fn: "m => m".to_string(),
        fetch_channel_data_command: "fetch".to_string(),
    }
}

fn builder(target: Target) -> Builder {
    Builder::new(target, &scripts(), "key".to_string())
}

fn plugins_section() -> String {
    "{\"mine\":{\"level\":3}}".to_string()
}

fn context() -> Context {
    Context {
        config: Config {
            identifier: "com.example.app".to_string(),
            app: AppConfig {
                windows: vec![],
                tray_icon: None,
                security: SecurityConfig {
                    asset_protocol: AssetProtocolConfig { scope: "[\"$APPDATA/**\"]".to_string() },
                },
                enable_gtk_app_id: false,
            },
            build: BuildConfig { dev_url: None, frontend_dist: None },
            webview_install_mode: WebviewInstallMode::DownloadBootstrapper,
            plugins: plugins_section(),
        },
        package_info: PackageInfo {
            name: "app".to_string(),
            version: "1.0.0".to_string(),
            authors: "".to_string(),
            description: "".to_string(),
        },
        assets: vec![],
        default_window_icon: None,
        app_icon: None,
        tray_icon: None,
        config_parent: None,
    }
}

fn menu(id: &str) -> Menu {
    Menu { id: id.to_string(), items: vec![] }
}

fn outcome(step: &BuildStep) -> BuildOutcome {
    match step {
        BuildStep::CreateRuntime { .. } => {
            BuildOutcome::RuntimeCreated { runtime: Runtime(1), handle: RuntimeHandle(2) }
        }
        BuildStep::CreateMenu(_) => BuildOutcome::MenuCreated(menu("main-menu")),
        BuildStep::InitializePlugin { plugin, .. } => {
            BuildOutcome::PluginInitialized { name: format!("core-{:?}", plugin) }
        }
        _ => BuildOutcome::Done,
    }
}

fn build(builder: Builder, context: Context) -> App {
    let mut build = builder.build(context);
    while let Some(step) = build.step() {
        let outcome = outcome(step);
        build = match build.resume(outcome) {
            Ok(build) => build,
            Err(error) => panic!("{:?}", error),
        };
    }
    build.finish().unwrap()
}

fn window(label: &str, create: bool) -> WindowConfig {
    WindowConfig { label: label.to_string(), create, options: "{}".to_string() }
}

fn app_with_windows(builder: Builder) -> App {
    let mut context = context();
    context.config.app.windows = vec![window("a", true), window("b", false), window("c", true)];
    build(builder, context)
}

fn assert_send<T: Send>() {}

fn assert_sync<T: Sync>() {}

#[test]
fn is_send_sync() {
    assert_send::<AppHandle>();
    assert_sync::<AppHandle>();
    assert_send::<AssetResolver>();
    assert_sync::<AssetResolver>();
}

#[test]
fn setup_creates_windows_then_assets_then_runs_the_hook() {
    let mut app = app_with_windows(builder(target(Os::Linux)).setup(HookId(7)));
    assert!(!app.ran_setup);
    let mut machine = setup(&mut app);
    assert!(app.ran_setup);
    let mut steps = vec![];
    loop {
        match machine.resume(&mut app, Ok(())) {
            SetupProgress::Perform(step) => steps.push(step),
            SetupProgress::Finished(result) => {
                assert_eq!(result, Ok(()));
                break;
            }
        }
    }
    assert_eq!(
        steps,
        vec![
            SetupStep::CreateWindow(0),
            SetupStep::CreateWindow(2),
            SetupStep::SetupAssets,
            SetupStep::RunHook(HookId(7)),
        ]
    );
    assert_eq!(app.setup, None);
}

#[test]
fn the_setup_hook_runs_only_once() {
    let mut app = app_with_windows(builder(target(Os::Linux)).setup(HookId(7)));
    let mut hooks = 0;
    for _ in 0..2 {
        let mut machine = setup(&mut app);
        while let SetupProgress::Perform(step) = machine.resume(&mut app, Ok(())) {
            if step == SetupStep::RunHook(HookId(7)) {
                hooks += 1;
            }
        }
    }
    assert_eq!(hooks, 1);
}

#[test]
fn a_window_that_fails_ends_the_setup() {
    let mut app = app_with_windows(builder(target(Os::Linux)).setup(HookId(7)));
    let mut machine = setup(&mut app);
    assert_eq!(
        machine.resume(&mut app, Ok(())),
        SetupProgress::Perform(SetupStep::CreateWindow(0))
    );
    assert_eq!(
        machine.resume(&mut app, Err(Error::Other("no display".to_string()))),
        SetupProgress::Finished(Err(Error::Other("no display".to_string())))
    );
    assert_eq!(machine.place, SetupPlace::Over);
    assert!(app.ran_setup);
    assert!(app.setup.is_some());
}

#[test]
fn a_hook_that_fails_is_a_setup_error() {
    let mut app = build(builder(target(Os::Linux)).setup(HookId(7)), context());
    let mut machine = setup(&mut app);
    assert_eq!(machine.resume(&mut app, Ok(())), SetupProgress::Perform(SetupStep::SetupAssets));
    assert_eq!(
        machine.resume(&mut app, Ok(())),
        SetupProgress::Perform(SetupStep::RunHook(HookId(7)))
    );
    assert_eq!(
        machine.resume(&mut app, Err(Error::Other("no".to_string()))),
        SetupProgress::Finished(Err(Error::Setup(Box::new(Error::Other("no".to_string())))))
    );
}

#[test]
fn setup_without_a_hook_ends_with_the_assets() {
    let mut app = build(builder(target(Os::Linux)), context());
    let mut machine = setup(&mut app);
    assert_eq!(machine.resume(&mut app, Ok(())), SetupProgress::Perform(SetupStep::SetupAssets));
    assert_eq!(machine.resume(&mut app, Ok(())), SetupProgress::Finished(Ok(())));
    assert_eq!(app.setup, None);
}

#[test]
fn run_sets_up_when_ready_and_cleans_up_at_exit() {
    assert_eq!(
        on_event(LoopMode::Run, &RuntimeRunEvent::Ready).rest,
        vec![RunStep::Setup, RunStep::Dispatch, RunStep::Callback]
    );
    assert_eq!(
        on_event(LoopMode::Run, &RuntimeRunEvent::Exit).rest,
        vec![RunStep::Dispatch, RunStep::Callback, RunStep::Cleanup, RunStep::Restart]
    );
    assert_eq!(
        on_event(LoopMode::Run, &RuntimeRunEvent::Resumed).rest,
        vec![RunStep::Dispatch, RunStep::Callback]
    );
}

#[test]
fn an_iteration_never_cleans_up() {
    assert_eq!(
        on_event(LoopMode::Iteration, &RuntimeRunEvent::Ready).rest,
        vec![RunStep::Dispatch, RunStep::Callback]
    );
    assert_eq!(
        on_event(LoopMode::Iteration, &RuntimeRunEvent::Exit).rest,
        vec![RunStep::Dispatch, RunStep::Callback, RunStep::Restart]
    );
}

#[test]
fn the_first_iteration_sets_up() {
    let mut app = build(builder(target(Os::Linux)), context());
    let mut first = app.run_iteration();
    assert_eq!(first.resume(Ok(())), Progress::Perform(IterationStep::Setup));
    assert_eq!(first.resume(Ok(())), Progress::Perform(IterationStep::RunLoop(Runtime(1))));
    assert_eq!(first.resume(Ok(())), Progress::Finished(Ok(())));
    let _ = setup(&mut app);
    let mut second = app.run_iteration();
    assert_eq!(second.resume(Ok(())), Progress::Perform(IterationStep::RunLoop(Runtime(1))));
}

#[test]
fn a_failed_setup_keeps_the_loop_from_running() {
    let mut app = build(builder(target(Os::Linux)), context());
    let mut iteration = app.run_iteration();
    assert_eq!(iteration.resume(Ok(())), Progress::Perform(IterationStep::Setup));
    let _ = setup(&mut app);
    let error = || Error::Other("no".to_string());
    assert_eq!(iteration.resume(Err(error())), Progress::Finished(Err(error())));
    assert_eq!(iteration.resume(Ok(())), Progress::Finished(Ok(())));
    assert_eq!(app.run_iteration().rest, vec![IterationStep::RunLoop(Runtime(1))]);
}

#[test]
fn a_failed_setup_keeps_ready_away() {
    let mut series = on_event(LoopMode::Run, &RuntimeRunEvent::Ready);
    assert_eq!(series.resume(Ok(())), Progress::Perform(RunStep::Setup));
    let error = || Error::Setup(Box::new(Error::Other("no".to_string())));
    assert_eq!(series.resume(Err(error())), Progress::Finished(Err(error())));
    assert!(series.rest.is_empty());
}

#[test]
fn run_gives_the_runtime_away() {
    let mut app = build(builder(target(Os::MacOs)), context());
    assert_eq!(app.runtime(), RuntimeOrDispatch::Runtime(Runtime(1)));
    assert_eq!(app.primary_monitor().to, RuntimeOrDispatch::Runtime(Runtime(1)));
    assert_eq!(app.run(), Runtime(1));
    assert_eq!(app.runtime, None);
    assert_eq!(app.runtime(), RuntimeOrDispatch::RuntimeHandle(RuntimeHandle(2)));
    let point = PrecisePosition { x: DoubleBits(0), y: DoubleBits(1) };
    assert_eq!(
        app.monitor_from_point(point),
        RuntimeRequest {
            to: RuntimeOrDispatch::RuntimeHandle(RuntimeHandle(2)),
            call: RuntimeCall::MonitorFromPoint(point),
            reports: true,
        }
    );
    assert_eq!(app.available_monitors().call, RuntimeCall::AvailableMonitors);
    assert_eq!(app.cursor_position().call, RuntimeCall::CursorPosition);
    assert_eq!(app.show().call, RuntimeCall::Show);
    assert_eq!(app.conceal().call, RuntimeCall::Conceal);
}

#[test]
fn app_activation_policy_is_set_without_a_report() {
    let mut app = build(builder(target(Os::MacOs)), context());
    let request = app.set_activation_policy(ActivationPolicy::Accessory);
    assert_eq!(
        request,
        RuntimeRequest {
            to: RuntimeOrDispatch::Runtime(Runtime(1)),
            call: RuntimeCall::SetActivationPolicy(ActivationPolicy::Accessory),
            reports: false,
        }
    );
    let _ = app.run();
    let request = app.set_activation_policy(ActivationPolicy::Accessory);
    assert_eq!(request.to, RuntimeOrDispatch::RuntimeHandle(RuntimeHandle(2)));
    assert!(!request.reports);
}

#[test]
fn app_asks_the_runtime_itself_to_filter_device_events() {
    let mut app = build(builder(target(Os::Windows)), context());
    assert_eq!(
        app.set_device_event_filter(DeviceEventFilter::Always),
        RuntimeRequest {
            to: RuntimeOrDispatch::Runtime(Runtime(1)),
            call: RuntimeCall::SetDeviceEventFilter(DeviceEventFilter::Always),
            reports: false,
        }
    );
}

#[test]
fn app_runs_on_the_main_thread_through_its_handle() {
    let mut app = build(builder(target(Os::Linux)), context());
    let request = app.run_on_main_thread(HookId(3));
    assert_eq!(
        request,
        RuntimeRequest {
            to: RuntimeOrDispatch::RuntimeHandle(RuntimeHandle(2)),
            call: RuntimeCall::RunOnMainThread(HookId(3)),
            reports: true,
        }
    );
    assert_eq!(app.handle().run_on_main_thread(HookId(3)), request);
    let plugin = app.wry_plugin(HookId(9));
    assert_eq!(plugin.call, RuntimeCall::AddPlugin(HookId(9)));
    assert_eq!(plugin.to, RuntimeOrDispatch::RuntimeHandle(RuntimeHandle(2)));
}

#[test]
fn core_plugins_depend_on_the_system() {
    let everywhere = vec![
        CorePlugin::Path,
        CorePlugin::Event,
        CorePlugin::Window,
        CorePlugin::Webview,
        CorePlugin::App,
        CorePlugin::Resources,
        CorePlugin::Image,
    ];
    assert_eq!(App::register_core_plugins(&target(Os::Android)), everywhere);
    let mut desktop = everywhere.clone();
    desktop.push(CorePlugin::Menu);
    let mut without_tray = target(Os::Linux);
    without_tray.tray_icon = false;
    assert_eq!(App::register_core_plugins(&without_tray), desktop);
    desktop.push(CorePlugin::Tray);
    assert_eq!(App::register_core_plugins(&target(Os::Linux)), desktop);
}

#[test]
fn app_theme_starts_with_the_menus_on_windows() {
    let mut app = build(builder(target(Os::Windows)), context());
    for (label, menu) in [("a", true), ("b", false)] {
        let menu = if menu {
            Some(WindowMenu { is_app_wide: false, menu: "m".to_string() })
        } else {
            None
        };
        let window = Window { menu, resources: ResourceTable::new() };
        app.handle.manager.windows.insert(label.to_string(), window);
    }
    let change = app.set_theme(Some(Theme::Dark));
    assert_eq!(change.menus, vec!["a".to_string()]);
    assert_eq!(change.menu_theme, MenuTheme::Dark);
    assert_eq!(change.request.call, RuntimeCall::SetTheme(Some(Theme::Dark)));
    assert_eq!(change.request.to, RuntimeOrDispatch::Runtime(Runtime(1)));
    assert_eq!(app.set_theme(None).menu_theme, MenuTheme::Auto);
    assert_eq!(app.set_theme(Some(Theme::Light)).menu_theme, MenuTheme::Light);
    app.handle.manager.target.os = Os::Linux;
    assert!(app.set_theme(None).menus.is_empty());
}

#[test]
fn app_hands_out_what_it_holds() {
    let mut app = build(builder(target(Os::Windows)), context());
    assert_eq!(app.config().identifier, "com.example.app");
    assert_eq!(app.package_info().name, "app");
    assert_eq!(app.invoke_key(), "key");
    assert!(app.default_window_icon().is_none());
    assert!(app.resources_table().ids.is_empty());
    assert!(app.asset_resolver().iter().is_empty());
    app.handle.manager.resources.ids.push(4);
    let window = Window { menu: None, resources: ResourceTable { ids: vec![1] } };
    app.handle.manager.windows.insert("w".to_string(), window);
    assert_eq!(app.cleanup_before_exit(), vec!["w".to_string()]);
    assert!(app.resources_table().ids.is_empty());
    assert!(app.handle.manager.windows.get("w").unwrap().resources.ids.is_empty());
}

#[test]
fn app_changes_its_menu_and_tray_icons() {
    let mut app = build(builder(target(Os::Linux)), context());
    app.on_menu_event(HookId(1));
    app.on_tray_icon_event(HookId(2));
    assert_eq!(app.handle.manager.menu.global_event_listeners, vec![HookId(1)]);
    assert_eq!(app.handle.manager.tray.global_event_listeners, vec![HookId(2)]);
    app.handle.manager.tray.icons.push(TrayIcon { id: "t".to_string() });
    assert_eq!(app.tray_by_id("t").unwrap().id, "t");
    assert_eq!(app.remove_tray_by_id("t"), Some(TrayIcon { id: "t".to_string() }));
    assert!(app.tray_by_id("t").is_none());
    let window = Window { menu: None, resources: ResourceTable::new() };
    app.handle.manager.windows.insert("w".to_string(), window);
    assert_eq!(app.menu(), None);
    let mut change = app.set_menu(menu("m"));
    assert_eq!(
        change.advance(&mut app.handle.manager),
        Some(MenuStep::AttachToWindow("w".to_string()))
    );
    assert_eq!(change.advance(&mut app.handle.manager), None);
    assert_eq!(app.menu(), Some(&menu("m")));
    assert_eq!(app.hide_menu().rest, vec![MenuTurn::Hide("w".to_string())]);
    assert_eq!(app.show_menu().rest, vec![MenuTurn::Show("w".to_string())]);
    let mut change = app.remove_menu();
    assert_eq!(
        change.advance(&mut app.handle.manager),
        Some(MenuStep::DetachFromWindow("w".to_string()))
    );
}

#[test]
fn app_listens_and_emits() {
    let app = build(builder(target(Os::Linux)), context());
    let (event, payload) = ("e".to_string(), "1".to_string());
    assert_eq!(
        app.listen(event.clone(), HookId(1)),
        ListenCall::Listen { event: event.clone(), target: EventTarget::App, handler: HookId(1) }
    );
    assert_eq!(
        app.once(event.clone(), HookId(1)),
        ListenCall::Once { event: event.clone(), target: EventTarget::App, handler: HookId(1) }
    );
    assert_eq!(app.unlisten(EventId(1)), ListenCall::Unlisten(EventId(1)));
    assert_eq!(
        app.emit(event.clone(), payload.clone()),
        EmitCall::Emit { event: event.clone(), payload: payload.clone() }
    );
    assert_eq!(
        app.emit_to(EventTarget::Any, event.clone(), payload.clone()),
        EmitCall::EmitTo {
            target: EventTarget::Any,
            event: event.clone(),
            payload: payload.clone(),
        }
    );
    assert_eq!(
        app.emit_filter(event.clone(), payload.clone(), HookId(2)),
        EmitCall::EmitFilter { event, payload, filter: HookId(2) }
    );
}
