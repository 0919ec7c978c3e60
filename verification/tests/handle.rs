use tauri_app::app::App;
use tauri_app::app_build::{BuildOutcome, BuildStep};
use tauri_app::builder::{Builder, IpcScripts};
use tauri_app::config::{
    AppConfig, AssetProtocolConfig, BuildConfig, Config, Context, Image, PackageInfo,
    SecurityConfig, WebviewInstallMode,
};
use tauri_app::error::{hand_on, Error, RuntimeError};
use tauri_app::event::{DoubleBits, ExitRequestedEventAction, PrecisePosition, Theme};
use tauri_app::handle::{
    AppHandle, CommandItem, ExitStep, MenuTheme, RestartProcess, RestartStep,
    RESTART_EXIT_CODE,
};
use tauri_app::hook::HookId;
use tauri_app::listen::{EmitCall, EventId, EventTarget, ListenCall};
use tauri_app::manager::{ResourceTable, TrayIcon, Webview, Window};
use tauri_app::menu::{Menu, WindowMenu};
use tauri_app::runtime::{
    ActivationPolicy, Runtime, RuntimeCall, RuntimeHandle, RuntimeOrDispatch, RuntimeRequest,
    TaoWindowId, WindowMessage,
};
use tauri_app::target::{Os, Target};

fn target(os: Os) -> Target {
    Target { os, dev: false, tray_icon: true, protocol_asset: true }
}

fn scripts() -> IpcScripts {
    IpcScripts {
        template: "run(__RAW_process_ipc_message_fn__, __TEMPLATE_os_name__, \
                   __TEMPLATE_fetch_channel_data_command__, __TEMPLATE_invoke_key__)"
            .to_string(),
        process_ipc_message_fn: "m => m".to_string(),
        fetch_channel_data_command: "fetch".to_string(),
    }
}

fn builder(target: Target) -> Builder {
    Builder::new(target, &scripts(), "key".to_string())
}

fn plugins_section() -> String {
    "{\"mine\":{\"level\":3}}".to_string()
}

fn context() -> Context {
    Context {
        config: Config {
            identifier: "com.example.app".to_string(),
            app: AppConfig {
                windows: vec![],
                tray_icon: None,
                security: SecurityConfig {
                    asset_protocol: AssetProtocolConfig { scope: "[\"$APPDATA/**\"]".to_string() },
                },
                enable_gtk_app_id: false,
            },
            build: BuildConfig { dev_url: None, frontend_dist: None },
            webview_install_mode: WebviewInstallMode::DownloadBootstrapper,
            plugins: plugins_section(),
        },
        package_info: PackageInfo {
            name: "app".to_string(),
            version: "1.0.0".to_string(),
            authors: "".to_string(),
            description: "".to_string(),
        },
        assets: vec![],
        default_window_icon: None,
        app_icon: None,
        tray_icon: None,
        config_parent: None,
    }
}

fn menu(id: &str) -> Menu {
    Menu { id: id.to_string(), items: vec![] }
}

fn outcome(step: &BuildStep) -> BuildOutcome {
    match step {
        BuildStep::CreateRuntime { .. } => {
            BuildOutcome::RuntimeCreated { runtime: Runtime(1), handle: RuntimeHandle(2) }
        }
        BuildStep::CreateMenu(_) => BuildOutcome::MenuCreated(menu("main-menu")),
        BuildStep::InitializePlugin { plugin, .. } => {
            BuildOutcome::PluginInitialized { name: format!("core-{:?}", plugin) }
        }
        _ => BuildOutcome::Done,
    }
}

fn build(builder: Builder, context: Context) -> App {
    let mut build = builder.build(context);
    while let Some(step) = build.step() {
        let outcome = outcome(step);
        build = match build.resume(outcome) {
            Ok(build) => build,
            Err(error) => panic!("{:?}", error),
        };
    }
    build.finish().unwrap()
}

fn handle(os: Os) -> AppHandle {
    let mut handle = build(builder(target(os)), context()).handle;
    handle.manager.resources.ids.push(1);
    handle.manager.tray.icons.push(TrayIcon { id: "t".to_string() });
    for label in ["a", "b"] {
        let window = Window { menu: None, resources: ResourceTable { ids: vec![2, 3] } };
        handle.manager.windows.insert(label.to_string(), window);
        let webview =
            Webview { window: label.to_string(), resources: ResourceTable { ids: vec![4] } };
        handle.manager.webviews.insert(label.to_string(), webview);
    }
    handle
}

fn refusal() -> RuntimeError {
    RuntimeError("the event loop is gone".to_string())
}

fn assert_cleaned_up(handle: &AppHandle) {
    assert!(handle.manager.resources.ids.is_empty());
    assert!(handle.manager.tray.icons.is_empty());
    for label in ["a", "b"] {
        assert!(handle.manager.windows.get(label).unwrap().resources.ids.is_empty());
        assert!(handle.manager.webviews.get(label).unwrap().resources.ids.is_empty());
    }
}

fn request(call: RuntimeCall) -> RuntimeRequest {
    RuntimeRequest {
        to: RuntimeOrDispatch::RuntimeHandle(RuntimeHandle(2)),
        call,
        reports: true,
    }
}

#[test]
fn exit_asks_the_runtime() {
    let mut linux = handle(Os::Linux);
    let exit = linux.exit(3);
    assert_eq!(exit.request, request(RuntimeCall::RequestExit(3)));
    assert_eq!(exit.resolve(&mut linux, Ok(())), ExitStep::Requested);
    assert_eq!(linux.manager.resources.ids, vec![1]);
}

#[test]
fn a_refused_exit_cleans_up_and_ends_the_process() {
    let mut windows = handle(Os::Windows);
    let exit = windows.exit(3);
    assert_eq!(
        exit.resolve(&mut windows, Err(refusal())),
        ExitStep::ExitProcess {
            code: 3,
            to_hide: vec!["a".to_string(), "b".to_string()],
            reason: refusal(),
        }
    );
    assert_cleaned_up(&windows);
    let mut linux = handle(Os::Linux);
    let exit = linux.exit(4);
    assert_eq!(
        exit.resolve(&mut linux, Err(refusal())),
        ExitStep::ExitProcess { code: 4, to_hide: vec![], reason: refusal() }
    );
    assert_cleaned_up(&linux);
}

#[test]
fn restart_goes_on_whatever_the_runtime_says() {
    assert_eq!(RESTART_EXIT_CODE, i32::MAX);
    let mut linux = handle(Os::Linux);
    let restart = linux.restart();
    assert_eq!(restart.request, request(RuntimeCall::RequestExit(i32::MAX)));
    assert!(linux.restart_after_exit());
    assert_eq!(restart.resolve(&mut linux, Ok(())), RestartStep::AfterExit);
    assert!(linux.restart_after_exit());
    assert_eq!(linux.manager.resources.ids, vec![1]);
    let mut windows = handle(Os::Windows);
    let restart = windows.restart();
    assert_eq!(
        restart.resolve(&mut windows, Err(refusal())),
        RestartStep::Now(RestartProcess { to_hide: vec!["a".to_string(), "b".to_string()] })
    );
    assert!(!windows.restart_after_exit());
    assert_cleaned_up(&windows);
}

#[test]
fn cleaning_up_keeps_tray_icons_that_are_not_built_in() {
    let mut linux = handle(Os::Linux);
    linux.manager.target.tray_icon = false;
    assert!(linux.cleanup_before_exit().is_empty());
    assert_eq!(linux.manager.tray.icons.len(), 1);
}

#[test]
fn a_plugin_takes_the_place_of_its_namesake() {
    let mut linux = handle(Os::Linux);
    let before = linux.manager.plugins.len();
    for name in ["a", "b", "a"] {
        let request = linux.plugin(name.to_string());
        assert_eq!(request.name, name);
        assert_eq!(request.config, plugins_section());
        assert_eq!(request.resolve(&mut linux, Ok(())), Ok(()));
    }
    assert_eq!(linux.manager.plugins.len(), before + 2);
    assert_eq!(linux.manager.plugins.name_at(before), "b");
    assert_eq!(linux.manager.plugins.name_at(before + 1), "a");
    assert!(linux.remove_plugin("a"));
    assert!(!linux.remove_plugin("a"));
    assert_eq!(linux.manager.plugins.len(), before + 1);
}

#[test]
fn a_plugin_that_fails_is_not_added() {
    let mut linux = handle(Os::Linux);
    let before = linux.manager.plugins.len();
    let error = Error::Other("no".to_string());
    let request = linux.plugin("a".to_string());
    assert_eq!(request.resolve(&mut linux, Err(error)), Err(Error::Other("no".to_string())));
    assert_eq!(linux.manager.plugins.len(), before);
}

#[test]
fn requests_go_through_the_handle() {
    let mac = handle(Os::MacOs);
    let point = PrecisePosition { x: DoubleBits(5), y: DoubleBits(6) };
    assert_eq!(mac.runtime(), RuntimeOrDispatch::RuntimeHandle(RuntimeHandle(2)));
    assert_eq!(mac.run_on_main_thread(HookId(1)), request(RuntimeCall::RunOnMainThread(HookId(1))));
    assert_eq!(mac.create_tao_window(HookId(1)), request(RuntimeCall::CreateTaoWindow(HookId(1))));
    assert_eq!(
        mac.send_tao_window_event(TaoWindowId(1), WindowMessage(2)),
        request(RuntimeCall::SendTaoWindowEvent(TaoWindowId(1), WindowMessage(2)))
    );
    assert_eq!(
        mac.set_activation_policy(ActivationPolicy::Prohibited),
        request(RuntimeCall::SetActivationPolicy(ActivationPolicy::Prohibited))
    );
    assert_eq!(mac.primary_monitor(), request(RuntimeCall::PrimaryMonitor));
    assert_eq!(mac.monitor_from_point(point), request(RuntimeCall::MonitorFromPoint(point)));
    assert_eq!(mac.available_monitors(), request(RuntimeCall::AvailableMonitors));
    assert_eq!(mac.cursor_position(), request(RuntimeCall::CursorPosition));
    assert_eq!(mac.show(), request(RuntimeCall::Show));
    assert_eq!(mac.conceal(), request(RuntimeCall::Conceal));
}

#[test]
fn refusals_are_handed_on_or_ignored() {
    assert_eq!(hand_on(Ok(5)), Ok(5));
    assert_eq!(hand_on::<u8>(Err(refusal())), Err(Error::Runtime(refusal())));
    let reported = request(RuntimeCall::Show);
    assert_eq!(reported.settle(Ok(())), Ok(()));
    assert_eq!(reported.settle(Err(refusal())), Err(Error::Runtime(refusal())));
    let ignored = RuntimeRequest { reports: false, ..reported };
    assert_eq!(ignored.settle(Err(refusal())), Ok(()));
}

#[test]
fn tray_icons_are_found_by_id_and_removed() {
    let mut linux = handle(Os::Linux);
    linux.manager.tray.icons.push(TrayIcon { id: "u".to_string() });
    assert_eq!(linux.tray_by_id("u").unwrap().id, "u");
    assert!(linux.tray_by_id("v").is_none());
    assert_eq!(linux.remove_tray_by_id("t"), Some(TrayIcon { id: "t".to_string() }));
    assert_eq!(linux.remove_tray_by_id("t"), None);
    assert_eq!(linux.manager.tray.icons, vec![TrayIcon { id: "u".to_string() }]);
}

#[test]
fn the_handle_hands_out_what_the_application_holds() {
    let mut linux = handle(Os::Linux);
    assert_eq!(linux.config().identifier, "com.example.app");
    assert_eq!(linux.package_info().version, "1.0.0");
    assert_eq!(linux.invoke_key(), "key");
    assert_eq!(linux.resources_table().ids, vec![1]);
    assert!(linux.default_window_icon().is_none());
    linux.manager.default_window_icon =
        Some(Image { rgba: vec![1, 2, 3, 4], width: 1, height: 1 });
    assert_eq!(linux.default_window_icon().unwrap().rgba, vec![1, 2, 3, 4]);
    assert_eq!(linux.menu(), None);
}

#[test]
fn the_theme_is_set_through_the_handle() {
    let mut windows = handle(Os::Windows);
    let menu = WindowMenu { is_app_wide: true, menu: "m".to_string() };
    let window = Window { menu: Some(menu), resources: ResourceTable::new() };
    windows.manager.windows.insert("b".to_string(), window);
    let change = windows.set_theme(Some(Theme::Light));
    assert_eq!(change.menus, vec!["b".to_string()]);
    assert_eq!(change.menu_theme, MenuTheme::Light);
    assert_eq!(
        change.request,
        RuntimeRequest {
            reports: false,
            ..request(RuntimeCall::SetTheme(Some(Theme::Light)))
        }
    );
}

#[test]
fn listeners_listen_on_the_application() {
    let linux = handle(Os::Linux);
    assert_eq!(
        linux.listen("loaded".to_string(), HookId(1)),
        ListenCall::Listen {
            event: "loaded".to_string(),
            target: EventTarget::App,
            handler: HookId(1)
        }
    );
    assert_eq!(
        linux.once("loaded".to_string(), HookId(2)),
        ListenCall::Once {
            event: "loaded".to_string(),
            target: EventTarget::App,
            handler: HookId(2)
        }
    );
    assert_eq!(linux.unlisten(EventId(3)), ListenCall::Unlisten(EventId(3)));
}

#[test]
fn events_are_emitted_to_their_targets() {
    let linux = handle(Os::Linux);
    let (event, payload) = ("progress".to_string(), "1".to_string());
    assert_eq!(
        linux.emit(event.clone(), payload.clone()),
        EmitCall::Emit { event: event.clone(), payload: payload.clone() }
    );
    let updater = || EventTarget::WebviewWindow { label: "updater".to_string() };
    assert_eq!(
        linux.emit_to(updater(), event.clone(), payload.clone()),
        EmitCall::EmitTo {
            target: updater(),
            event: event.clone(),
            payload: payload.clone()
        }
    );
    assert_eq!(
        linux.emit_filter(event.clone(), payload.clone(), HookId(1)),
        EmitCall::EmitFilter { event, payload, filter: HookId(1) }
    );
}

#[test]
fn a_command_finds_the_handle_of_its_webview() {
    let linux = handle(Os::Linux);
    let command = CommandItem { name: "synchronize", app_handle: &linux };
    assert_eq!(AppHandle::from_command(command).ok().unwrap().invoke_key(), "key");
}

#[test]
fn an_exit_can_be_prevented_but_not_a_restart() {
    let prevent = Some(ExitRequestedEventAction::Prevent);
    let mut linux = handle(Os::Linux);
    for code in [None, Some(0), Some(i32::MAX)] {
        assert!(linux.exits(code, None));
        assert!(!linux.exits(code, prevent));
    }
    let exit = linux.exit(i32::MAX);
    assert_eq!(exit.resolve(&mut linux, Ok(())), ExitStep::Requested);
    assert!(!linux.exits(Some(i32::MAX), prevent));
    let _ = linux.restart();
    assert!(linux.exits(Some(RESTART_EXIT_CODE), prevent));
    assert!(!linux.exits(Some(0), prevent));
    assert!(!linux.exits(None, prevent));
}
