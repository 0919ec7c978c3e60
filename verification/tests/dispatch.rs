use std::path::PathBuf;

use tauri_app::app::App;
use tauri_app::app_build::{BuildOutcome, BuildStep};
use tauri_app::builder::{Builder, IpcScripts};
use tauri_app::config::{
    AppConfig, AssetProtocolConfig, BuildConfig, Config, Context, PackageInfo, SecurityConfig,
    WebviewInstallMode,
};
use tauri_app::dispatch::{on_event_loop_event, Notification};
use tauri_app::event::{
    Channel, CloseRequestApi, DoubleBits, DragDropEvent, ElementState, EventLoopMessage,
    ExitRequestApi, ExitRequestedEventAction, MenuEvent, ModifiersState, MouseButton,
    PhysicalPosition, PhysicalSize, PrecisePosition, RunEvent, RuntimeRunEvent,
    RuntimeWebviewEvent, RuntimeWindowEvent, Signal, Theme, TrayIconEvent, TrayRect, WebviewEvent,
    WindowEvent,
};
use tauri_app::handle::AppHandle;
use tauri_app::hook::HookId;
use tauri_app::manager::{ResourceTable, TrayIcon, Webview, Window};
use tauri_app::menu::Menu;
use tauri_app::runtime::{Runtime, RuntimeHandle};
use tauri_app::target::{Os, Target};

fn target(os: Os) -> Target {
    Target { os, dev: false, tray_icon: true, protocol_asset: true }
}

fn scripts() -> IpcScripts {
    IpcScripts {
        template: "run(__RAW_process_ipc_message_fn__, __TEMPLATE_os_name__, \
                   __TEMPLATE_fetch_channel_data_command__, __TEMPLATE_invoke_key__)"
            .to_string(),
        process_ipc_message_fn: "m => m".to_string(),
        fetch_channel_data_command: "fetch".to_string(),
    }
}

fn builder(target: Target) -> Builder {
    Builder::new(target, &scripts(), "key".to_string())
}

fn plugins_section() -> String {
    "{\"mine\":{\"level\":3}}".to_string()
}

fn context() -> Context {
    Context {
        config: Config {
            identifier: "com.example.app".to_string(),
            app: AppConfig {
                windows: vec![],
                tray_icon: None,
                security: SecurityConfig {
                    asset_protocol: AssetProtocolConfig { scope: "[\"$APPDATA/**\"]".to_string() },
                },
                enable_gtk_app_id: false,
            },
            build: BuildConfig { dev_url: None, frontend_dist: None },
            webview_install_mode: WebviewInstallMode::DownloadBootstrapper,
            plugins: plugins_section(),
        },
        package_info: PackageInfo {
            name: "app".to_string(),
            version: "1.0.0".to_string(),
            authors: "".to_string(),
            description: "".to_string(),
        },
        assets: vec![],
        default_window_icon: None,
        app_icon: None,
        tray_icon: None,
        config_parent: None,
    }
}

fn menu(id: &str) -> Menu {
    Menu { id: id.to_string(), items: vec![] }
}

fn outcome(step: &BuildStep) -> BuildOutcome {
    match step {
        BuildStep::CreateRuntime { .. } => {
            BuildOutcome::RuntimeCreated { runtime: Runtime(1), handle: RuntimeHandle(2) }
        }
        BuildStep::CreateMenu(_) => BuildOutcome::MenuCreated(menu("main-menu")),
        BuildStep::InitializePlugin { plugin, .. } => {
            BuildOutcome::PluginInitialized { name: format!("core-{:?}", plugin) }
        }
        _ => BuildOutcome::Done,
    }
}

fn build(builder: Builder, context: Context) -> App {
    let mut build = builder.build(context);
    while let Some(step) = build.step() {
        let outcome = outcome(step);
        build = match build.resume(outcome) {
            Ok(build) => build,
            Err(error) => panic!("{:?}", error),
        };
    }
    build.finish().unwrap()
}

fn handle(os: Os) -> AppHandle {
    build(builder(target(os)), context()).handle
}

fn dispatch(handle: &mut AppHandle, event: RuntimeRunEvent) -> (Vec<Notification>, RunEvent) {
    assert!(event.is_told(&handle.manager.target));
    let mut dispatch = on_event_loop_event(handle, event);
    let mut told = vec![];
    while let Some(notification) = dispatch.next(&handle.manager) {
        told.push(notification);
    }
    (told, dispatch.into_event())
}

fn position() -> PrecisePosition {
    PrecisePosition { x: DoubleBits(1), y: DoubleBits(2) }
}

fn tray_event(id: &str) -> TrayIconEvent {
    TrayIconEvent::Enter {
        id: id.to_string(),
        position: position(),
        rect: TrayRect { position: position(), width: DoubleBits(3), height: DoubleBits(4) },
    }
}

fn window() -> Window {
    Window { menu: None, resources: ResourceTable::new() }
}

#[test]
fn window_events_are_converted() {
    let size = PhysicalSize { width: 3, height: 4 };
    let pairs = vec![
        (RuntimeWindowEvent::Resized(size), WindowEvent::Resized(size)),
        (
            RuntimeWindowEvent::Moved(PhysicalPosition { x: -1, y: 2 }),
            WindowEvent::Moved(PhysicalPosition { x: -1, y: 2 }),
        ),
        (
            RuntimeWindowEvent::CloseRequested { signal_tx: Channel(5) },
            WindowEvent::CloseRequested { api: CloseRequestApi(Channel(5)) },
        ),
        (RuntimeWindowEvent::Destroyed, WindowEvent::Destroyed),
        (RuntimeWindowEvent::Focused(true), WindowEvent::Focused(true)),
        (
            RuntimeWindowEvent::ScaleFactorChanged {
                scale_factor: DoubleBits(2.0f64.to_bits()),
                new_inner_size: size,
            },
            WindowEvent::ScaleFactorChanged {
                scale_factor: DoubleBits(2.0f64.to_bits()),
                new_inner_size: size,
            },
        ),
        (
            RuntimeWindowEvent::DragDrop(DragDropEvent::Over { position: position() }),
            WindowEvent::DragDrop(DragDropEvent::Over { position: position() }),
        ),
        (
            RuntimeWindowEvent::DragDrop(DragDropEvent::Drop {
                paths: vec![PathBuf::from("/tmp/a.txt")],
                position: position(),
            }),
            WindowEvent::DragDrop(DragDropEvent::Drop {
                paths: vec![PathBuf::from("/tmp/a.txt")],
                position: position(),
            }),
        ),
        (RuntimeWindowEvent::ThemeChanged(Theme::Dark), WindowEvent::ThemeChanged(Theme::Dark)),
        (
            RuntimeWindowEvent::MouseInput {
                state: ElementState::Pressed,
                button: MouseButton::Other(7),
                modifiers: ModifiersState(1),
            },
            WindowEvent::MouseInput {
                state: ElementState::Pressed,
                button: MouseButton::Other(7),
                modifiers: ModifiersState(1),
            },
        ),
    ];
    for (told, expected) in pairs {
        assert_eq!(WindowEvent::from(told), expected);
    }
    assert_eq!(
        WebviewEvent::from(RuntimeWebviewEvent::DragDrop(DragDropEvent::Leave)),
        WebviewEvent::DragDrop(DragDropEvent::Leave)
    );
}

#[test]
fn run_events_are_converted() {
    let mut mac = handle(Os::MacOs);
    let url = url::Url::parse("app://open/this").unwrap();
    let pairs = vec![
        (RuntimeRunEvent::Exit, RunEvent::Exit),
        (RuntimeRunEvent::Ready, RunEvent::Ready),
        (RuntimeRunEvent::Resumed, RunEvent::Resumed),
        (RuntimeRunEvent::MainEventsCleared, RunEvent::MainEventsCleared),
        (
            RuntimeRunEvent::Opened { urls: vec![url.clone()] },
            RunEvent::Opened { urls: vec![url] },
        ),
        (
            RuntimeRunEvent::Reopen { has_visible_windows: true },
            RunEvent::Reopen { has_visible_windows: true },
        ),
        (
            RuntimeRunEvent::WebviewEvent {
                label: "w".to_string(),
                event: RuntimeWebviewEvent::DragDrop(DragDropEvent::Leave),
            },
            RunEvent::WebviewEvent {
                label: "w".to_string(),
                event: WebviewEvent::DragDrop(DragDropEvent::Leave),
            },
        ),
    ];
    for (told, expected) in pairs {
        let (notifications, event) = dispatch(&mut mac, told);
        assert_eq!(event, expected);
        assert_eq!(notifications, vec![Notification::Plugins]);
    }
}

#[test]
fn some_systems_do_not_tell_some_events() {
    let opened = RuntimeRunEvent::Opened { urls: vec![] };
    assert!(opened.is_told(&target(Os::Ios)));
    assert!(!opened.is_told(&target(Os::Linux)));
    let reopen = RuntimeRunEvent::Reopen { has_visible_windows: false };
    assert!(reopen.is_told(&target(Os::MacOs)));
    assert!(!reopen.is_told(&target(Os::Ios)));
    let chosen = RuntimeRunEvent::UserEvent(EventLoopMessage::MenuEvent(MenuEvent {
        id: "quit".to_string(),
    }));
    assert!(chosen.is_told(&target(Os::Linux)));
    assert!(!chosen.is_told(&target(Os::Android)));
    let tray = RuntimeRunEvent::UserEvent(EventLoopMessage::TrayIconEvent(tray_event("t")));
    assert!(tray.is_told(&target(Os::Linux)));
    let mut without = target(Os::Linux);
    without.tray_icon = false;
    assert!(!tray.is_told(&without));
}

#[test]
fn a_prevented_exit_answers_its_request() {
    let mut linux = handle(Os::Linux);
    let (_, event) =
        dispatch(&mut linux, RuntimeRunEvent::ExitRequested { code: Some(3), tx: Channel(9) });
    assert_eq!(event, RunEvent::ExitRequested { code: Some(3), api: ExitRequestApi(Channel(9)) });
    if let RunEvent::ExitRequested { api, .. } = event {
        assert_eq!(
            api.prevent_exit(),
            Signal::Exit { channel: Channel(9), action: ExitRequestedEventAction::Prevent }
        );
    }
}

#[test]
fn a_prevented_close_answers_its_request() {
    let mut linux = handle(Os::Linux);
    let (_, event) = dispatch(
        &mut linux,
        RuntimeRunEvent::WindowEvent {
            label: "w".to_string(),
            event: RuntimeWindowEvent::CloseRequested { signal_tx: Channel(4) },
        },
    );
    match event {
        RunEvent::WindowEvent { label, event: WindowEvent::CloseRequested { api, .. }, .. } => {
            assert_eq!(label, "w");
            assert_eq!(
                api.prevent_close(),
                Signal::Close { channel: Channel(4), prevent: true }
            );
        }
        _ => unreachable!(),
    }
}

#[test]
fn menu_events_reach_global_then_window_listeners_then_plugins() {
    let mut linux = handle(Os::Linux);
    linux.on_menu_event(HookId(1));
    linux.on_menu_event(HookId(2));
    linux.manager.menu.event_listeners.insert("here".to_string(), HookId(3));
    linux.manager.menu.event_listeners.insert("gone".to_string(), HookId(4));
    linux.manager.windows.insert("here".to_string(), window());
    let chosen = MenuEvent { id: "quit".to_string() };
    let (told, event) = dispatch(
        &mut linux,
        RuntimeRunEvent::UserEvent(EventLoopMessage::MenuEvent(chosen.clone())),
    );
    assert_eq!(event, RunEvent::MenuEvent(chosen));
    assert_eq!(
        told,
        vec![
            Notification::GlobalMenuListener(HookId(1)),
            Notification::GlobalMenuListener(HookId(2)),
            Notification::WindowMenuListener { label: "here".to_string(), listener: HookId(3) },
            Notification::Plugins,
        ]
    );
}

#[test]
fn tray_events_reach_the_listener_of_a_tray_icon_that_is_there() {
    let mut linux = handle(Os::Linux);
    linux.on_tray_icon_event(HookId(1));
    linux.manager.tray.icons.push(TrayIcon { id: "a".to_string() });
    linux.manager.tray.icons.push(TrayIcon { id: "b".to_string() });
    for (id, hook) in [("a", 2), ("b", 3), ("c", 4)] {
        linux.manager.tray.event_listeners.insert(id.to_string(), HookId(hook));
    }
    let (told, event) = dispatch(
        &mut linux,
        RuntimeRunEvent::UserEvent(EventLoopMessage::TrayIconEvent(tray_event("b"))),
    );
    assert_eq!(event, RunEvent::TrayIconEvent(tray_event("b")));
    assert_eq!(
        told,
        vec![
            Notification::GlobalTrayListener(HookId(1)),
            Notification::TrayListener { id: "b".to_string(), listener: HookId(3) },
            Notification::Plugins,
        ]
    );
    let (told, _) = dispatch(
        &mut linux,
        RuntimeRunEvent::UserEvent(EventLoopMessage::TrayIconEvent(tray_event("c"))),
    );
    assert_eq!(told, vec![Notification::GlobalTrayListener(HookId(1)), Notification::Plugins]);
}

#[test]
fn the_icon_is_set_on_macos_during_development() {
    let mut mac = handle(Os::MacOs);
    mac.manager.app_icon = Some(vec![1, 2]);
    let (told, _) = dispatch(&mut mac, RuntimeRunEvent::Ready);
    assert_eq!(told, vec![Notification::Plugins]);
    mac.manager.target.dev = true;
    let (told, _) = dispatch(&mut mac, RuntimeRunEvent::Ready);
    assert_eq!(told, vec![Notification::SetAppIcon, Notification::Plugins]);
    mac.manager.app_icon = None;
    let (told, _) = dispatch(&mut mac, RuntimeRunEvent::Ready);
    assert_eq!(told, vec![Notification::Plugins]);
}

#[test]
fn a_destroyed_window_is_forgotten_with_its_webviews() {
    let mut linux = handle(Os::Linux);
    for label in ["a", "b"] {
        linux.manager.windows.insert(label.to_string(), window());
        for view in ["1", "2"] {
            let webview = Webview { window: label.to_string(), resources: ResourceTable::new() };
            linux.manager.webviews.insert(format!("{}{}", label, view), webview);
        }
    }
    linux.manager.menu.event_listeners.insert("a".to_string(), HookId(1));
    let (told, event) = dispatch(
        &mut linux,
        RuntimeRunEvent::WindowEvent {
            label: "a".to_string(),
            event: RuntimeWindowEvent::Destroyed,
        },
    );
    assert_eq!(told, vec![Notification::Plugins]);
    assert!(matches!(
        event,
        RunEvent::WindowEvent { event: WindowEvent::Destroyed, .. }
    ));
    assert_eq!(linux.manager.windows.labels(), vec!["b".to_string()]);
    assert_eq!(linux.manager.webviews.labels(), vec!["b1".to_string(), "b2".to_string()]);
    let chosen = MenuEvent { id: "x".to_string() };
    let (told, _) =
        dispatch(&mut linux, RuntimeRunEvent::UserEvent(EventLoopMessage::MenuEvent(chosen)));
    assert_eq!(told, vec![Notification::Plugins]);
}

#[test]
fn a_listener_that_comes_meanwhile_is_told() {
    let mut linux = handle(Os::Linux);
    linux.on_menu_event(HookId(1));
    linux.manager.windows.insert("late".to_string(), window());
    let chosen = MenuEvent { id: "x".to_string() };
    let event = RuntimeRunEvent::UserEvent(EventLoopMessage::MenuEvent(chosen));
    let mut dispatch = on_event_loop_event(&mut linux, event);
    assert_eq!(
        dispatch.next(&linux.manager),
        Some(Notification::GlobalMenuListener(HookId(1)))
    );
    linux.manager.menu.event_listeners.insert("late".to_string(), HookId(2));
    assert_eq!(
        dispatch.next(&linux.manager),
        Some(Notification::WindowMenuListener { label: "late".to_string(), listener: HookId(2) })
    );
    assert_eq!(dispatch.next(&linux.manager), Some(Notification::Plugins));
    assert_eq!(dispatch.next(&linux.manager), None);
}
