use tauri_app::app::{App, SetupHook};
use tauri_app::app_build::{BuildOutcome, BuildStep, TrayIconRequest};
use tauri_app::builder::{Builder, IpcScripts, MenuFactory};
use tauri_app::config::{
    AppConfig, AssetProtocolConfig, BuildConfig, Config, Context, Image, PackageInfo,
    SecurityConfig, TrayIconConfig, WebviewInstallMode,
};
use tauri_app::error::{Error, RuntimeError};
use tauri_app::hook::HookId;
use tauri_app::menu::Menu;
use tauri_app::plugin::{CorePlugin, PluginRequest};
use tauri_app::runtime::{DeviceEventFilter, Runtime, RuntimeHandle};
use tauri_app::series::Progress;
use tauri_app::state::StateKey;
use tauri_app::target::{Os, Target};
use tauri_app::uri_scheme::UriSchemeProtocol;

fn target(os: Os) -> Target {
    Target { os, dev: false, tray_icon: true, protocol_asset: true }
}

fn scripts() -> IpcScripts {
    IpcScripts {
        template: "run(__RAW_process_ipc_message_fn__, __TEMPLATE_os_name__, \
                   __TEMPLATE_fetch_channel_data_command__, __TEMPLATE_invoke_key__)"
            .to_string(),
        process_ipc_message_fn: "m => m".to_string(),
        fetch_channel_data_command: "fetch".to_string(),
    }
}

fn builder(target: Target) -> Builder {
    Builder::new(target, &scripts(), "key".to_string())
}

fn plugins_section() -> String {
    "{\"mine\":{\"level\":3}}".to_string()
}

fn context() -> Context {
    Context {
        config: Config {
            identifier: "com.example.app".to_string(),
            app: AppConfig {
                windows: vec![],
                tray_icon: None,
                security: SecurityConfig {
                    asset_protocol: AssetProtocolConfig { scope: "[\"$APPDATA/**\"]".to_string() },
                },
                enable_gtk_app_id: false,
            },
            build: BuildConfig { dev_url: None, frontend_dist: None },
            webview_install_mode: WebviewInstallMode::DownloadBootstrapper,
            plugins: plugins_section(),
        },
        package_info: PackageInfo {
            name: "app".to_string(),
            version: "1.0.0".to_string(),
            authors: "".to_string(),
            description: "".to_string(),
        },
        assets: vec![],
        default_window_icon: None,
        app_icon: None,
        tray_icon: None,
        config_parent: None,
    }
}

fn menu(id: &str) -> Menu {
    Menu { id: id.to_string(), items: vec![] }
}

fn outcome(step: &BuildStep) -> BuildOutcome {
    match step {
        BuildStep::CreateRuntime { .. } => {
            BuildOutcome::RuntimeCreated { runtime: Runtime(1), handle: RuntimeHandle(2) }
        }
        BuildStep::CreateMenu(_) => BuildOutcome::MenuCreated(menu("main-menu")),
        BuildStep::InitializePlugin { plugin, .. } => {
            BuildOutcome::PluginInitialized { name: format!("core-{:?}", plugin) }
        }
        _ => BuildOutcome::Done,
    }
}

fn build(builder: Builder, context: Context) -> App {
    let mut build = builder.build(context);
    while let Some(step) = build.step() {
        let outcome = outcome(step);
        build = match build.resume(outcome) {
            Ok(build) => build,
            Err(error) => panic!("{:?}", error),
        };
    }
    build.finish().unwrap()
}

fn brought(plugin: CorePlugin) -> BuildStep {
    BuildStep::InitializePlugin { plugin, config: plugins_section() }
}

fn asked(name: &str) -> PluginRequest {
    PluginRequest { name: name.to_string(), config: plugins_section() }
}

fn steps(builder: Builder, context: Context) -> Vec<BuildStep> {
    builder.build(context).steps
}

#[test]
fn a_new_builder_has_its_defaults() {
    let builder = builder(target(Os::Linux));
    assert!(!builder.runtime_any_thread);
    assert_eq!(builder.invoke_handler, None);
    assert_eq!(builder.setup, SetupHook::Nothing);
    assert_eq!(builder.on_page_load, None);
    assert_eq!(builder.plugins.len(), 0);
    assert_eq!(builder.uri_scheme_protocols.len(), 0);
    assert!(!builder.state.contains(StateKey::Env));
    assert_eq!(builder.menu, None);
    assert!(builder.menu_event_listeners.is_empty());
    assert!(builder.enable_macos_default_menu);
    assert!(builder.window_event_listeners.is_empty());
    assert!(builder.webview_event_listeners.is_empty());
    assert_eq!(builder.device_event_filter, DeviceEventFilter::Unfocused);
    assert_eq!(builder.invoke_key, "key");
}

#[test]
fn a_new_builder_renders_the_initialization_script() {
    assert_eq!(
        builder(target(Os::MacOs)).invoke_initialization_script,
        "run(m => m, JSON.parse('\"macos\"'), JSON.parse('\"fetch\"'), JSON.parse('\"key\"'))"
    );
}

#[test]
fn the_initialization_script_escapes_its_values() {
    let built = Builder::new(target(Os::Linux), &scripts(), "it's \"a\\b\"\n".to_string());
    assert_eq!(
        built.invoke_initialization_script,
        "run(m => m, JSON.parse('\"linux\"'), JSON.parse('\"fetch\"'), \
         JSON.parse('\"it\\'s \\\\\"a\\\\\\\\b\\\\\"\\\\n\"'))"
    );
}

#[test]
fn the_initialization_script_escapes_control_characters() {
    let key = "\u{1}\u{8}\t\u{c}\r\u{1f}\u{7f}\u{e9}".to_string();
    let built = Builder::new(target(Os::Linux), &scripts(), key);
    assert!(built.invoke_initialization_script.ends_with(
        ", JSON.parse('\"\\\\u0001\\\\b\\\\t\\\\f\\\\r\\\\u001f\u{7f}\u{e9}\"'))"
    ));
}

#[test]
fn plugins_are_initialized_until_one_fails() {
    let app = build(builder(target(Os::Android)).plugin("mine".to_string()), context());
    let mut series = app.handle.manager.initialize_plugins();
    assert_eq!(series.resume(Ok(())), Progress::Perform(asked("mine")));
    assert_eq!(series.resume(Ok(())), Progress::Perform(asked("core-Path")));
    let error = || Error::Other("no".to_string());
    assert_eq!(series.resume(Err(error())), Progress::Finished(Err(error())));
    assert_eq!(series.resume(Ok(())), Progress::Finished(Ok(())));
}

#[test]
fn every_system_has_its_name() {
    let names = [
        (Os::Linux, "linux"),
        (Os::DragonFly, "dragonfly"),
        (Os::FreeBsd, "freebsd"),
        (Os::NetBsd, "netbsd"),
        (Os::OpenBsd, "openbsd"),
        (Os::MacOs, "macos"),
        (Os::Windows, "windows"),
        (Os::Ios, "ios"),
        (Os::Android, "android"),
    ];
    for (os, name) in names {
        assert_eq!(target(os).os_name(), name);
    }
}

#[test]
fn invoke_system_replaces_each_token() {
    let built = builder(target(Os::Linux))
        .invoke_system("const a = __INVOKE_KEY__; const b = __INVOKE_KEY__;".to_string());
    assert_eq!(built.invoke_initialization_script, "const a = \"key\"; const b = \"key\";");
    let built = built.invoke_system("no token".to_string());
    assert_eq!(built.invoke_initialization_script, "no token");
    let built = built.invoke_system("__INVOKE_KEY____INVOKE_KEY_".to_string());
    assert_eq!(built.invoke_initialization_script, "\"key\"__INVOKE_KEY_");
}

#[test]
fn a_script_is_appended() {
    let built = builder(target(Os::Linux))
        .invoke_system("one;".to_string())
        .append_invoke_initialization_script("two;")
        .append_invoke_initialization_script("three;");
    assert_eq!(built.invoke_initialization_script, "one;two;three;");
}

#[test]
fn setters_keep_the_last_and_listeners_add_up() {
    let built = builder(target(Os::Linux))
        .any_thread()
        .invoke_handler(HookId(1))
        .invoke_handler(HookId(2))
        .setup(HookId(3))
        .on_page_load(HookId(4))
        .menu(HookId(5))
        .menu(HookId(6))
        .on_menu_event(HookId(7))
        .on_menu_event(HookId(8))
        .enable_macos_default_menu(false)
        .on_window_event(HookId(9))
        .on_window_event(HookId(10))
        .on_webview_event(HookId(11))
        .on_webview_event(HookId(12))
        .device_event_filter(DeviceEventFilter::Never);
    assert!(built.runtime_any_thread);
    assert_eq!(built.invoke_handler, Some(HookId(2)));
    assert_eq!(built.setup, SetupHook::Call(HookId(3)));
    assert_eq!(built.on_page_load, Some(HookId(4)));
    assert_eq!(built.menu, Some(MenuFactory::Call(HookId(6))));
    assert_eq!(built.menu_event_listeners, vec![HookId(7), HookId(8)]);
    assert!(!built.enable_macos_default_menu);
    assert_eq!(built.window_event_listeners, vec![HookId(9), HookId(10)]);
    assert_eq!(built.webview_event_listeners, vec![HookId(11), HookId(12)]);
    assert_eq!(built.device_event_filter, DeviceEventFilter::Never);
}

#[test]
fn the_last_protocol_of_a_scheme_counts() {
    let built = builder(target(Os::Linux))
        .register_uri_scheme_protocol("a".to_string(), HookId(1))
        .register_uri_scheme_protocol("b".to_string(), HookId(2))
        .register_asynchronous_uri_scheme_protocol("a".to_string(), HookId(3));
    assert_eq!(built.uri_scheme_protocols.len(), 2);
    assert_eq!(built.uri_scheme_protocols.get("a"), Some(&UriSchemeProtocol::Async(HookId(3))));
    assert_eq!(built.uri_scheme_protocols.get("b"), Some(&UriSchemeProtocol::Sync(HookId(2))));
}

#[test]
fn state_of_each_type_is_managed() {
    let built =
        builder(target(Os::Linux)).manage(StateKey::User(1)).manage(StateKey::User(2));
    assert!(built.state.contains(StateKey::User(1)));
    assert!(built.state.contains(StateKey::User(2)));
    assert!(!built.state.contains(StateKey::User(3)));
}

#[test]
fn linux_is_built_in_order() {
    let mut linux = target(Os::Linux);
    linux.protocol_asset = false;
    let mut given = context();
    given.config.app.enable_gtk_app_id = true;
    assert_eq!(
        steps(builder(linux).any_thread(), given),
        vec![
            BuildStep::CreateRuntime {
                any_thread: true,
                app_id: Some("com.example.app".to_string()),
                msg_hook: false,
            },
            BuildStep::SetMenuEventHandler,
            BuildStep::SetTrayEventHandler,
            BuildStep::SetDeviceEventFilter(DeviceEventFilter::Unfocused),
            brought(CorePlugin::Path),
            brought(CorePlugin::Event),
            brought(CorePlugin::Window),
            brought(CorePlugin::Webview),
            brought(CorePlugin::App),
            brought(CorePlugin::Resources),
            brought(CorePlugin::Image),
            brought(CorePlugin::Menu),
            brought(CorePlugin::Tray),
            BuildStep::Manage(StateKey::Env),
            BuildStep::Manage(StateKey::Scopes),
            BuildStep::Manage(StateKey::ChannelDataIpcQueue),
            brought(CorePlugin::Channel),
            BuildStep::InitializePlugins,
        ]
    );
}

#[test]
fn android_is_built_without_menus_and_trays() {
    let mut given = context();
    given.config.app.enable_gtk_app_id = true;
    given.config.app.tray_icon = Some(TrayIconConfig {
        id: None,
        icon_as_template: false,
        menu_on_left_click: true,
        title: None,
        tooltip: None,
    });
    assert_eq!(
        steps(builder(target(Os::Android)), given),
        vec![
            BuildStep::CreateRuntime { any_thread: false, app_id: None, msg_hook: false },
            BuildStep::SetDeviceEventFilter(DeviceEventFilter::Unfocused),
            brought(CorePlugin::Path),
            brought(CorePlugin::Event),
            brought(CorePlugin::Window),
            brought(CorePlugin::Webview),
            brought(CorePlugin::App),
            brought(CorePlugin::Resources),
            brought(CorePlugin::Image),
            BuildStep::Manage(StateKey::Env),
            BuildStep::CreateAssetScope { scope: "[\"$APPDATA/**\"]".to_string() },
            BuildStep::Manage(StateKey::Scopes),
            BuildStep::Manage(StateKey::ChannelDataIpcQueue),
            brought(CorePlugin::Channel),
            BuildStep::InitializePlugins,
        ]
    );
}

#[test]
fn windows_finds_a_fixed_webview_and_the_tray_icon() {
    let mut given = context();
    given.config.webview_install_mode =
        WebviewInstallMode::FixedRuntime { path: "webview".to_string() };
    given.config.app.tray_icon = Some(TrayIconConfig {
        id: None,
        icon_as_template: false,
        menu_on_left_click: true,
        title: Some("title".to_string()),
        tooltip: None,
    });
    given.tray_icon = Some(Image { rgba: vec![0, 0, 0, 0], width: 1, height: 1 });
    let all = steps(builder(target(Os::Windows)), given);
    assert_eq!(
        all[0],
        BuildStep::CreateRuntime { any_thread: false, app_id: None, msg_hook: true }
    );
    assert_eq!(
        all[all.len() - 3..],
        [
            BuildStep::SetWebviewFolder { path: "webview".to_string() },
            BuildStep::BuildTrayIcon(TrayIconRequest {
                id: "main".to_string(),
                icon_as_template: false,
                menu_on_left_click: true,
                with_picture: true,
                title: Some("title".to_string()),
                tooltip: None,
            }),
            BuildStep::InitializePlugins,
        ]
    );
}

#[test]
fn macos_has_a_default_menu_unless_it_is_disabled() {
    let all = steps(builder(target(Os::MacOs)), context());
    assert_eq!(all[4], BuildStep::CreateMenu(MenuFactory::Default));
    assert_eq!(all[5], BuildStep::InitAppMenu);
    let all = steps(builder(target(Os::MacOs)).menu(HookId(1)), context());
    assert_eq!(all[4], BuildStep::CreateMenu(MenuFactory::Call(HookId(1))));
    let all = steps(builder(target(Os::MacOs)).enable_macos_default_menu(false), context());
    assert_eq!(all[4], brought(CorePlugin::Path));
    let all = steps(builder(target(Os::Linux)), context());
    assert_eq!(all[4], brought(CorePlugin::Path));
    let all = steps(builder(target(Os::Linux)).menu(HookId(1)), context());
    assert_eq!(all[4], BuildStep::CreateMenu(MenuFactory::Call(HookId(1))));
    assert_eq!(all[5], brought(CorePlugin::Path));
}

#[test]
fn a_built_application_is_complete() {
    let mut given = context();
    given.config.app.tray_icon = Some(TrayIconConfig {
        id: Some("tray".to_string()),
        icon_as_template: false,
        menu_on_left_click: true,
        title: None,
        tooltip: None,
    });
    let app = build(
        builder(target(Os::MacOs))
            .plugin("mine".to_string())
            .manage(StateKey::User(5))
            .setup(HookId(3)),
        given,
    );
    assert_eq!(app.runtime, Some(Runtime(1)));
    assert_eq!(app.handle.runtime_handle, RuntimeHandle(2));
    assert_eq!(app.setup, Some(SetupHook::Call(HookId(3))));
    assert!(!app.ran_setup);
    let manager = &app.handle.manager;
    for key in [
        StateKey::Env,
        StateKey::Scopes,
        StateKey::ChannelDataIpcQueue,
        StateKey::User(5),
    ] {
        assert!(manager.state.contains(key));
    }
    assert_eq!(manager.menu.menu, Some(menu("main-menu")));
    assert_eq!(manager.menu.stash.get("main-menu"), Some(&menu("main-menu")));
    assert_eq!(manager.tray.tray_by_id("tray").unwrap().id, "tray");
    assert_eq!(manager.plugins.name_at(0), "mine");
    assert_eq!(manager.plugins.name_at(1), "core-Path");
    assert_eq!(manager.plugins.name_at(10), "core-Channel");
    assert_eq!(manager.plugins.len(), 11);
}

#[test]
fn the_menu_belongs_to_the_application_once_macos_shows_it() {
    let mut build = builder(target(Os::MacOs)).build(context());
    while !matches!(build.step(), Some(BuildStep::InitAppMenu)) {
        let outcome = outcome(build.step().unwrap());
        build = build.resume(outcome).ok().unwrap();
    }
    assert_eq!(build.manager.menu.menu, None);
    assert!(build.manager.menu.stash.contains_key("main-menu"));
    let build = build.resume(BuildOutcome::Done).ok().unwrap();
    assert_eq!(build.manager.menu.menu, Some(menu("main-menu")));
}

#[test]
fn a_runtime_that_fails_ends_the_building() {
    let building = builder(target(Os::Linux)).build(context());
    let error = Error::Runtime(RuntimeError("no display".to_string()));
    match building.resume(BuildOutcome::Failed(error)) {
        Err(error) => {
            assert_eq!(error, Error::Runtime(RuntimeError("no display".to_string())))
        }
        Ok(_) => unreachable!(),
    }
}

#[test]
fn an_unfinished_build_is_no_application() {
    assert!(builder(target(Os::Linux)).build(context()).finish().is_none());
}
