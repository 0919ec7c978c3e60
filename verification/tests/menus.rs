use tauri_app::accelerator::AcceleratorStep;
use tauri_app::app::App;
use tauri_app::app_build::{BuildOutcome, BuildStep};
use tauri_app::builder::{Builder, IpcScripts};
use tauri_app::config::{
    AppConfig, AssetProtocolConfig, BuildConfig, Config, Context, PackageInfo, SecurityConfig,
    WebviewInstallMode,
};
use tauri_app::handle::AppHandle;
use tauri_app::hook::HookId;
use tauri_app::manager::{ResourceTable, Window};
use tauri_app::menu::{
    init_app_menu, AppMenuStep, Menu, MenuItem, MenuItemKind, WindowMenu, HELP_SUBMENU_ID,
    WINDOW_SUBMENU_ID,
};
use tauri_app::menu_change::{MenuChange, MenuPhase, MenuStep, MenuTurn};
use tauri_app::error::Error;
use tauri_app::runtime::{Runtime, RuntimeHandle};
use tauri_app::series::Progress;
use tauri_app::target::{Os, Target};

fn target(os: Os) -> Target {
    Target { os, dev: false, tray_icon: true, protocol_asset: true }
}

fn scripts() -> IpcScripts {
    IpcScripts {
        template: "run(__RAW_process_ipc_message_fn__, __TEMPLATE_os_name__, \
                   __TEMPLATE_fetch_channel_data_command__, __TEMPLATE_invoke_key__)"
            .to_string(),
        process_ipc_message_fn: "m => m".to_string(),
        fetch_channel_data_command: "fetch".to_string(),
    }
}

fn builder(target: Target) -> Builder {
    Builder::new(target, &scripts(), "key".to_string())
}

fn plugins_section() -> String {
    "{\"mine\":{\"level\":3}}".to_string()
}

fn context() -> Context {
    Context {
        config: Config {
            identifier: "com.example.app".to_string(),
            app: AppConfig {
                windows: vec![],
                tray_icon: None,
                security: SecurityConfig {
                    asset_protocol: AssetProtocolConfig { scope: "[\"$APPDATA/**\"]".to_string() },
                },
                enable_gtk_app_id: false,
            },
            build: BuildConfig { dev_url: None, frontend_dist: None },
            webview_install_mode: WebviewInstallMode::DownloadBootstrapper,
            plugins: plugins_section(),
        },
        package_info: PackageInfo {
            name: "app".to_string(),
            version: "1.0.0".to_string(),
            authors: "".to_string(),
            description: "".to_string(),
        },
        assets: vec![],
        default_window_icon: None,
        app_icon: None,
        tray_icon: None,
        config_parent: None,
    }
}

fn menu(id: &str) -> Menu {
    Menu { id: id.to_string(), items: vec![] }
}

fn outcome(step: &BuildStep) -> BuildOutcome {
    match step {
        BuildStep::CreateRuntime { .. } => {
            BuildOutcome::RuntimeCreated { runtime: Runtime(1), handle: RuntimeHandle(2) }
        }
        BuildStep::CreateMenu(_) => BuildOutcome::MenuCreated(menu("main-menu")),
        BuildStep::InitializePlugin { plugin, .. } => {
            BuildOutcome::PluginInitialized { name: format!("core-{:?}", plugin) }
        }
        _ => BuildOutcome::Done,
    }
}

fn build(builder: Builder, context: Context) -> App {
    let mut build = builder.build(context);
    while let Some(step) = build.step() {
        let outcome = outcome(step);
        build = match build.resume(outcome) {
            Ok(build) => build,
            Err(error) => panic!("{:?}", error),
        };
    }
    build.finish().unwrap()
}

fn handle(os: Os) -> AppHandle {
    let mut handle = build(builder(target(os)).menu(HookId(1)), context()).handle;
    let shown = [
        ("app-wide", Some(("main-menu", true))),
        ("own", Some(("own-menu", false))),
        ("none", None),
    ];
    for (label, menu) in shown {
        let menu = menu.map(|(menu, is_app_wide)| WindowMenu {
            is_app_wide,
            menu: menu.to_string(),
        });
        let window = Window { menu, resources: ResourceTable::new() };
        handle.manager.windows.insert(label.to_string(), window);
    }
    handle
}

fn run(handle: &mut AppHandle, mut change: MenuChange) -> (Vec<MenuStep>, Option<Menu>) {
    let mut steps = vec![];
    while let Some(step) = change.advance(&mut handle.manager) {
        steps.push(step);
    }
    assert_eq!(change.phase, MenuPhase::Done);
    (steps, change.previous)
}

fn shown(handle: &AppHandle, label: &str) -> Option<(String, bool)> {
    let window = handle.manager.windows.get(label).unwrap();
    window.menu.as_ref().map(|menu| (menu.menu.clone(), menu.is_app_wide))
}

#[test]
fn a_set_menu_is_on_every_window_without_its_own() {
    let mut linux = handle(Os::Linux);
    let change = linux.set_menu(menu("new"));
    let (steps, previous) = run(&mut linux, change);
    assert_eq!(
        steps,
        vec![
            MenuStep::DetachFromWindow("app-wide".to_string()),
            MenuStep::AttachToWindow("app-wide".to_string()),
            MenuStep::AttachToWindow("none".to_string()),
        ]
    );
    assert_eq!(previous, Some(menu("main-menu")));
    assert_eq!(linux.menu(), Some(&menu("new")));
    assert_eq!(shown(&linux, "app-wide"), Some(("new".to_string(), true)));
    assert_eq!(shown(&linux, "none"), Some(("new".to_string(), true)));
    assert_eq!(shown(&linux, "own"), Some(("own-menu".to_string(), false)));
    assert!(!linux.manager.menu.stash.contains_key("main-menu"));
    assert!(linux.manager.menu.stash.contains_key("new"));
}

#[test]
fn a_removed_menu_is_on_no_window() {
    let mut linux = handle(Os::Linux);
    let change = linux.remove_menu();
    let (steps, previous) = run(&mut linux, change);
    assert_eq!(steps, vec![MenuStep::DetachFromWindow("app-wide".to_string())]);
    assert_eq!(previous, Some(menu("main-menu")));
    assert_eq!(linux.menu(), None);
    assert_eq!(shown(&linux, "app-wide"), None);
    assert_eq!(shown(&linux, "own"), Some(("own-menu".to_string(), false)));
    assert!(!linux.manager.menu.stash.contains_key("main-menu"));
    let change = linux.remove_menu();
    assert_eq!(run(&mut linux, change), (vec![], None));
}

#[test]
fn a_removed_menu_that_a_window_shows_is_kept() {
    let mut linux = handle(Os::Linux);
    let own = WindowMenu { is_app_wide: false, menu: "main-menu".to_string() };
    let window = Window { menu: Some(own), resources: ResourceTable::new() };
    linux.manager.windows.insert("none".to_string(), window);
    let change = linux.remove_menu();
    let _ = run(&mut linux, change);
    assert!(linux.manager.menu.stash.contains_key("main-menu"));
}

#[test]
fn macos_changes_the_menu_of_the_application() {
    let mut mac = handle(Os::MacOs);
    let change = mac.set_menu(menu("new"));
    let (steps, previous) = run(&mut mac, change);
    assert_eq!(
        steps,
        vec![MenuStep::DetachFromApp, MenuStep::AttachToApp(vec![AppMenuStep::InitForNsApp])]
    );
    assert_eq!(previous, Some(menu("main-menu")));
    assert_eq!(mac.menu(), Some(&menu("new")));
    assert_eq!(shown(&mac, "none"), None);
    let change = mac.remove_menu();
    assert_eq!(run(&mut mac, change).0, vec![MenuStep::DetachFromApp]);
}

#[test]
fn a_change_that_is_given_up_keeps_what_was_done() {
    let mut linux = handle(Os::Linux);
    let mut change = linux.set_menu(menu("new"));
    assert_eq!(
        change.advance(&mut linux.manager),
        Some(MenuStep::DetachFromWindow("app-wide".to_string()))
    );
    assert_eq!(linux.menu(), Some(&menu("main-menu")));
    assert!(shown(&linux, "app-wide").is_some());
    assert_eq!(
        change.advance(&mut linux.manager),
        Some(MenuStep::AttachToWindow("app-wide".to_string()))
    );
    assert_eq!(linux.menu(), Some(&menu("new")));
    assert_eq!(shown(&linux, "app-wide"), None);
}

#[test]
fn the_menu_is_hidden_and_shown_where_it_is() {
    let linux = handle(Os::Linux);
    assert_eq!(linux.hide_menu().rest, vec![MenuTurn::Hide("app-wide".to_string())]);
    assert_eq!(linux.show_menu().rest, vec![MenuTurn::Show("app-wide".to_string())]);
    let mut without = handle(Os::Linux);
    without.manager.menu.menu = None;
    assert!(without.hide_menu().rest.is_empty());
    assert!(without.show_menu().rest.is_empty());
    assert!(handle(Os::MacOs).hide_menu().rest.is_empty());
    assert!(handle(Os::MacOs).show_menu().rest.is_empty());
}

#[test]
fn the_menu_of_macos_takes_its_submenus() {
    let item = |id: &str, kind| MenuItem { id: id.to_string(), kind };
    let mut shown = menu("m");
    assert_eq!(init_app_menu(&shown).rest, vec![AppMenuStep::InitForNsApp]);
    shown.items.push(item(WINDOW_SUBMENU_ID, MenuItemKind::Submenu));
    assert_eq!(
        init_app_menu(&shown).rest,
        vec![AppMenuStep::InitForNsApp, AppMenuStep::SetAsWindowsMenu]
    );
    shown.items.push(item(HELP_SUBMENU_ID, MenuItemKind::Submenu));
    assert_eq!(
        init_app_menu(&shown).rest,
        vec![
            AppMenuStep::InitForNsApp,
            AppMenuStep::SetAsWindowsMenu,
            AppMenuStep::SetAsHelpMenu
        ]
    );
    shown.items[0].kind = MenuItemKind::MenuItem;
    assert_eq!(
        init_app_menu(&shown).rest,
        vec![AppMenuStep::InitForNsApp, AppMenuStep::SetAsHelpMenu]
    );
}

#[test]
fn the_first_menu_that_translates_ends_the_search() {
    let mut windows = handle(Os::Windows);
    windows.manager.menu.insert_menu_into_stash(menu("second"));
    let mut search = windows.manager.search_accelerator();
    assert_eq!(search.resume(None), AcceleratorStep::Try("main-menu".to_string()));
    assert_eq!(search.resume(Some(0)), AcceleratorStep::Try("second".to_string()));
    assert_eq!(search.resume(Some(1)), AcceleratorStep::Over(true));
    let mut search = windows.manager.search_accelerator();
    assert_eq!(search.resume(None), AcceleratorStep::Try("main-menu".to_string()));
    assert_eq!(search.resume(Some(2)), AcceleratorStep::Try("second".to_string()));
    assert_eq!(search.resume(Some(0)), AcceleratorStep::Over(false));
}

#[test]
fn a_submenu_that_fails_leaves_the_next_alone() {
    let item =
        |id: &str| MenuItem { id: id.to_string(), kind: MenuItemKind::Submenu };
    let mut shown = menu("m");
    shown.items.push(item(WINDOW_SUBMENU_ID));
    shown.items.push(item(HELP_SUBMENU_ID));
    let mut series = init_app_menu(&shown);
    assert_eq!(series.resume(Ok(())), Progress::Perform(AppMenuStep::InitForNsApp));
    assert_eq!(series.resume(Ok(())), Progress::Perform(AppMenuStep::SetAsWindowsMenu));
    let error = || Error::Other("no".to_string());
    assert_eq!(series.resume(Err(error())), Progress::Finished(Err(error())));
    assert_eq!(series.resume(Ok(())), Progress::Finished(Ok(())));
}

#[test]
fn a_window_whose_menu_cannot_be_hidden_ends_it() {
    let mut linux = handle(Os::Linux);
    let wide = WindowMenu { is_app_wide: true, menu: "main-menu".to_string() };
    let window = Window { menu: Some(wide), resources: ResourceTable::new() };
    linux.manager.windows.insert("none".to_string(), window);
    let mut series = linux.hide_menu();
    assert_eq!(series.resume(Ok(())), Progress::Perform(MenuTurn::Hide("app-wide".to_string())));
    let error = || Error::Other("no".to_string());
    assert_eq!(series.resume(Err(error())), Progress::Finished(Err(error())));
}

#[test]
fn a_removed_menu_can_be_set_again() {
    let mut linux = handle(Os::Linux);
    let change = linux.remove_menu();
    let (_, previous) = run(&mut linux, change);
    let change = linux.set_menu(previous.unwrap());
    let _ = run(&mut linux, change);
    assert_eq!(linux.menu(), Some(&menu("main-menu")));
    assert_eq!(shown(&linux, "app-wide"), Some(("main-menu".to_string(), true)));
}

#[test]
fn a_refused_macos_step_keeps_the_menu() {
    let mut mac = handle(Os::MacOs);
    let mut change = mac.remove_menu();
    assert_eq!(change.advance(&mut mac.manager), Some(MenuStep::DetachFromApp));
    assert_eq!(change.phase, MenuPhase::Detach);
    assert_eq!(mac.menu(), Some(&menu("main-menu")));
    assert!(mac.manager.menu.stash.contains_key("main-menu"));
}
