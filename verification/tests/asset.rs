use tauri_app::app::App;
use tauri_app::app_build::{BuildOutcome, BuildStep};
use tauri_app::asset::{finish, Asset, AssetAnswer, AssetRequest};
use tauri_app::builder::{Builder, IpcScripts};
use tauri_app::config::{
    AppConfig, AssetProtocolConfig, BuildConfig, Config, Context, EmbeddedAsset, FrontendDist,
    PackageInfo, SecurityConfig, WebviewInstallMode,
};
use tauri_app::handle::AppHandle;
use tauri_app::menu::Menu;
use tauri_app::path::{join, strip_root, PathComponent};
use tauri_app::runtime::{Runtime, RuntimeHandle};
use tauri_app::target::{Os, Target};

fn target(os: Os) -> Target {
    Target { os, dev: false, tray_icon: true, protocol_asset: true }
}

fn scripts() -> IpcScripts {
    IpcScripts {
        template: "run(__RAW_process_ipc_message_fn__, __TEMPLATE_os_name__, \
                   __TEMPLATE_fetch_channel_data_command__, __TEMPLATE_invoke_key__)"
            .to_string(),
        process_ipc_message_fn: "m => m".to_string(),
        fetch_channel_data_command: "fetch".to_string(),
    }
}

fn builder(target: Target) -> Builder {
    Builder::new(target, &scripts(), "key".to_string())
}

fn plugins_section() -> String {
    "{\"mine\":{\"level\":3}}".to_string()
}

fn context() -> Context {
    Context {
        config: Config {
            identifier: "com.example.app".to_string(),
            app: AppConfig {
                windows: vec![],
                tray_icon: None,
                security: SecurityConfig {
                    asset_protocol: AssetProtocolConfig { scope: "[\"$APPDATA/**\"]".to_string() },
                },
                enable_gtk_app_id: false,
            },
            build: BuildConfig { dev_url: None, frontend_dist: None },
            webview_install_mode: WebviewInstallMode::DownloadBootstrapper,
            plugins: plugins_section(),
        },
        package_info: PackageInfo {
            name: "app".to_string(),
            version: "1.0.0".to_string(),
            authors: "".to_string(),
            description: "".to_string(),
        },
        assets: vec![],
        default_window_icon: None,
        app_icon: None,
        tray_icon: None,
        config_parent: None,
    }
}

fn menu(id: &str) -> Menu {
    Menu { id: id.to_string(), items: vec![] }
}

fn outcome(step: &BuildStep) -> BuildOutcome {
    match step {
        BuildStep::CreateRuntime { .. } => {
            BuildOutcome::RuntimeCreated { runtime: Runtime(1), handle: RuntimeHandle(2) }
        }
        BuildStep::CreateMenu(_) => BuildOutcome::MenuCreated(menu("main-menu")),
        BuildStep::InitializePlugin { plugin, .. } => {
            BuildOutcome::PluginInitialized { name: format!("core-{:?}", plugin) }
        }
        _ => BuildOutcome::Done,
    }
}

fn build(builder: Builder, context: Context) -> App {
    let mut build = builder.build(context);
    while let Some(step) = build.step() {
        let outcome = outcome(step);
        build = match build.resume(outcome) {
            Ok(build) => build,
            Err(error) => panic!("{:?}", error),
        };
    }
    build.finish().unwrap()
}

fn name(text: &str) -> PathComponent {
    PathComponent::Normal(text.to_string())
}

fn drive(verbatim: bool) -> PathComponent {
    PathComponent::Prefix { text: "C:".to_string(), verbatim }
}

fn development(os: Os) -> AppHandle {
    let mut target = target(os);
    target.dev = true;
    let mut given = context();
    given.config.build.dev_url = Some("http://localhost:1420".to_string());
    given.config.build.frontend_dist =
        Some(FrontendDist::Directory(vec![PathComponent::ParentDir, name("dist")]));
    given.config_parent = Some(vec![PathComponent::RootDir, name("project")]);
    build(builder(target), given).handle
}

fn file_of_the_directory() -> Vec<PathComponent> {
    vec![PathComponent::RootDir, name("project"), PathComponent::ParentDir, name("dist")]
}

fn on_windows() -> bool {
    std::path::MAIN_SEPARATOR == '\\'
}

fn text(component: &PathComponent) -> String {
    match component {
        PathComponent::Prefix { text, .. } => text.clone(),
        PathComponent::RootDir => std::path::MAIN_SEPARATOR_STR.to_string(),
        PathComponent::CurDir => ".".to_string(),
        PathComponent::ParentDir => "..".to_string(),
        PathComponent::Normal(name) => name.clone(),
    }
}

fn system_path(components: &[PathComponent]) -> std::path::PathBuf {
    components.iter().map(|component| text(component)).collect()
}

fn file(request: AssetRequest) -> Vec<PathComponent> {
    match request {
        AssetRequest::ReadFile { file, .. } => file,
        AssetRequest::Embedded { .. } => unreachable!(),
    }
}

#[test]
fn development_reads_from_the_directory_of_the_frontend() {
    let handle = development(Os::Linux);
    assert_eq!(
        handle.asset_resolver().get("/assets/app.js".to_string()),
        AssetRequest::ReadFile {
            file: vec![
                PathComponent::RootDir,
                name("project"),
                PathComponent::ParentDir,
                name("dist"),
                name("assets"),
                name("app.js"),
            ],
            path: "/assets/app.js".to_string(),
        }
    );
    assert_eq!(
        file(handle.asset_resolver().get("index.html".to_string())),
        vec![
            PathComponent::RootDir,
            name("project"),
            PathComponent::ParentDir,
            name("dist"),
            name("index.html"),
        ]
    );
    let mut handle = development(Os::Linux);
    handle.manager.config_parent = None;
    assert_eq!(
        file(handle.asset_resolver().get("a/./b/../c".to_string())),
        vec![
            PathComponent::ParentDir,
            name("dist"),
            name("a"),
            name("b"),
            PathComponent::ParentDir,
            name("c"),
        ]
    );
}

#[test]
fn a_path_of_names_is_read_behind_the_directory_on_every_system() {
    for os in [Os::Linux, Os::Windows, Os::MacOs, Os::Android] {
        let handle = development(os);
        for asked in ["/a/b-c.d/e_1.js", "a/b-c.d/e_1.js"] {
            let file = file(handle.asset_resolver().get(asked.to_string()));
            assert_eq!(file[4..], [name("a"), name("b-c.d"), name("e_1.js")]);
            assert_eq!(file.len(), 7);
        }
    }
}

#[test]
fn a_path_is_taken_apart_at_its_slashes() {
    let handle = development(Os::Linux);
    let parent = || PathComponent::ParentDir;
    for (asked, expected) in [
        ("my image.png", vec![name("my image.png")]),
        ("\u{e9}t\u{e9}.html", vec![name("\u{e9}t\u{e9}.html")]),
        ("@scope/a.js", vec![name("@scope"), name("a.js")]),
        ("blog/[slug].html", vec![name("blog"), name("[slug].html")]),
        ("a/../b", vec![name("a"), parent(), name("b")]),
        ("/../b", vec![parent(), name("b")]),
        ("./a", vec![PathComponent::CurDir, name("a")]),
        ("/./a", vec![name("a")]),
        ("a/.", vec![name("a")]),
        ("a//b", vec![name("a"), name("b")]),
        ("a/", vec![name("a")]),
        ("posts/10:30.html", vec![name("posts"), name("10:30.html")]),
        ("blog:a/b", vec![name("blog:a"), name("b")]),
        ("...", vec![name("...")]),
        (".a", vec![name(".a")]),
        ("/", vec![]),
        ("", vec![]),
    ] {
        let file = file(handle.asset_resolver().get(asked.to_string()));
        assert_eq!(file[..4], *file_of_the_directory());
        assert_eq!(file[4..], *expected, "{}", asked);
    }
}

#[test]
fn a_path_that_may_hold_a_drive_is_taken_apart_as_the_system_does() {
    let handle = development(Os::Linux);
    let asked = |path: &str| {
        let components = std::path::Path::new(path).components();
        let parts = components.map(|part| part.as_os_str().to_str().unwrap().to_string());
        let expected: Vec<String> = parts.filter(|part| part != "/" && part != "\\").collect();
        let file = file(handle.asset_resolver().get(path.to_string()));
        let found: Vec<String> = file[4..].iter().map(|part| text(part)).collect();
        (found, expected)
    };
    for path in ["c:x", "c:/x/y", "a\\b/c", "\\a", "//server/share/x", "\\\\server\\share"] {
        let (found, expected) = asked(path);
        assert!(!found.is_empty());
        assert_eq!(found, expected);
    }
    if !on_windows() {
        assert_eq!(asked("c:/x").0, ["c:", "x"]);
        assert_eq!(asked("a\\b/c").0, ["a\\b", "c"]);
        assert_eq!(asked("//server/x").0, ["server", "x"]);
    }
}

#[test]
fn paths_are_joined_as_std_joins_them() {
    let lists = || {
        [
            vec![],
            vec![name("a")],
            vec![PathComponent::ParentDir, name("b")],
            vec![PathComponent::RootDir],
            vec![PathComponent::RootDir, name("c"), name("d")],
        ]
    };
    for base in lists() {
        for path in lists() {
            let expected = system_path(&base).join(system_path(&path));
            let base: Vec<PathComponent> = base.iter().cloned().collect();
            assert_eq!(system_path(&join(base, &path, on_windows())), expected);
        }
    }
}

#[test]
fn assets_are_embedded_otherwise() {
    let embedded = AssetRequest::Embedded { path: "/a".to_string() };
    let mut handle = development(Os::Linux);
    handle.manager.target.dev = false;
    assert_eq!(handle.asset_resolver().get("/a".to_string()), embedded);
    let mut handle = development(Os::Linux);
    handle.manager.config.build.dev_url = None;
    assert_eq!(handle.asset_resolver().get("/a".to_string()), embedded);
    let mut handle = development(Os::Linux);
    handle.manager.config.build.frontend_dist =
        Some(FrontendDist::Url("http://example.com".to_string()));
    assert_eq!(handle.asset_resolver().get("/a".to_string()), embedded);
    let mut handle = development(Os::Linux);
    handle.manager.config.build.frontend_dist = None;
    assert_eq!(handle.asset_resolver().get("/a".to_string()), embedded);
}

#[test]
fn a_drive_in_the_asked_path_leads_away_on_windows() {
    let handle = development(Os::Windows);
    let asked = vec![drive(false), PathComponent::RootDir, name("x")];
    assert_eq!(
        file(handle.asset_resolver().get_by_components("C:\\x".to_string(), asked)),
        vec![drive(false), name("x")]
    );
}

#[test]
fn paths_are_joined_as_on_their_system() {
    let base = || vec![drive(false), PathComponent::RootDir, name("a")];
    let rooted = vec![PathComponent::RootDir, name("b")];
    assert_eq!(join(base(), &rooted, true), vec![drive(false), PathComponent::RootDir, name("b")]);
    assert_eq!(join(vec![name("a")], &rooted, false), rooted);
    assert_eq!(join(vec![name("a")], &vec![name("b")], false), vec![name("a"), name("b")]);
    let verbatim = vec![drive(true), PathComponent::RootDir, name("a")];
    let climbing = vec![PathComponent::ParentDir, PathComponent::CurDir, name("b")];
    assert_eq!(
        join(verbatim, &climbing, true),
        vec![drive(true), PathComponent::RootDir, name("b")]
    );
    assert_eq!(strip_root(&vec![PathComponent::RootDir, name("b")]), vec![name("b")]);
}

#[test]
fn a_file_that_was_read_has_no_policy() {
    assert_eq!(
        finish(AssetAnswer::File { bytes: vec![1], mime_type: "text/plain".to_string() }),
        Some(Asset { bytes: vec![1], mime_type: "text/plain".to_string(), csp_header: None })
    );
    assert_eq!(finish(AssetAnswer::Unreadable), None);
    assert_eq!(finish(AssetAnswer::Embedded(None)), None);
    let asset = || Asset {
        bytes: vec![2],
        mime_type: "text/html".to_string(),
        csp_header: Some("default-src 'self'".to_string()),
    };
    assert_eq!(finish(AssetAnswer::Embedded(Some(asset()))), Some(asset()));
}

#[test]
fn all_assets_are_listed() {
    let mut handle = development(Os::Linux);
    handle.manager.assets =
        vec![EmbeddedAsset { key: "/index.html".to_string(), bytes: vec![1, 2] }];
    let listed = handle.asset_resolver().iter();
    assert_eq!(listed.len(), 1);
    assert_eq!(listed[0].key, "/index.html");
    assert_eq!(listed[0].bytes, [1, 2]);
}
