use std::cell::RefCell;
use tauri_app::app::App;
use tauri_app::app_build::{BuildOutcome, BuildStep};
use tauri_app::builder::{Builder, IpcScripts};
use tauri_app::config::{
    AppConfig, AssetProtocolConfig, BuildConfig, Config, Context, PackageInfo, SecurityConfig,
    WebviewInstallMode,
};
use tauri_app::menu::Menu;
use tauri_app::runtime::{Runtime, RuntimeHandle};
use tauri_app::target::{Os, Target};
use tauri_app::hook::HookId;
use tauri_app::uri_scheme::{serve, UriSchemeContext, UriSchemeProtocol, UriSchemeResponder};

fn target(os: Os) -> Target {
    Target { os, dev: false, tray_icon: true, protocol_asset: true }
}

fn scripts() -> IpcScripts {
    IpcScripts {
        template: "run(__RAW_process_ipc_message_fn__, __TEMPLATE_os_name__, \
                   __TEMPLATE_fetch_channel_data_command__, __TEMPLATE_invoke_key__)"
            .to_string(),
        process_ipc_message_fn: "m => m".to_string(),
        fetch_channel_data_command: "fetch".to_string(),
    }
}

fn builder(target: Target) -> Builder {
    Builder::new(target, &scripts(), "key".to_string())
}

fn plugins_section() -> String {
    "{\"mine\":{\"level\":3}}".to_string()
}

fn context() -> Context {
    Context {
        config: Config {
            identifier: "com.example.app".to_string(),
            app: AppConfig {
                windows: vec![],
                tray_icon: None,
                security: SecurityConfig {
                    asset_protocol: AssetProtocolConfig { scope: "[\"$APPDATA/**\"]".to_string() },
                },
                enable_gtk_app_id: false,
            },
            build: BuildConfig { dev_url: None, frontend_dist: None },
            webview_install_mode: WebviewInstallMode::DownloadBootstrapper,
            plugins: plugins_section(),
        },
        package_info: PackageInfo {
            name: "app".to_string(),
            version: "1.0.0".to_string(),
            authors: "".to_string(),
            description: "".to_string(),
        },
        assets: vec![],
        default_window_icon: None,
        app_icon: None,
        tray_icon: None,
        config_parent: None,
    }
}

fn menu(id: &str) -> Menu {
    Menu { id: id.to_string(), items: vec![] }
}

fn outcome(step: &BuildStep) -> BuildOutcome {
    match step {
        BuildStep::CreateRuntime { .. } => {
            BuildOutcome::RuntimeCreated { runtime: Runtime(1), handle: RuntimeHandle(2) }
        }
        BuildStep::CreateMenu(_) => BuildOutcome::MenuCreated(menu("main-menu")),
        BuildStep::InitializePlugin { plugin, .. } => {
            BuildOutcome::PluginInitialized { name: format!("core-{:?}", plugin) }
        }
        _ => BuildOutcome::Done,
    }
}

fn build(builder: Builder, context: Context) -> App {
    let mut build = builder.build(context);
    while let Some(step) = build.step() {
        let outcome = outcome(step);
        build = match build.resume(outcome) {
            Ok(build) => build,
            Err(error) => panic!("{:?}", error),
        };
    }
    build.finish().unwrap()
}

#[test]
fn a_responder_hands_the_response_on() {
    let handed = RefCell::new(None);
    let responder = UriSchemeResponder(|response: http::Response<Vec<u8>>| {
        *handed.borrow_mut() = Some(response);
    });
    let response = http::Response::builder()
        .status(404)
        .header("content-type", "text/plain")
        .body(vec![1, 2, 3])
        .unwrap();
    responder.respond(response);
    let response = handed.into_inner().unwrap();
    assert_eq!(response.status(), 404);
    assert_eq!(response.headers()["content-type"], "text/plain");
    assert_eq!(response.body(), &vec![1, 2, 3]);
}

#[test]
fn a_protocol_answers_with_its_response() {
    let handle = build(builder(target(Os::Linux)), context()).handle;
    let context = UriSchemeContext { app_handle: &handle, webview_label: "main" };
    assert_eq!(context.webview_label(), "main");
    assert_eq!(context.app_handle().invoke_key(), "key");
    let request = || http::Request::builder().uri("app://localhost/x").body(vec![7]).unwrap();
    let protocols = [
        (UriSchemeProtocol::Sync(HookId(1)), b"main\x07\x01".to_vec()),
        (UriSchemeProtocol::Async(HookId(2)), b"later\x07\x02".to_vec()),
    ];
    for (protocol, expected) in protocols {
        let handed = RefCell::new(vec![]);
        let responder = UriSchemeResponder(|response: http::Response<Vec<u8>>| {
            handed.borrow_mut().push(response.into_body());
        });
        serve(
            protocol,
            |hook: HookId, context: UriSchemeContext<'_>, request: http::Request<Vec<u8>>| {
                let mut body = context.webview_label().as_bytes().to_vec();
                body.extend(request.body());
                body.push(hook.0 as u8);
                http::Response::new(body)
            },
            |hook: HookId, _: UriSchemeContext<'_>, request: http::Request<Vec<u8>>, responder| {
                let mut body = b"later".to_vec();
                body.extend(request.body());
                body.push(hook.0 as u8);
                let responder: UriSchemeResponder<_> = responder;
                responder.respond(http::Response::new(body))
            },
            context,
            request(),
            responder,
        );
        assert_eq!(handed.into_inner(), vec![expected]);
    }
}

#[test]
fn an_asynchronous_protocol_may_keep_the_responder() {
    let handed = RefCell::new(0);
    let kept = RefCell::new(None);
    let responder = UriSchemeResponder(|_: http::Response<Vec<u8>>| {
        *handed.borrow_mut() += 1;
    });
    serve(
        UriSchemeProtocol::Async(HookId(1)),
        |_: HookId, _: (), _: http::Request<Vec<u8>>| http::Response::new(vec![]),
        |_: HookId, _: (), _: http::Request<Vec<u8>>, responder| {
            *kept.borrow_mut() = Some(responder);
        },
        (),
        http::Request::new(vec![]),
        responder,
    );
    assert_eq!(*handed.borrow(), 0);
    kept.into_inner().unwrap().respond(http::Response::new(vec![]));
    assert_eq!(*handed.borrow(), 1);
}
