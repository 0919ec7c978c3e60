//! What the application is configured with.
use vstd::prelude::*;

use crate::path::PathComponent;

verus! {

/// A window of the configuration.
#[derive(PartialEq, Eq, Debug)]
pub struct WindowConfig {
    /// The label of the window.
    pub label: String,
    /// Whether the window is created when the application is set up.
    pub create: bool,
    /// Everything else about the window, as JSON.
    pub options: String,
}

/// The tray icon of the configuration.
#[derive(PartialEq, Eq, Debug)]
pub struct TrayIconConfig {
    /// The id of the tray icon.
    pub id: Option<String>,
    /// Whether macOS draws the icon as a template.
    pub icon_as_template: bool,
    /// Whether a left click opens the menu.
    pub menu_on_left_click: bool,
    /// The title beside the icon.
    pub title: Option<String>,
    /// The text shown over the icon.
    pub tooltip: Option<String>,
}

/// Where the frontend is.
#[derive(PartialEq, Eq, Debug)]
pub enum FrontendDist {
    /// At a URL.
    Url(String),
    /// In a directory.
    Directory(Vec<PathComponent>),
    /// In single files.
    Files(Vec<Vec<PathComponent>>),
}

/// How the webview of Windows is installed.
#[derive(PartialEq, Eq, Debug)]
pub enum WebviewInstallMode {
    Skip,
    DownloadBootstrapper,
    EmbedBootstrapper,
    OfflineInstaller,
    /// With the application, in a directory among its resources.
    FixedRuntime { path: String },
}

/// The configuration of the asset protocol.
#[derive(PartialEq, Eq, Debug)]
pub struct AssetProtocolConfig {
    /// The files that the protocol may hand out, as JSON.
    pub scope: String,
}

/// The configuration of what the frontend may do.
#[derive(PartialEq, Eq, Debug)]
pub struct SecurityConfig {
    pub asset_protocol: AssetProtocolConfig,
}

/// The configuration of the running application.
#[derive(PartialEq, Eq, Debug)]
pub struct AppConfig {
    /// The windows.
    pub windows: Vec<WindowConfig>,
    /// The tray icon.
    pub tray_icon: Option<TrayIconConfig>,
    pub security: SecurityConfig,
    /// Whether the identifier is handed to GTK.
    pub enable_gtk_app_id: bool,
}

/// The configuration of the frontend.
#[derive(PartialEq, Eq, Debug)]
pub struct BuildConfig {
    /// The URL of the development server.
    pub dev_url: Option<String>,
    /// Where the frontend is.
    pub frontend_dist: Option<FrontendDist>,
}

/// The configuration of the application.
#[derive(PartialEq, Eq, Debug)]
pub struct Config {
    /// The identifier of the application.
    pub identifier: String,
    pub app: AppConfig,
    pub build: BuildConfig,
    /// How the webview of Windows is installed.
    pub webview_install_mode: WebviewInstallMode,
    /// The section of the plugins, as JSON. Every plugin is handed it when it is initialized.
    pub plugins: String,
}

/// The package that the application is built from.
#[derive(PartialEq, Eq, Debug)]
pub struct PackageInfo {
    pub name: String,
    pub version: String,
    pub authors: String,
    pub description: String,
}

/// A picture, four bytes for each of its points.
#[derive(PartialEq, Eq, Debug)]
pub struct Image {
    pub rgba: Vec<u8>,
    pub width: u32,
    pub height: u32,
}

/// An asset that the application carries.
#[derive(PartialEq, Eq, Debug)]
pub struct EmbeddedAsset {
    pub key: String,
    pub bytes: Vec<u8>,
}

/// What an application is made of besides its code.
#[derive(PartialEq, Eq, Debug)]
pub struct Context {
    pub config: Config,
    pub package_info: PackageInfo,
    /// The assets that the application carries.
    pub assets: Vec<EmbeddedAsset>,
    /// The icon of windows without their own.
    pub default_window_icon: Option<Image>,
    /// The icon of the application, as a file's bytes.
    pub app_icon: Option<Vec<u8>>,
    /// The picture of the tray icon.
    pub tray_icon: Option<Image>,
    /// The directory that the configuration lies in.
    pub config_parent: Option<Vec<PathComponent>>,
}

} // verus!
