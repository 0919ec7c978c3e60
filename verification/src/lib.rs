//! The core of a desktop and mobile application: what is decided while an application is described,
//! built, set up and run.
//!
//! Nothing here touches a window, a file or the network. A function that needs the system returns
//! what is to be done, and the host does it and reports back. Where several things are to be done
//! one after the other, the function returns a machine: the host asks it for the next step until
//! there is none. The contracts say which steps these are, in which order they come, and what
//! becomes of a failure.
//!
//! - [`series`] is the plainest of these machines: the first thing that fails ends the rest.
//! - [`builder`] and [`app_build`] describe and build an application.
//! - [`app`] sets it up and drives its event loop, and [`dispatch`] says who is told of an event.
//! - [`handle`] is how the rest of a program reaches the application; [`menu_change`] changes its
//!   menu, and [`asset`] finds its assets.
//! - [`manager`] is everything that an application keeps while it runs.
//! - [`uri_scheme`] answers the requests of webviews, and [`script`] prepares them to ask.
pub mod accelerator;
pub mod app;
pub mod app_build;
pub mod asset;
pub mod builder;
pub mod config;
pub mod dispatch;
pub mod error;
pub mod event;
pub mod handle;
pub mod hook;
pub mod label_map;
pub mod listen;
pub mod manager;
pub mod menu;
pub mod menu_change;
pub mod path;
pub mod plugin;
pub mod runtime;
pub mod script;
pub mod series;
pub mod state;
pub mod target;
pub mod text;
pub mod uri_scheme;

pub use app::App;
pub use asset::AssetResolver;
pub use builder::Builder;
pub use event::{CloseRequestApi, ExitRequestApi, RunEvent, WebviewEvent, WindowEvent};
pub use handle::{AppHandle, RESTART_EXIT_CODE};
pub use uri_scheme::{UriSchemeContext, UriSchemeResponder};
