//! What the application is built for.
use vstd::prelude::*;

verus! {

/// The operating systems that an application can be built for.
#[derive(Clone, Copy, PartialEq, Eq, Structural, Debug)]
pub enum Os {
    Linux,
    DragonFly,
    FreeBsd,
    NetBsd,
    OpenBsd,
    MacOs,
    Windows,
    Ios,
    Android,
}

/// The operating system and the optional parts that an application is built with.
#[derive(Clone, Copy, PartialEq, Eq, Structural, Debug)]
pub struct Target {
    /// The operating system.
    pub os: Os,
    /// Whether this is a development build, which may read its assets from the disk.
    pub dev: bool,
    /// Whether tray icons are built in.
    pub tray_icon: bool,
    /// Whether the asset protocol is built in.
    pub protocol_asset: bool,
}

impl Target {
    /// Whether the system is a desktop's: it has menus.
    #[verifier::allow_in_spec]
    pub fn is_desktop(&self) -> bool
        returns
            !(self.os == Os::Ios || self.os == Os::Android),
    {
        !(self.os == Os::Ios || self.os == Os::Android)
    }

    /// Whether the desktop has tray icons and they are built in.
    #[verifier::allow_in_spec]
    pub fn has_tray(&self) -> bool
        returns
            self.is_desktop() && self.tray_icon,
    {
        self.is_desktop() && self.tray_icon
    }

    /// Whether the system is macOS, where the one menu belongs to the application.
    #[verifier::allow_in_spec]
    pub fn is_macos(&self) -> bool
        returns
            self.os == Os::MacOs,
    {
        self.os == Os::MacOs
    }

    /// Whether the system is Windows.
    #[verifier::allow_in_spec]
    pub fn is_windows(&self) -> bool
        returns
            self.os == Os::Windows,
    {
        self.os == Os::Windows
    }

    /// Whether each window carries its own menu bar.
    #[verifier::allow_in_spec]
    pub fn has_window_menus(&self) -> bool
        returns
            self.is_desktop() && !self.is_macos(),
    {
        self.is_desktop() && !self.is_macos()
    }

    /// Whether the event loop may run on a thread other than the main one.
    #[verifier::allow_in_spec]
    pub fn allows_any_thread(&self) -> bool
        returns
            self.os == Os::Windows || self.os == Os::Linux,
    {
        self.os == Os::Windows || self.os == Os::Linux
    }

    /// Whether the runtime takes a GTK application id.
    #[verifier::allow_in_spec]
    pub fn has_gtk_app_id(&self) -> bool
        returns
            self.os == Os::Linux || self.os == Os::DragonFly || self.os == Os::FreeBsd || self.os
                == Os::NetBsd || self.os == Os::OpenBsd,
    {
        self.os == Os::Linux || self.os == Os::DragonFly || self.os == Os::FreeBsd || self.os
            == Os::NetBsd || self.os == Os::OpenBsd
    }

    /// Whether the system asks the application to open resources.
    #[verifier::allow_in_spec]
    pub fn opens_urls(&self) -> bool
        returns
            self.os == Os::MacOs || self.os == Os::Ios,
    {
        self.os == Os::MacOs || self.os == Os::Ios
    }

    /// The name of the system.
    pub open spec fn spec_os_name(&self) -> Seq<char> {
        match self.os {
            Os::Linux => "linux"@,
            Os::DragonFly => "dragonfly"@,
            Os::FreeBsd => "freebsd"@,
            Os::NetBsd => "netbsd"@,
            Os::OpenBsd => "openbsd"@,
            Os::MacOs => "macos"@,
            Os::Windows => "windows"@,
            Os::Ios => "ios"@,
            Os::Android => "android"@,
        }
    }

    /// The name of the system.
    pub fn os_name(&self) -> (name: &'static str)
        ensures
            name@ == self.spec_os_name(),
    {
        match self.os {
            Os::Linux => "linux",
            Os::DragonFly => "dragonfly",
            Os::FreeBsd => "freebsd",
            Os::NetBsd => "netbsd",
            Os::OpenBsd => "openbsd",
            Os::MacOs => "macos",
            Os::Windows => "windows",
            Os::Ios => "ios",
            Os::Android => "android",
        }
    }
}

/// What the systems have: phones have neither menus nor tray icons, macOS has one menu for the
/// application and the other desktops one for each window, Windows and Linux let the event loop run
/// on any thread, the systems with GTK take an application id, and Apple's ask to open resources.
pub proof fn law_what_systems_have(target: Target)
    ensures
        target.is_desktop() <==> match target.os {
            Os::Ios | Os::Android => false,
            _ => true,
        },
        target.has_tray() ==> target.is_desktop(),
        target.is_desktop() ==> target.has_tray() == target.tray_icon,
        target.is_desktop() <==> target.is_macos() || target.has_window_menus(),
        !(target.is_macos() && target.has_window_menus()),
        target.is_macos() <==> target.os is MacOs,
        target.is_windows() <==> target.os is Windows,
        target.is_windows() ==> target.allows_any_thread() && !target.has_gtk_app_id(),
        target.allows_any_thread() && !target.is_windows() <==> target.os is Linux,
        target.is_desktop() <==> target.has_gtk_app_id() || target.is_windows()
            || target.is_macos(),
        target.has_gtk_app_id() ==> !target.is_macos() && !(target.os is Ios),
        target.opens_urls() <==> target.is_macos() || target.os is Ios,
{
}

/// Each system is called by its own name.
pub proof fn law_systems_have_their_names(target: Target)
    ensures
        target.os is Linux ==> target.spec_os_name() == "linux"@,
        target.os is MacOs ==> target.spec_os_name() == "macos"@,
        target.os is Windows ==> target.spec_os_name() == "windows"@,
        target.os is Ios ==> target.spec_os_name() == "ios"@,
        target.os is Android ==> target.spec_os_name() == "android"@,
        target.os is FreeBsd ==> target.spec_os_name() == "freebsd"@,
        target.os is NetBsd ==> target.spec_os_name() == "netbsd"@,
        target.os is OpenBsd ==> target.spec_os_name() == "openbsd"@,
        target.os is DragonFly ==> target.spec_os_name() == "dragonfly"@,
{
}

} // verus!
