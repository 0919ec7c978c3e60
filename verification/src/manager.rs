//! Everything that the application keeps while it runs.
use vstd::prelude::*;

use crate::config::{Config, Context, EmbeddedAsset, Image, PackageInfo};
use crate::hook::HookId;
use crate::label_map::LabelMap;
use crate::menu::{MenuManager, WindowMenu};
use crate::path::PathComponent;
use crate::plugin::PluginStore;
use crate::state::StateManager;
use crate::target::Target;
use crate::uri_scheme::UriSchemeProtocol;

verus! {

/// The resources that are lent to the frontend, by number.
#[derive(PartialEq, Eq, Debug)]
pub struct ResourceTable {
    pub ids: Vec<u32>,
}

impl ResourceTable {
    /// No resource.
    pub fn new() -> (table: Self)
        ensures
            table.ids@ == Seq::<u32>::empty(),
    {
        ResourceTable { ids: Vec::new() }
    }

    /// Gives up every resource.
    pub fn clear(&mut self)
        ensures
            final(self).ids@ == Seq::<u32>::empty(),
    {
        self.ids.clear();
    }
}

/// A window of the application.
#[derive(PartialEq, Eq, Debug)]
pub struct Window {
    pub menu: Option<WindowMenu>,
    pub resources: ResourceTable,
}

impl Window {
    /// Whether the window shows the menu of the application.
    pub open spec fn shows_app_menu(&self) -> bool {
        match self.menu {
            Some(menu) => menu.is_app_wide,
            None => false,
        }
    }

    /// Whether the window has a menu of its own.
    pub open spec fn has_own_menu(&self) -> bool {
        match self.menu {
            Some(menu) => !menu.is_app_wide,
            None => false,
        }
    }

    /// Whether the window shows the menu of that id.
    pub open spec fn uses(&self, id: Seq<char>) -> bool {
        match self.menu {
            Some(menu) => menu.menu@ == id,
            None => false,
        }
    }

    /// Whether the window shows the menu of the application.
    pub fn has_app_wide_menu(&self) -> (shows: bool)
        ensures
            shows == self.shows_app_menu(),
    {
        match &self.menu {
            Some(menu) => menu.is_app_wide,
            None => false,
        }
    }

    /// Whether the window shows the menu of that id.
    pub fn is_menu_in_use(&self, id: &String) -> (used: bool)
        ensures
            used == self.uses(id@),
    {
        match &self.menu {
            Some(menu) => menu.menu == *id,
            None => false,
        }
    }
}

/// A webview of the application.
#[derive(PartialEq, Eq, Debug)]
pub struct Webview {
    /// The label of the window that the webview is in.
    pub window: String,
    pub resources: ResourceTable,
}

/// A tray icon.
#[derive(PartialEq, Eq, Debug)]
pub struct TrayIcon {
    pub id: String,
}

/// The tray icons of the application, and who listens to them.
pub struct TrayManager {
    /// The picture of the configured tray icon.
    pub icon: Option<Image>,
    /// The tray icons, in the order in which they came.
    pub icons: Vec<TrayIcon>,
    /// The listeners to every tray icon event, in the order in which they came.
    pub global_event_listeners: Vec<HookId>,
    /// The listeners to the events of one tray icon, by its id.
    pub event_listeners: LabelMap<HookId>,
}

/// The place of the first tray icon of that id, or the number of tray icons where there is none.
pub open spec fn tray_place(icons: Seq<TrayIcon>, id: Seq<char>) -> int
    decreases icons.len(),
{
    if icons.len() == 0 || icons[0].id@ == id {
        0
    } else {
        1 + tray_place(icons.skip(1), id)
    }
}

/// The place of a tray icon lies among the tray icons, and those before it have other ids.
pub proof fn lemma_tray_place(icons: Seq<TrayIcon>, id: Seq<char>)
    ensures
        0 <= tray_place(icons, id) <= icons.len(),
        tray_place(icons, id) < icons.len() ==> icons[tray_place(icons, id)].id@ == id,
        forall|i: int| 0 <= i < tray_place(icons, id) ==> (#[trigger] icons[i]).id@ != id,
    decreases icons.len(),
{
    if icons.len() > 0 && icons[0].id@ != id {
        let rest = icons.skip(1);
        lemma_tray_place(rest, id);
        let place = tray_place(rest, id);
        assert(place < rest.len() ==> rest[place] == icons[place + 1]);
        assert forall|i: int| 0 <= i < place + 1 implies (#[trigger] icons[i]).id@ != id by {
            if i > 0 {
                assert(rest[i - 1] == icons[i]);
            }
        }
    }
}

impl TrayManager {
    /// Whether there is a tray icon of that id.
    pub open spec fn has(&self, id: Seq<char>) -> bool {
        tray_place(self.icons@, id) < self.icons@.len()
    }

    fn find(&self, id: &str) -> (place: usize)
        ensures
            place == tray_place(self.icons@, id@),
            place <= self.icons@.len(),
    {
        let wanted = id.to_owned();
        let mut i: usize = 0;
        assert(self.icons@.skip(0) =~= self.icons@);
        while i < self.icons.len()
            invariant
                i <= self.icons.len(),
                wanted@ == id@,
                tray_place(self.icons@, id@) == i + tray_place(self.icons@.skip(i as int), id@),
            decreases self.icons.len() - i,
        {
            if self.icons[i].id == wanted {
                return i;
            }
            assert(self.icons@.skip(i as int).skip(1) =~= self.icons@.skip(i + 1));
            i += 1;
        }
        i
    }

    /// The tray icon of that id.
    pub fn tray_by_id(&self, id: &str) -> (icon: Option<&TrayIcon>)
        ensures
            match icon {
                Some(icon) => self.has(id@) && *icon == self.icons@[tray_place(self.icons@, id@)],
                None => !self.has(id@),
            },
    {
        let place = self.find(id);
        if place < self.icons.len() {
            Some(&self.icons[place])
        } else {
            None
        }
    }

    /// Takes the tray icon of that id away and returns it.
    pub fn remove_tray_by_id(&mut self, id: &str) -> (icon: Option<TrayIcon>)
        ensures
            match icon {
                Some(icon) => old(self).has(id@) && icon == old(self).icons@[tray_place(
                    old(self).icons@,
                    id@,
                )] && final(self).icons@ == old(self).icons@.remove(
                    tray_place(old(self).icons@, id@),
                ),
                None => !old(self).has(id@) && final(self).icons@ == old(self).icons@,
            },
            *final(self) == (TrayManager { icons: final(self).icons, ..*old(self) }),
    {
        let place = self.find(id);
        if place < self.icons.len() {
            Some(self.icons.remove(place))
        } else {
            None
        }
    }
}

/// Everything that the application keeps while it runs.
pub struct AppManager {
    pub target: Target,
    pub config: Config,
    pub package_info: PackageInfo,
    /// The directory that the configuration lies in.
    pub config_parent: Option<Vec<PathComponent>>,
    /// The assets that the application carries.
    pub assets: Vec<EmbeddedAsset>,
    pub app_icon: Option<Vec<u8>>,
    pub default_window_icon: Option<Image>,
    /// The windows, by label.
    pub windows: LabelMap<Window>,
    /// The webviews, by label.
    pub webviews: LabelMap<Webview>,
    pub menu: MenuManager,
    pub tray: TrayManager,
    pub plugins: PluginStore,
    pub state: StateManager,
    pub resources: ResourceTable,
    /// Answers the messages of the frontend; without one they are left unanswered.
    pub invoke_handler: Option<HookId>,
    pub on_page_load: Option<HookId>,
    /// The protocols of the webviews, by scheme.
    pub uri_scheme_protocols: LabelMap<UriSchemeProtocol>,
    pub window_event_listeners: Vec<HookId>,
    pub webview_event_listeners: Vec<HookId>,
    pub invoke_initialization_script: String,
    pub invoke_key: String,
}

/// Whether any of the windows shows the menu of that id.
pub open spec fn used_by_a_window(windows: Map<Seq<char>, Window>, id: Seq<char>) -> bool {
    exists|label: Seq<char>| #[trigger] windows.contains_key(label) && windows[label].uses(id)
}

/// Whether `after` is `before` without the window of that label and the webviews that were in it.
pub open spec fn window_gone(before: AppManager, label: Seq<char>, after: AppManager) -> bool {
    &&& after == AppManager { windows: after.windows, webviews: after.webviews, ..before }
    &&& after.windows@ == before.windows@.remove(label)
    &&& forall|webview: Seq<char>| #[trigger]
        after.webviews@.contains_key(webview) <==> before.webviews@.contains_key(webview) && !(
        before.windows@.contains_key(label) && before.webviews@[webview].window@ == label)
    &&& forall|webview: Seq<char>|
        after.webviews@.contains_key(webview) ==> #[trigger] after.webviews@[webview]
            == before.webviews@[webview]
}

/// Whether `after` is `before` without any resource or tray icon.
pub open spec fn cleaned_up(before: AppManager, after: AppManager) -> bool {
    &&& after == AppManager {
        tray: TrayManager { icons: after.tray.icons, ..before.tray },
        resources: after.resources,
        windows: after.windows,
        webviews: after.webviews,
        ..before
    }
    &&& after.tray.icons@ == (if before.target.has_tray() {
        Seq::<TrayIcon>::empty()
    } else {
        before.tray.icons@
    })
    &&& after.resources.ids@ == Seq::<u32>::empty()
    &&& after.windows.order() == before.windows.order()
    &&& after.windows@.dom() == before.windows@.dom()
    &&& forall|label: Seq<char>|
        after.windows@.contains_key(label) ==> (#[trigger] after.windows@[label]).resources.ids@
            == Seq::<u32>::empty() && after.windows@[label].menu == before.windows@[label].menu
    &&& after.webviews.order() == before.webviews.order()
    &&& after.webviews@.dom() == before.webviews@.dom()
    &&& forall|label: Seq<char>|
        after.webviews@.contains_key(label) ==> (#[trigger] after.webviews@[label]).resources.ids@
            == Seq::<u32>::empty() && after.webviews@[label].window
            == before.webviews@[label].window
}

/// The windows that are hidden before the process ends: on Windows all of them.
pub open spec fn windows_to_hide(manager: AppManager) -> Seq<Seq<char>> {
    if manager.target.is_windows() {
        manager.windows.order()
    } else {
        Seq::empty()
    }
}

/// The windows that show the menu of the application, or with `app_wide_only` false the windows
/// that show any menu, in their order.
pub open spec fn windows_with_menu(manager: AppManager, app_wide_only: bool) -> Seq<Seq<char>> {
    manager.windows.order().filter(
        |label: Seq<char>|
            if app_wide_only {
                manager.windows@[label].shows_app_menu()
            } else {
                manager.windows@[label].menu is Some
            },
    )
}

impl AppManager {
    /// The windows that show the menu of the application, or with `app_wide_only` false the windows
    /// that show any menu, in their order.
    pub fn list_windows_with_menu(&self, app_wide_only: bool) -> (labels: Vec<String>)
        ensures
            labels@.map_values(|label: String| label@) == windows_with_menu(*self, app_wide_only),
    {
        let ghost shows = |label: Seq<char>|
            if app_wide_only {
                self.windows@[label].shows_app_menu()
            } else {
                self.windows@[label].menu is Some
            };
        let ghost order = self.windows.order();
        let mut labels: Vec<String> = Vec::new();
        let len = self.windows.len();
        let mut i: usize = 0;
        proof {
            reveal(Seq::filter);
            assert(labels@.map_values(|label: String| label@) =~= order.take(0).filter(shows));
        }
        while i < len
            invariant
                i <= len,
                len == order.len(),
                order == self.windows.order(),
                shows == (|label: Seq<char>|
                    if app_wide_only {
                        self.windows@[label].shows_app_menu()
                    } else {
                        self.windows@[label].menu is Some
                    }),
                labels@.map_values(|label: String| label@) == order.take(i as int).filter(shows),
            decreases len - i,
        {
            let window = self.windows.value_at(i);
            let listed = if app_wide_only {
                window.has_app_wide_menu()
            } else {
                window.menu.is_some()
            };
            let ghost before = labels@.map_values(|label: String| label@);
            proof {
                reveal(Seq::filter);
                assert(order.take(i + 1).drop_last() =~= order.take(i as int));
                assert(order.take(i + 1).last() == order[i as int]);
            }
            if listed {
                labels.push(self.windows.label_at(i).clone());
                assert(labels@.map_values(|label: String| label@) =~= before.push(
                    order[i as int],
                ));
            }
            i += 1;
        }
        assert(order.take(i as int) =~= order);
        labels
    }

    /// Takes together what the application is made of and what it was given.
    pub fn with_handlers(
        target: Target,
        context: Context,
        plugins: PluginStore,
        invoke_handler: Option<HookId>,
        on_page_load: Option<HookId>,
        uri_scheme_protocols: LabelMap<UriSchemeProtocol>,
        state: StateManager,
        menu_event_listeners: Vec<HookId>,
        window_event_listeners: Vec<HookId>,
        webview_event_listeners: Vec<HookId>,
        invoke_initialization_script: String,
        invoke_key: String,
    ) -> (manager: Self)
        ensures
            manager.target == target,
            manager.config == context.config,
            manager.package_info == context.package_info,
            manager.config_parent == context.config_parent,
            manager.assets == context.assets,
            manager.app_icon == context.app_icon,
            manager.default_window_icon == context.default_window_icon,
            manager.windows@ == Map::<Seq<char>, Window>::empty(),
            manager.webviews@ == Map::<Seq<char>, Webview>::empty(),
            manager.menu.menu is None,
            manager.menu.stash@ == Map::<Seq<char>, crate::menu::Menu>::empty(),
            manager.menu.global_event_listeners == menu_event_listeners,
            manager.menu.event_listeners@ == Map::<Seq<char>, HookId>::empty(),
            manager.tray.icon == context.tray_icon,
            manager.tray.icons@ == Seq::<TrayIcon>::empty(),
            manager.tray.global_event_listeners@ == Seq::<HookId>::empty(),
            manager.tray.event_listeners@ == Map::<Seq<char>, HookId>::empty(),
            manager.plugins == plugins,
            manager.state == state,
            manager.resources.ids@ == Seq::<u32>::empty(),
            manager.invoke_handler == invoke_handler,
            manager.on_page_load == on_page_load,
            manager.uri_scheme_protocols == uri_scheme_protocols,
            manager.window_event_listeners == window_event_listeners,
            manager.webview_event_listeners == webview_event_listeners,
            manager.invoke_initialization_script == invoke_initialization_script,
            manager.invoke_key == invoke_key,
    {
        AppManager {
            target,
            config: context.config,
            package_info: context.package_info,
            config_parent: context.config_parent,
            assets: context.assets,
            app_icon: context.app_icon,
            default_window_icon: context.default_window_icon,
            windows: LabelMap::new(),
            webviews: LabelMap::new(),
            menu: MenuManager {
                stash: LabelMap::new(),
                menu: None,
                global_event_listeners: menu_event_listeners,
                event_listeners: LabelMap::new(),
            },
            tray: TrayManager {
                icon: context.tray_icon,
                icons: Vec::new(),
                global_event_listeners: Vec::new(),
                event_listeners: LabelMap::new(),
            },
            plugins,
            state,
            resources: ResourceTable::new(),
            invoke_handler,
            on_page_load,
            uri_scheme_protocols,
            window_event_listeners,
            webview_event_listeners,
            invoke_initialization_script,
            invoke_key,
        }
    }

    /// Forgets a window that is gone, and the webviews that were in it.
    pub fn on_window_close(&mut self, label: &str)
        ensures
            window_gone(*old(self), label@, *final(self)),
    {
        let removed = self.windows.remove(label);
        if removed.is_none() {
            return ;
        }
        let wanted = label.to_owned();
        let ghost before = self.webviews@;
        let mut len = self.webviews.len();
        let mut i: usize = 0;
        while i < len
            invariant
                i <= len,
                len == self.webviews.order().len(),
                self.webviews.order().no_duplicates(),
                wanted@ == label@,
                *self == (AppManager {
                    windows: self.windows,
                    webviews: self.webviews,
                    ..*old(self)
                }),
                self.windows@ == old(self).windows@.remove(label@),
                forall|webview: Seq<char>| #[trigger]
                    self.webviews@.contains_key(webview) ==> before.contains_key(webview)
                        && self.webviews@[webview] == before[webview],
                forall|webview: Seq<char>| #[trigger]
                    before.contains_key(webview) && !self.webviews@.contains_key(webview)
                        ==> before[webview].window@ == label@,
                forall|j: int|
                    #![trigger self.webviews.order()[j]]
                    0 <= j < i ==> self.webviews@[self.webviews.order()[j]].window@ != label@,
            decreases len - i,
        {
            if self.webviews.value_at(i).window == wanted {
                let gone = self.webviews.label_at(i).clone();
                let ghost order = self.webviews.order();
                let _ = self.webviews.remove(gone.as_str());
                proof {
                    assert(order.contains(gone@));
                    let at = order.index_of(gone@);
                    assert(order[at] == gone@);
                    assert(at == i);
                    assert forall|j: int|
                        #![trigger self.webviews.order()[j]]
                        0 <= j < i implies self.webviews@[self.webviews.order()[j]].window@
                        != label@ by {
                        assert(self.webviews.order()[j] == order[j]);
                        assert(order[j] != order[i as int]);
                    }
                }
                len = self.webviews.len();
            } else {
                i += 1;
            }
        }
        proof {
            assert forall|webview: Seq<char>| #[trigger]
                self.webviews@.contains_key(webview) implies self.webviews@[webview].window@
                != label@ by {
                self.webviews.lemma_walk(webview);
                let j = self.webviews.order().index_of(webview);
                assert(self.webviews.order()[j] == webview);
            }
        }
    }

    /// Whether any window shows the menu of that id.
    fn is_menu_in_use_by_a_window(&self, id: &String) -> (used: bool)
        ensures
            used == used_by_a_window(self.windows@, id@),
    {
        let len = self.windows.len();
        let mut i: usize = 0;
        while i < len
            invariant
                i <= len,
                len == self.windows.order().len(),
                forall|j: int|
                    #![trigger self.windows.order()[j]]
                    0 <= j < i ==> !self.windows@[self.windows.order()[j]].uses(id@),
            decreases len - i,
        {
            if self.windows.value_at(i).is_menu_in_use(id) {
                return true;
            }
            i += 1;
        }
        proof {
            assert forall|label: Seq<char>| #[trigger]
                self.windows@.contains_key(label) implies !self.windows@[label].uses(id@) by {
                self.windows.lemma_walk(label);
                let j = self.windows.order().index_of(label);
                assert(self.windows.order()[j] == label);
            }
        }
        false
    }

    /// Forgets a menu that nothing shows any more.
    pub fn remove_menu_from_stash_by_id(&mut self, id: Option<&String>)
        ensures
            *final(self) == (AppManager {
                menu: MenuManager { stash: final(self).menu.stash, ..old(self).menu },
                ..*old(self)
            }),
            final(self).menu.stash@ == (match id {
                Some(id) if !old(self).menu.uses(id@) && !used_by_a_window(
                    old(self).windows@,
                    id@,
                ) => old(self).menu.stash@.remove(id@),
                _ => old(self).menu.stash@,
            }),
    {
        if let Some(id) = id {
            if !(self.menu.is_menu_in_use(id) || self.is_menu_in_use_by_a_window(id)) {
                let _ = self.menu.stash.remove(id.as_str());
            }
        }
    }

    /// Gives up every resource and tray icon before the process ends.
    ///
    /// Returns the labels of the windows to hide, in their order. Whether one can be hidden makes
    /// no difference.
    pub fn cleanup_before_exit(&mut self) -> (to_hide: Vec<String>)
        ensures
            cleaned_up(*old(self), *final(self)),
            to_hide@.map_values(|label: String| label@) == windows_to_hide(*old(self)),
    {
        if self.target.has_tray() {
            self.tray.icons.clear();
        }
        self.resources.clear();
        let mut to_hide: Vec<String> = Vec::new();
        let hides = self.target.is_windows();
        let ghost start = *self;
        let len = self.windows.len();
        let mut i: usize = 0;
        while i < len
            invariant
                i <= len,
                len == self.windows.order().len(),
                hides == start.target.is_windows(),
                *self == (AppManager { windows: self.windows, ..start }),
                self.windows.order() == start.windows.order(),
                self.windows.order().no_duplicates(),
                self.windows@.dom() == start.windows@.dom(),
                forall|j: int|
                    #![trigger self.windows.order()[j]]
                    0 <= j < i ==> self.windows@[self.windows.order()[j]].resources.ids@ == Seq::<
                        u32,
                    >::empty(),
                forall|label: Seq<char>|
                    self.windows@.contains_key(label) ==> (#[trigger] self.windows@[label]).menu
                        == start.windows@[label].menu,
                to_hide@.map_values(|label: String| label@) == (if hides {
                    start.windows.order().take(i as int)
                } else {
                    Seq::<Seq<char>>::empty()
                }),
            decreases len - i,
        {
            let label = self.windows.label_at(i).clone();
            let ghost order = self.windows.order();
            let ghost held = self.windows@;
            let placeholder = Window { menu: None, resources: ResourceTable::new() };
            if let Some(mut window) = self.windows.insert(label.clone(), placeholder) {
                window.resources.clear();
                let _ = self.windows.insert(label.clone(), window);
            }
            proof {
                assert(self.windows@.dom() =~= held.dom());
                assert forall|j: int|
                    #![trigger self.windows.order()[j]]
                    0 <= j < i + 1 implies self.windows@[self.windows.order()[j]].resources.ids@
                    == Seq::<u32>::empty() by {
                    if j < i {
                        assert(order[j] != order[i as int]);
                    }
                }
            }
            if hides {
                let ghost hidden = to_hide@.map_values(|label: String| label@);
                to_hide.push(label);
                assert(to_hide@.map_values(|label: String| label@) =~= hidden.push(order[i as int]));
                assert(order.take(i + 1) =~= order.take(i as int).push(order[i as int]));
            }
            i += 1;
        }
        proof {
            assert(start.windows.order().take(i as int) =~= start.windows.order());
            assert forall|label: Seq<char>| self.windows@.contains_key(label) implies (#[trigger]
            self.windows@[label]).resources.ids@ == Seq::<u32>::empty() by {
                self.windows.lemma_walk(label);
                let j = self.windows.order().index_of(label);
                assert(self.windows.order()[j] == label);
            }
        }
        let ghost middle = *self;
        let len = self.webviews.len();
        let mut i: usize = 0;
        while i < len
            invariant
                i <= len,
                len == self.webviews.order().len(),
                *self == (AppManager { webviews: self.webviews, ..middle }),
                self.webviews.order() == middle.webviews.order(),
                self.webviews.order().no_duplicates(),
                self.webviews@.dom() == middle.webviews@.dom(),
                forall|j: int|
                    #![trigger self.webviews.order()[j]]
                    0 <= j < i ==> self.webviews@[self.webviews.order()[j]].resources.ids@
                        == Seq::<u32>::empty(),
                forall|label: Seq<char>|
                    self.webviews@.contains_key(label) ==> (#[trigger]
                    self.webviews@[label]).window == middle.webviews@[label].window,
            decreases len - i,
        {
            let label = self.webviews.label_at(i).clone();
            let ghost order = self.webviews.order();
            let ghost held = self.webviews@;
            let placeholder = Webview { window: String::new(), resources: ResourceTable::new() };
            if let Some(mut webview) = self.webviews.insert(label.clone(), placeholder) {
                webview.resources.clear();
                let _ = self.webviews.insert(label, webview);
            }
            proof {
                assert(self.webviews@.dom() =~= held.dom());
                assert forall|j: int|
                    #![trigger self.webviews.order()[j]]
                    0 <= j < i + 1 implies self.webviews@[self.webviews.order()[j]].resources.ids@
                    == Seq::<u32>::empty() by {
                    if j < i {
                        assert(order[j] != order[i as int]);
                    }
                }
            }
            i += 1;
        }
        proof {
            assert forall|label: Seq<char>| self.webviews@.contains_key(label) implies (#[trigger]
            self.webviews@[label]).resources.ids@ == Seq::<u32>::empty() by {
                self.webviews.lemma_walk(label);
                let j = self.webviews.order().index_of(label);
                assert(self.webviews.order()[j] == label);
            }
        }
        to_hide
    }
}

/// There is a tray icon of an id exactly if one of the tray icons has it.
pub proof fn law_tray_icons_are_found(tray: TrayManager, id: Seq<char>)
    ensures
        tray.has(id) <==> exists|i: int|
            0 <= i < tray.icons@.len() && (#[trigger] tray.icons@[i]).id@ == id,
        tray.has(id) ==> tray.icons@[tray_place(tray.icons@, id)].id@ == id && forall|i: int|
            0 <= i < tray_place(tray.icons@, id) ==> (#[trigger] tray.icons@[i]).id@ != id,
{
    lemma_tray_place(tray.icons@, id);
    if tray.has(id) {
        assert(tray.icons@[tray_place(tray.icons@, id)].id@ == id);
    }
}

/// A window shows the menu of the application exactly if its menu is the app-wide one, has a menu of
/// its own exactly if it has another, and uses the menu whose id its menu has.
pub proof fn law_menus_of_a_window(window: Window, id: Seq<char>)
    ensures
        window.menu is None ==> !window.shows_app_menu() && !window.has_own_menu()
            && !window.uses(id),
        window.menu matches Some(menu) ==> (window.shows_app_menu() <==> menu.is_app_wide) && (
        window.has_own_menu() <==> !menu.is_app_wide) && (window.uses(id) <==> menu.menu@ == id),
{
}

/// What a list without repetition keeps, it keeps without repetition and in its order.
proof fn lemma_kept(order: Seq<Seq<char>>, keep: spec_fn(Seq<char>) -> bool)
    requires
        order.no_duplicates(),
    ensures
        order.filter(keep).no_duplicates(),
        forall|label: Seq<char>| #[trigger]
            order.filter(keep).contains(label) <==> order.contains(label) && keep(label),
    decreases order.len(),
{
    reveal(Seq::filter);
    if order.len() > 0 {
        let rest = order.drop_last();
        let last = order.last();
        assert forall|i: int, j: int| 0 <= i < j < rest.len() implies rest[i] != rest[j] by {
            assert(order[i] != order[j]);
        }
        lemma_kept(rest, keep);
        let kept = rest.filter(keep);
        assert(!rest.contains(last)) by {
            if rest.contains(last) {
                let i = rest.index_of(last);
                assert(order[i] == order[order.len() - 1]);
            }
        }
        assert(!kept.contains(last));
        assert forall|label: Seq<char>| #[trigger]
            order.filter(keep).contains(label) <==> order.contains(label) && keep(label) by {
            assert(order.contains(label) <==> rest.contains(label) || label == last) by {
                if rest.contains(label) {
                    assert(order[rest.index_of(label)] == label);
                }
                if label == last {
                    assert(order[order.len() - 1] == label);
                }
                if order.contains(label) {
                    let i = order.index_of(label);
                    assert(i < rest.len() ==> rest[i] == label);
                }
            }
            if keep(last) {
                let all = kept.push(last);
                if kept.contains(label) {
                    assert(all[kept.index_of(label)] == label);
                }
                if label == last {
                    assert(all[kept.len() as int] == label);
                }
                if all.contains(label) {
                    let i = all.index_of(label);
                    assert(i < kept.len() ==> kept[i] == label);
                }
            }
        }
        if keep(last) {
            let all = kept.push(last);
            assert forall|i: int, j: int| 0 <= i < j < all.len() implies all[i] != all[j] by {
                if j == kept.len() {
                    assert(kept.contains(kept[i]));
                }
            }
        }
    }
}

/// The windows that show a menu, each once: those of which the menu is the app-wide one, or those
/// that have any.
pub proof fn law_windows_with_a_menu(manager: AppManager, label: Seq<char>)
    requires
        manager.windows.order().no_duplicates(),
    ensures
        windows_with_menu(manager, true).no_duplicates(),
        windows_with_menu(manager, false).no_duplicates(),
        windows_with_menu(manager, true).contains(label) <==> manager.windows@.contains_key(label)
            && (manager.windows@[label].menu matches Some(menu) && menu.is_app_wide),
        windows_with_menu(manager, false).contains(label) <==> manager.windows@.contains_key(label)
            && manager.windows@[label].menu is Some,
{
    lemma_windows_with_menu(manager, true, label);
    lemma_windows_with_menu(manager, false, label);
}

/// Which windows are listed.
proof fn lemma_windows_with_menu(manager: AppManager, app_wide_only: bool, label: Seq<char>)
    requires
        manager.windows.order().no_duplicates(),
    ensures
        windows_with_menu(manager, app_wide_only).no_duplicates(),
        windows_with_menu(manager, app_wide_only).contains(label)
            <==> manager.windows@.contains_key(label) && if app_wide_only {
            manager.windows@[label].shows_app_menu()
        } else {
            manager.windows@[label].menu is Some
        },
{
    manager.windows.lemma_walk(label);
    lemma_kept(
        manager.windows.order(),
        |label: Seq<char>|
            if app_wide_only {
                manager.windows@[label].shows_app_menu()
            } else {
                manager.windows@[label].menu is Some
            },
    );
}

/// Before the process ends every window is hidden, once, on Windows, and none elsewhere.
pub proof fn law_windows_are_hidden(manager: AppManager, label: Seq<char>)
    ensures
        windows_to_hide(manager).contains(label) <==> manager.target.os is Windows
            && manager.windows@.contains_key(label),
        manager.windows.order().no_duplicates() ==> windows_to_hide(manager).no_duplicates(),
{
    manager.windows.lemma_walk(label);
}

/// Once everything was given up, nothing lends a resource, and where tray icons are built in there
/// is none. Everything else is as it was: the windows with their menus, the webviews, the plugins
/// and the state.
pub proof fn law_everything_is_given_up(
    before: AppManager,
    after: AppManager,
    label: Seq<char>,
    id: Seq<char>,
)
    requires
        cleaned_up(before, after),
    ensures
        after.resources.ids@.len() == 0,
        before.windows@.contains_key(label) <==> after.windows@.contains_key(label),
        before.windows@.contains_key(label) ==> after.windows@[label].resources.ids@.len() == 0
            && after.windows@[label].menu == before.windows@[label].menu,
        before.webviews@.contains_key(label) <==> after.webviews@.contains_key(label),
        before.webviews@.contains_key(label) ==> after.webviews@[label].resources.ids@.len() == 0
            && after.webviews@[label].window == before.webviews@[label].window,
        !(before.target.os is Ios || before.target.os is Android) && before.target.tray_icon
            ==> after.tray.icons@.len() == 0,
        !before.target.tray_icon ==> after.tray.icons@ == before.tray.icons@,
        after.tray.global_event_listeners == before.tray.global_event_listeners,
        after.tray.event_listeners == before.tray.event_listeners,
        after.menu == before.menu,
        after.plugins == before.plugins,
        after.state == before.state,
        after.config == before.config,
{
}

/// A window that is gone takes the webviews that were in it along, and nothing else: every other
/// window and webview is as it was, and so is everything else.
pub proof fn law_a_window_takes_its_webviews_along(
    before: AppManager,
    label: Seq<char>,
    after: AppManager,
    other: Seq<char>,
    webview: Seq<char>,
)
    requires
        window_gone(before, label, after),
    ensures
        !after.windows@.contains_key(label),
        other != label ==> (after.windows@.contains_key(other) <==> before.windows@.contains_key(
            other,
        )),
        other != label && before.windows@.contains_key(other) ==> after.windows@[other]
            == before.windows@[other],
        after.webviews@.contains_key(webview) ==> before.webviews@.contains_key(webview)
            && after.webviews@[webview] == before.webviews@[webview],
        before.webviews@.contains_key(webview) && before.webviews@[webview].window@ != label
            ==> after.webviews@.contains_key(webview),
        before.windows@.contains_key(label) && before.webviews@.contains_key(webview)
            && before.webviews@[webview].window@ == label ==> !after.webviews@.contains_key(
            webview,
        ),
        after.menu == before.menu,
        after.tray == before.tray,
        after.plugins == before.plugins,
        after.state == before.state,
        after.resources == before.resources,
{
}

} // verus!
