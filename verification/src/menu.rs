//! Menus, and what is asked of the system to show them.
use vstd::prelude::*;

use crate::hook::HookId;
use crate::error::Error;
use crate::label_map::LabelMap;
use crate::series::{Progress, Series};

verus! {

/// The id of the submenu that macOS lists the windows in.
pub const WINDOW_SUBMENU_ID: &'static str = "__tauri_window_menu__";

/// The id of the submenu that macOS puts its help search in.
pub const HELP_SUBMENU_ID: &'static str = "__tauri_help_menu__";

/// What an item of a menu is.
#[derive(Clone, Copy, PartialEq, Eq, Structural, Debug)]
pub enum MenuItemKind {
    MenuItem,
    Submenu,
    Predefined,
    Check,
    Icon,
}

/// An item of a menu.
#[derive(PartialEq, Eq, Debug)]
pub struct MenuItem {
    pub id: String,
    pub kind: MenuItemKind,
}

/// A menu: its id, and its items from the top level.
#[derive(PartialEq, Eq, Debug)]
pub struct Menu {
    pub id: String,
    pub items: Vec<MenuItem>,
}

/// What a [`Menu`] says.
#[verifier::ext_equal]
pub struct MenuView {
    pub id: Seq<char>,
    pub items: Seq<MenuItem>,
}

impl View for Menu {
    type V = MenuView;

    open spec fn view(&self) -> MenuView {
        MenuView { id: self.id@, items: self.items@ }
    }
}

impl Clone for MenuItem {
    fn clone(&self) -> (copy: Self)
        ensures
            copy == *self,
    {
        MenuItem { id: self.id.clone(), kind: self.kind }
    }
}

impl Clone for Menu {
    fn clone(&self) -> (copy: Self)
        ensures
            copy@ == self@,
            copy.id == self.id,
    {
        let mut items: Vec<MenuItem> = Vec::new();
        let mut i: usize = 0;
        while i < self.items.len()
            invariant
                i <= self.items.len(),
                items@ == self.items@.take(i as int),
            decreases self.items.len() - i,
        {
            items.push(self.items[i].clone());
            assert(items@ =~= self.items@.take(i + 1));
            i += 1;
        }
        assert(items@ =~= self.items@);
        Menu { id: self.id.clone(), items }
    }
}

/// Whether there are two menus that say the same, or none on either side.
pub open spec fn same_menu(one: Option<Menu>, other: Option<Menu>) -> bool {
    match (one, other) {
        (Some(one), Some(other)) => one@ == other@,
        (None, None) => true,
        _ => false,
    }
}

/// The first item of that id.
pub open spec fn first_item(items: Seq<MenuItem>, id: Seq<char>) -> Option<MenuItem>
    decreases items.len(),
{
    if items.len() == 0 {
        None
    } else if items[0].id@ == id {
        Some(items[0])
    } else {
        first_item(items.skip(1), id)
    }
}

/// Whether the first item of that id is a submenu.
pub open spec fn has_submenu(items: Seq<MenuItem>, id: Seq<char>) -> bool {
    match first_item(items, id) {
        Some(item) => item.kind == MenuItemKind::Submenu,
        None => false,
    }
}

impl Menu {
    /// The first item of that id.
    pub fn get(&self, id: &str) -> (item: Option<&MenuItem>)
        ensures
            match item {
                Some(item) => first_item(self.items@, id@) == Some(*item),
                None => first_item(self.items@, id@) is None,
            },
    {
        let wanted = id.to_owned();
        let mut i: usize = 0;
        assert(self.items@.skip(0) =~= self.items@);
        while i < self.items.len()
            invariant
                i <= self.items.len(),
                wanted@ == id@,
                first_item(self.items@.skip(i as int), id@) == first_item(self.items@, id@),
            decreases self.items.len() - i,
        {
            if self.items[i].id == wanted {
                return Some(&self.items[i]);
            }
            assert(self.items@.skip(i as int).skip(1) =~= self.items@.skip(i + 1));
            i += 1;
        }
        None
    }

    /// The steps of making the menu the one of the application, in their order.
    pub fn list_app_menu_steps(&self) -> (steps: Vec<AppMenuStep>)
        ensures
            steps@ == app_menu_steps(self.items@),
    {
        let mut steps: Vec<AppMenuStep> = Vec::new();
        steps.push(AppMenuStep::InitForNsApp);
        assert(steps@ =~= seq![AppMenuStep::InitForNsApp]);
        if self.get_submenu(WINDOW_SUBMENU_ID) {
            steps.push(AppMenuStep::SetAsWindowsMenu);
        }
        if self.get_submenu(HELP_SUBMENU_ID) {
            steps.push(AppMenuStep::SetAsHelpMenu);
        }
        steps
    }

    /// Whether the first item of that id is a submenu.
    fn get_submenu(&self, id: &str) -> (there: bool)
        ensures
            there == has_submenu(self.items@, id@),
    {
        match self.get(id) {
            Some(item) => item.kind == MenuItemKind::Submenu,
            None => false,
        }
    }
}

/// A step of making a menu the one of the application, on macOS.
#[derive(Clone, Copy, PartialEq, Eq, Structural, Debug)]
pub enum AppMenuStep {
    /// Show the menu. This does not fail.
    InitForNsApp,
    /// List the windows in the window submenu.
    SetAsWindowsMenu,
    /// Put the help search in the help submenu.
    SetAsHelpMenu,
}

/// The steps of making a menu of these items the one of the application, in their order.
pub open spec fn app_menu_steps(items: Seq<MenuItem>) -> Seq<AppMenuStep> {
    let shown = seq![AppMenuStep::InitForNsApp];
    let listed = if has_submenu(items, WINDOW_SUBMENU_ID@) {
        shown.push(AppMenuStep::SetAsWindowsMenu)
    } else {
        shown
    };
    if has_submenu(items, HELP_SUBMENU_ID@) {
        listed.push(AppMenuStep::SetAsHelpMenu)
    } else {
        listed
    }
}

/// Makes `menu` the one of the application, on macOS.
///
/// The steps are taken in their order; the first that fails ends them, with its error.
pub fn init_app_menu(menu: &Menu) -> (series: Series<AppMenuStep>)
    ensures
        crate::series::consists_of(series, app_menu_steps(menu.items@)),
{
    Series::new(menu.list_app_menu_steps())
}

/// The menu of a window.
#[derive(PartialEq, Eq, Debug)]
pub struct WindowMenu {
    /// Whether this is the menu of the application and not one of the window's own.
    pub is_app_wide: bool,
    /// The id of the menu.
    pub menu: String,
}

/// The menus of the application, and who listens to them.
pub struct MenuManager {
    /// The menus that something uses, by id.
    pub stash: LabelMap<Menu>,
    /// The app-wide menu.
    pub menu: Option<Menu>,
    /// The listeners to every menu event, in the order in which they came.
    pub global_event_listeners: Vec<HookId>,
    /// The listeners to the menu events of a window, by the label of the window.
    pub event_listeners: LabelMap<HookId>,
}

impl MenuManager {
    /// Whether the app-wide menu is the one of that id.
    pub open spec fn uses(&self, id: Seq<char>) -> bool {
        match self.menu {
            Some(menu) => menu.id@ == id,
            None => false,
        }
    }

    /// Whether the app-wide menu is the one of that id.
    pub fn is_menu_in_use(&self, id: &String) -> (used: bool)
        ensures
            used == self.uses(id@),
    {
        match &self.menu {
            Some(menu) => menu.id == *id,
            None => false,
        }
    }

    /// Keeps a menu, under its id.
    pub fn insert_menu_into_stash(&mut self, menu: Menu)
        ensures
            final(self).stash@ == old(self).stash@.insert(menu.id@, menu),
            final(self).menu == old(self).menu,
            final(self).global_event_listeners == old(self).global_event_listeners,
            final(self).event_listeners == old(self).event_listeners,
    {
        let id = menu.id.clone();
        let _ = self.stash.insert(id, menu);
    }
}

/// Where the submenu of the windows cannot be set, the caller hears why, and the help submenu is
/// left alone.
pub proof fn law_failed_submenu_ends_the_menu(
    items: Seq<MenuItem>,
    first: Series<AppMenuStep>,
    shown: Series<AppMenuStep>,
    listed: Series<AppMenuStep>,
    ended: Series<AppMenuStep>,
    error: Error,
    progress: (Progress<AppMenuStep>, Progress<AppMenuStep>, Progress<AppMenuStep>),
)
    requires
        crate::series::consists_of(first, app_menu_steps(items)),
        has_submenu(items, WINDOW_SUBMENU_ID@),
        crate::series::went_on(first, Ok(()), shown, progress.0),
        crate::series::went_on(shown, Ok(()), listed, progress.1),
        crate::series::went_on(listed, Err(error), ended, progress.2),
    ensures
        progress.0 == Progress::Perform(AppMenuStep::InitForNsApp),
        progress.1 == Progress::Perform(AppMenuStep::SetAsWindowsMenu),
        progress.2 == Progress::<AppMenuStep>::Finished(Err(error)),
        crate::series::consists_of(ended, Seq::empty()),
{
}

/// The first item of an id is the one before which no other has it, and there is none only where no
/// item has it.
pub proof fn law_the_first_item_is_found(items: Seq<MenuItem>, id: Seq<char>)
    ensures
        match first_item(items, id) {
            Some(item) => item.id@ == id && exists|i: int|
                0 <= i < items.len() && #[trigger] items[i] == item && forall|j: int|
                    0 <= j < i ==> (#[trigger] items[j]).id@ != id,
            None => forall|i: int| 0 <= i < items.len() ==> (#[trigger] items[i]).id@ != id,
        },
    decreases items.len(),
{
    if items.len() > 0 {
        let rest = items.skip(1);
        if items[0].id@ == id {
            assert(items[0] == first_item(items, id)->0);
        } else {
            law_the_first_item_is_found(rest, id);
            match first_item(rest, id) {
                Some(item) => {
                    let i = choose|i: int|
                        0 <= i < rest.len() && #[trigger] rest[i] == item && forall|j: int|
                            0 <= j < i ==> (#[trigger] rest[j]).id@ != id;
                    assert(items[i + 1] == item);
                    assert forall|j: int| 0 <= j < i + 1 implies (#[trigger] items[j]).id@
                        != id by {
                        if j > 0 {
                            assert(items[j] == rest[j - 1]);
                        }
                    }
                },
                None => {
                    assert forall|i: int| 0 <= i < items.len() implies (#[trigger] items[i]).id@
                        != id by {
                        if i > 0 {
                            assert(items[i] == rest[i - 1]);
                        }
                    }
                },
            }
        }
    }
}

/// A menu is shown first. Then its window submenu and its help submenu are set, in this order, each
/// exactly if the first item of its id is a submenu.
pub proof fn law_submenus_are_set(items: Seq<MenuItem>)
    ensures
        app_menu_steps(items)[0] == AppMenuStep::InitForNsApp,
        app_menu_steps(items).contains(AppMenuStep::SetAsWindowsMenu) <==> (first_item(
            items,
            "__tauri_window_menu__"@,
        ) matches Some(item) && item.kind == MenuItemKind::Submenu),
        app_menu_steps(items).contains(AppMenuStep::SetAsHelpMenu) <==> (first_item(
            items,
            "__tauri_help_menu__"@,
        ) matches Some(item) && item.kind == MenuItemKind::Submenu),
        forall|k: int|
            0 < k < app_menu_steps(items).len() ==> #[trigger] app_menu_steps(items)[k]
                != AppMenuStep::InitForNsApp,
        app_menu_steps(items).len() == 3 ==> app_menu_steps(items)[1]
            == AppMenuStep::SetAsWindowsMenu,
        app_menu_steps(items).len() <= 3,
        app_menu_steps(items).no_duplicates(),
{
    let steps = app_menu_steps(items);
    let window = has_submenu(items, WINDOW_SUBMENU_ID@);
    let help = has_submenu(items, HELP_SUBMENU_ID@);
    if window {
        assert(steps[1] == AppMenuStep::SetAsWindowsMenu);
        if help {
            assert(steps[2] == AppMenuStep::SetAsHelpMenu);
        }
    } else if help {
        assert(steps[1] == AppMenuStep::SetAsHelpMenu);
    }
}

/// Menus that say the same have the same id and the same items.
pub proof fn law_menus_are_told_apart(one: Option<Menu>, other: Option<Menu>)
    requires
        same_menu(one, other),
    ensures
        one is Some <==> other is Some,
        one is Some ==> one->0.id@ == other->0.id@ && one->0.items@ == other->0.items@,
{
}

} // verus!
