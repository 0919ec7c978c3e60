//! Setting, removing, hiding and showing the menu of the application.
use vstd::prelude::*;

use crate::handle::AppHandle;
use crate::manager::{AppManager, Window};
use crate::menu::{AppMenuStep, Menu, MenuManager, WindowMenu};
use crate::series::Series;

verus! {

/// A step of changing the menu of the application. It is taken by the system, and can fail.
#[derive(PartialEq, Eq, Debug)]
pub enum MenuStep {
    /// Take the menu off a window.
    DetachFromWindow(String),
    /// Put the menu on a window.
    AttachToWindow(String),
    /// Take the menu off the application.
    DetachFromApp,
    /// Put the menu on the application, by these steps. Only that they cannot be begun is a
    /// failure; what becomes of them makes no difference.
    AttachToApp(Vec<AppMenuStep>),
}

/// What is done to the menu of a window. It can fail.
#[derive(PartialEq, Eq, Debug)]
pub enum MenuTurn {
    /// Hide the menu of that window.
    Hide(String),
    /// Show the menu of that window.
    Show(String),
}

/// What a [`MenuTurn`] says.
pub enum MenuTurnView {
    Hide(Seq<char>),
    Show(Seq<char>),
}

impl View for MenuTurn {
    type V = MenuTurnView;

    open spec fn view(&self) -> MenuTurnView {
        match self {
            MenuTurn::Hide(label) => MenuTurnView::Hide(label@),
            MenuTurn::Show(label) => MenuTurnView::Show(label@),
        }
    }
}

/// What is done to the menus.
pub open spec fn turns(all: Seq<MenuTurn>) -> Seq<MenuTurnView> {
    all.map_values(|turn: MenuTurn| turn@)
}

/// The menus of these windows are hidden, in their order.
pub open spec fn hiding(labels: Seq<Seq<char>>) -> Seq<MenuTurnView> {
    labels.map_values(|label: Seq<char>| MenuTurnView::Hide(label))
}

/// The menus of these windows are shown, in their order.
pub open spec fn showing(labels: Seq<Seq<char>>) -> Seq<MenuTurnView> {
    labels.map_values(|label: Seq<char>| MenuTurnView::Show(label))
}

/// What a [`MenuStep`] says.
pub enum MenuStepView {
    DetachFromWindow(Seq<char>),
    AttachToWindow(Seq<char>),
    DetachFromApp,
    AttachToApp(Seq<AppMenuStep>),
}

impl View for MenuStep {
    type V = MenuStepView;

    open spec fn view(&self) -> MenuStepView {
        match self {
            MenuStep::DetachFromWindow(label) => MenuStepView::DetachFromWindow(label@),
            MenuStep::AttachToWindow(label) => MenuStepView::AttachToWindow(label@),
            MenuStep::DetachFromApp => MenuStepView::DetachFromApp,
            MenuStep::AttachToApp(steps) => MenuStepView::AttachToApp(steps@),
        }
    }
}

/// The windows among `labels` that the menu of the application is taken off.
pub open spec fn detach_steps(
    labels: Seq<Seq<char>>,
    windows: Map<Seq<char>, Window>,
) -> Seq<MenuStepView>
    decreases labels.len(),
{
    if labels.len() == 0 {
        Seq::empty()
    } else if windows.contains_key(labels[0]) && windows[labels[0]].shows_app_menu() {
        seq![MenuStepView::DetachFromWindow(labels[0])] + detach_steps(labels.skip(1), windows)
    } else {
        detach_steps(labels.skip(1), windows)
    }
}

/// The windows among `labels` that the menu of the application is put on: those without a menu of
/// their own.
pub open spec fn attach_steps(
    labels: Seq<Seq<char>>,
    windows: Map<Seq<char>, Window>,
) -> Seq<MenuStepView>
    decreases labels.len(),
{
    if labels.len() == 0 {
        Seq::empty()
    } else if windows.contains_key(labels[0]) && !windows[labels[0]].has_own_menu() {
        seq![MenuStepView::AttachToWindow(labels[0])] + attach_steps(labels.skip(1), windows)
    } else {
        attach_steps(labels.skip(1), windows)
    }
}

/// The windows after a step was taken, where `id` is the menu that is put on.
pub open spec fn stepped(
    windows: Map<Seq<char>, Window>,
    step: MenuStepView,
    id: Option<String>,
) -> Map<Seq<char>, Window> {
    match (step, id) {
        (MenuStepView::DetachFromWindow(label), _) if windows.contains_key(label) => windows.insert(
            label,
            Window { menu: None, resources: windows[label].resources },
        ),
        (MenuStepView::AttachToWindow(label), Some(id)) if windows.contains_key(label) =>
            windows.insert(
                label,
                Window {
                    menu: Some(WindowMenu { is_app_wide: true, menu: id }),
                    resources: windows[label].resources,
                },
            ),
        _ => windows,
    }
}

/// How far a change of the menu has come.
#[derive(Clone, Copy, PartialEq, Eq, Structural, Debug)]
pub enum MenuPhase {
    /// The menu that was there is taken off.
    Detach,
    /// The new menu is put on.
    Attach,
    /// Everything is done.
    Done,
}

/// How far a change has come while a step is taken.
pub open spec fn phase_of(step: MenuStepView) -> MenuPhase {
    match step {
        MenuStepView::DetachFromWindow(_) => MenuPhase::Detach,
        MenuStepView::DetachFromApp => MenuPhase::Detach,
        MenuStepView::AttachToWindow(_) => MenuPhase::Attach,
        MenuStepView::AttachToApp(_) => MenuPhase::Attach,
    }
}

/// A change of the menu of the application that is under way.
///
/// Each step is taken by the system before the next is asked for. Where one fails, the change is
/// given up, and what was done so far stays.
pub struct MenuChange {
    pub phase: MenuPhase,
    /// The windows to look at in this phase.
    pub labels: Vec<String>,
    /// The first of them that was not looked at yet.
    pub next: usize,
    /// Whether the step for the whole application is still to be taken in this phase.
    pub app_step: bool,
    /// The step that is being taken.
    pub current: Option<MenuStep>,
    /// The menu to set, until it is kept.
    pub menu: Option<Menu>,
    /// The id of the menu to set.
    pub id: Option<String>,
    /// The steps that put the menu to set on the application.
    pub app_menu: Vec<AppMenuStep>,
    /// The menu that was there, once it was taken off.
    pub previous: Option<Menu>,
}

/// The texts of labels.
pub open spec fn texts(labels: Seq<String>) -> Seq<Seq<char>> {
    labels.map_values(|label: String| label@)
}

/// The labels from place `i` on.
pub open spec fn labels_from(labels: Seq<Seq<char>>, i: int) -> Seq<Seq<char>> {
    if 0 <= i <= labels.len() {
        labels.skip(i)
    } else {
        Seq::empty()
    }
}

/// The steps that put a menu on, where `app_menu` puts it on the application.
pub open spec fn all_attach_steps(manager: AppManager, app_menu: Seq<AppMenuStep>) -> Seq<
    MenuStepView,
> {
    if manager.target.is_macos() {
        seq![MenuStepView::AttachToApp(app_menu)]
    } else {
        attach_steps(manager.windows.order(), manager.windows@)
    }
}

/// The steps that take a menu off, from its beginning.
pub open spec fn all_detach_steps(manager: AppManager) -> Seq<MenuStepView> {
    if manager.menu.menu is None {
        Seq::empty()
    } else if manager.target.is_macos() {
        seq![MenuStepView::DetachFromApp]
    } else {
        detach_steps(manager.windows.order(), manager.windows@)
    }
}

impl MenuChange {
    /// The steps that are still to be taken, in their order, if none fails.
    pub open spec fn pending(&self, manager: AppManager) -> Seq<MenuStepView> {
        let rest = labels_from(texts(self.labels@), self.next as int);
        match self.phase {
            MenuPhase::Detach => (if self.app_step {
                seq![MenuStepView::DetachFromApp]
            } else {
                Seq::empty()
            }) + detach_steps(rest, manager.windows@) + (if self.menu is Some {
                all_attach_steps(manager, self.app_menu@)
            } else {
                Seq::empty()
            }),
            MenuPhase::Attach => (if self.app_step {
                seq![MenuStepView::AttachToApp(self.app_menu@)]
            } else {
                Seq::empty()
            }) + attach_steps(rest, manager.windows@),
            MenuPhase::Done => Seq::empty(),
        }
    }
}

/// The menus after the app-wide menu was exchanged for `menu`.
///
/// The old one is forgotten unless a window shows it; the new one is kept.
pub open spec fn switched(
    before: AppManager,
    menu: Option<Menu>,
    after: AppManager,
) -> bool {
    let dropped = match before.menu.menu {
        Some(old) if !crate::manager::used_by_a_window(before.windows@, old.id@) =>
            before.menu.stash@.remove(old.id@),
        _ => before.menu.stash@,
    };
    &&& after == AppManager {
        menu: MenuManager { stash: after.menu.stash, menu: after.menu.menu, ..before.menu },
        ..before
    }
    &&& crate::menu::same_menu(after.menu.menu, menu)
    &&& after.menu.stash@ == match menu {
        Some(menu) => dropped.insert(menu.id@, menu),
        None => dropped,
    }
}

impl AppManager {
    /// Exchanges the app-wide menu.
    fn switch_menu(&mut self, menu: Option<Menu>) -> (previous: Option<Menu>)
        ensures
            switched(*old(self), menu, *final(self)),
            previous == old(self).menu.menu,
    {
        let previous = self.menu.menu.take();
        match &previous {
            Some(old) => self.remove_menu_from_stash_by_id(Some(&old.id)),
            None => {},
        }
        if let Some(menu) = menu {
            let copy = menu.clone();
            self.menu.insert_menu_into_stash(menu);
            self.menu.menu = Some(copy);
        }
        previous
    }

    /// Gives a window another menu.
    fn set_window_menu(&mut self, label: &String, menu: Option<WindowMenu>)
        ensures
            final(self).windows@ == (if old(self).windows@.contains_key(label@) {
                old(self).windows@.insert(
                    label@,
                    Window { menu, resources: old(self).windows@[label@].resources },
                )
            } else {
                old(self).windows@
            }),
            final(self).windows.order() == old(self).windows.order(),
            *final(self) == (AppManager { windows: final(self).windows, ..*old(self) }),
    {
        if self.windows.contains_key(label.as_str()) {
            let ghost held = self.windows@;
            let placeholder = Window {
                menu: None,
                resources: crate::manager::ResourceTable::new(),
            };
            if let Some(window) = self.windows.insert(label.clone(), placeholder) {
                let _ = self.windows.insert(
                    label.clone(),
                    Window { menu, resources: window.resources },
                );
                assert(self.windows@ =~= held.insert(
                    label@,
                    Window { menu, resources: held[label@].resources },
                ));
            }
        }
    }
}

/// Whether `change` is one that is about to begin: it sets `menu`, or removes the menu where there
/// is none to set.
///
/// The old menu is taken off first, and the new one is put on then.
pub open spec fn begins(manager: AppManager, menu: Option<Menu>, change: MenuChange) -> bool {
    &&& change.wf()
    &&& change.phase == MenuPhase::Detach
    &&& change.current is None
    &&& change.menu == menu
    &&& change.id == match menu {
        Some(menu) => Some(menu.id),
        None => None,
    }
    &&& change.pending(manager) == match menu {
        Some(menu) => all_detach_steps(manager) + all_attach_steps(
            manager,
            crate::menu::app_menu_steps(menu.items@),
        ),
        None => all_detach_steps(manager),
    }
}

/// Whether a change goes on right behind the step that is being taken, whatever becomes of the
/// windows meanwhile.
///
/// The windows that it looks at are those that there were when it came to taking menus off, and
/// then those that there were when it came to putting them on.
pub open spec fn placed(
    before: MenuChange,
    manager: AppManager,
    step: MenuStepView,
    after: MenuChange,
) -> bool {
    let labels = texts(after.labels@);
    &&& !after.app_step
    &&& after.app_menu == before.app_menu
    &&& if after.phase == before.phase {
        labels == texts(before.labels@)
    } else {
        labels == if manager.target.is_macos() {
            Seq::empty()
        } else {
            manager.windows.order()
        }
    }
    &&& match step {
        MenuStepView::DetachFromWindow(label) | MenuStepView::AttachToWindow(label) => {
            &&& 0 < after.next <= labels.len()
            &&& labels[after.next - 1] == label
            &&& after.phase == before.phase ==> before.next < after.next
        },
        _ => after.next == if after.phase == before.phase {
            before.next
        } else {
            0
        },
    }
}

/// What going on with a change comes to: the last step counts as taken, and `step` is the next.
///
/// Between taking the old menu off and putting the new one on, the app-wide menu is exchanged.
pub open spec fn advanced(
    before: MenuChange,
    manager: AppManager,
    after: MenuChange,
    new_manager: AppManager,
    step: Option<MenuStepView>,
) -> bool {
    let committed = AppManager { windows: new_manager.windows, ..manager };
    &&& after.id == before.id
    &&& new_manager.windows@ == before.committed(manager.windows@)
    &&& new_manager.windows.order() == manager.windows.order()
    &&& if before.phase == MenuPhase::Detach && after.phase != MenuPhase::Detach {
        &&& switched(committed, before.menu, new_manager)
        &&& after.previous == manager.menu.menu
    } else {
        &&& new_manager == committed
        &&& after.previous == before.previous
        &&& after.menu == before.menu
    }
    &&& match step {
        Some(step) => {
            &&& before.pending(committed) == seq![step] + after.pending(new_manager)
            &&& step == before.pending(committed)[0]
            &&& after.phase == phase_of(step)
            &&& placed(before, manager, step, after)
            &&& after.current matches Some(current) && current@ == step
        },
        None => {
            &&& before.pending(committed).len() == 0
            &&& after.phase == MenuPhase::Done
            &&& after.current is None
        },
    }
}

/// A copy of steps.
fn copy_steps(steps: &Vec<AppMenuStep>) -> (copy: Vec<AppMenuStep>)
    ensures
        copy@ == steps@,
{
    let mut copy: Vec<AppMenuStep> = Vec::new();
    let mut i: usize = 0;
    while i < steps.len()
        invariant
            i <= steps.len(),
            copy@ == steps@.take(i as int),
        decreases steps.len() - i,
    {
        copy.push(steps[i]);
        assert(copy@ =~= steps@.take(i + 1));
        i += 1;
    }
    assert(copy@ =~= steps@);
    copy
}

/// The labels from a place on begin with the one at that place.
proof fn lemma_skip_one(labels: Seq<Seq<char>>, i: int)
    requires
        0 <= i < labels.len(),
    ensures
        labels_from(labels, i).len() > 0,
        labels_from(labels, i)[0] == labels[i],
        labels_from(labels, i).skip(1) == labels_from(labels, i + 1),
{
    assert(labels_from(labels, i).skip(1) =~= labels_from(labels, i + 1));
}

impl MenuChange {
    /// No window is looked at twice while the old menu is taken off.
    pub open spec fn wf(&self) -> bool {
        let labels = texts(self.labels@);
        &&& labels.no_duplicates()
        &&& self.phase == MenuPhase::Detach ==> match self.current {
            Some(MenuStep::DetachFromWindow(label)) => !labels_from(
                labels,
                self.next as int,
            ).contains(label@),
            Some(MenuStep::AttachToWindow(_)) => false,
            _ => true,
        }
    }

    /// A change that sets `menu`, or removes the menu where there is none to set.
    fn start(manager: &AppManager, menu: Option<Menu>) -> (change: Self)
        ensures
            begins(*manager, menu, change),
    {
        let id = match &menu {
            Some(menu) => Some(menu.id.clone()),
            None => None,
        };
        let app_menu = match &menu {
            Some(menu) => menu.list_app_menu_steps(),
            None => Vec::new(),
        };
        let mut labels: Vec<String> = Vec::new();
        let mut app_step = false;
        if manager.menu.menu.is_some() {
            if manager.target.is_macos() {
                app_step = true;
            } else {
                labels = manager.windows.labels();
            }
        }
        let change = MenuChange {
            phase: MenuPhase::Detach,
            labels,
            next: 0,
            app_step,
            current: None,
            menu,
            id,
            app_menu,
            previous: None,
        };
        proof {
            let all = texts(change.labels@);
            assert(labels_from(all, 0) =~= all);
            assert(change.pending(*manager) =~= match menu {
                Some(menu) => all_detach_steps(*manager) + all_attach_steps(
                    *manager,
                    crate::menu::app_menu_steps(menu.items@),
                ),
                None => all_detach_steps(*manager),
            });
        }
        change
    }

    /// Records that the step that was being taken has been taken.
    fn commit(&mut self, manager: &mut AppManager)
        ensures
            *final(self) == (MenuChange { current: None, ..*old(self) }),
            final(manager).windows@ == old(self).committed(old(manager).windows@),
            final(manager).windows.order() == old(manager).windows.order(),
            *final(manager) == (AppManager { windows: final(manager).windows, ..*old(manager) }),
    {
        match self.current.take() {
            Some(MenuStep::DetachFromWindow(label)) => {
                manager.set_window_menu(&label, None);
            },
            Some(MenuStep::AttachToWindow(label)) => {
                if let Some(id) = &self.id {
                    manager.set_window_menu(
                        &label,
                        Some(WindowMenu { is_app_wide: true, menu: id.clone() }),
                    );
                }
            },
            _ => {},
        }
    }

    /// The windows once the step that is being taken has been taken.
    pub open spec fn committed(&self, windows: Map<Seq<char>, Window>) -> Map<Seq<char>, Window> {
        match self.current {
            Some(step) => stepped(windows, step@, self.id),
            None => windows,
        }
    }

    /// Records that the last step was taken, and gives the next one.
    ///
    /// `None` says that the change is complete. Between taking the old menu off and putting the new
    /// one on, the app-wide menu is exchanged.
    pub fn advance(&mut self, manager: &mut AppManager) -> (step: Option<MenuStep>)
        ensures
            advanced(
                *old(self),
                *old(manager),
                *final(self),
                *final(manager),
                (match step {
                    Some(step) => Some(step@),
                    None => None,
                }),
            ),
            old(self).wf() ==> final(self).wf(),
    {
        self.commit(manager);
        let ghost middle = *manager;
        let ghost all = self.pending(middle);
        if let MenuPhase::Detach = self.phase {
            if self.app_step {
                self.app_step = false;
                self.current = Some(MenuStep::DetachFromApp);
                assert(all =~= seq![MenuStepView::DetachFromApp] + self.pending(*manager));
                return Some(MenuStep::DetachFromApp);
            }
            let ghost attach = if self.menu is Some {
                all_attach_steps(middle, self.app_menu@)
            } else {
                Seq::empty()
            };
            assert(all =~= detach_steps(
                labels_from(texts(self.labels@), self.next as int),
                middle.windows@,
            ) + attach);
            while self.next < self.labels.len()
                invariant
                    *manager == middle,
                    middle == (AppManager { windows: middle.windows, ..*old(manager) }),
                    middle.windows@ == old(self).committed(old(manager).windows@),
                    middle.windows.order() == old(manager).windows.order(),
                    old(self).phase == MenuPhase::Detach,
                    old(self).next <= self.next,
                    *self == (MenuChange { next: self.next, app_step: false, current: None, ..*old(
                        self,
                    ) }),
                    all == old(self).pending(middle),
                    attach == (if self.menu is Some {
                        all_attach_steps(middle, self.app_menu@)
                    } else {
                        Seq::empty()
                    }),
                    all == detach_steps(
                        labels_from(texts(self.labels@), self.next as int),
                        middle.windows@,
                    ) + attach,
                decreases self.labels.len() - self.next,
            {
                let label = self.labels[self.next].clone();
                proof {
                    lemma_skip_one(texts(self.labels@), self.next as int);
                }
                let shows = match manager.windows.get(label.as_str()) {
                    Some(window) => window.has_app_wide_menu(),
                    None => false,
                };
                self.next += 1;
                if shows {
                    proof {
                        let labels = texts(self.labels@);
                        let rest = labels_from(labels, self.next as int);
                        assert(labels[self.next - 1] == label@);
                        if old(self).wf() && rest.contains(label@) {
                            let i = rest.index_of(label@);
                            assert(rest[i] == labels[self.next + i]);
                        }
                    }
                    let step = MenuStep::DetachFromWindow(label.clone());
                    self.current = Some(MenuStep::DetachFromWindow(label));
                    assert(all =~= seq![step@] + self.pending(*manager));
                    return Some(step);
                }
            }
            assert(all =~= attach);
            let sets = self.menu.is_some();
            self.previous = manager.switch_menu(self.menu.take());
            if sets {
                self.phase = MenuPhase::Attach;
                self.next = 0;
                if manager.target.is_macos() {
                    self.app_step = true;
                    self.labels = Vec::new();
                } else {
                    self.app_step = false;
                    self.labels = manager.windows.labels();
                }
                assert(texts(self.labels@) =~= if manager.target.is_macos() {
                    Seq::empty()
                } else {
                    manager.windows.order()
                });
                assert(labels_from(texts(self.labels@), 0) =~= texts(self.labels@));
                assert(all =~= self.pending(*manager));
            } else {
                self.phase = MenuPhase::Done;
                return None;
            }
        }
        if let MenuPhase::Attach = self.phase {
            let ghost at = *manager;
            if self.app_step {
                self.app_step = false;
                self.current = Some(MenuStep::AttachToApp(copy_steps(&self.app_menu)));
                let step = MenuStep::AttachToApp(copy_steps(&self.app_menu));
                assert(all =~= seq![step@] + self.pending(*manager));
                return Some(step);
            }
            assert(all =~= attach_steps(
                labels_from(texts(self.labels@), self.next as int),
                at.windows@,
            ));
            let ghost entered = *self;
            while self.next < self.labels.len()
                invariant
                    *manager == at,
                    *self == (MenuChange { next: self.next, ..entered }),
                    entered.phase == MenuPhase::Attach,
                    !entered.app_step,
                    old(self).wf() ==> texts(entered.labels@).no_duplicates(),
                    all == attach_steps(
                        labels_from(texts(self.labels@), self.next as int),
                        at.windows@,
                    ),
                    all == old(self).pending(middle),
                    middle == (AppManager { windows: at.windows, ..*old(manager) }),
                    at.windows@ == old(self).committed(old(manager).windows@),
                    at.windows.order() == old(manager).windows.order(),
                    entered.id == old(self).id,
                    entered.app_menu == old(self).app_menu,
                    if old(self).phase == MenuPhase::Detach {
                        &&& switched(middle, old(self).menu, at)
                        &&& entered.previous == old(manager).menu.menu
                        &&& texts(entered.labels@) == if old(manager).target.is_macos() {
                            Seq::empty()
                        } else {
                            old(manager).windows.order()
                        }
                    } else {
                        &&& old(self).phase == MenuPhase::Attach
                        &&& entered.labels == old(self).labels
                        &&& old(self).next <= self.next
                        &&& at == middle
                        &&& entered.previous == old(self).previous
                        &&& entered.menu == old(self).menu
                    },
                decreases self.labels.len() - self.next,
            {
                let label = self.labels[self.next].clone();
                proof {
                    lemma_skip_one(texts(self.labels@), self.next as int);
                }
                let takes = match manager.windows.get(label.as_str()) {
                    Some(window) => window.has_app_wide_menu() || window.menu.is_none(),
                    None => false,
                };
                self.next += 1;
                if takes {
                    assert(texts(self.labels@)[self.next - 1] == label@);
                    let step = MenuStep::AttachToWindow(label.clone());
                    self.current = Some(MenuStep::AttachToWindow(label));
                    assert(all =~= seq![step@] + self.pending(*manager));
                    return Some(step);
                }
            }
            self.phase = MenuPhase::Done;
            assert(all.len() == 0);
        }
        None
    }
}

impl AppHandle {
    /// Sets the app-wide menu.
    ///
    /// A window that was not created with an explicit menu and had none set explicitly gets this
    /// menu. The previous menu stands in the change once it is done.
    pub fn set_menu(&self, menu: Menu) -> (change: MenuChange)
        requires
            self.manager.target.is_desktop(),
        ensures
            begins(self.manager, Some(menu), change),
    {
        MenuChange::start(&self.manager, Some(menu))
    }

    /// Removes the app-wide menu.
    ///
    /// It is taken off each window that shows it, and stands in the change once it is done.
    pub fn remove_menu(&self) -> (change: MenuChange)
        requires
            self.manager.target.is_desktop(),
        ensures
            begins(self.manager, None, change),
    {
        MenuChange::start(&self.manager, None)
    }

    /// Hides the app-wide menu from the windows that show it, one after the other.
    ///
    /// The first that fails ends it, with its error.
    pub fn hide_menu(&self) -> (series: Series<MenuTurn>)
        requires
            self.manager.target.is_desktop(),
        ensures
            turns(series.rest@) == hiding(windows_to_turn(self.manager)),
            !series.busy,
    {
        let labels = self.list_windows_to_turn();
        let mut all: Vec<MenuTurn> = Vec::new();
        let mut i: usize = 0;
        assert(turns(all@) =~= hiding(texts(labels@).take(0)));
        while i < labels.len()
            invariant
                i <= labels.len(),
                turns(all@) == hiding(texts(labels@).take(i as int)),
            decreases labels.len() - i,
        {
            let ghost before = turns(all@);
            all.push(MenuTurn::Hide(labels[i].clone()));
            let ghost next = MenuTurnView::Hide(texts(labels@)[i as int]);
            assert(turns(all@) =~= before.push(next));
            assert(hiding(texts(labels@).take(i + 1)) =~= before.push(next));
            i += 1;
        }
        assert(texts(labels@).take(i as int) =~= texts(labels@));
        Series::new(all)
    }

    /// Shows the app-wide menu in the windows that have it, one after the other.
    ///
    /// The first that fails ends it, with its error.
    pub fn show_menu(&self) -> (series: Series<MenuTurn>)
        requires
            self.manager.target.is_desktop(),
        ensures
            turns(series.rest@) == showing(windows_to_turn(self.manager)),
            !series.busy,
    {
        let labels = self.list_windows_to_turn();
        let mut all: Vec<MenuTurn> = Vec::new();
        let mut i: usize = 0;
        assert(turns(all@) =~= showing(texts(labels@).take(0)));
        while i < labels.len()
            invariant
                i <= labels.len(),
                turns(all@) == showing(texts(labels@).take(i as int)),
            decreases labels.len() - i,
        {
            let ghost before = turns(all@);
            all.push(MenuTurn::Show(labels[i].clone()));
            let ghost next = MenuTurnView::Show(texts(labels@)[i as int]);
            assert(turns(all@) =~= before.push(next));
            assert(showing(texts(labels@).take(i + 1)) =~= before.push(next));
            i += 1;
        }
        assert(texts(labels@).take(i as int) =~= texts(labels@));
        Series::new(all)
    }

    fn list_windows_to_turn(&self) -> (labels: Vec<String>)
        ensures
            texts(labels@) == windows_to_turn(self.manager),
    {
        if !self.manager.target.is_macos() && self.manager.menu.menu.is_some() {
            self.manager.list_windows_with_menu(true)
        } else {
            Vec::new()
        }
    }
}

/// The windows in which the app-wide menu can be hidden and shown: where there is one, those that
/// have it. On macOS the menu does not belong to windows.
pub open spec fn windows_to_turn(manager: AppManager) -> Seq<Seq<char>> {
    if !manager.target.is_macos() && manager.menu.menu is Some {
        crate::manager::windows_with_menu(manager, true)
    } else {
        Seq::empty()
    }
}

/// The windows after all of the steps were taken, in their order.
pub open spec fn all_stepped(
    windows: Map<Seq<char>, Window>,
    steps: Seq<MenuStepView>,
    id: Option<String>,
) -> Map<Seq<char>, Window>
    decreases steps.len(),
{
    if steps.len() == 0 {
        windows
    } else {
        all_stepped(stepped(windows, steps[0], id), steps.skip(1), id)
    }
}

/// Whether the windows are the same, but that those without a menu of their own may show another.
pub open spec fn keeps_own_menus(
    before: Map<Seq<char>, Window>,
    after: Map<Seq<char>, Window>,
) -> bool {
    &&& after.dom() == before.dom()
    &&& forall|label: Seq<char>| #[trigger]
        before.contains_key(label) ==> after[label].resources == before[label].resources && (
        before[label].has_own_menu() ==> after[label] == before[label])
}

/// Taking one list of steps and another is taking both together.
proof fn lemma_stepped_add(
    windows: Map<Seq<char>, Window>,
    first: Seq<MenuStepView>,
    second: Seq<MenuStepView>,
    id: Option<String>,
)
    ensures
        all_stepped(windows, first + second, id) == all_stepped(
            all_stepped(windows, first, id),
            second,
            id,
        ),
    decreases first.len(),
{
    if first.len() == 0 {
        assert(first + second =~= second);
    } else {
        assert((first + second).skip(1) =~= first.skip(1) + second);
        lemma_stepped_add(stepped(windows, first[0], id), first.skip(1), second, id);
    }
}

/// What taking the menu off these windows, one after the other, comes to.
proof fn lemma_detached(
    labels: Seq<Seq<char>>,
    seen: Map<Seq<char>, Window>,
    windows: Map<Seq<char>, Window>,
    id: Option<String>,
)
    requires
        labels.no_duplicates(),
        seen.dom() == windows.dom(),
        forall|label: Seq<char>|
            labels.contains(label) && #[trigger] windows.contains_key(label) ==> windows[label]
                == seen[label],
    ensures
        ({
            let after = all_stepped(windows, detach_steps(labels, seen), id);
            &&& keeps_own_menus(windows, after)
            &&& forall|label: Seq<char>| #[trigger]
                windows.contains_key(label) ==> if labels.contains(label)
                    && windows[label].shows_app_menu() {
                    after[label].menu is None
                } else {
                    after[label] == windows[label]
                }
        }),
    decreases labels.len(),
{
    if labels.len() > 0 {
        let rest = labels.skip(1);
        let steps = detach_steps(labels, seen);
        assert forall|label: Seq<char>| labels.contains(label) implies label == labels[0]
            || rest.contains(label) by {
            let i = labels.index_of(label);
            if i > 0 {
                assert(rest[i - 1] == label);
            }
        }
        assert forall|label: Seq<char>| rest.contains(label) implies label != labels[0]
            && labels.contains(label) by {
            let i = rest.index_of(label);
            assert(labels[i + 1] == label);
        }
        assert(labels.contains(labels[0]));
        if windows.contains_key(labels[0]) && seen[labels[0]].shows_app_menu() {
            let next = stepped(windows, steps[0], id);
            assert(next.dom() =~= windows.dom());
            assert(steps.skip(1) =~= detach_steps(rest, seen));
            lemma_detached(rest, seen, next, id);
        } else {
            lemma_detached(rest, seen, windows, id);
        }
    }
}

/// What putting the menu on these windows, one after the other, comes to.
proof fn lemma_attached(
    labels: Seq<Seq<char>>,
    seen: Map<Seq<char>, Window>,
    windows: Map<Seq<char>, Window>,
    id: String,
)
    requires
        seen.dom() == windows.dom(),
        forall|label: Seq<char>| #[trigger]
            windows.contains_key(label) ==> windows[label].has_own_menu()
                == seen[label].has_own_menu(),
    ensures
        ({
            let after = all_stepped(windows, attach_steps(labels, seen), Some(id));
            &&& keeps_own_menus(windows, after)
            &&& forall|label: Seq<char>| #[trigger]
                windows.contains_key(label) ==> if labels.contains(label)
                    && !windows[label].has_own_menu() {
                    after[label].menu == Some(WindowMenu { is_app_wide: true, menu: id })
                } else {
                    after[label] == windows[label]
                }
        }),
    decreases labels.len(),
{
    if labels.len() > 0 {
        let rest = labels.skip(1);
        let steps = attach_steps(labels, seen);
        assert forall|label: Seq<char>| labels.contains(label) implies label == labels[0]
            || rest.contains(label) by {
            let i = labels.index_of(label);
            if i > 0 {
                assert(rest[i - 1] == label);
            }
        }
        assert forall|label: Seq<char>| rest.contains(label) implies labels.contains(label) by {
            let i = rest.index_of(label);
            assert(labels[i + 1] == label);
        }
        assert(labels.contains(labels[0]));
        if windows.contains_key(labels[0]) && !seen[labels[0]].has_own_menu() {
            let next = stepped(windows, steps[0], Some(id));
            assert(next.dom() =~= windows.dom());
            assert(steps.skip(1) =~= attach_steps(rest, seen));
            lemma_attached(rest, seen, next, id);
        } else {
            lemma_attached(rest, seen, windows, id);
        }
    }
}

/// Removing the menu of the application leads to no window showing it, and windows with a menu of
/// their own still have it.
pub proof fn law_removed_menu_is_gone(manager: AppManager, change: MenuChange)
    requires
        manager.target.has_window_menus(),
        manager.menu.menu is Some,
        manager.windows.order().no_duplicates(),
        begins(manager, None, change),
    ensures
        keeps_own_menus(manager.windows@, change.outcome(manager)),
        forall|label: Seq<char>| #[trigger]
            change.outcome(manager).contains_key(label) ==> !change.outcome(
                manager,
            )[label].shows_app_menu(),
{
    lemma_detached(manager.windows.order(), manager.windows@, manager.windows@, None);
    assert forall|label: Seq<char>| #[trigger]
        manager.windows@.contains_key(label) implies manager.windows.order().contains(label) by {
        manager.windows.lemma_walk(label);
    }
}

/// Setting a menu for the application leads to every window showing it but those with a menu of
/// their own, and these still have theirs.
pub proof fn law_set_menu_is_everywhere(manager: AppManager, menu: Menu, change: MenuChange)
    requires
        manager.target.has_window_menus(),
        manager.windows.order().no_duplicates(),
        begins(manager, Some(menu), change),
    ensures
        keeps_own_menus(manager.windows@, change.outcome(manager)),
        forall|label: Seq<char>| #[trigger]
            change.outcome(manager).contains_key(label)
                && !manager.windows@[label].has_own_menu() ==> change.outcome(manager)[label].menu
                == Some(WindowMenu { is_app_wide: true, menu: menu.id }),
{
    let id = menu.id;
    let order = manager.windows.order();
    let windows = manager.windows@;
    let middle = all_stepped(windows, all_detach_steps(manager), Some(id));
    lemma_stepped_add(
        windows,
        all_detach_steps(manager),
        all_attach_steps(manager, crate::menu::app_menu_steps(menu.items@)),
        Some(id),
    );
    assert forall|label: Seq<char>| #[trigger] windows.contains_key(label) implies order.contains(
        label,
    ) by {
        manager.windows.lemma_walk(label);
    }
    lemma_detached(order, windows, windows, Some(id));
    lemma_attached(order, windows, middle, id);
}

/// The windows that the menu is put on are the same before and after a change that gives no window
/// a menu of its own and takes none away.
proof fn lemma_attach_steps_agree(
    labels: Seq<Seq<char>>,
    before: Map<Seq<char>, Window>,
    after: Map<Seq<char>, Window>,
)
    requires
        before.dom() == after.dom(),
        forall|label: Seq<char>| #[trigger]
            before.contains_key(label) ==> before[label].has_own_menu()
                == after[label].has_own_menu(),
    ensures
        attach_steps(labels, before) == attach_steps(labels, after),
    decreases labels.len(),
{
    if labels.len() > 0 {
        lemma_attach_steps_agree(labels.skip(1), before, after);
        assert(before.contains_key(labels[0]) == after.contains_key(labels[0]));
    }
}

/// The windows that the menu is taken off are the same before and after another was changed.
proof fn lemma_detach_steps_agree(
    labels: Seq<Seq<char>>,
    before: Map<Seq<char>, Window>,
    after: Map<Seq<char>, Window>,
)
    requires
        before.dom() == after.dom(),
        forall|label: Seq<char>| #[trigger]
            before.contains_key(label) && labels.contains(label) ==> before[label] == after[label],
    ensures
        detach_steps(labels, before) == detach_steps(labels, after),
    decreases labels.len(),
{
    if labels.len() > 0 {
        let rest = labels.skip(1);
        assert forall|label: Seq<char>| #[trigger]
            before.contains_key(label) && rest.contains(label) implies before[label]
            == after[label] by {
            let i = rest.index_of(label);
            assert(labels[i + 1] == label);
        }
        lemma_detach_steps_agree(rest, before, after);
        assert(labels.contains(labels[0]));
        assert(before.contains_key(labels[0]) == after.contains_key(labels[0]));
    }
}

/// Whether a step is one for the window that it names: the menu is taken off a window that shows
/// it, and put on one without a menu of its own.
pub open spec fn step_fits(step: MenuStepView, windows: Map<Seq<char>, Window>) -> bool {
    match step {
        MenuStepView::DetachFromWindow(label) => windows.contains_key(label)
            && windows[label].shows_app_menu(),
        MenuStepView::AttachToWindow(label) => windows.contains_key(label)
            && !windows[label].has_own_menu(),
        _ => true,
    }
}

impl MenuChange {
    /// Whether the step that is being taken is one for the window that it names.
    pub open spec fn fits(&self, manager: AppManager) -> bool {
        match self.current {
            Some(step) => step_fits(step@, manager.windows@),
            None => true,
        }
    }

    /// The windows once every step has been taken, if none fails.
    pub open spec fn outcome(&self, manager: AppManager) -> Map<Seq<char>, Window> {
        all_stepped(self.committed(manager.windows@), self.pending(manager), self.id)
    }
}

/// The steps that take the menu off are for the windows that they name.
proof fn lemma_detach_steps_fit(labels: Seq<Seq<char>>, windows: Map<Seq<char>, Window>)
    ensures
        forall|k: int|
            0 <= k < detach_steps(labels, windows).len() ==> step_fits(
                #[trigger] detach_steps(labels, windows)[k],
                windows,
            ),
    decreases labels.len(),
{
    if labels.len() > 0 {
        let rest = detach_steps(labels.skip(1), windows);
        let all = detach_steps(labels, windows);
        lemma_detach_steps_fit(labels.skip(1), windows);
        assert forall|k: int| 0 <= k < all.len() implies step_fits(#[trigger] all[k], windows) by {
            if all.len() > rest.len() && k > 0 {
                assert(all[k] == rest[k - 1]);
            }
        }
    }
}

/// The steps that put the menu on are for the windows that they name.
proof fn lemma_attach_steps_fit(labels: Seq<Seq<char>>, windows: Map<Seq<char>, Window>)
    ensures
        forall|k: int|
            0 <= k < attach_steps(labels, windows).len() ==> step_fits(
                #[trigger] attach_steps(labels, windows)[k],
                windows,
            ),
    decreases labels.len(),
{
    if labels.len() > 0 {
        let rest = attach_steps(labels.skip(1), windows);
        let all = attach_steps(labels, windows);
        lemma_attach_steps_fit(labels.skip(1), windows);
        assert forall|k: int| 0 <= k < all.len() implies step_fits(#[trigger] all[k], windows) by {
            if all.len() > rest.len() && k > 0 {
                assert(all[k] == rest[k - 1]);
            }
        }
    }
}

/// The next step is one for the window that it names.
proof fn lemma_next_step_fits(change: MenuChange, manager: AppManager)
    requires
        change.pending(manager).len() > 0,
    ensures
        step_fits(change.pending(manager)[0], manager.windows@),
{
    let rest = labels_from(texts(change.labels@), change.next as int);
    let windows = manager.windows@;
    lemma_detach_steps_fit(rest, windows);
    lemma_attach_steps_fit(rest, windows);
    lemma_attach_steps_fit(manager.windows.order(), windows);
    let all = change.pending(manager);
    if change.phase == MenuPhase::Detach && !change.app_step {
        if detach_steps(rest, windows).len() > 0 {
            assert(all[0] == detach_steps(rest, windows)[0]);
        } else {
            assert(all[0] == all_attach_steps(manager, change.app_menu@)[0]);
        }
    }
    if change.phase == MenuPhase::Attach && !change.app_step {
        assert(all[0] == attach_steps(rest, windows)[0]);
    }
}

/// Taking the current step does not change which steps are still to be taken.
pub proof fn law_menu_steps_are_settled(change: MenuChange, before: AppManager, after: AppManager)
    requires
        change.wf(),
        change.fits(before),
        after == (AppManager { windows: after.windows, ..before }),
        after.windows@ == change.committed(before.windows@),
        after.windows.order() == before.windows.order(),
    ensures
        change.pending(after) == change.pending(before),
{
    let old_windows = before.windows@;
    let new_windows = after.windows@;
    let rest = labels_from(texts(change.labels@), change.next as int);
    assert(new_windows.dom() =~= old_windows.dom());
    lemma_attach_steps_agree(rest, old_windows, new_windows);
    lemma_attach_steps_agree(before.windows.order(), old_windows, new_windows);
    if change.phase == MenuPhase::Detach {
        lemma_detach_steps_agree(rest, old_windows, new_windows);
    }
}

/// Going on with a change leads where its steps led from the beginning; once there is no next step,
/// the windows are what they led to.
pub proof fn law_menu_change_keeps_its_outcome(
    before: MenuChange,
    manager: AppManager,
    after: MenuChange,
    new_manager: AppManager,
    step: Option<MenuStepView>,
)
    requires
        before.wf(),
        before.fits(manager),
        advanced(before, manager, after, new_manager, step),
    ensures
        after.fits(new_manager),
        after.outcome(new_manager) == before.outcome(manager),
        step is None ==> new_manager.windows@ == before.outcome(manager),
{
    let committed = AppManager { windows: new_manager.windows, ..manager };
    law_menu_steps_are_settled(before, manager, committed);
    if let Some(step) = step {
        lemma_next_step_fits(before, committed);
        let rest = after.pending(new_manager);
        let all = before.pending(manager);
        assert(all[0] == step);
        assert(all.skip(1) =~= rest);
    }
}

/// Hiding the app-wide menu hides it in every window that shows it, each once, and in no other, and
/// showing it does the same. Where there is no app-wide menu, and on macOS, nothing is done. There
/// are as many steps as such windows.
pub proof fn law_the_menu_is_turned_where_it_is(
    manager: AppManager,
    hidden: Series<MenuTurn>,
    shown: Series<MenuTurn>,
    label: Seq<char>,
)
    requires
        manager.windows.order().no_duplicates(),
        turns(hidden.rest@) == hiding(windows_to_turn(manager)),
        turns(shown.rest@) == showing(windows_to_turn(manager)),
    ensures
        turns(hidden.rest@).contains(MenuTurnView::Hide(label)) <==> !(manager.target.os is MacOs)
            && manager.menu.menu is Some && manager.windows@.contains_key(label) && (
        manager.windows@[label].menu matches Some(menu) && menu.is_app_wide),
        turns(shown.rest@).contains(MenuTurnView::Show(label)) <==> !(manager.target.os is MacOs)
            && manager.menu.menu is Some && manager.windows@.contains_key(label) && (
        manager.windows@[label].menu matches Some(menu) && menu.is_app_wide),
        forall|k: int| 0 <= k < hidden.rest@.len() ==> #[trigger] hidden.rest@[k] is Hide,
        forall|k: int| 0 <= k < shown.rest@.len() ==> #[trigger] shown.rest@[k] is Show,
        turns(hidden.rest@).no_duplicates(),
        turns(shown.rest@).no_duplicates(),
        hidden.rest@.len() == shown.rest@.len(),
        !(manager.target.os is MacOs) && manager.menu.menu is Some ==> hidden.rest@.len() == Set::new(
            |window: Seq<char>|
                manager.windows@.contains_key(window) && (manager.windows@[window].menu matches Some(
                    menu,
                ) && menu.is_app_wide),
        ).len(),
{
    let labels = windows_to_turn(manager);
    let hides = turns(hidden.rest@);
    let shows = turns(shown.rest@);
    crate::manager::law_windows_with_a_menu(manager, label);
    assert(labels.no_duplicates());
    assert(hides.len() == hidden.rest@.len() && hides.len() == labels.len());
    assert(shows.len() == shown.rest@.len() && shows.len() == labels.len());
    assert forall|k: int| 0 <= k < labels.len() implies #[trigger] hides[k] == MenuTurnView::Hide(
        labels[k],
    ) && shows[k] == MenuTurnView::Show(labels[k]) by {}
    assert forall|k: int| 0 <= k < hidden.rest@.len() implies #[trigger] hidden.rest@[k]
        is Hide by {
        assert(hides[k] == hidden.rest@[k]@);
        assert(hides[k] == MenuTurnView::Hide(labels[k]));
    }
    assert forall|k: int| 0 <= k < shown.rest@.len() implies #[trigger] shown.rest@[k] is Show by {
        assert(shows[k] == shown.rest@[k]@);
        assert(hides[k] == MenuTurnView::Hide(labels[k]));
    }
    if labels.contains(label) {
        let k = labels.index_of(label);
        assert(hides[k] == MenuTurnView::Hide(label));
        assert(shows[k] == MenuTurnView::Show(label));
    }
    if hides.contains(MenuTurnView::Hide(label)) {
        let k = hides.index_of(MenuTurnView::Hide(label));
        assert(hides[k] == MenuTurnView::Hide(labels[k]));
    }
    if shows.contains(MenuTurnView::Show(label)) {
        let k = shows.index_of(MenuTurnView::Show(label));
        assert(hides[k] == MenuTurnView::Hide(labels[k]));
    }
    assert forall|k: int, l: int| 0 <= k < l < hides.len() implies hides[k] != hides[l]
        && shows[k] != shows[l] by {
        assert(hides[k] == MenuTurnView::Hide(labels[k]));
        assert(hides[l] == MenuTurnView::Hide(labels[l]));
        assert(labels[k] != labels[l]);
    }
    if !(manager.target.os is MacOs) && manager.menu.menu is Some {
        let all = Set::new(
            |window: Seq<char>|
                manager.windows@.contains_key(window) && (manager.windows@[window].menu matches Some(
                    menu,
                ) && menu.is_app_wide),
        );
        assert forall|window: Seq<char>| labels.to_set().contains(window) <==> #[trigger] all.contains(
            window,
        ) by {
            crate::manager::law_windows_with_a_menu(manager, window);
        }
        assert(labels.to_set() =~= all);
        labels.unique_seq_to_set();
    }
}

/// The menu is turned in the windows in their order.
pub proof fn law_the_menu_is_turned_in_order(labels: Seq<Seq<char>>, i: int)
    requires
        0 <= i < labels.len(),
    ensures
        hiding(labels).len() == labels.len(),
        hiding(labels)[i] == MenuTurnView::Hide(labels[i]),
        showing(labels).len() == labels.len(),
        showing(labels)[i] == MenuTurnView::Show(labels[i]),
{
}

/// Which windows a menu is taken off, and which it is put on.
proof fn lemma_steps_for(labels: Seq<Seq<char>>, windows: Map<Seq<char>, Window>, label: Seq<char>)
    ensures
        detach_steps(labels, windows).contains(MenuStepView::DetachFromWindow(label))
            <==> labels.contains(label) && windows.contains_key(label)
            && windows[label].shows_app_menu(),
        attach_steps(labels, windows).contains(MenuStepView::AttachToWindow(label))
            <==> labels.contains(label) && windows.contains_key(label)
            && !windows[label].has_own_menu(),
        forall|k: int|
            0 <= k < detach_steps(labels, windows).len() ==> #[trigger] detach_steps(
                labels,
                windows,
            )[k] is DetachFromWindow,
        forall|k: int|
            0 <= k < attach_steps(labels, windows).len() ==> #[trigger] attach_steps(
                labels,
                windows,
            )[k] is AttachToWindow,
    decreases labels.len(),
{
    if labels.len() > 0 {
        let rest = labels.skip(1);
        lemma_steps_for(rest, windows, label);
        assert(labels.contains(label) <==> label == labels[0] || rest.contains(label)) by {
            if labels.contains(label) {
                let i = labels.index_of(label);
                assert(i > 0 ==> rest[i - 1] == label);
            }
            if rest.contains(label) {
                assert(labels[rest.index_of(label) + 1] == label);
            }
            if label == labels[0] {
                assert(labels.contains(labels[0]));
            }
        }
        lemma_first_and_rest(
            MenuStepView::DetachFromWindow(labels[0]),
            detach_steps(rest, windows),
            MenuStepView::DetachFromWindow(label),
        );
        lemma_first_and_rest(
            MenuStepView::AttachToWindow(labels[0]),
            attach_steps(rest, windows),
            MenuStepView::AttachToWindow(label),
        );
        let off = detach_steps(labels, windows);
        assert forall|k: int| 0 <= k < off.len() implies #[trigger] off[k] is DetachFromWindow by {
            if off.len() > detach_steps(rest, windows).len() && k > 0 {
                assert(off[k] == detach_steps(rest, windows)[k - 1]);
            }
        }
        let on = attach_steps(labels, windows);
        assert forall|k: int| 0 <= k < on.len() implies #[trigger] on[k] is AttachToWindow by {
            if on.len() > attach_steps(rest, windows).len() && k > 0 {
                assert(on[k] == attach_steps(rest, windows)[k - 1]);
            }
        }
    }
}

/// A step stands in a list if it is the first or stands in the rest.
proof fn lemma_first_and_rest(first: MenuStepView, rest: Seq<MenuStepView>, step: MenuStepView)
    ensures
        (seq![first] + rest).contains(step) <==> step == first || rest.contains(step),
{
    let all = seq![first] + rest;
    if step == first {
        assert(all[0] == step);
    }
    if rest.contains(step) {
        assert(all[rest.index_of(step) + 1] == step);
    }
    if all.contains(step) {
        let k = all.index_of(step);
        assert(k > 0 ==> rest[k - 1] == step);
    }
}

/// A step stands in two lists together if it stands in one of them.
proof fn lemma_in_either(one: Seq<MenuStepView>, other: Seq<MenuStepView>, step: MenuStepView)
    ensures
        (one + other).contains(step) <==> one.contains(step) || other.contains(step),
{
    let all = one + other;
    if one.contains(step) {
        assert(all[one.index_of(step)] == step);
    }
    if other.contains(step) {
        assert(all[one.len() + other.index_of(step)] == step);
    }
    if all.contains(step) {
        let k = all.index_of(step);
        if k < one.len() {
            assert(one[k] == step);
        } else {
            assert(other[k - one.len()] == step);
        }
    }
}

/// The steps of a change where windows carry the menu: the menu that was there is taken off every
/// window that shows it, and off no other, and then the one that is set is put on every window but
/// those with a menu of their own.
pub proof fn law_menu_steps_of_windows(
    manager: AppManager,
    menu: Option<Menu>,
    change: MenuChange,
    label: Seq<char>,
    k: int,
    l: int,
)
    requires
        begins(manager, menu, change),
        !(manager.target.os is MacOs),
    ensures
        change.pending(manager).contains(MenuStepView::DetachFromWindow(label))
            <==> manager.menu.menu is Some && manager.windows@.contains_key(label)
            && manager.windows@[label].shows_app_menu(),
        change.pending(manager).contains(MenuStepView::AttachToWindow(label)) <==> menu is Some
            && manager.windows@.contains_key(label) && !manager.windows@[label].has_own_menu(),
        0 <= k < change.pending(manager).len() ==> change.pending(manager)[k] is DetachFromWindow
            || change.pending(manager)[k] is AttachToWindow,
        0 <= k < l < change.pending(manager).len() && change.pending(manager)[l]
            is DetachFromWindow ==> change.pending(manager)[k] is DetachFromWindow,
{
    lemma_menu_steps_of_windows(manager, menu, label);
    let off = all_detach_steps(manager);
    let on = put_on(manager, menu);
    assert(change.pending(manager) == off + on);
    lemma_off_before_on(off, on, k, l);
}

/// Steps that take a menu off come before those that put one on.
proof fn lemma_off_before_on(off: Seq<MenuStepView>, on: Seq<MenuStepView>, k: int, l: int)
    requires
        forall|i: int| 0 <= i < off.len() ==> #[trigger] off[i] is DetachFromWindow,
        forall|i: int| 0 <= i < on.len() ==> #[trigger] on[i] is AttachToWindow,
    ensures
        0 <= k < (off + on).len() ==> (off + on)[k] is DetachFromWindow || (off + on)[k]
            is AttachToWindow,
        0 <= k < l < (off + on).len() && (off + on)[l] is DetachFromWindow ==> (off + on)[k]
            is DetachFromWindow,
{
    let all = off + on;
    if 0 <= k < all.len() {
        if k < off.len() {
            assert(all[k] == off[k]);
        } else {
            assert(all[k] == on[k - off.len()]);
        }
    }
    if 0 <= k < l < all.len() && l >= off.len() {
        assert(all[l] == on[l - off.len()]);
    }
}

/// The steps that put the menu to set on, if there is one.
spec fn put_on(manager: AppManager, menu: Option<Menu>) -> Seq<MenuStepView> {
    match menu {
        Some(menu) => all_attach_steps(manager, crate::menu::app_menu_steps(menu.items@)),
        None => Seq::empty(),
    }
}

/// The steps for windows.
proof fn lemma_menu_steps_of_windows(manager: AppManager, menu: Option<Menu>, label: Seq<char>)
    requires
        !(manager.target.os is MacOs),
    ensures
        ({
            let off = all_detach_steps(manager);
            let on = put_on(manager, menu);
            &&& (off + on).contains(MenuStepView::DetachFromWindow(label)) <==> manager.menu.menu
                is Some && manager.windows@.contains_key(label)
                && manager.windows@[label].shows_app_menu()
            &&& (off + on).contains(MenuStepView::AttachToWindow(label)) <==> menu is Some
                && manager.windows@.contains_key(label) && !manager.windows@[label].has_own_menu()
            &&& forall|k: int| 0 <= k < off.len() ==> #[trigger] off[k] is DetachFromWindow
            &&& forall|k: int| 0 <= k < on.len() ==> #[trigger] on[k] is AttachToWindow
            &&& menu is None ==> off + on == off
        }),
{
    let off = all_detach_steps(manager);
    let on = put_on(manager, menu);
    lemma_steps_for(manager.windows.order(), manager.windows@, label);
    lemma_in_either(off, on, MenuStepView::DetachFromWindow(label));
    lemma_in_either(off, on, MenuStepView::AttachToWindow(label));
    manager.windows.lemma_walk(label);
    if off.contains(MenuStepView::AttachToWindow(label)) {
        assert(off[off.index_of(MenuStepView::AttachToWindow(label))] is DetachFromWindow);
    }
    if on.contains(MenuStepView::DetachFromWindow(label)) {
        assert(on[on.index_of(MenuStepView::DetachFromWindow(label))] is AttachToWindow);
    }
    if menu is None {
        assert(off + on =~= off);
    }
}

/// The steps of a change on macOS, where the application carries the menu: the one that was there is
/// taken off, and the one that is set is put on by its own steps.
pub proof fn law_menu_steps_of_macos(manager: AppManager, menu: Option<Menu>, change: MenuChange)
    requires
        begins(manager, menu, change),
        manager.target.os is MacOs,
    ensures
        manager.menu.menu is None && menu is None ==> change.pending(manager).len() == 0,
        manager.menu.menu is Some && menu is None ==> change.pending(manager) == seq![
            MenuStepView::DetachFromApp,
        ],
        menu matches Some(menu) ==> change.pending(manager).len() > 0 && change.pending(
            manager,
        ).last() == MenuStepView::AttachToApp(crate::menu::app_menu_steps(menu.items@))
            && change.pending(manager).drop_last() == (if manager.menu.menu is Some {
            seq![MenuStepView::DetachFromApp]
        } else {
            Seq::empty()
        }),
{
    if let Some(menu) = menu {
        assert(change.pending(manager).drop_last() =~= all_detach_steps(manager));
    }
}

/// When a change comes to putting menus on or to its end, the app-wide menu is the one to set, or
/// none where it was to be removed, and the one that was there before is handed back. The new one is
/// kept under its id. The old one is kept only where a window shows it, and every other menu is kept.
pub proof fn law_the_menu_is_exchanged(
    before: MenuChange,
    manager: AppManager,
    after: MenuChange,
    new_manager: AppManager,
    step: Option<MenuStepView>,
    id: Seq<char>,
)
    requires
        advanced(before, manager, after, new_manager, step),
        before.phase == MenuPhase::Detach,
        !(step is Some && (step->0 is DetachFromWindow || step->0 is DetachFromApp)),
    ensures
        after.previous == manager.menu.menu,
        match before.menu {
            Some(menu) => {
                &&& new_manager.menu.menu matches Some(set)
                &&& set.id@ == menu.id@
                &&& set.items@ == menu.items@
                &&& new_manager.menu.stash@.contains_key(menu.id@)
                &&& new_manager.menu.stash@[menu.id@] == menu
            },
            None => new_manager.menu.menu is None,
        },
        !(before.menu matches Some(menu) && menu.id@ == id) && !(manager.menu.menu matches Some(
            old,
        ) && old.id@ == id) ==> (new_manager.menu.stash@.contains_key(id)
            <==> manager.menu.stash@.contains_key(id)) && (manager.menu.stash@.contains_key(id)
            ==> new_manager.menu.stash@[id] == manager.menu.stash@[id]),
        !(before.menu matches Some(menu) && menu.id@ == id) && (manager.menu.menu matches Some(old)
            && old.id@ == id) ==> (new_manager.menu.stash@.contains_key(id)
            <==> manager.menu.stash@.contains_key(id) && exists|label: Seq<char>| #[trigger]
            new_manager.windows@.contains_key(label) && (
            new_manager.windows@[label].menu matches Some(shown) && shown.menu@ == id)),
        new_manager.menu.global_event_listeners == manager.menu.global_event_listeners,
        new_manager.menu.event_listeners == manager.menu.event_listeners,
        new_manager.plugins == manager.plugins,
        new_manager.state == manager.state,
        new_manager.tray == manager.tray,
        new_manager.config == manager.config,
{
    let windows = new_manager.windows@;
    if crate::manager::used_by_a_window(windows, id) {
        let label = choose|label: Seq<char>| #[trigger]
            windows.contains_key(label) && windows[label].uses(id);
        assert(windows[label].menu matches Some(shown) && shown.menu@ == id);
    }
    if exists|label: Seq<char>| #[trigger]
        windows.contains_key(label) && (windows[label].menu matches Some(shown) && shown.menu@
            == id) {
        let label = choose|label: Seq<char>| #[trigger]
            windows.contains_key(label) && (windows[label].menu matches Some(shown) && shown.menu@
                == id);
        assert(windows[label].uses(id));
    }
}

/// Taking the menu off a window leaves it without one, and putting one on gives it that menu as the
/// app-wide one. Its resources and the other windows stay as they are.
pub proof fn law_a_menu_step_changes_one_window(
    windows: Map<Seq<char>, Window>,
    label: Seq<char>,
    id: String,
    other: Seq<char>,
)
    requires
        windows.contains_key(label),
    ensures
        stepped(windows, MenuStepView::DetachFromWindow(label), Some(id))[label].menu is None,
        stepped(windows, MenuStepView::DetachFromWindow(label), None)[label].menu is None,
        stepped(windows, MenuStepView::AttachToWindow(label), Some(id))[label].menu matches Some(
            menu,
        ) && menu.is_app_wide && menu.menu == id,
        stepped(windows, MenuStepView::DetachFromWindow(label), None)[label].resources
            == windows[label].resources,
        stepped(windows, MenuStepView::AttachToWindow(label), Some(id))[label].resources
            == windows[label].resources,
        other != label ==> stepped(
            windows,
            MenuStepView::DetachFromWindow(label),
            None,
        )[other] == windows[other] && stepped(
            windows,
            MenuStepView::AttachToWindow(label),
            Some(id),
        )[other] == windows[other],
        stepped(windows, MenuStepView::DetachFromWindow(label), None).dom() == windows.dom(),
        stepped(windows, MenuStepView::AttachToWindow(label), Some(id)).dom() == windows.dom(),
{
    assert(windows.dom().insert(label) =~= windows.dom());
}

/// What a step or a turn says is what is done, and to which window.
pub proof fn law_menu_steps_are_told_apart(
    one: MenuStep,
    other: MenuStep,
    first: MenuTurn,
    second: MenuTurn,
)
    requires
        one@ == other@,
        first@ == second@,
    ensures
        match (one, other) {
            (MenuStep::DetachFromWindow(a), MenuStep::DetachFromWindow(b)) => a@ == b@,
            (MenuStep::AttachToWindow(a), MenuStep::AttachToWindow(b)) => a@ == b@,
            (MenuStep::DetachFromApp, MenuStep::DetachFromApp) => true,
            (MenuStep::AttachToApp(a), MenuStep::AttachToApp(b)) => a@ == b@,
            _ => false,
        },
        match (first, second) {
            (MenuTurn::Hide(a), MenuTurn::Hide(b)) => a@ == b@,
            (MenuTurn::Show(a), MenuTurn::Show(b)) => a@ == b@,
            _ => false,
        },
{
}

/// What is said of labels, and of what is done to menus, is said of each of them, in their order.
pub proof fn law_every_label_is_said(labels: Seq<String>, all: Seq<MenuTurn>, i: int)
    ensures
        texts(labels).len() == labels.len(),
        0 <= i < labels.len() ==> texts(labels)[i] == labels[i]@,
        turns(all).len() == all.len(),
        0 <= i < all.len() ==> turns(all)[i] == all[i]@,
{
}

/// A change begins with nothing done, and knows the menu that it sets, if it sets one.
pub proof fn law_a_change_knows_its_menu(
    manager: AppManager,
    menu: Option<Menu>,
    change: MenuChange,
)
    requires
        begins(manager, menu, change),
    ensures
        change.menu == menu,
        menu matches Some(menu) ==> change.id == Some(menu.id),
        menu is None ==> change.id is None,
        change.current is None,
        change.phase == MenuPhase::Detach,
{
}

/// No window is looked at twice: the menu is taken off each window once, and put on each once.
proof fn lemma_steps_differ(labels: Seq<Seq<char>>, windows: Map<Seq<char>, Window>)
    requires
        labels.no_duplicates(),
    ensures
        detach_steps(labels, windows).no_duplicates(),
        attach_steps(labels, windows).no_duplicates(),
    decreases labels.len(),
{
    if labels.len() > 0 {
        let rest = labels.skip(1);
        assert(!rest.contains(labels[0])) by {
            if rest.contains(labels[0]) {
                let i = rest.index_of(labels[0]);
                assert(labels[i + 1] == labels[0]);
            }
        }
        lemma_steps_differ(rest, windows);
        lemma_steps_for(rest, windows, labels[0]);
        let off = detach_steps(rest, windows);
        let on = attach_steps(rest, windows);
        assert forall|i: int| 0 <= i < off.len() implies off[i] != MenuStepView::DetachFromWindow(
            labels[0],
        ) by {
            assert(off.contains(off[i]));
        }
        assert forall|i: int| 0 <= i < on.len() implies on[i] != MenuStepView::AttachToWindow(
            labels[0],
        ) by {
            assert(on.contains(on[i]));
        }
    }
}

/// Where windows carry the menu, no step of a change is taken twice.
pub proof fn law_menu_steps_are_taken_once(
    manager: AppManager,
    menu: Option<Menu>,
    change: MenuChange,
)
    requires
        begins(manager, menu, change),
        !(manager.target.os is MacOs),
        manager.windows.order().no_duplicates(),
    ensures
        change.pending(manager).no_duplicates(),
{
    lemma_steps_differ(manager.windows.order(), manager.windows@);
    lemma_menu_steps_of_windows(manager, menu, Seq::empty());
    let off = all_detach_steps(manager);
    let on = put_on(manager, menu);
    assert(change.pending(manager) == off + on);
    assert(off.no_duplicates() && on.no_duplicates());
    lemma_apart(off, on);
}

/// Steps of different kinds are different.
proof fn lemma_apart(off: Seq<MenuStepView>, on: Seq<MenuStepView>)
    requires
        off.no_duplicates(),
        on.no_duplicates(),
        forall|i: int| 0 <= i < off.len() ==> #[trigger] off[i] is DetachFromWindow,
        forall|i: int| 0 <= i < on.len() ==> #[trigger] on[i] is AttachToWindow,
    ensures
        (off + on).no_duplicates(),
{
    let all = off + on;
    assert forall|i: int, j: int| 0 <= i < j < all.len() implies all[i] != all[j] by {
        if j < off.len() {
            assert(all[i] == off[i] && all[j] == off[j]);
        } else if i < off.len() {
            assert(all[i] == off[i] && all[j] == on[j - off.len()]);
        } else {
            assert(all[i] == on[i - off.len()] && all[j] == on[j - off.len()]);
        }
    }
}

/// Before and after the exchange, going on with a change touches nothing but the menus of windows,
/// and what it is about stays.
pub proof fn law_only_the_exchange_changes_menus(
    before: MenuChange,
    manager: AppManager,
    after: MenuChange,
    new_manager: AppManager,
    step: Option<MenuStepView>,
)
    requires
        advanced(before, manager, after, new_manager, step),
        before.phase != MenuPhase::Detach || (step is Some && (step->0 is DetachFromWindow
            || step->0 is DetachFromApp)),
    ensures
        new_manager == (AppManager { windows: new_manager.windows, ..manager }),
        new_manager.windows.order() == manager.windows.order(),
        after.previous == before.previous,
        after.menu == before.menu,
        after.id == before.id,
{
}

/// The menu is put on the windows that there are when it comes to that, whichever there were when
/// the change began.
pub proof fn law_new_windows_take_the_menu_too(
    before: MenuChange,
    manager: AppManager,
    after: MenuChange,
    new_manager: AppManager,
    step: Option<MenuStepView>,
)
    requires
        advanced(before, manager, after, new_manager, step),
        before.phase == MenuPhase::Detach,
        step is Some,
        step->0 is AttachToWindow,
        !(manager.target.os is MacOs),
    ensures
        texts(after.labels@) == new_manager.windows.order(),
{
}

} // verus!
