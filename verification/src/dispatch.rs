//! Who is told of an event of the event loop, and in which order.
use vstd::prelude::*;

use crate::event::{RunEvent, RuntimeRunEvent, RuntimeWindowEvent, TrayIconEvent};
use crate::handle::AppHandle;
use crate::hook::HookId;
use crate::manager::AppManager;

verus! {

/// One thing to do about an event.
#[derive(PartialEq, Eq, Debug)]
pub enum Notification {
    /// Make the picture that the application carries its icon.
    SetAppIcon,
    /// Call a listener to every menu event.
    GlobalMenuListener(HookId),
    /// Call the listener to the menu events of a window.
    WindowMenuListener { label: String, listener: HookId },
    /// Call a listener to every tray icon event.
    GlobalTrayListener(HookId),
    /// Call the listener to the events of a tray icon.
    TrayListener { id: String, listener: HookId },
    /// Tell the plugins, in their order.
    Plugins,
}

/// What a [`Notification`] says.
pub enum NotificationView {
    SetAppIcon,
    GlobalMenuListener(HookId),
    WindowMenuListener { label: Seq<char>, listener: HookId },
    GlobalTrayListener(HookId),
    TrayListener { id: Seq<char>, listener: HookId },
    Plugins,
}

impl View for Notification {
    type V = NotificationView;

    open spec fn view(&self) -> NotificationView {
        match self {
            Notification::SetAppIcon => NotificationView::SetAppIcon,
            Notification::GlobalMenuListener(listener) => NotificationView::GlobalMenuListener(
                *listener,
            ),
            Notification::WindowMenuListener {
                label,
                listener,
            } => NotificationView::WindowMenuListener { label: label@, listener: *listener },
            Notification::GlobalTrayListener(listener) => NotificationView::GlobalTrayListener(
                *listener,
            ),
            Notification::TrayListener { id, listener } => NotificationView::TrayListener {
                id: id@,
                listener: *listener,
            },
            Notification::Plugins => NotificationView::Plugins,
        }
    }
}

/// How far the telling has come.
#[derive(Clone, Copy, PartialEq, Eq, Structural, Debug)]
pub enum Stage {
    /// The icon of the application is next.
    AppIcon,
    /// This listener to every menu event is next.
    GlobalMenu(usize),
    /// This listener to the menu events of a window is next.
    WindowMenu(usize),
    /// This listener to every tray icon event is next.
    GlobalTray(usize),
    /// This listener to the events of a tray icon is next.
    Tray(usize),
    /// The plugins are next.
    Plugins,
    /// Everyone has been told.
    Done,
}

/// Where the telling of an event starts.
pub open spec fn first_stage(event: RunEvent) -> Stage {
    match event {
        RunEvent::Ready => Stage::AppIcon,
        RunEvent::MenuEvent(_) => Stage::GlobalMenu(0),
        RunEvent::TrayIconEvent(_) => Stage::GlobalTray(0),
        _ => Stage::Plugins,
    }
}

/// The listeners to the menu events of a window whose window is there, from place `i` on.
pub open spec fn window_calls(manager: AppManager, i: int) -> Seq<NotificationView>
    decreases manager.menu.event_listeners.order().len() - i,
{
    let labels = manager.menu.event_listeners.order();
    if i < 0 || i >= labels.len() {
        Seq::empty()
    } else if manager.windows@.contains_key(labels[i]) {
        seq![
            NotificationView::WindowMenuListener {
                label: labels[i],
                listener: manager.menu.event_listeners@[labels[i]],
            },
        ] + window_calls(manager, i + 1)
    } else {
        window_calls(manager, i + 1)
    }
}

/// The listeners to the tray icon `id`, if it is there, from place `i` on.
pub open spec fn tray_calls(manager: AppManager, id: Seq<char>, i: int) -> Seq<NotificationView>
    decreases manager.tray.event_listeners.order().len() - i,
{
    let ids = manager.tray.event_listeners.order();
    if i < 0 || i >= ids.len() {
        Seq::empty()
    } else if ids[i] == id && manager.tray.has(id) {
        seq![
            NotificationView::TrayListener {
                id,
                listener: manager.tray.event_listeners@[id],
            },
        ] + tray_calls(manager, id, i + 1)
    } else {
        tray_calls(manager, id, i + 1)
    }
}

/// The listeners to the tray icon that an event is about, from place `i` on.
pub open spec fn event_tray_calls(manager: AppManager, event: RunEvent, i: int) -> Seq<
    NotificationView,
> {
    match event {
        RunEvent::TrayIconEvent(e) => tray_calls(manager, e.spec_id()@, i),
        _ => Seq::empty(),
    }
}

/// The listeners from place `i` on.
pub open spec fn listeners_from(listeners: Seq<HookId>, i: int) -> Seq<HookId> {
    if 0 <= i <= listeners.len() {
        listeners.skip(i)
    } else {
        Seq::empty()
    }
}

/// Everything that is still to be done about an event, in its order, while `manager` stays as it
/// is.
pub open spec fn pending(manager: AppManager, event: RunEvent, stage: Stage) -> Seq<
    NotificationView,
> {
    let plugins = seq![NotificationView::Plugins];
    match stage {
        Stage::AppIcon => if manager.target.dev && manager.target.is_macos()
            && manager.app_icon is Some {
            seq![NotificationView::SetAppIcon] + plugins
        } else {
            plugins
        },
        Stage::GlobalMenu(i) => listeners_from(
            manager.menu.global_event_listeners@,
            i as int,
        ).map_values(
            |listener: HookId| NotificationView::GlobalMenuListener(listener),
        ) + window_calls(manager, 0) + plugins,
        Stage::WindowMenu(i) => window_calls(manager, i as int) + plugins,
        Stage::GlobalTray(i) => listeners_from(
            manager.tray.global_event_listeners@,
            i as int,
        ).map_values(
            |listener: HookId| NotificationView::GlobalTrayListener(listener),
        ) + event_tray_calls(manager, event, 0) + plugins,
        Stage::Tray(i) => event_tray_calls(manager, event, i as int) + plugins,
        Stage::Plugins => plugins,
        Stage::Done => Seq::empty(),
    }
}

/// Whether the telling goes on right behind what is being done, whoever comes to be listed there
/// meanwhile.
pub open spec fn moved(
    manager: AppManager,
    before: Stage,
    notification: NotificationView,
    after: Stage,
) -> bool {
    match notification {
        NotificationView::SetAppIcon => after == Stage::Plugins,
        NotificationView::GlobalMenuListener(_) => before matches Stage::GlobalMenu(i) && after
            == Stage::GlobalMenu((i + 1) as usize),
        NotificationView::WindowMenuListener { label, .. } => {
            &&& after matches Stage::WindowMenu(next)
            &&& 0 < next <= manager.menu.event_listeners.order().len()
            &&& manager.menu.event_listeners.order()[next - 1] == label
            &&& before matches Stage::WindowMenu(i) ==> i < next
        },
        NotificationView::GlobalTrayListener(_) => before matches Stage::GlobalTray(i) && after
            == Stage::GlobalTray((i + 1) as usize),
        NotificationView::TrayListener { id, .. } => {
            &&& after matches Stage::Tray(next)
            &&& 0 < next <= manager.tray.event_listeners.order().len()
            &&& manager.tray.event_listeners.order()[next - 1] == id
            &&& before matches Stage::Tray(i) ==> i < next
        },
        NotificationView::Plugins => after == Stage::Done,
    }
}

/// An event on its way to those who are told of it.
#[derive(PartialEq, Eq, Debug)]
pub struct EventDispatch {
    pub event: RunEvent,
    pub stage: Stage,
}

impl EventDispatch {
    /// The next thing to do about the event, or `None` when there is nothing left.
    ///
    /// It is chosen by what `manager` holds at the time of the call.
    pub fn next(&mut self, manager: &AppManager) -> (notification: Option<Notification>)
        ensures
            final(self).event == old(self).event,
            match notification {
                Some(notification) => {
                    &&& pending(*manager, old(self).event, old(self).stage) == seq![notification@]
                        + pending(*manager, final(self).event, final(self).stage)
                    &&& notification@ == pending(*manager, old(self).event, old(self).stage)[0]
                    &&& moved(*manager, old(self).stage, notification@, final(self).stage)
                },
                None => pending(*manager, old(self).event, old(self).stage).len() == 0
                    && final(self).stage == old(self).stage,
            },
    {
        let ghost told = self.event;
        let ghost all = pending(*manager, told, self.stage);
        if let Stage::AppIcon = self.stage {
            self.stage = Stage::Plugins;
            if manager.target.dev && manager.target.is_macos() && manager.app_icon.is_some() {
                return Some(Notification::SetAppIcon);
            }
        }
        if let Stage::GlobalMenu(i) = self.stage {
            let ghost listeners = manager.menu.global_event_listeners@;
            let ghost call = |listener: HookId| NotificationView::GlobalMenuListener(listener);
            if i < manager.menu.global_event_listeners.len() {
                let listener = manager.menu.global_event_listeners[i];
                self.stage = Stage::GlobalMenu(i + 1);
                proof {
                    lemma_next_listener(listeners, i as int, call);
                    assert(all =~= seq![NotificationView::GlobalMenuListener(listener)] + pending(
                        *manager,
                        told,
                        self.stage,
                    ));
                }
                return Some(Notification::GlobalMenuListener(listener));
            }
            self.stage = Stage::WindowMenu(0);
            assert(listeners_from(listeners, i as int).map_values(call) =~= Seq::empty());
            assert(all =~= pending(*manager, told, self.stage));
        }
        if let Stage::WindowMenu(start) = self.stage {
            let len = manager.menu.event_listeners.len();
            let mut i: usize = start;
            while i < len
                invariant
                    len == manager.menu.event_listeners.order().len(),
                    self.event == told,
                    told == old(self).event,
                    all == pending(*manager, told, old(self).stage),
                    all == window_calls(*manager, i as int) + seq![NotificationView::Plugins],
                    start <= i,
                    old(self).stage matches Stage::WindowMenu(k) ==> k == start,
                decreases len - i,
            {
                let label = manager.menu.event_listeners.label_at(i);
                if manager.windows.contains_key(label.as_str()) {
                    let listener = *manager.menu.event_listeners.value_at(i);
                    let notification = Notification::WindowMenuListener {
                        label: label.clone(),
                        listener,
                    };
                    self.stage = Stage::WindowMenu(i + 1);
                    assert(all =~= seq![notification@] + pending(*manager, told, self.stage));
                    return Some(notification);
                }
                i += 1;
            }
            self.stage = Stage::Plugins;
            assert(all =~= pending(*manager, told, self.stage));
        }
        if let Stage::GlobalTray(i) = self.stage {
            let ghost listeners = manager.tray.global_event_listeners@;
            let ghost call = |listener: HookId| NotificationView::GlobalTrayListener(listener);
            if i < manager.tray.global_event_listeners.len() {
                let listener = manager.tray.global_event_listeners[i];
                self.stage = Stage::GlobalTray(i + 1);
                proof {
                    lemma_next_listener(listeners, i as int, call);
                    assert(all =~= seq![NotificationView::GlobalTrayListener(listener)] + pending(
                        *manager,
                        told,
                        self.stage,
                    ));
                }
                return Some(Notification::GlobalTrayListener(listener));
            }
            self.stage = Stage::Tray(0);
            assert(listeners_from(listeners, i as int).map_values(call) =~= Seq::empty());
            assert(all =~= pending(*manager, told, self.stage));
        }
        if let Stage::Tray(start) = self.stage {
            if let RunEvent::TrayIconEvent(e) = &self.event {
                let wanted = e.id().clone();
                let len = manager.tray.event_listeners.len();
                let mut i: usize = start;
                while i < len
                    invariant
                        len == manager.tray.event_listeners.order().len(),
                        self.event == told,
                        told == old(self).event,
                        told matches RunEvent::TrayIconEvent(e) && wanted == e.spec_id(),
                        all == pending(*manager, told, old(self).stage),
                        all == tray_calls(*manager, wanted@, i as int) + seq![
                            NotificationView::Plugins,
                        ],
                        start <= i,
                        old(self).stage matches Stage::Tray(k) ==> k == start,
                    decreases len - i,
                {
                    let id = manager.tray.event_listeners.label_at(i);
                    if *id == wanted && manager.tray.tray_by_id(id.as_str()).is_some() {
                        let listener = *manager.tray.event_listeners.value_at(i);
                        let notification = Notification::TrayListener { id: id.clone(), listener };
                        self.stage = Stage::Tray(i + 1);
                        assert(all =~= seq![notification@] + pending(*manager, told, self.stage));
                        return Some(notification);
                    }
                    i += 1;
                }
            }
            self.stage = Stage::Plugins;
            assert(all =~= pending(*manager, told, self.stage));
        }
        if let Stage::Plugins = self.stage {
            self.stage = Stage::Done;
            assert(all =~= seq![NotificationView::Plugins] + pending(*manager, told, self.stage));
            return Some(Notification::Plugins);
        }
        None
    }

    /// The event, for the callback of the application.
    pub fn into_event(self) -> (event: RunEvent)
        ensures
            event == self.event,
    {
        self.event
    }
}

/// Takes in an event of the runtime: forgets the window that was destroyed, if that is the event,
/// and starts telling of it.
pub fn on_event_loop_event(handle: &mut AppHandle, event: RuntimeRunEvent) -> (dispatch:
    EventDispatch)
    requires
        crate::event::tells(old(handle).manager.target, event),
    ensures
        dispatch.event == crate::event::run_event_of(event),
        dispatch.stage == first_stage(dispatch.event),
        match event {
            RuntimeRunEvent::WindowEvent {
                label,
                event: RuntimeWindowEvent::Destroyed,
            } => crate::manager::window_gone(old(handle).manager, label@, final(handle).manager),
            _ => *final(handle) == *old(handle),
        },
        *final(handle) == (AppHandle { manager: final(handle).manager, ..*old(handle) }),
{
    if let RuntimeRunEvent::WindowEvent { label, event: RuntimeWindowEvent::Destroyed } = &event {
        handle.manager.on_window_close(label.as_str());
    }
    let event = event.into_run_event();
    let stage = match &event {
        RunEvent::Ready => Stage::AppIcon,
        RunEvent::MenuEvent(_) => Stage::GlobalMenu(0),
        RunEvent::TrayIconEvent(_) => Stage::GlobalTray(0),
        _ => Stage::Plugins,
    };
    EventDispatch { event, stage }
}

/// The first of the listeners from a place on.
proof fn lemma_next_listener(
    listeners: Seq<HookId>,
    i: int,
    call: spec_fn(HookId) -> NotificationView,
)
    requires
        0 <= i < listeners.len(),
    ensures
        listeners_from(listeners, i).map_values(call) == seq![call(listeners[i])]
            + listeners_from(listeners, i + 1).map_values(call),
{
    assert(listeners_from(listeners, i).map_values(call) =~= seq![call(listeners[i])]
        + listeners_from(listeners, i + 1).map_values(call));
}

/// The calls for the windows' listeners go to windows that are there, and to nobody else.
proof fn lemma_window_calls(manager: AppManager, i: int)
    ensures
        forall|k: int|
            0 <= k < window_calls(manager, i).len() ==> (#[trigger] window_calls(manager, i)[k]
                matches NotificationView::WindowMenuListener { label, listener }
                && manager.windows@.contains_key(label)
                && manager.menu.event_listeners.order().contains(label)
                && listener == manager.menu.event_listeners@[label]),
    decreases manager.menu.event_listeners.order().len() - i,
{
    let labels = manager.menu.event_listeners.order();
    if 0 <= i < labels.len() {
        lemma_window_calls(manager, i + 1);
        assert(labels.contains(labels[i]));
    }
}

/// A window that is there has its listener called.
proof fn lemma_window_called(manager: AppManager, i: int, at: int)
    requires
        0 <= i <= at < manager.menu.event_listeners.order().len(),
        manager.windows@.contains_key(manager.menu.event_listeners.order()[at]),
    ensures
        window_calls(manager, i).contains(
            (NotificationView::WindowMenuListener {
                label: manager.menu.event_listeners.order()[at],
                listener: manager.menu.event_listeners@[manager.menu.event_listeners.order()[at]],
            }),
        ),
    decreases at - i,
{
    let labels = manager.menu.event_listeners.order();
    let call = NotificationView::WindowMenuListener {
        label: labels[at],
        listener: manager.menu.event_listeners@[labels[at]],
    };
    let calls = window_calls(manager, i);
    if i == at {
        assert(calls[0] == call);
    } else {
        lemma_window_called(manager, i + 1, at);
        let rest = window_calls(manager, i + 1);
        let k = rest.index_of(call);
        assert(rest[k] == call);
        if manager.windows@.contains_key(labels[i]) {
            assert(calls[k + 1] == call);
        }
    }
}

/// The calls for the tray icons' listeners go to the tray icon that the event is about.
proof fn lemma_tray_calls(manager: AppManager, id: Seq<char>, i: int)
    ensures
        forall|k: int|
            0 <= k < tray_calls(manager, id, i).len() ==> (#[trigger] tray_calls(manager, id, i)[k]
                matches NotificationView::TrayListener { id: told, listener } && told == id
                && manager.tray.has(id) && listener == manager.tray.event_listeners@[id]),
    decreases manager.tray.event_listeners.order().len() - i,
{
    if 0 <= i < manager.tray.event_listeners.order().len() {
        lemma_tray_calls(manager, id, i + 1);
    }
}

/// Whatever the event, the plugins are told of it once, and after everyone else.
pub proof fn law_plugins_are_told_last(manager: AppManager, event: RunEvent)
    ensures
        pending(manager, event, first_stage(event)).len() > 0,
        forall|k: int|
            0 <= k < pending(manager, event, first_stage(event)).len() ==> (#[trigger] pending(
                manager,
                event,
                first_stage(event),
            )[k] is Plugins <==> k == pending(manager, event, first_stage(event)).len() - 1),
{
    lemma_window_calls(manager, 0);
    if let RunEvent::TrayIconEvent(e) = event {
        lemma_tray_calls(manager, e.spec_id()@, 0);
    }
    let all = pending(manager, event, first_stage(event));
    assert forall|k: int| 0 <= k < all.len() implies (#[trigger] all[k] is Plugins <==> k
        == all.len() - 1) by {
        match event {
            RunEvent::MenuEvent(_) => {
                let global = listeners_from(manager.menu.global_event_listeners@, 0);
                if global.len() <= k < all.len() - 1 {
                    assert(all[k] == window_calls(manager, 0)[k - global.len()]);
                }
            },
            RunEvent::TrayIconEvent(e) => {
                let global = listeners_from(manager.tray.global_event_listeners@, 0);
                if global.len() <= k < all.len() - 1 {
                    assert(all[k] == tray_calls(manager, e.spec_id()@, 0)[k - global.len()]);
                }
            },
            _ => {},
        }
    }
}

/// Of a menu event, every listener to all menu events is told, in the order in which they came, and
/// then the listener of a window exactly if that window is there.
pub proof fn law_menu_listeners(manager: AppManager, event: RunEvent, label: Seq<char>)
    requires
        event is MenuEvent,
    ensures
        forall|k: int|
            #![trigger manager.menu.global_event_listeners@[k]]
            0 <= k < manager.menu.global_event_listeners@.len() ==> pending(
                manager,
                event,
                first_stage(event),
            )[k] == NotificationView::GlobalMenuListener(manager.menu.global_event_listeners@[k]),
        manager.menu.event_listeners@.contains_key(label) ==> (pending(
            manager,
            event,
            first_stage(event),
        ).contains(
            (NotificationView::WindowMenuListener {
                label,
                listener: manager.menu.event_listeners@[label],
            }),
        ) <==> manager.windows@.contains_key(label)),
{
    let all = pending(manager, event, first_stage(event));
    let listeners = manager.menu.global_event_listeners@;
    let global = listeners_from(listeners, 0);
    let calls = window_calls(manager, 0);
    assert(global =~= listeners);
    lemma_window_calls(manager, 0);
    if manager.menu.event_listeners@.contains_key(label) {
        let call = NotificationView::WindowMenuListener {
            label,
            listener: manager.menu.event_listeners@[label],
        };
        manager.menu.event_listeners.lemma_walk(label);
        let at = manager.menu.event_listeners.order().index_of(label);
        assert(manager.menu.event_listeners.order()[at] == label);
        if manager.windows@.contains_key(label) {
            lemma_window_called(manager, 0, at);
            let k = calls.index_of(call);
            assert(calls[k] == call);
            assert(all[global.len() + k] == call);
        }
        if all.contains(call) {
            let k = all.index_of(call);
            assert(all[k] == call);
            assert(global.len() <= k < all.len() - 1);
            assert(all[k] == calls[k - global.len()]);
        }
    }
}

/// Once a window was destroyed, the listener to its menu events is not told of any.
pub proof fn law_destroyed_window_is_not_told(
    before: AppManager,
    label: Seq<char>,
    after: AppManager,
    event: RunEvent,
    stage: Stage,
    listener: HookId,
)
    requires
        crate::manager::window_gone(before, label, after),
    ensures
        !pending(after, event, stage).contains(
            (NotificationView::WindowMenuListener { label, listener }),
        ),
{
    let call = NotificationView::WindowMenuListener { label, listener };
    let all = pending(after, event, stage);
    let start = match stage {
        Stage::WindowMenu(i) => i as int,
        _ => 0,
    };
    lemma_window_calls(after, start);
    match event {
        RunEvent::TrayIconEvent(e) => {
            let first = match stage {
                Stage::Tray(i) => i as int,
                _ => 0,
            };
            lemma_tray_calls(after, e.spec_id()@, first);
        },
        _ => {},
    }
    if all.contains(call) {
        let k = all.index_of(call);
        assert(all[k] == call);
        match stage {
            Stage::GlobalMenu(i) => {
                let global = listeners_from(after.menu.global_event_listeners@, i as int);
                if k >= global.len() {
                    assert(all[k] == window_calls(after, 0)[k - global.len()]);
                }
            },
            Stage::WindowMenu(i) => {
                assert(all[k] == window_calls(after, i as int)[k]);
            },
            Stage::GlobalTray(i) => {
                let global = listeners_from(after.tray.global_event_listeners@, i as int);
                if k >= global.len() && k < all.len() - 1 {
                    assert(all[k] == event_tray_calls(after, event, 0)[k - global.len()]);
                }
            },
            Stage::Tray(i) => {
                if k < all.len() - 1 {
                    assert(all[k] == event_tray_calls(after, event, i as int)[k]);
                }
            },
            _ => {},
        }
    }
}

/// Of a tray icon event of whatever kind, every listener to all tray icon events is told, in the
/// order in which they came, and then nobody but the listener of that tray icon, and only while the
/// tray icon is there. At last the plugins are told.
pub proof fn law_tray_listeners(
    manager: AppManager,
    event: TrayIconEvent,
    id: Seq<char>,
    listener: HookId,
)
    ensures
        ({
            let told = RunEvent::TrayIconEvent(event);
            let all = pending(manager, told, first_stage(told));
            let own = match event {
                TrayIconEvent::Click { id, .. } => id@,
                TrayIconEvent::DoubleClick { id, .. } => id@,
                TrayIconEvent::Enter { id, .. } => id@,
                TrayIconEvent::Move { id, .. } => id@,
                TrayIconEvent::Leave { id, .. } => id@,
            };
            let listeners = manager.tray.global_event_listeners@;
            &&& crate::event::run_event_of(
                RuntimeRunEvent::UserEvent(crate::event::EventLoopMessage::TrayIconEvent(event)),
            ) == told
            &&& forall|k: int|
                #![trigger listeners[k]]
                0 <= k < listeners.len() ==> all.len() > k && all[k]
                    == NotificationView::GlobalTrayListener(listeners[k])
            &&& all.contains((NotificationView::TrayListener { id, listener })) <==> id == own
                && manager.tray.has(id) && manager.tray.event_listeners@.contains_key(id)
                && manager.tray.event_listeners@[id] == listener
            &&& forall|k: int|
                listeners.len() <= k < all.len() - 1 ==> #[trigger] all[k] is TrayListener
            &&& all.last() is Plugins
        }),
{
    let told = event.spec_id()@;
    let all = pending(manager, RunEvent::TrayIconEvent(event), Stage::GlobalTray(0));
    let listeners = manager.tray.global_event_listeners@;
    let global = listeners_from(listeners, 0);
    let calls = tray_calls(manager, told, 0);
    let call = NotificationView::TrayListener { id, listener };
    assert(global =~= listeners);
    lemma_tray_calls(manager, told, 0);
    manager.tray.event_listeners.lemma_walk(id);
    if all.contains(call) {
        let k = all.index_of(call);
        assert(all[k] == call);
        assert(global.len() <= k < all.len() - 1);
        assert(all[k] == calls[k - global.len()]);
        lemma_tray_listed(manager, told, 0);
    }
    assert forall|k: int| #![trigger listeners[k]] 0 <= k < listeners.len() implies all.len() > k
        && all[k] == NotificationView::GlobalTrayListener(listeners[k]) by {
        assert(global[k] == listeners[k]);
    }
    assert forall|k: int| listeners.len() <= k < all.len() - 1 implies #[trigger] all[k]
        is TrayListener by {
        assert(all[k] == calls[k - global.len()]);
    }
    if id == told && manager.tray.has(id) && manager.tray.event_listeners@.contains_key(id)
        && manager.tray.event_listeners@[id] == listener {
        let at = manager.tray.event_listeners.order().index_of(id);
        assert(manager.tray.event_listeners.order()[at] == id);
        lemma_tray_called(manager, id, 0, at);
        let k = calls.index_of(call);
        assert(calls[k] == call);
        assert(all[global.len() + k] == call);
    }
}

/// A tray icon is told of only where it has a listener.
proof fn lemma_tray_listed(manager: AppManager, id: Seq<char>, i: int)
    ensures
        tray_calls(manager, id, i).len() > 0 ==> manager.tray.event_listeners.order().contains(id),
    decreases manager.tray.event_listeners.order().len() - i,
{
    let ids = manager.tray.event_listeners.order();
    if 0 <= i < ids.len() {
        lemma_tray_listed(manager, id, i + 1);
        if ids[i] == id {
            assert(ids.contains(id));
        }
    }
}

/// A tray icon that is there has its listener called.
proof fn lemma_tray_called(manager: AppManager, id: Seq<char>, i: int, at: int)
    requires
        0 <= i <= at < manager.tray.event_listeners.order().len(),
        manager.tray.event_listeners.order()[at] == id,
        manager.tray.has(id),
    ensures
        tray_calls(manager, id, i).contains(
            (NotificationView::TrayListener {
                id,
                listener: manager.tray.event_listeners@[id],
            }),
        ),
    decreases at - i,
{
    let ids = manager.tray.event_listeners.order();
    let call = NotificationView::TrayListener {
        id,
        listener: manager.tray.event_listeners@[id],
    };
    let calls = tray_calls(manager, id, i);
    if i == at {
        assert(calls[0] == call);
    } else {
        lemma_tray_called(manager, id, i + 1, at);
        let rest = tray_calls(manager, id, i + 1);
        let k = rest.index_of(call);
        assert(rest[k] == call);
        if ids[i] == id {
            assert(calls[k + 1] == call);
        }
    }
}

/// A menu event that comes to the event loop is told as one: every listener to all menu events
/// first, in their order, then only listeners of windows that are there and that listen, each for
/// its own window, and at last the plugins.
pub proof fn law_menu_events_are_told(manager: AppManager, event: crate::event::MenuEvent)
    ensures
        ({
            let told = RunEvent::MenuEvent(event);
            let all = pending(manager, told, first_stage(told));
            let listeners = manager.menu.global_event_listeners@;
            &&& crate::event::run_event_of(
                RuntimeRunEvent::UserEvent(crate::event::EventLoopMessage::MenuEvent(event)),
            ) == told
            &&& all.len() > listeners.len()
            &&& forall|k: int|
                #![trigger listeners[k]]
                0 <= k < listeners.len() ==> all[k] == NotificationView::GlobalMenuListener(
                    listeners[k],
                )
            &&& forall|k: int|
                listeners.len() <= k < all.len() - 1 ==> (#[trigger] all[k]
                    matches NotificationView::WindowMenuListener { label, listener }
                    && manager.windows@.contains_key(label)
                    && manager.menu.event_listeners.order().contains(label)
                    && listener == manager.menu.event_listeners@[label])
            &&& all.last() is Plugins
        }),
{
    let told = RunEvent::MenuEvent(event);
    let all = pending(manager, told, first_stage(told));
    let listeners = manager.menu.global_event_listeners@;
    let global = listeners_from(listeners, 0);
    let calls = window_calls(manager, 0);
    assert(global =~= listeners);
    lemma_window_calls(manager, 0);
    assert forall|k: int| #![trigger listeners[k]] 0 <= k < listeners.len() implies all[k]
        == NotificationView::GlobalMenuListener(listeners[k]) by {
        assert(global[k] == listeners[k]);
    }
    assert forall|k: int| listeners.len() <= k < all.len() - 1 implies (#[trigger] all[k]
        matches NotificationView::WindowMenuListener { label, listener }
        && manager.windows@.contains_key(label) && manager.menu.event_listeners.order().contains(
        label,
    ) && listener == manager.menu.event_listeners@[label]) by {
        assert(all[k] == calls[k - global.len()]);
    }
}

/// The listeners of windows are told one after the other, each once: whoever is told later stands
/// later among those who listen.
proof fn lemma_window_calls_in_order(manager: AppManager, i: int)
    requires
        0 <= i,
        manager.menu.event_listeners.order().no_duplicates(),
    ensures
        forall|k: int, l: int|
            #![trigger window_calls(manager, i)[k], window_calls(manager, i)[l]]
            0 <= k < l < window_calls(manager, i).len() ==> window_calls(manager, i)[k]
                != window_calls(manager, i)[l],
        forall|k: int|
            0 <= k < window_calls(manager, i).len() ==> (#[trigger] window_calls(manager, i)[k]
                matches NotificationView::WindowMenuListener { label, .. } && exists|at: int|
                i <= at < manager.menu.event_listeners.order().len() && label
                    == #[trigger] manager.menu.event_listeners.order()[at]),
    decreases manager.menu.event_listeners.order().len() - i,
{
    let labels = manager.menu.event_listeners.order();
    if i < labels.len() {
        lemma_window_calls_in_order(manager, i + 1);
        let calls = window_calls(manager, i);
        let rest = window_calls(manager, i + 1);
        if manager.windows@.contains_key(labels[i]) {
            assert forall|k: int, l: int|
                #![trigger calls[k], calls[l]]
                0 <= k < l < calls.len() implies calls[k] != calls[l] by {
                assert(calls[l] == rest[l - 1]);
                if k > 0 {
                    assert(calls[k] == rest[k - 1]);
                }
            }
            assert forall|k: int| 0 <= k < calls.len() implies (#[trigger] calls[k]
                matches NotificationView::WindowMenuListener { label, .. } && exists|at: int|
                i <= at < labels.len() && label == #[trigger] labels[at]) by {
                if k > 0 {
                    assert(calls[k] == rest[k - 1]);
                } else {
                    assert(labels[i] == labels[i]);
                }
            }
        }
    }
}

/// Of a menu event nobody who listens to a window is told twice.
pub proof fn law_window_listeners_are_told_once(
    manager: AppManager,
    event: RunEvent,
    k: int,
    l: int,
)
    requires
        event is MenuEvent,
        manager.menu.event_listeners.order().no_duplicates(),
        0 <= k < l < pending(manager, event, first_stage(event)).len(),
        pending(manager, event, first_stage(event))[k] is WindowMenuListener,
    ensures
        pending(manager, event, first_stage(event))[k] != pending(
            manager,
            event,
            first_stage(event),
        )[l],
{
    let all = pending(manager, event, first_stage(event));
    let global = listeners_from(manager.menu.global_event_listeners@, 0);
    let calls = window_calls(manager, 0);
    lemma_window_calls_in_order(manager, 0);
    assert(all[k] == calls[k - global.len()]);
    if l < all.len() - 1 {
        assert(all[l] == calls[l - global.len()]);
    }
}

/// Of an event that is neither of a menu nor of a tray icon, only the plugins are told. Where the
/// application is ready on macOS in a development build that carries an icon, the icon is set first,
/// and nowhere else.
pub proof fn law_other_events_are_told_to_plugins(manager: AppManager, event: RunEvent)
    requires
        !(event is MenuEvent),
        !(event is TrayIconEvent),
    ensures
        pending(manager, event, first_stage(event)) == (if event is Ready && manager.target.dev
            && manager.target.os is MacOs && manager.app_icon is Some {
            seq![NotificationView::SetAppIcon, NotificationView::Plugins]
        } else {
            seq![NotificationView::Plugins]
        }),
{
    assert(seq![NotificationView::SetAppIcon] + seq![NotificationView::Plugins] =~= seq![
        NotificationView::SetAppIcon,
        NotificationView::Plugins,
    ]);
}

/// Whoever comes to listen while listeners are being told is told too: after the listener at one
/// place comes the one at the next, if there is one by then, and nobody is told again.
pub proof fn law_telling_goes_on_behind_a_listener(
    manager: AppManager,
    before: Stage,
    notification: NotificationView,
    after: Stage,
    later: AppManager,
    event: RunEvent,
    i: usize,
)
    requires
        moved(manager, before, notification, after),
        i < usize::MAX,
    ensures
        before == Stage::GlobalMenu(i) && notification is GlobalMenuListener && i + 1
            < later.menu.global_event_listeners@.len() ==> pending(later, event, after)[0]
            == NotificationView::GlobalMenuListener(later.menu.global_event_listeners@[i + 1]),
        before == Stage::GlobalTray(i) && notification is GlobalTrayListener && i + 1
            < later.tray.global_event_listeners@.len() ==> pending(later, event, after)[0]
            == NotificationView::GlobalTrayListener(later.tray.global_event_listeners@[i + 1]),
        notification is SetAppIcon ==> pending(later, event, after) == seq![
            NotificationView::Plugins,
        ],
        notification is Plugins ==> pending(later, event, after).len() == 0,
{
    if before == Stage::GlobalMenu(i) && notification is GlobalMenuListener && i + 1
        < later.menu.global_event_listeners@.len() {
        lemma_next_listener(
            later.menu.global_event_listeners@,
            i + 1,
            |listener: HookId| NotificationView::GlobalMenuListener(listener),
        );
    }
    if before == Stage::GlobalTray(i) && notification is GlobalTrayListener && i + 1
        < later.tray.global_event_listeners@.len() {
        lemma_next_listener(
            later.tray.global_event_listeners@,
            i + 1,
            |listener: HookId| NotificationView::GlobalTrayListener(listener),
        );
    }
}

/// What is told is who is called, and for whom.
pub proof fn law_notifications_are_told_apart(one: Notification, other: Notification)
    requires
        one@ == other@,
    ensures
        match (one, other) {
            (Notification::SetAppIcon, Notification::SetAppIcon) => true,
            (Notification::GlobalMenuListener(a), Notification::GlobalMenuListener(b)) => a == b,
            (
                Notification::WindowMenuListener { label: a, listener: f },
                Notification::WindowMenuListener { label: b, listener: g },
            ) => a@ == b@ && f == g,
            (Notification::GlobalTrayListener(a), Notification::GlobalTrayListener(b)) => a == b,
            (
                Notification::TrayListener { id: a, listener: f },
                Notification::TrayListener { id: b, listener: g },
            ) => a@ == b@ && f == g,
            (Notification::Plugins, Notification::Plugins) => true,
            _ => false,
        },
{
}

} // verus!
