//! The plugins of the application.
use vstd::prelude::*;

verus! {

/// A plugin that the application brings itself.
#[derive(Clone, Copy, PartialEq, Eq, Structural, Debug)]
pub enum CorePlugin {
    Path,
    Event,
    Window,
    Webview,
    App,
    Resources,
    Image,
    Menu,
    Tray,
    /// Hands channel data to webviews.
    Channel,
}

/// A plugin that the host is to initialize. It is used up once the host has tried.
#[derive(PartialEq, Eq, Debug)]
pub struct PluginRequest {
    /// The name of the plugin.
    pub name: String,
    /// The section of the configuration that the plugin is handed.
    pub config: String,
}

/// What a [`PluginRequest`] says.
pub struct PluginRequestView {
    pub name: Seq<char>,
    pub config: String,
}

impl View for PluginRequest {
    type V = PluginRequestView;

    open spec fn view(&self) -> PluginRequestView {
        PluginRequestView { name: self.name@, config: self.config }
    }
}

/// What the requests say.
pub open spec fn requests(all: Seq<PluginRequest>) -> Seq<PluginRequestView> {
    all.map_values(|request: PluginRequest| request@)
}

/// What is asked where plugins of those names are to be initialized, in their order, each with the
/// same section of the configuration.
pub open spec fn initializing(names: Seq<Seq<char>>, config: String) -> Seq<PluginRequestView> {
    names.map_values(|name: Seq<char>| PluginRequestView { name, config })
}

/// The plugins whose name is not `name`, in their order.
pub open spec fn without(names: Seq<Seq<char>>, name: Seq<char>) -> Seq<Seq<char>> {
    names.filter(|other: Seq<char>| other != name)
}

/// The plugins after one of that name was registered: it takes the last place, and the place of
/// any other of its name.
pub open spec fn registered(names: Seq<Seq<char>>, name: Seq<char>) -> Seq<Seq<char>> {
    without(names, name).push(name)
}

/// The plugins of the application, by name, in the order in which they came in.
pub struct PluginStore {
    names: Vec<String>,
}

impl View for PluginStore {
    type V = Seq<Seq<char>>;

    closed spec fn view(&self) -> Seq<Seq<char>> {
        self.names@.map_values(|name: String| name@)
    }
}

impl PluginStore {
    /// No plugin.
    pub fn new() -> (store: Self)
        ensures
            store@ == Seq::<Seq<char>>::empty(),
    {
        let store = PluginStore { names: Vec::new() };
        assert(store@ =~= Seq::<Seq<char>>::empty());
        store
    }

    /// The number of plugins.
    pub fn len(&self) -> (len: usize)
        ensures
            len == self@.len(),
    {
        self.names.len()
    }

    /// The name of a plugin, by its place.
    pub fn name_at(&self, i: usize) -> (name: &String)
        requires
            i < self@.len(),
        ensures
            name@ == self@[i as int],
    {
        &self.names[i]
    }

    /// Asks for each plugin to be initialized, in their order, with that section of the
    /// configuration.
    pub fn initialize_all(&self, config: &String) -> (all: Vec<PluginRequest>)
        ensures
            requests(all@) == initializing(self@, *config),
    {
        let mut all: Vec<PluginRequest> = Vec::new();
        let mut i: usize = 0;
        assert(requests(all@) =~= initializing(self@.take(0), *config));
        while i < self.names.len()
            invariant
                i <= self.names.len(),
                requests(all@) == initializing(self@.take(i as int), *config),
            decreases self.names.len() - i,
        {
            let ghost before = requests(all@);
            all.push(PluginRequest { name: self.names[i].clone(), config: config.clone() });
            let ghost next = PluginRequestView { name: self@[i as int], config: *config };
            assert(requests(all@) =~= before.push(next));
            assert(initializing(self@.take(i + 1), *config) =~= before.push(next));
            i += 1;
        }
        assert(self@.take(i as int) =~= self@);
        all
    }

    /// Registers a plugin, in place of any other of its name.
    ///
    /// Tells whether there was one.
    pub fn register(&mut self, name: String) -> (replaced: bool)
        ensures
            final(self)@ == registered(old(self)@, name@),
            replaced == old(self)@.contains(name@),
    {
        let replaced = self.unregister(name.as_str());
        let ghost before = self@;
        let ghost key = name@;
        self.names.push(name);
        assert(self@ =~= before.push(key));
        replaced
    }

    /// Takes away the plugin of that name.
    ///
    /// Tells whether there was one.
    pub fn unregister(&mut self, name: &str) -> (removed: bool)
        ensures
            final(self)@ == without(old(self)@, name@),
            removed == old(self)@.contains(name@),
    {
        let wanted = name.to_owned();
        let ghost before = self@;
        let ghost keep = |other: Seq<char>| other != name@;
        let mut kept: Vec<String> = Vec::new();
        let mut removed = false;
        let mut i: usize = 0;
        proof {
            assert(before.take(0).filter(keep) =~= Seq::<Seq<char>>::empty()) by {
                reveal(Seq::filter);
            }
        }
        while i < self.names.len()
            invariant
                i <= self.names.len(),
                before == self@,
                wanted@ == name@,
                keep == |other: Seq<char>| other != name@,
                kept@.map_values(|name: String| name@) == before.take(i as int).filter(keep),
                removed == before.take(i as int).contains(name@),
            decreases self.names.len() - i,
        {
            let ghost seen = before.take(i as int);
            let ghost next = before.take(i + 1);
            proof {
                reveal(Seq::filter);
                assert(next.drop_last() =~= seen);
                assert(next.last() == before[i as int]);
                assert(next.contains(name@) <==> seen.contains(name@) || before[i as int] == name@)
                    by {
                    if seen.contains(name@) {
                        let j = seen.index_of(name@);
                        assert(next[j] == name@);
                    }
                    if before[i as int] == name@ {
                        assert(next[i as int] == name@);
                    }
                    if next.contains(name@) {
                        let j = next.index_of(name@);
                        assert(j < i ==> seen[j] == name@);
                    }
                }
            }
            let ghost kept_before = kept@.map_values(|name: String| name@);
            if self.names[i] == wanted {
                removed = true;
            } else {
                kept.push(self.names[i].clone());
                assert(kept@.map_values(|name: String| name@) =~= kept_before.push(
                    before[i as int],
                ));
            }
            i += 1;
        }
        assert(before.take(i as int) =~= before);
        self.names = kept;
        removed
    }
}

/// After a plugin was registered, no two plugins share a name.
pub proof fn law_names_stay_distinct(names: Seq<Seq<char>>, name: Seq<char>)
    requires
        names.no_duplicates(),
    ensures
        registered(names, name).no_duplicates(),
        without(names, name).no_duplicates(),
    decreases names.len(),
{
    reveal(Seq::filter);
    lemma_without(names, name);
    if names.len() > 0 {
        let rest = names.drop_last();
        law_names_stay_distinct(rest, name);
        lemma_without(rest, name);
        let kept = without(rest, name);
        if names.last() != name {
            assert forall|i: int| 0 <= i < kept.len() implies kept[i] != names.last() by {
                assert(kept.contains(kept[i]));
                let j = rest.index_of(kept[i]);
                assert(rest[j] == kept[i]);
                assert(names[j] == rest[j]);
            }
            assert(without(names, name) =~= kept.push(names.last()));
        }
    }
    let all = without(names, name);
    assert forall|i: int| 0 <= i < all.len() implies all[i] != name by {
        assert(all.contains(all[i]));
    }
}

/// What is left without a name: every other plugin, and none of that name.
proof fn lemma_without(names: Seq<Seq<char>>, name: Seq<char>)
    ensures
        forall|other: Seq<char>| #[trigger]
            without(names, name).contains(other) <==> names.contains(other) && other != name,
    decreases names.len(),
{
    reveal(Seq::filter);
    if names.len() > 0 {
        let rest = names.drop_last();
        lemma_without(rest, name);
        let last = names.last();
        let kept = without(rest, name);
        assert forall|other: Seq<char>| #[trigger]
            without(names, name).contains(other) <==> names.contains(other) && other != name by {
            assert(names.contains(other) <==> rest.contains(other) || other == last) by {
                if rest.contains(other) {
                    assert(names[rest.index_of(other)] == other);
                }
                if other == last {
                    assert(names[names.len() - 1] == other);
                }
                if names.contains(other) {
                    let j = names.index_of(other);
                    assert(j < rest.len() ==> rest[j] == other);
                }
            }
            if last != name {
                assert(without(names, name) == kept.push(last));
                assert(kept.push(last).contains(other) <==> kept.contains(other) || other == last)
                    by {
                    if kept.contains(other) {
                        assert(kept.push(last)[kept.index_of(other)] == other);
                    }
                    if other == last {
                        assert(kept.push(last)[kept.len() as int] == other);
                    }
                    if kept.push(last).contains(other) {
                        let j = kept.push(last).index_of(other);
                        assert(j < kept.len() ==> kept[j] == other);
                    }
                }
            } else {
                assert(without(names, name) == kept);
            }
        }
    } else {
        assert(without(names, name) =~= Seq::<Seq<char>>::empty());
    }
}

/// A plugin that was registered is there, once, until it is removed; the others stay.
pub proof fn law_register_then_remove(names: Seq<Seq<char>>, name: Seq<char>)
    ensures
        registered(names, name).contains(name),
        !without(registered(names, name), name).contains(name),
        without(registered(names, name), name) == without(names, name),
        forall|other: Seq<char>|
            other != name ==> (#[trigger] registered(names, name).contains(other)
                <==> names.contains(other)),
{
    let kept = without(names, name);
    let all = registered(names, name);
    lemma_without(names, name);
    lemma_without(all, name);
    assert(all[kept.len() as int] == name);
    assert forall|other: Seq<char>| other != name implies (#[trigger] all.contains(other)
        <==> names.contains(other)) by {
        if names.contains(other) {
            assert(kept.contains(other));
            assert(all[kept.index_of(other)] == other);
        }
        if all.contains(other) {
            let j = all.index_of(other);
            assert(kept[j] == other);
            assert(kept.contains(other));
        }
    }
    reveal(Seq::filter);
    assert(all.drop_last() =~= kept);
    lemma_filter_all(kept, name);
}

/// Taking away a name that is not there changes nothing.
proof fn lemma_filter_all(names: Seq<Seq<char>>, name: Seq<char>)
    requires
        !names.contains(name),
    ensures
        without(names, name) == names,
    decreases names.len(),
{
    reveal(Seq::filter);
    if names.len() > 0 {
        let rest = names.drop_last();
        assert(!rest.contains(name)) by {
            if rest.contains(name) {
                assert(names[rest.index_of(name)] == name);
            }
        }
        lemma_filter_all(rest, name);
        assert(names[names.len() - 1] == names.last());
        assert(names.last() != name);
        assert(rest.push(names.last()) =~= names);
    }
}

/// A new plugin comes last, and the others stay where they are. One that was there leaves its place
/// and comes last, and the others keep their order.
pub proof fn law_plugins_keep_their_order(
    before: Seq<Seq<char>>,
    name: Seq<char>,
    behind: Seq<Seq<char>>,
)
    requires
        !before.contains(name),
        !behind.contains(name),
    ensures
        without(before, name) == before,
        registered(before, name) == before.push(name),
        without(before.push(name) + behind, name) == before + behind,
        registered(before.push(name) + behind, name) == (before + behind).push(name),
{
    lemma_without_absent(before, name);
    lemma_without_absent(behind, name);
    lemma_without_last(before, name);
    lemma_without_add(before.push(name), behind, name);
}

/// The last plugin is taken away.
proof fn lemma_without_last(names: Seq<Seq<char>>, name: Seq<char>)
    ensures
        without(names.push(name), name) == without(names, name),
{
    reveal(Seq::filter);
    assert(names.push(name).drop_last() =~= names);
}

/// What is left of two lists is what is left of both.
proof fn lemma_without_add(one: Seq<Seq<char>>, other: Seq<Seq<char>>, name: Seq<char>)
    ensures
        without(one + other, name) == without(one, name) + without(other, name),
    decreases other.len(),
{
    reveal(Seq::filter);
    if other.len() == 0 {
        assert(one + other =~= one);
        assert(without(one, name) + without(other, name) =~= without(one, name));
    } else {
        let rest = other.drop_last();
        lemma_without_add(one, rest, name);
        assert((one + other).drop_last() =~= one + rest);
        assert((one + other).last() == other.last());
        if other.last() != name {
            assert((without(one, name) + without(rest, name)).push(other.last()) =~= without(
                one,
                name,
            ) + without(rest, name).push(other.last()));
        }
    }
}

/// Where there is no plugin of a name, nothing is taken away.
proof fn lemma_without_absent(names: Seq<Seq<char>>, name: Seq<char>)
    requires
        !names.contains(name),
    ensures
        without(names, name) == names,
    decreases names.len(),
{
    reveal(Seq::filter);
    if names.len() > 0 {
        let rest = names.drop_last();
        assert forall|i: int| 0 <= i < rest.len() implies rest[i] != name by {
            assert(names.contains(names[i]));
        }
        lemma_without_absent(rest, name);
        assert(names.contains(names.last()));
        assert(rest.push(names.last()) =~= names);
    }
}

/// Each plugin is initialized once, in their order, and is handed the section of the configuration.
pub proof fn law_each_plugin_is_initialized(names: Seq<Seq<char>>, config: String, i: int)
    requires
        0 <= i < names.len(),
    ensures
        initializing(names, config).len() == names.len(),
        initializing(names, config)[i].name == names[i],
        initializing(names, config)[i].config == config,
{
}

/// What a request says is which plugin is initialized, and with what.
pub proof fn law_plugin_requests_are_told_apart(one: PluginRequest, other: PluginRequest)
    requires
        one@ == other@,
    ensures
        one.name@ == other.name@,
        one.config == other.config,
{
}

/// What requests say is said of each of them, in their order.
pub proof fn law_every_request_is_said(all: Seq<PluginRequest>, i: int)
    requires
        0 <= i < all.len(),
    ensures
        requests(all).len() == all.len(),
        requests(all)[i] == all[i]@,
{
}

} // verus!
