//! Describing an application before it is built.
use vstd::prelude::*;

use crate::app::SetupHook;
use crate::hook::HookId;
use crate::label_map::LabelMap;
use crate::plugin::PluginStore;
use crate::runtime::DeviceEventFilter;
use crate::script::InvokeInitializationScript;
use crate::state::{StateKey, StateManager};
use crate::target::Target;
use crate::text;
use crate::uri_scheme::UriSchemeProtocol;

verus! {

/// What makes the menu of the application.
#[derive(Clone, Copy, PartialEq, Eq, Structural, Debug)]
pub enum MenuFactory {
    /// The menu that an application has by default.
    Default,
    /// The function. It can fail.
    Call(HookId),
}

/// The scripts with which webviews talk to the application.
pub struct IpcScripts {
    /// The template of the script that prepares a webview.
    pub template: String,
    /// The function that processes a message.
    pub process_ipc_message_fn: String,
    /// The command that fetches channel data.
    pub fetch_channel_data_command: String,
}

/// The token of a custom message system in place of which the invoke key stands.
pub const CUSTOM_INVOKE_KEY_TOKEN: &'static str = "__INVOKE_KEY__";

/// A text between double quotes.
pub open spec fn quoted(text: Seq<char>) -> Seq<char> {
    seq!['"'] + text + seq!['"']
}

/// Builds an application.
pub struct Builder {
    /// The system that the application is built for.
    pub target: Target,
    /// Whether the event loop may run on a thread other than the main one.
    pub runtime_any_thread: bool,
    /// Answers the messages of the frontend; without one they are left unanswered.
    pub invoke_handler: Option<HookId>,
    /// The script that prepares a webview to send messages.
    pub invoke_initialization_script: String,
    /// What is run when the application is set up.
    pub setup: SetupHook,
    /// Page load hook.
    pub on_page_load: Option<HookId>,
    /// All passed plugins.
    pub plugins: PluginStore,
    /// The webview protocols available to all windows.
    pub uri_scheme_protocols: LabelMap<UriSchemeProtocol>,
    /// App state.
    pub state: StateManager,
    /// What makes the menu of all windows.
    pub menu: Option<MenuFactory>,
    /// Menu event listeners for any menu event.
    pub menu_event_listeners: Vec<HookId>,
    /// Enable macOS default menu creation.
    pub enable_macos_default_menu: bool,
    /// Window event handlers that listen to all windows.
    pub window_event_listeners: Vec<HookId>,
    /// Webview event handlers that listen to all webviews.
    pub webview_event_listeners: Vec<HookId>,
    /// The device event filter.
    pub device_event_filter: DeviceEventFilter,
    /// The key that the messages of a webview must carry.
    pub invoke_key: String,
}

/// The script that a new builder starts with.
pub open spec fn initial_script(
    target: Target,
    scripts: IpcScripts,
    invoke_key: Seq<char>,
) -> Seq<char> {
    crate::script::filled(
        scripts.template@,
        scripts.process_ipc_message_fn@,
        crate::script::json_parse_call(crate::script::json_text(target.spec_os_name())),
        crate::script::json_parse_call(
            crate::script::json_text(scripts.fetch_channel_data_command@),
        ),
        crate::script::json_parse_call(crate::script::json_text(invoke_key)),
    )
}

impl Builder {
    /// Creates a new App builder, with a key that was made for it.
    pub fn new(target: Target, scripts: &IpcScripts, invoke_key: String) -> (builder: Self)
        ensures
            builder.target == target,
            !builder.runtime_any_thread,
            builder.invoke_handler is None,
            builder.invoke_initialization_script@ == initial_script(target, *scripts, invoke_key@),
            builder.setup == SetupHook::Nothing,
            builder.on_page_load is None,
            builder.plugins@ == Seq::<Seq<char>>::empty(),
            builder.uri_scheme_protocols@ == Map::<Seq<char>, UriSchemeProtocol>::empty(),
            builder.state@ == Set::<StateKey>::empty(),
            builder.menu is None,
            builder.menu_event_listeners@ == Seq::<HookId>::empty(),
            builder.enable_macos_default_menu,
            builder.window_event_listeners@ == Seq::<HookId>::empty(),
            builder.webview_event_listeners@ == Seq::<HookId>::empty(),
            builder.device_event_filter == DeviceEventFilter::Unfocused,
            builder.invoke_key == invoke_key,
    {
        let script = InvokeInitializationScript {
            process_ipc_message_fn: scripts.process_ipc_message_fn.as_str(),
            os_name: target.os_name(),
            fetch_channel_data_command: scripts.fetch_channel_data_command.as_str(),
            invoke_key: invoke_key.as_str(),
        };
        let invoke_initialization_script = script.render(scripts.template.as_str());
        Builder {
            target,
            runtime_any_thread: false,
            invoke_handler: None,
            invoke_initialization_script,
            setup: SetupHook::Nothing,
            on_page_load: None,
            plugins: PluginStore::new(),
            uri_scheme_protocols: LabelMap::new(),
            state: StateManager::new(),
            menu: None,
            menu_event_listeners: Vec::new(),
            enable_macos_default_menu: true,
            window_event_listeners: Vec::new(),
            webview_event_listeners: Vec::new(),
            device_event_filter: DeviceEventFilter::default(),
            invoke_key,
        }
    }

    /// Builds a new application running on any thread, bypassing the main thread requirement.
    ///
    /// On macOS the application must be executed on the main thread.
    #[must_use]
    pub fn any_thread(self) -> (builder: Self)
        requires
            self.target.allows_any_thread(),
        ensures
            builder == (Builder { runtime_any_thread: true, ..self }),
    {
        let mut builder = self;
        builder.runtime_any_thread = true;
        builder
    }

    /// Defines the JS message handler callback.
    #[must_use]
    pub fn invoke_handler(self, invoke_handler: HookId) -> (builder: Self)
        ensures
            builder == (Builder { invoke_handler: Some(invoke_handler), ..self }),
    {
        let mut builder = self;
        builder.invoke_handler = Some(invoke_handler);
        builder
    }

    /// Defines a custom JS message system.
    ///
    /// The `initialization_script` must include a `__INVOKE_KEY__` token that is replaced with a
    /// value that must be sent with the message, to check its integrity.
    #[must_use]
    pub fn invoke_system(self, initialization_script: String) -> (builder: Self)
        ensures
            builder.invoke_initialization_script@ == crate::text::replace_all(
                initialization_script@,
                CUSTOM_INVOKE_KEY_TOKEN@,
                quoted(self.invoke_key@),
            ),
            builder == (Builder {
                invoke_initialization_script: builder.invoke_initialization_script,
                ..self
            }),
    {
        proof {
            reveal_strlit("__INVOKE_KEY__");
            reveal_strlit("\"");
        }
        let mut builder = self;
        let mut value = "\"".to_owned();
        value.append(builder.invoke_key.as_str());
        value.append("\"");
        assert(value@ =~= quoted(self.invoke_key@));
        builder.invoke_initialization_script = text::replace(
            initialization_script.as_str(),
            CUSTOM_INVOKE_KEY_TOKEN,
            value.as_str(),
        );
        builder
    }

    /// Append a custom initialization script.
    ///
    /// Allow to append custom initialization script instead of replacing entire invoke system.
    pub fn append_invoke_initialization_script(self, initialization_script: &str) -> (builder: Self)
        ensures
            builder.invoke_initialization_script@ == self.invoke_initialization_script@
                + initialization_script@,
            builder == (Builder {
                invoke_initialization_script: builder.invoke_initialization_script,
                ..self
            }),
    {
        let mut builder = self;
        builder.invoke_initialization_script.append(initialization_script);
        builder
    }

    /// Defines the setup hook.
    #[must_use]
    pub fn setup(self, setup: HookId) -> (builder: Self)
        ensures
            builder == (Builder { setup: SetupHook::Call(setup), ..self }),
    {
        let mut builder = self;
        builder.setup = SetupHook::Call(setup);
        builder
    }

    /// Defines the page load hook.
    #[must_use]
    pub fn on_page_load(self, on_page_load: HookId) -> (builder: Self)
        ensures
            builder == (Builder { on_page_load: Some(on_page_load), ..self }),
    {
        let mut builder = self;
        builder.on_page_load = Some(on_page_load);
        builder
    }

    /// Adds a plugin, in place of any other of its name.
    #[must_use]
    pub fn plugin(self, name: String) -> (builder: Self)
        ensures
            builder.plugins@ == crate::plugin::registered(self.plugins@, name@),
            builder == (Builder { plugins: builder.plugins, ..self }),
    {
        let mut builder = self;
        let _ = builder.plugins.register(name);
        builder
    }

    /// Add state of a type to the state managed by the application.
    ///
    /// This method can be called any number of times as long as each call refers to a different
    /// type.
    #[must_use]
    pub fn manage(self, state: StateKey) -> (builder: Self)
        requires
            !self.state@.contains(state),
        ensures
            builder.state@ == self.state@.insert(state),
            builder == (Builder { state: builder.state, ..self }),
    {
        let mut builder = self;
        let _ = builder.state.set(state);
        builder
    }

    /// Sets the menu to use on all windows.
    #[must_use]
    pub fn menu(self, f: HookId) -> (builder: Self)
        requires
            self.target.is_desktop(),
        ensures
            builder == (Builder { menu: Some(MenuFactory::Call(f)), ..self }),
    {
        let mut builder = self;
        builder.menu = Some(MenuFactory::Call(f));
        builder
    }

    /// Registers an event handler for any menu event.
    #[must_use]
    pub fn on_menu_event(self, f: HookId) -> (builder: Self)
        requires
            self.target.is_desktop(),
        ensures
            builder.menu_event_listeners@ == self.menu_event_listeners@.push(f),
            builder == (Builder { menu_event_listeners: builder.menu_event_listeners, ..self }),
    {
        let mut builder = self;
        builder.menu_event_listeners.push(f);
        builder
    }

    /// Enable or disable the default menu on macOS. Enabled by default.
    #[must_use]
    pub fn enable_macos_default_menu(self, enable: bool) -> (builder: Self)
        ensures
            builder == (Builder { enable_macos_default_menu: enable, ..self }),
    {
        let mut builder = self;
        builder.enable_macos_default_menu = enable;
        builder
    }

    /// Registers a window event handler for all windows.
    #[must_use]
    pub fn on_window_event(self, handler: HookId) -> (builder: Self)
        ensures
            builder.window_event_listeners@ == self.window_event_listeners@.push(handler),
            builder == (Builder { window_event_listeners: builder.window_event_listeners, ..self }),
    {
        let mut builder = self;
        builder.window_event_listeners.push(handler);
        builder
    }

    /// Registers a webview event handler for all webviews.
    #[must_use]
    pub fn on_webview_event(self, handler: HookId) -> (builder: Self)
        ensures
            builder.webview_event_listeners@ == self.webview_event_listeners@.push(handler),
            builder == (Builder {
                webview_event_listeners: builder.webview_event_listeners,
                ..self
            }),
    {
        let mut builder = self;
        builder.webview_event_listeners.push(handler);
        builder
    }

    /// Registers a URI scheme protocol available to all webviews.
    ///
    /// The function takes a request and returns the response. It takes the place of any other
    /// protocol of that scheme.
    #[must_use]
    pub fn register_uri_scheme_protocol(self, uri_scheme: String, protocol: HookId) -> (builder: Self)
        ensures
            builder.uri_scheme_protocols@ == self.uri_scheme_protocols@.insert(
                uri_scheme@,
                UriSchemeProtocol::Sync(protocol),
            ),
            builder == (Builder { uri_scheme_protocols: builder.uri_scheme_protocols, ..self }),
    {
        let mut builder = self;
        let _ = builder.uri_scheme_protocols.insert(uri_scheme, UriSchemeProtocol::Sync(protocol));
        builder
    }

    /// Similar to [`Self::register_uri_scheme_protocol`] but with a responder that allows to
    /// process the request in a separate thread and respond later.
    #[must_use]
    pub fn register_asynchronous_uri_scheme_protocol(self, uri_scheme: String, protocol: HookId) -> (
    builder: Self)
        ensures
            builder.uri_scheme_protocols@ == self.uri_scheme_protocols@.insert(
                uri_scheme@,
                UriSchemeProtocol::Async(protocol),
            ),
            builder == (Builder { uri_scheme_protocols: builder.uri_scheme_protocols, ..self }),
    {
        let mut builder = self;
        let _ = builder.uri_scheme_protocols.insert(uri_scheme, UriSchemeProtocol::Async(protocol));
        builder
    }

    /// Change the device event filter mode.
    pub fn device_event_filter(self, filter: DeviceEventFilter) -> (builder: Self)
        ensures
            builder == (Builder { device_event_filter: filter, ..self }),
    {
        let mut builder = self;
        builder.device_event_filter = filter;
        builder
    }
}

/// No `__INVOKE_KEY__` token is left in a custom message system, unless the key itself holds one.
pub proof fn law_no_invoke_key_token_is_left(script: Seq<char>, invoke_key: Seq<char>)
    requires
        !crate::text::occurs(invoke_key, CUSTOM_INVOKE_KEY_TOKEN@),
    ensures
        !crate::text::occurs(
            crate::text::replace_all(script, CUSTOM_INVOKE_KEY_TOKEN@, quoted(invoke_key)),
            CUSTOM_INVOKE_KEY_TOKEN@,
        ),
{
    let token = CUSTOM_INVOKE_KEY_TOKEN@;
    reveal_strlit("__INVOKE_KEY__");
    assert(!token.contains('"')) by {
        assert forall|i: int| 0 <= i < token.len() implies token[i] != '"' by {}
    }
    crate::text::lemma_fenced(invoke_key, token, '"');
    crate::text::lemma_token_gone(script, token, quoted(invoke_key), '"');
}

/// A custom message system without the token is taken as it is.
pub proof fn law_script_without_token_is_kept(script: Seq<char>, invoke_key: Seq<char>)
    requires
        !crate::text::occurs(script, CUSTOM_INVOKE_KEY_TOKEN@),
    ensures
        crate::text::replace_all(script, CUSTOM_INVOKE_KEY_TOKEN@, quoted(invoke_key)) == script,
{
    crate::text::lemma_replace_absent(script, CUSTOM_INVOKE_KEY_TOKEN@, quoted(invoke_key));
}

/// Of two protocols that were registered for a scheme the last one counts, and the protocols of
/// other schemes stay.
pub proof fn law_last_protocol_of_a_scheme_counts(
    protocols: Map<Seq<char>, UriSchemeProtocol>,
    scheme: Seq<char>,
    first: UriSchemeProtocol,
    last: UriSchemeProtocol,
    other: Seq<char>,
)
    ensures
        protocols.insert(scheme, first).insert(scheme, last) == protocols.insert(scheme, last),
        protocols.insert(scheme, first).insert(scheme, last)[scheme] == last,
        other != scheme ==> (protocols.insert(scheme, last).contains_key(other)
            <==> protocols.contains_key(other)) && protocols.insert(scheme, last)[other]
            == protocols[other],
{
    assert(protocols.insert(scheme, first).insert(scheme, last) =~= protocols.insert(
        scheme,
        last,
    ));
}

/// The first key token of a custom message system is exchanged for the key between double quotes,
/// what comes before it is left as it is, and what follows is gone on with.
pub proof fn law_the_key_comes_between_quotes(script: Seq<char>, invoke_key: Seq<char>, i: int)
    requires
        crate::text::occurs_at(script, "__INVOKE_KEY__"@, i),
        forall|j: int|
            0 <= j < i ==> !#[trigger] crate::text::occurs_at(script, "__INVOKE_KEY__"@, j),
    ensures
        crate::text::replace_all(script, CUSTOM_INVOKE_KEY_TOKEN@, quoted(invoke_key))
            == script.take(i) + seq!['"'] + invoke_key + seq!['"'] + crate::text::replace_all(
            script.skip(i + 14),
            CUSTOM_INVOKE_KEY_TOKEN@,
            quoted(invoke_key),
        ),
{
    reveal_strlit("__INVOKE_KEY__");
    let token = CUSTOM_INVOKE_KEY_TOKEN@;
    let value = quoted(invoke_key);
    crate::text::law_the_first_token_is_replaced_first(script, token, value, i);
    let rest = crate::text::replace_all(script.skip(i + 14), token, value);
    assert(script.take(i) + value + rest =~= script.take(i) + seq!['"'] + invoke_key + seq!['"']
        + rest);
}

/// The script of a new builder holds the function that processes messages as it is, and in the
/// places of the other tokens code for the name of the system, for the command and for the key of
/// this very builder.
pub proof fn law_a_new_script_tells_its_values(
    target: Target,
    scripts: IpcScripts,
    invoke_key: Seq<char>,
    token: Seq<char>,
    value: Seq<char>,
    i: int,
)
    requires
        (token == "__RAW_process_ipc_message_fn__"@ && value == scripts.process_ipc_message_fn@)
            || (token == "__TEMPLATE_os_name__"@ && value == crate::script::json_parse_call(
            crate::script::json_text(target.spec_os_name()),
        )) || (token == "__TEMPLATE_fetch_channel_data_command__"@ && value
            == crate::script::json_parse_call(
            crate::script::json_text(scripts.fetch_channel_data_command@),
        )) || (token == "__TEMPLATE_invoke_key__"@ && value == crate::script::json_parse_call(
            crate::script::json_text(invoke_key),
        )),
        crate::text::occurs_at(scripts.template@, token, i),
        forall|j: int| j != i ==> !#[trigger] crate::text::occurs_at(scripts.template@, token, j),
        token != crate::script::PROCESS_IPC_MESSAGE_FN_TOKEN@ ==> !crate::text::occurs(
            scripts.template@,
            crate::script::PROCESS_IPC_MESSAGE_FN_TOKEN@,
        ),
        token != crate::script::OS_NAME_TOKEN@ ==> !crate::text::occurs(
            scripts.template@,
            crate::script::OS_NAME_TOKEN@,
        ),
        token != crate::script::FETCH_CHANNEL_DATA_COMMAND_TOKEN@ ==> !crate::text::occurs(
            scripts.template@,
            crate::script::FETCH_CHANNEL_DATA_COMMAND_TOKEN@,
        ),
        token != crate::script::INVOKE_KEY_TOKEN@ ==> !crate::text::occurs(
            scripts.template@,
            crate::script::INVOKE_KEY_TOKEN@,
        ),
        crate::script::holds_no_token(
            scripts.template@.take(i) + value + scripts.template@.skip(i + token.len()),
        ),
    ensures
        initial_script(target, scripts, invoke_key) == scripts.template@.take(i) + value
            + scripts.template@.skip(i + token.len()),
{
    crate::script::law_each_token_takes_its_own_value(
        scripts.template@,
        scripts.process_ipc_message_fn@,
        crate::script::json_parse_call(crate::script::json_text(target.spec_os_name())),
        crate::script::json_parse_call(
            crate::script::json_text(scripts.fetch_channel_data_command@),
        ),
        crate::script::json_parse_call(crate::script::json_text(invoke_key)),
        token,
        value,
        i,
    );
}

/// The script of a new builder is made piece by piece, so that each of its tokens is exchanged
/// wherever it stands among others.
pub proof fn law_a_new_script_is_made_piece_by_piece(
    target: Target,
    whole: IpcScripts,
    first: IpcScripts,
    rest: IpcScripts,
    invoke_key: Seq<char>,
)
    requires
        first.template@.len() > 0,
        crate::script::parts_tokens(first.template@.last()),
        whole.template@ == first.template@ + rest.template@,
        first.process_ipc_message_fn == whole.process_ipc_message_fn,
        rest.process_ipc_message_fn == whole.process_ipc_message_fn,
        first.fetch_channel_data_command == whole.fetch_channel_data_command,
        rest.fetch_channel_data_command == whole.fetch_channel_data_command,
    ensures
        initial_script(target, whole, invoke_key) == initial_script(target, first, invoke_key)
            + initial_script(target, rest, invoke_key),
{
    crate::script::law_templates_are_filled_piece_by_piece(
        first.template@,
        rest.template@,
        whole.process_ipc_message_fn@,
        crate::script::json_parse_call(crate::script::json_text(target.spec_os_name())),
        crate::script::json_parse_call(
            crate::script::json_text(whole.fetch_channel_data_command@),
        ),
        crate::script::json_parse_call(crate::script::json_text(invoke_key)),
    );
}

} // verus!
