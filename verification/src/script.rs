//! The script that prepares a webview to talk to the application.
use vstd::prelude::*;

use crate::text;
use serialize_to_javascript::private::{NotYetSerialized, SerializedOnce};
use serialize_to_javascript::Options;

verus! {

/// A digit of a number in base sixteen.
pub open spec fn hex_digit(n: int) -> char {
    if n < 10 {
        (48 + n) as char
    } else {
        (87 + n) as char
    }
}

/// How JSON writes a character of a string.
pub open spec fn json_char(c: char) -> Seq<char> {
    if c == '"' || c == '\\' {
        seq!['\\', c]
    } else if c == '\u{8}' {
        seq!['\\', 'b']
    } else if c == '\t' {
        seq!['\\', 't']
    } else if c == '\n' {
        seq!['\\', 'n']
    } else if c == '\u{c}' {
        seq!['\\', 'f']
    } else if c == '\r' {
        seq!['\\', 'r']
    } else if (c as int) < 0x20 {
        seq!['\\', 'u', '0', '0', hex_digit(c as int / 16), hex_digit(c as int % 16)]
    } else {
        seq![c]
    }
}

/// How JSON writes the characters of a string.
pub open spec fn json_chars(value: Seq<char>) -> Seq<char>
    decreases value.len(),
{
    if value.len() == 0 {
        value
    } else {
        json_char(value[0]) + json_chars(value.skip(1))
    }
}

/// How JSON writes a string.
pub open spec fn json_text(value: Seq<char>) -> Seq<char> {
    seq!['"'] + json_chars(value) + seq!['"']
}

/// A text with a backslash before each backslash and single quote.
pub open spec fn escaped(text: Seq<char>) -> Seq<char>
    decreases text.len(),
{
    if text.len() == 0 {
        text
    } else if text[0] == '\\' || text[0] == '\'' {
        seq!['\\', text[0]] + escaped(text.skip(1))
    } else {
        seq![text[0]] + escaped(text.skip(1))
    }
}

/// The JavaScript expression whose value is what a JSON text says.
pub open spec fn json_parse_call(json: Seq<char>) -> Seq<char> {
    "JSON.parse('"@ + escaped(json) + "')"@
}

/// Whether JSON writes each of the characters as it is: none is a control character, a double quote
/// or a backslash.
pub open spec fn is_plain(value: Seq<char>) -> bool {
    forall|i: int|
        0 <= i < value.len() ==> 0x20 <= #[trigger] value[i] as int && value[i] != '"' && value[i]
            != '\\'
}

/// The JavaScript expression for a string.
///
/// Calls `SerializedOnce::try_from`, which serializes with `serde_json::to_string`, and then
/// `SerializedOnce::into_javascript_string_literal` with the default options. For a string the
/// first always succeeds. It is claimed to write the string as JSON, with a backslash before double
/// quotes and backslashes, the short escapes where there are such, and four lower case digits for
/// the other control characters. The second is claimed to put a backslash before each backslash
/// and single quote of that, and to wrap the outcome in a call of `JSON.parse`.
#[verifier::external_body]
fn javascript_literal(value: &str) -> (code: String)
    ensures
        code@ == json_parse_call(json_text(value@)),
{
    let once: SerializedOnce = NotYetSerialized(&value).try_into().unwrap();
    once.into_javascript_string_literal(&Options::default()).into_string()
}

/// The token in place of which the function that processes messages stands.
pub const PROCESS_IPC_MESSAGE_FN_TOKEN: &'static str = "__RAW_process_ipc_message_fn__";

/// The token in place of which the name of the system stands.
pub const OS_NAME_TOKEN: &'static str = "__TEMPLATE_os_name__";

/// The token in place of which the command that fetches channel data stands.
pub const FETCH_CHANNEL_DATA_COMMAND_TOKEN: &'static str = "__TEMPLATE_fetch_channel_data_command__";

/// The token in place of which the invoke key stands.
pub const INVOKE_KEY_TOKEN: &'static str = "__TEMPLATE_invoke_key__";

/// A template with its tokens replaced by code, one token after the other.
pub open spec fn filled(
    template: Seq<char>,
    process_ipc_message_fn: Seq<char>,
    os_name: Seq<char>,
    fetch_channel_data_command: Seq<char>,
    invoke_key: Seq<char>,
) -> Seq<char> {
    let first = crate::text::replace_all(
        template,
        PROCESS_IPC_MESSAGE_FN_TOKEN@,
        process_ipc_message_fn,
    );
    let second = crate::text::replace_all(first, OS_NAME_TOKEN@, os_name);
    let third = crate::text::replace_all(
        second,
        FETCH_CHANNEL_DATA_COMMAND_TOKEN@,
        fetch_channel_data_command,
    );
    crate::text::replace_all(third, INVOKE_KEY_TOKEN@, invoke_key)
}

/// Replaces the tokens of a template by code, one token after the other.
pub fn fill(
    template: &str,
    process_ipc_message_fn: &str,
    os_name: &str,
    fetch_channel_data_command: &str,
    invoke_key: &str,
) -> (script: String)
    ensures
        script@ == filled(
            template@,
            process_ipc_message_fn@,
            os_name@,
            fetch_channel_data_command@,
            invoke_key@,
        ),
{
    proof {
        reveal_strlit("__RAW_process_ipc_message_fn__");
        reveal_strlit("__TEMPLATE_os_name__");
        reveal_strlit("__TEMPLATE_fetch_channel_data_command__");
        reveal_strlit("__TEMPLATE_invoke_key__");
    }
    let first = text::replace(template, PROCESS_IPC_MESSAGE_FN_TOKEN, process_ipc_message_fn);
    let second = text::replace(first.as_str(), OS_NAME_TOKEN, os_name);
    let third = text::replace(
        second.as_str(),
        FETCH_CHANNEL_DATA_COMMAND_TOKEN,
        fetch_channel_data_command,
    );
    text::replace(third.as_str(), INVOKE_KEY_TOKEN, invoke_key)
}

/// The values that the script which prepares a webview is made with.
pub struct InvokeInitializationScript<'a> {
    /// The function that processes the IPC message. It is put in as it is.
    pub process_ipc_message_fn: &'a str,
    pub os_name: &'a str,
    pub fetch_channel_data_command: &'a str,
    pub invoke_key: &'a str,
}

impl<'a> InvokeInitializationScript<'a> {
    /// What the values make of a template.
    pub open spec fn spec_render(&self, template: Seq<char>) -> Seq<char> {
        filled(
            template,
            self.process_ipc_message_fn@,
            json_parse_call(json_text(self.os_name@)),
            json_parse_call(json_text(self.fetch_channel_data_command@)),
            json_parse_call(json_text(self.invoke_key@)),
        )
    }

    /// Puts the values in a template.
    pub fn render(&self, template: &str) -> (script: String)
        ensures
            script@ == self.spec_render(template@),
    {
        let os_name = javascript_literal(self.os_name);
        let fetch_channel_data_command = javascript_literal(self.fetch_channel_data_command);
        let invoke_key = javascript_literal(self.invoke_key);
        fill(
            template,
            self.process_ipc_message_fn,
            os_name.as_str(),
            fetch_channel_data_command.as_str(),
            invoke_key.as_str(),
        )
    }
}

/// A string of plain characters is written as it is, between two double quotes.
pub proof fn law_plain_text_is_only_quoted(value: Seq<char>)
    requires
        is_plain(value),
    ensures
        json_text(value) == seq!['"'] + value + seq!['"'],
{
    lemma_plain_chars(value);
}

proof fn lemma_plain_chars(value: Seq<char>)
    requires
        is_plain(value),
    ensures
        json_chars(value) == value,
    decreases value.len(),
{
    if value.len() > 0 {
        let rest = value.skip(1);
        assert forall|i: int| 0 <= i < rest.len() implies 0x20 <= #[trigger] rest[i] as int
            && rest[i] != '"' && rest[i] != '\\' by {
            assert(rest[i] == value[i + 1]);
        }
        lemma_plain_chars(rest);
        assert(value[0] as int >= 0x20);
        assert(json_char(value[0]) =~= seq![value[0]]);
        assert(seq![value[0]] + rest =~= value);
    }
}

/// Whether a character stands in none of the tokens, so that no token goes on behind it.
pub open spec fn parts_tokens(c: char) -> bool {
    &&& !PROCESS_IPC_MESSAGE_FN_TOKEN@.contains(c)
    &&& !OS_NAME_TOKEN@.contains(c)
    &&& !FETCH_CHANNEL_DATA_COMMAND_TOKEN@.contains(c)
    &&& !INVOKE_KEY_TOKEN@.contains(c)
}

/// A template is filled piece by piece: what stands before a character that no token holds is filled
/// by itself, and so is what follows it.
pub proof fn law_templates_are_filled_piece_by_piece(
    before: Seq<char>,
    behind: Seq<char>,
    process_ipc_message_fn: Seq<char>,
    os_name: Seq<char>,
    fetch_channel_data_command: Seq<char>,
    invoke_key: Seq<char>,
)
    requires
        before.len() > 0,
        parts_tokens(before.last()),
    ensures
        filled(
            before + behind,
            process_ipc_message_fn,
            os_name,
            fetch_channel_data_command,
            invoke_key,
        ) == filled(
            before,
            process_ipc_message_fn,
            os_name,
            fetch_channel_data_command,
            invoke_key,
        ) + filled(
            behind,
            process_ipc_message_fn,
            os_name,
            fetch_channel_data_command,
            invoke_key,
        ),
{
    let token = PROCESS_IPC_MESSAGE_FN_TOKEN@;
    crate::text::lemma_replace_split(before, behind, token, process_ipc_message_fn);
    let one = crate::text::replace_all(before, token, process_ipc_message_fn);
    let other = crate::text::replace_all(behind, token, process_ipc_message_fn);
    let token = OS_NAME_TOKEN@;
    crate::text::lemma_replace_split(one, other, token, os_name);
    let one = crate::text::replace_all(one, token, os_name);
    let other = crate::text::replace_all(other, token, os_name);
    let token = FETCH_CHANNEL_DATA_COMMAND_TOKEN@;
    crate::text::lemma_replace_split(one, other, token, fetch_channel_data_command);
    let one = crate::text::replace_all(one, token, fetch_channel_data_command);
    let other = crate::text::replace_all(other, token, fetch_channel_data_command);
    crate::text::lemma_replace_split(one, other, INVOKE_KEY_TOKEN@, invoke_key);
}

/// Where a token stands in a text once, it is exchanged for its value.
pub proof fn lemma_replace_once(text: Seq<char>, token: Seq<char>, value: Seq<char>, i: int)
    requires
        token.len() > 0,
        crate::text::occurs_at(text, token, i),
        forall|j: int| j != i ==> !#[trigger] crate::text::occurs_at(text, token, j),
    ensures
        crate::text::replace_all(text, token, value) == text.take(i) + value + text.skip(
            i + token.len(),
        ),
{
    let len = token.len() as int;
    let rest = text.skip(i + len);
    crate::text::law_the_first_token_is_replaced_first(text, token, value, i);
    assert forall|j: int| !crate::text::occurs_at(rest, token, j) by {
        if crate::text::occurs_at(rest, token, j) {
            assert(!crate::text::occurs_at(text, token, i + len + j));
            assert(rest.subrange(j, j + len) =~= text.subrange(i + len + j, i + len + j + len));
        }
    }
    crate::text::lemma_replace_absent(rest, token, value);
}

/// Whether a text holds none of the tokens.
pub open spec fn holds_no_token(text: Seq<char>) -> bool {
    &&& !crate::text::occurs(text, PROCESS_IPC_MESSAGE_FN_TOKEN@)
    &&& !crate::text::occurs(text, OS_NAME_TOKEN@)
    &&& !crate::text::occurs(text, FETCH_CHANNEL_DATA_COMMAND_TOKEN@)
    &&& !crate::text::occurs(text, INVOKE_KEY_TOKEN@)
}

/// A template that holds no token is left as it is.
pub proof fn law_templates_without_tokens_are_kept(
    template: Seq<char>,
    process_ipc_message_fn: Seq<char>,
    os_name: Seq<char>,
    fetch_channel_data_command: Seq<char>,
    invoke_key: Seq<char>,
)
    requires
        holds_no_token(template),
    ensures
        filled(
            template,
            process_ipc_message_fn,
            os_name,
            fetch_channel_data_command,
            invoke_key,
        ) == template,
{
    crate::text::lemma_replace_absent(
        template,
        PROCESS_IPC_MESSAGE_FN_TOKEN@,
        process_ipc_message_fn,
    );
    crate::text::lemma_replace_absent(template, OS_NAME_TOKEN@, os_name);
    crate::text::lemma_replace_absent(
        template,
        FETCH_CHANNEL_DATA_COMMAND_TOKEN@,
        fetch_channel_data_command,
    );
    crate::text::lemma_replace_absent(template, INVOKE_KEY_TOKEN@, invoke_key);
}

/// Where one token stands in a template, once, and no other, its own value comes in its place and
/// nothing else changes, unless that brings a token in.
pub proof fn law_each_token_takes_its_own_value(
    template: Seq<char>,
    process_ipc_message_fn: Seq<char>,
    os_name: Seq<char>,
    fetch_channel_data_command: Seq<char>,
    invoke_key: Seq<char>,
    token: Seq<char>,
    value: Seq<char>,
    i: int,
)
    requires
        (token == "__RAW_process_ipc_message_fn__"@ && value == process_ipc_message_fn) || (token
            == "__TEMPLATE_os_name__"@ && value == os_name) || (token
            == "__TEMPLATE_fetch_channel_data_command__"@ && value == fetch_channel_data_command)
            || (token == "__TEMPLATE_invoke_key__"@ && value == invoke_key),
        crate::text::occurs_at(template, token, i),
        forall|j: int| j != i ==> !#[trigger] crate::text::occurs_at(template, token, j),
        token != PROCESS_IPC_MESSAGE_FN_TOKEN@ ==> !crate::text::occurs(
            template,
            PROCESS_IPC_MESSAGE_FN_TOKEN@,
        ),
        token != OS_NAME_TOKEN@ ==> !crate::text::occurs(template, OS_NAME_TOKEN@),
        token != FETCH_CHANNEL_DATA_COMMAND_TOKEN@ ==> !crate::text::occurs(
            template,
            FETCH_CHANNEL_DATA_COMMAND_TOKEN@,
        ),
        token != INVOKE_KEY_TOKEN@ ==> !crate::text::occurs(template, INVOKE_KEY_TOKEN@),
        holds_no_token(template.take(i) + value + template.skip(i + token.len())),
    ensures
        filled(
            template,
            process_ipc_message_fn,
            os_name,
            fetch_channel_data_command,
            invoke_key,
        ) == template.take(i) + value + template.skip(i + token.len()),
{
    let outcome = template.take(i) + value + template.skip(i + token.len());
    let a = PROCESS_IPC_MESSAGE_FN_TOKEN@;
    let b = OS_NAME_TOKEN@;
    let c = FETCH_CHANNEL_DATA_COMMAND_TOKEN@;
    let d = INVOKE_KEY_TOKEN@;
    lemma_tokens();
    lemma_replace_once(template, token, value, i);
    crate::text::lemma_replace_absent(outcome, a, process_ipc_message_fn);
    crate::text::lemma_replace_absent(outcome, b, os_name);
    crate::text::lemma_replace_absent(outcome, c, fetch_channel_data_command);
    crate::text::lemma_replace_absent(outcome, d, invoke_key);
    if token != a {
        crate::text::lemma_replace_absent(template, a, process_ipc_message_fn);
    }
    if token != b {
        crate::text::lemma_replace_absent(template, b, os_name);
    }
    if token != c {
        crate::text::lemma_replace_absent(template, c, fetch_channel_data_command);
    }
    if token != d {
        crate::text::lemma_replace_absent(template, d, invoke_key);
    }
}

/// The tokens are texts of different lengths.
proof fn lemma_tokens()
    ensures
        PROCESS_IPC_MESSAGE_FN_TOKEN@.len() == 30,
        OS_NAME_TOKEN@.len() == 20,
        FETCH_CHANNEL_DATA_COMMAND_TOKEN@.len() == 39,
        INVOKE_KEY_TOKEN@.len() == 23,
{
    reveal_strlit("__RAW_process_ipc_message_fn__");
    reveal_strlit("__TEMPLATE_os_name__");
    reveal_strlit("__TEMPLATE_fetch_channel_data_command__");
    reveal_strlit("__TEMPLATE_invoke_key__");
}

} // verus!
