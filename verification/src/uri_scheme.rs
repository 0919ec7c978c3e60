//! The protocols that webviews can ask the application by.
use vstd::prelude::*;

use crate::handle::AppHandle;
use crate::hook::HookId;

verus! {

/// A request of a webview, from the `http` crate.
#[verifier::external_type_specification]
#[verifier::external_body]
#[verifier::reject_recursive_types(T)]
pub struct ExRequest<T>(http::Request<T>);

/// A response to a webview, from the `http` crate.
#[verifier::external_type_specification]
#[verifier::external_body]
#[verifier::reject_recursive_types(T)]
pub struct ExResponse<T>(http::Response<T>);

/// The parts of a response besides its body, from the `http` crate.
#[verifier::external_type_specification]
#[verifier::external_body]
pub struct ExParts(http::response::Parts);

/// The response that `http::Response::from_parts` makes.
pub uninterp spec fn response_of(parts: http::response::Parts, body: Seq<u8>) -> http::Response<
    Vec<u8>,
>;

/// Takes a response apart.
///
/// Calls `http::Response::into_parts`. It is claimed to give what the response can be made of
/// again.
#[verifier::external_body]
fn into_parts(response: http::Response<Vec<u8>>) -> (parts: (http::response::Parts, Vec<u8>))
    ensures
        response_of(parts.0, parts.1@) == response,
{
    response.into_parts()
}

/// Puts a response together.
///
/// Calls `http::Response::from_parts`. The response is claimed to depend on the parts and the bytes
/// of the body alone.
#[verifier::external_body]
fn from_parts(parts: http::response::Parts, body: Vec<u8>) -> (response: http::Response<Vec<u8>>)
    ensures
        response == response_of(parts, body@),
{
    http::Response::from_parts(parts, body)
}

/// What answers the requests of a scheme.
#[derive(Clone, Copy, PartialEq, Eq, Structural, Debug)]
pub enum UriSchemeProtocol {
    /// The function returns the response, and the responder is handed it.
    Sync(HookId),
    /// The function is handed the responder.
    Async(HookId),
}

/// Async uri scheme protocol responder. It is used up by responding.
pub struct UriSchemeResponder<F>(pub F);

impl<F: FnOnce(http::Response<Vec<u8>>)> UriSchemeResponder<F> {
    /// Resolves the request with the given response.
    ///
    /// The webview is handed the response as it is.
    pub fn respond(self, response: http::Response<Vec<u8>>)
        requires
            self.0.requires((response,)),
        ensures
            self.0.ensures((response,), ()),
    {
        let (parts, body) = into_parts(response);
        (self.0)(from_parts(parts, body))
    }
}

/// Uri scheme protocol context
#[derive(Clone, Copy)]
pub struct UriSchemeContext<'a> {
    pub app_handle: &'a AppHandle,
    pub webview_label: &'a str,
}

impl<'a> UriSchemeContext<'a> {
    /// Get a reference to an [`AppHandle`].
    pub fn app_handle(&self) -> (handle: &'a AppHandle)
        ensures
            handle == self.app_handle,
    {
        self.app_handle
    }

    /// Get the webview label that made the uri scheme request.
    pub fn webview_label(&self) -> (label: &'a str)
        ensures
            label@ == self.webview_label@,
    {
        self.webview_label
    }
}

/// Lets a protocol answer a request.
///
/// A protocol that returns its response has it handed to the responder. Any other is handed the
/// responder itself, and nobody else responds. `call` and `call_with_responder` are how the host
/// calls the function of a protocol; one of them is called, once.
pub fn serve<C, S, A, F>(
    protocol: UriSchemeProtocol,
    call: S,
    call_with_responder: A,
    context: C,
    request: http::Request<Vec<u8>>,
    responder: UriSchemeResponder<F>,
) where
    S: FnOnce(HookId, C, http::Request<Vec<u8>>) -> http::Response<Vec<u8>>,
    A: FnOnce(HookId, C, http::Request<Vec<u8>>, UriSchemeResponder<F>),
    F: FnOnce(http::Response<Vec<u8>>),

    requires
        match protocol {
            UriSchemeProtocol::Sync(hook) => {
                &&& call.requires((hook, context, request))
                &&& forall|response: http::Response<Vec<u8>>|
                    call.ensures((hook, context, request), response)
                        ==> #[trigger] responder.0.requires((response,))
            },
            UriSchemeProtocol::Async(hook) => call_with_responder.requires(
                (hook, context, request, responder),
            ),
        },
    ensures
        match protocol {
            UriSchemeProtocol::Sync(hook) => exists|response: http::Response<Vec<u8>>| #[trigger]
                call.ensures((hook, context, request), response) && responder.0.ensures(
                    (response,),
                    (),
                ),
            UriSchemeProtocol::Async(hook) => call_with_responder.ensures(
                (hook, context, request, responder),
                (),
            ),
        },
{
    match protocol {
        UriSchemeProtocol::Sync(hook) => {
            let response = call(hook, context, request);
            responder.respond(response)
        },
        UriSchemeProtocol::Async(hook) => call_with_responder(hook, context, request, responder),
    }
}

} // verus!
