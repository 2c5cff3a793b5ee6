use vstd::prelude::*;
use vstd::string::*;
use vstd::utf8::*;

use crate::dispatch::DispatchError;
use crate::dispatch::DispatchOutcome;
use crate::event::classified;
use crate::event::EventName;
use crate::signature::accepts;
use crate::signature::signature_text;
use crate::signature::verify;
use crate::signature::SignatureError;
use crate::text::has_nul;
use crate::text::has_nul_char;
use crate::text::str_eq;

verus! {

/// The method of a request.
#[derive(Clone, Copy, Debug, PartialEq, Eq, Structural)]
pub enum Method {
    Get,
    Head,
    Post,
    Put,
    Delete,
    Options,
    Patch,
    Other,
}

/// What a request carries under one header name.
pub enum HeaderValue {
    /// The header is absent.
    Missing,
    /// The header is there, but its value is not valid text.
    NotText,
    /// The header's value.
    Text(String),
}

/// What a header holds.
pub enum HeaderView {
    Missing,
    NotText,
    Text(Seq<char>),
}

impl View for HeaderValue {
    type V = HeaderView;

    open spec fn view(&self) -> HeaderView {
        match self {
            HeaderValue::Missing => HeaderView::Missing,
            HeaderValue::NotText => HeaderView::NotText,
            HeaderValue::Text(text) => HeaderView::Text(text@),
        }
    }
}

/// The parts of a request that decide how it is answered: method, path,
/// query, and the event and signature headers of a webhook.
pub struct Request {
    pub method: Method,
    pub path: String,
    pub query: Option<String>,
    pub event: HeaderValue,
    pub signature: HeaderValue,
}

/// What a request holds.
pub struct RequestView {
    pub method: Method,
    pub path: Seq<char>,
    pub query: Option<Seq<char>>,
    pub event: HeaderView,
    pub signature: HeaderView,
}

impl View for Request {
    type V = RequestView;

    open spec fn view(&self) -> RequestView {
        RequestView {
            method: self.method,
            path: self.path@,
            query: match self.query {
                Some(q) => Some(q@),
                None => None,
            },
            event: self.event@,
            signature: self.signature@,
        }
    }
}

/// Pairs of texts, as pairs of their characters.
pub open spec fn pairs_view(pairs: Seq<(String, String)>) -> Seq<(Seq<char>, Seq<char>)> {
    pairs.map_values(|p: (String, String)| (p.0@, p.1@))
}

/// A response: status code, headers in order, and body.
pub struct Response {
    pub status: u16,
    pub headers: Vec<(String, String)>,
    pub body: String,
}

/// What a response holds.
pub struct ResponseView {
    pub status: u16,
    pub headers: Seq<(Seq<char>, Seq<char>)>,
    pub body: Seq<char>,
}

impl View for Response {
    type V = ResponseView;

    open spec fn view(&self) -> ResponseView {
        ResponseView { status: self.status, headers: pairs_view(self.headers@), body: self.body@ }
    }
}

/// What is to be done for a request.
pub enum Action {
    /// Answer at once.
    Respond(Response),
    /// Show the triage index.
    TriageIndex,
    /// Show the pull requests of one repository.
    TriagePulls { owner: String, repo: String },
    /// List the commits with artifacts; `commit_list_response` answers.
    CommitList,
    /// Show the notifications of one user.
    Notifications { user: String },
    /// Read the body and hand it to the chat hook.
    ZulipHook,
    /// Read the body, `authenticate` the event against this signature, and
    /// dispatch it.
    Webhook { event: EventName, signature: String },
}

/// What an action holds.
pub enum ActionView {
    Respond(ResponseView),
    TriageIndex,
    TriagePulls { owner: Seq<char>, repo: Seq<char> },
    CommitList,
    Notifications { user: Seq<char> },
    ZulipHook,
    Webhook { event: EventName, signature: Seq<char> },
}

impl View for Action {
    type V = ActionView;

    open spec fn view(&self) -> ActionView {
        match self {
            Action::Respond(response) => ActionView::Respond(response@),
            Action::TriageIndex => ActionView::TriageIndex,
            Action::TriagePulls { owner, repo } => ActionView::TriagePulls {
                owner: owner@,
                repo: repo@,
            },
            Action::CommitList => ActionView::CommitList,
            Action::Notifications { user } => ActionView::Notifications { user: user@ },
            Action::ZulipHook => ActionView::ZulipHook,
            Action::Webhook { event, signature } => ActionView::Webhook {
                event: *event,
                signature: signature@,
            },
        }
    }
}

/// The route that matches `path` among `routes`, each a pattern with the
/// name of its handler: that name, and the values of the pattern's
/// parameters, ordered by parameter name.
pub uninterp spec fn router_match(routes: Seq<(Seq<char>, Seq<char>)>, path: Seq<char>) -> Option<
    (Seq<char>, Seq<(Seq<char>, Seq<char>)>),
>;

/// The name and value pairs of a query in the form encoding, decoded, in
/// the order in which they are written.
pub uninterp spec fn form_pairs(query: Seq<char>) -> Seq<(Seq<char>, Seq<char>)>;

/// Builds a `route_recognizer::Router` with `add` for each of `routes` and
/// asks `recognize` for `path`. Trusted, for the routes of the triage pages
/// and a path without the character U+0000, on which the router's
/// arithmetic on character codes would underflow: the handler found and the
/// parameters captured, which `Params::iter` yields in the order of their
/// names, depend on routes and path alone.
#[verifier::external_body]
fn recognize(routes: &Vec<(String, String)>, path: &str) -> (found: Option<
    (String, Vec<(String, String)>),
>)
    requires
        pairs_view(routes@) == triage_routes(),
        !has_nul(path@),
    ensures
        match found {
            Some(m) => router_match(pairs_view(routes@), path@) == Some((m.0@, pairs_view(m.1@))),
            None => router_match(pairs_view(routes@), path@) is None,
        },
{
    let mut router = route_recognizer::Router::new();
    for (pattern, handler) in routes.iter() {
        router.add(pattern, handler.clone());
    }
    let found = router.recognize(path).ok()?;
    let params = found.params().iter().map(|(k, v)| (k.to_string(), v.to_string())).collect();
    Some(((**found.handler()).clone(), params))
}

/// Decodes a query with `url::form_urlencoded::parse`. Trusted: the pairs
/// depend on the query alone.
#[verifier::external_body]
fn parse_query(query: &str) -> (pairs: Vec<(String, String)>)
    ensures
        pairs_view(pairs@) == form_pairs(query@),
{
    url::form_urlencoded::parse(query.as_bytes()).map(|(k, v)| (k.into_owned(), v.into_owned())).collect()
}

/// Converts bytes to text with `String::from_utf8`. Trusted: the conversion
/// succeeds exactly on valid UTF-8, and gives the text that the bytes encode.
#[verifier::external_body]
fn text_of(bytes: Vec<u8>) -> (text: Option<String>)
    ensures
        text is Some <==> valid_utf8(bytes@),
        text matches Some(s) ==> s@ == decode_utf8(bytes@),
{
    String::from_utf8(bytes).ok()
}

/// The value of the first of `pairs` whose name is `name`.
pub open spec fn lookup(pairs: Seq<(Seq<char>, Seq<char>)>, name: Seq<char>) -> Option<Seq<char>>
    decreases pairs.len(),
{
    if pairs.len() == 0 {
        None
    } else if pairs[0].0 == name {
        Some(pairs[0].1)
    } else {
        lookup(pairs.drop_first(), name)
    }
}

/// The value of the first of `pairs` whose name is `name`.
pub fn find_value(pairs: &Vec<(String, String)>, name: &str) -> (value: Option<String>)
    ensures
        match value {
            Some(v) => lookup(pairs_view(pairs@), name@) == Some(v@),
            None => lookup(pairs_view(pairs@), name@) is None,
        },
{
    let ghost all = pairs_view(pairs@);
    let mut i: usize = 0;
    assert(all.skip(0) =~= all);
    while i < pairs.len()
        invariant
            i <= pairs.len(),
            all == pairs_view(pairs@),
            lookup(all, name@) == lookup(all.skip(i as int), name@),
        decreases pairs.len() - i,
    {
        assert(all.skip(i as int)[0] == all[i as int]);
        assert(all.skip(i as int).drop_first() =~= all.skip(i as int + 1));
        if str_eq(pairs[i].0.as_str(), name) {
            return Some(pairs[i].1.clone());
        }
        i += 1;
    }
    None
}

/// A response without headers.
pub open spec fn plain(status: u16, body: Seq<char>) -> ResponseView {
    ResponseView { status, headers: Seq::empty(), body }
}

/// A response without headers, with the given status and body.
pub fn respond(status: u16, body: &str) -> (response: Response)
    ensures
        response@ == plain(status, body@),
{
    let response = Response { status, headers: Vec::new(), body: body.to_owned() };
    assert(response@.headers =~= Seq::empty());
    response
}

/// The two routes of the triage pages.
pub open spec fn triage_routes() -> Seq<(Seq<char>, Seq<char>)> {
    seq![("/triage"@, "index"@), ("/triage/:owner/:repo"@, "pulls"@)]
}

/// The triage page for a route that matched: the pull requests of a
/// repository where the handler is the one for pull requests and the
/// parameters give an owner and a repository, the index otherwise.
pub open spec fn matched_page(handler: Seq<char>, params: Seq<(Seq<char>, Seq<char>)>) -> ActionView {
    if handler == "pulls"@ && lookup(params, "owner"@) is Some && lookup(params, "repo"@) is Some {
        ActionView::TriagePulls {
            owner: lookup(params, "owner"@)->Some_0,
            repo: lookup(params, "repo"@)->Some_0,
        }
    } else {
        ActionView::TriageIndex
    }
}

/// The triage page that `path` names, if it names one. A path that holds
/// the character U+0000 names none; any other path names the page of the
/// route that matches it.
pub open spec fn triage_page(path: Seq<char>) -> Option<ActionView> {
    if has_nul(path) {
        None
    } else {
        match router_match(triage_routes(), path) {
            Some((handler, params)) => Some(matched_page(handler, params)),
            None => None,
        }
    }
}

/// The triage page for a route that matched, from the name of its handler
/// and the parameters that it captured.
pub fn page_of_match(handler: &str, params: &Vec<(String, String)>) -> (page: Action)
    ensures
        page@ == matched_page(handler@, pairs_view(params@)),
{
    if str_eq(handler, "pulls") {
        let owner = find_value(params, "owner");
        let repo = find_value(params, "repo");
        match (owner, repo) {
            (Some(owner), Some(repo)) => Action::TriagePulls { owner, repo },
            _ => Action::TriageIndex,
        }
    } else {
        Action::TriageIndex
    }
}

/// The triage page that `path` names, if it names one.
pub fn triage(path: &str) -> (page: Option<Action>)
    ensures
        match page {
            Some(action) => triage_page(path@) == Some(action@),
            None => triage_page(path@) is None,
        },
{
    if has_nul_char(path) {
        return None;
    }
    let mut routes: Vec<(String, String)> = Vec::new();
    routes.push(("/triage".to_owned(), "index".to_owned()));
    routes.push(("/triage/:owner/:repo".to_owned(), "pulls".to_owned()));
    assert(pairs_view(routes@) =~= triage_routes());
    match recognize(&routes, path) {
        None => None,
        Some((handler, params)) => Some(page_of_match(handler.as_str(), &params)),
    }
}

/// The answer to a request for notifications whose query holds `pairs`:
/// the listing for the first user that they name, or a hint that the query
/// must name one.
pub open spec fn listing_for(pairs: Seq<(Seq<char>, Seq<char>)>) -> ActionView {
    match lookup(pairs, "user"@) {
        Some(user) => ActionView::Notifications { user },
        None => ActionView::Respond(
            plain(200, "Please provide `?user=<username>` query param on URL."@),
        ),
    }
}

/// The answer to a request for notifications: that for the pairs of its
/// query, where it has one.
pub open spec fn notifications_page(query: Option<Seq<char>>) -> ActionView {
    match query {
        Some(q) => listing_for(form_pairs(q)),
        None => listing_for(Seq::empty()),
    }
}

/// How a request on the webhook path is answered before its body is read.
/// Only `POST` is accepted; the event header must be there, be text and
/// name a recognized kind of event; the signature header must be there and
/// be text.
pub open spec fn webhook_action(request: RequestView) -> ActionView {
    if request.method != Method::Post {
        ActionView::Respond(
            ResponseView { status: 405, headers: seq![("Allow"@, "POST"@)], body: Seq::empty() },
        )
    } else {
        match request.event {
            HeaderView::Missing => ActionView::Respond(
                plain(400, "X-GitHub-Event header must be set"@),
            ),
            HeaderView::NotText => ActionView::Respond(
                plain(400, "X-GitHub-Event header must be UTF-8 encoded"@),
            ),
            HeaderView::Text(identifier) => match classified(identifier) {
                None => ActionView::Respond(
                    plain(400, "X-GitHub-Event header must name a recognized event"@),
                ),
                Some(event) => match request.signature {
                    HeaderView::Missing => ActionView::Respond(
                        signature_failure(SignatureError::MissingSignature),
                    ),
                    HeaderView::NotText => ActionView::Respond(
                        signature_failure(SignatureError::MalformedSignature),
                    ),
                    HeaderView::Text(signature) => ActionView::Webhook { event, signature },
                },
            },
        }
    }
}

/// The response to a request whose signature was not accepted. A signature
/// that does not match is forbidden, with one message whatever was wrong
/// with it.
pub open spec fn signature_failure(error: SignatureError) -> ResponseView {
    match error {
        SignatureError::MissingSignature => plain(400, "X-Hub-Signature header must be set"@),
        SignatureError::MalformedSignature => plain(
            400,
            "X-Hub-Signature header must be UTF-8 encoded"@,
        ),
        SignatureError::SignatureMismatch => plain(403, "Wrong signature"@),
    }
}

/// What is to be done for `request`.
pub open spec fn routed(request: RequestView) -> ActionView {
    if triage_page(request.path) is Some {
        triage_page(request.path)->Some_0
    } else if request.path == "/"@ {
        ActionView::Respond(plain(200, "Triagebot is awaiting triage."@))
    } else if request.path == "/bors-commit-list"@ {
        ActionView::CommitList
    } else if request.path == "/notifications"@ {
        notifications_page(request.query)
    } else if request.path == "/zulip-hook"@ {
        ActionView::ZulipHook
    } else if request.path != "/github-hook"@ {
        ActionView::Respond(plain(404, Seq::empty()))
    } else {
        webhook_action(request)
    }
}

/// The response to a request whose signature was not accepted.
pub fn signature_error_response(error: SignatureError) -> (response: Response)
    ensures
        response@ == signature_failure(error),
{
    match error {
        SignatureError::MissingSignature => respond(400, "X-Hub-Signature header must be set"),
        SignatureError::MalformedSignature => respond(
            400,
            "X-Hub-Signature header must be UTF-8 encoded",
        ),
        SignatureError::SignatureMismatch => respond(403, "Wrong signature"),
    }
}

/// The signature that a request carries.
pub fn signature_of(header: &HeaderValue) -> (signature: Result<String, SignatureError>)
    ensures
        match header@ {
            HeaderView::Missing => signature == Err::<String, SignatureError>(
                SignatureError::MissingSignature,
            ),
            HeaderView::NotText => signature == Err::<String, SignatureError>(
                SignatureError::MalformedSignature,
            ),
            HeaderView::Text(text) => signature is Ok && signature->Ok_0@ == text,
        },
{
    match header {
        HeaderValue::Missing => Err(SignatureError::MissingSignature),
        HeaderValue::NotText => Err(SignatureError::MalformedSignature),
        HeaderValue::Text(text) => Ok(text.clone()),
    }
}

/// The answer to a request for notifications whose query holds `pairs`.
pub fn notifications_of(pairs: &Vec<(String, String)>) -> (action: Action)
    ensures
        action@ == listing_for(pairs_view(pairs@)),
{
    match find_value(pairs, "user") {
        Some(user) => Action::Notifications { user },
        None => Action::Respond(
            respond(200, "Please provide `?user=<username>` query param on URL."),
        ),
    }
}

/// The answer to a request for notifications with this query.
pub fn notifications(query: &Option<String>) -> (action: Action)
    ensures
        action@ == notifications_page(
            match *query {
                Some(q) => Some(q@),
                None => None,
            },
        ),
{
    match query {
        Some(q) => {
            let pairs = parse_query(q.as_str());
            notifications_of(&pairs)
        },
        None => {
            let none: Vec<(String, String)> = Vec::new();
            assert(pairs_view(none@) =~= Seq::empty());
            notifications_of(&none)
        },
    }
}

/// How a request on the webhook path is answered before its body is read.
pub fn webhook(request: &Request) -> (action: Action)
    ensures
        action@ == webhook_action(request@),
{
    if request.method != Method::Post {
        let mut headers: Vec<(String, String)> = Vec::new();
        headers.push(("Allow".to_owned(), "POST".to_owned()));
        let response = Response { status: 405, headers, body: String::new() };
        assert(response@.headers =~= seq![("Allow"@, "POST"@)]);
        return Action::Respond(response);
    }
    let event = match &request.event {
        HeaderValue::Missing => {
            return Action::Respond(respond(400, "X-GitHub-Event header must be set"));
        },
        HeaderValue::NotText => {
            return Action::Respond(respond(400, "X-GitHub-Event header must be UTF-8 encoded"));
        },
        HeaderValue::Text(identifier) => match EventName::parse(identifier.as_str()) {
            Ok(event) => event,
            Err(_) => {
                return Action::Respond(
                    respond(400, "X-GitHub-Event header must name a recognized event"),
                );
            },
        },
    };
    match signature_of(&request.signature) {
        Ok(signature) => Action::Webhook { event, signature },
        Err(error) => Action::Respond(signature_error_response(error)),
    }
}

/// Decides what is to be done for a request, from its method, path, query
/// and headers alone: before the body is read.
pub fn route(request: &Request) -> (action: Action)
    ensures
        action@ == routed(request@),
{
    match triage(request.path.as_str()) {
        Some(action) => {
            return action;
        },
        None => {},
    }
    let path = request.path.as_str();
    if str_eq(path, "/") {
        Action::Respond(respond(200, "Triagebot is awaiting triage."))
    } else if str_eq(path, "/bors-commit-list") {
        Action::CommitList
    } else if str_eq(path, "/notifications") {
        notifications(&request.query)
    } else if str_eq(path, "/zulip-hook") {
        Action::ZulipHook
    } else if !str_eq(path, "/github-hook") {
        let response = respond(404, "");
        proof {
            reveal_strlit("");
            assert(""@ =~= Seq::<char>::empty());
        }
        Action::Respond(response)
    } else {
        webhook(request)
    }
}

/// One webhook event as it came in: the kind that its header names, the
/// raw body, and the signature that came with it. It is made for one
/// request and consumed once.
pub struct EventEnvelope {
    pub kind: EventName,
    pub body: Vec<u8>,
    pub signature: String,
}

/// What the body of a webhook request is worth: the text of a payload that
/// is signed with the secret and is valid UTF-8; a refusal otherwise,
/// first of all for a signature that does not match.
pub open spec fn authenticated(signature: Seq<char>, payload: Seq<u8>, secret: Seq<u8>) -> Result<
    Seq<char>,
    ResponseView,
> {
    if !accepts(secret, payload, signature) {
        Err(signature_failure(SignatureError::SignatureMismatch))
    } else if !valid_utf8(payload) {
        Err(plain(400, "Payload must be UTF-8"@))
    } else {
        Ok(decode_utf8(payload))
    }
}

/// Checks the body of a webhook event against its signature and the shared
/// secret, and then that it is text. Gives the event's kind and payload for
/// the dispatch, or the response that refuses the request.
pub fn authenticate(envelope: EventEnvelope, secret: &[u8]) -> (event: Result<
    (EventName, String),
    Response,
>)
    ensures
        match authenticated(envelope.signature@, envelope.body@, secret@) {
            Ok(t) => event is Ok && event->Ok_0.0 == envelope.kind && event->Ok_0.1@ == t,
            Err(r) => event is Err && event->Err_0@ == r,
        },
{
    let EventEnvelope { kind, body, signature } = envelope;
    match verify(body.as_slice(), signature.as_str(), secret) {
        Err(error) => Err(signature_error_response(error)),
        Ok(_) => match text_of(body) {
            Some(text) => Ok((kind, text)),
            None => Err(respond(400, "Payload must be UTF-8")),
        },
    }
}

/// The response to a webhook request after its dispatch.
pub open spec fn dispatched(result: Result<DispatchOutcome, DispatchError>) -> ResponseView {
    match result {
        Ok(DispatchOutcome::Processed) => plain(200, "processed request"@),
        Ok(DispatchOutcome::Ignored) => plain(200, "ignored request"@),
        Err(error) => plain(500, "request failed: "@ + error.cause@),
    }
}

/// The response to a webhook request after its dispatch: whether a handler
/// acted, or the failure of the handler that failed.
pub fn dispatch_response(result: Result<DispatchOutcome, DispatchError>) -> (response: Response)
    ensures
        response@ == dispatched(result),
{
    match result {
        Ok(DispatchOutcome::Processed) => respond(200, "processed request"),
        Ok(DispatchOutcome::Ignored) => respond(200, "ignored request"),
        Err(error) => {
            let mut body = "request failed: ".to_owned();
            body.append(error.cause.as_str());
            respond(500, body.as_str())
        },
    }
}

/// The response that lists commits, or says why they could not be listed.
pub open spec fn commit_list(result: Result<Seq<char>, Seq<char>>) -> ResponseView {
    match result {
        Ok(json) => ResponseView {
            status: 200,
            headers: seq![("Content-Type"@, "application/json"@)],
            body: json,
        },
        Err(reason) => plain(500, reason),
    }
}

/// The response to a request for the list of commits: the list as JSON, or
/// the reason for which the store could not give it.
pub fn commit_list_response(result: Result<String, String>) -> (response: Response)
    ensures
        response@ == commit_list(
            match result {
                Ok(json) => Ok(json@),
                Err(reason) => Err(reason@),
            },
        ),
{
    match result {
        Ok(json) => {
            let mut headers: Vec<(String, String)> = Vec::new();
            headers.push(("Content-Type".to_owned(), "application/json".to_owned()));
            let response = Response { status: 200, headers, body: json };
            assert(response@.headers =~= seq![("Content-Type"@, "application/json"@)]);
            response
        },
        Err(reason) => respond(500, reason.as_str()),
    }
}

/// The response to a chat hook request whose body is not valid JSON.
pub fn invalid_json_response(reason: &str) -> (response: Response)
    ensures
        response@ == plain(400, "Did not send valid JSON request: "@ + reason@),
{
    let mut body = "Did not send valid JSON request: ".to_owned();
    body.append(reason);
    respond(400, body.as_str())
}

/// Adds the identifier of the request to a response, as the last header.
pub fn with_request_id(response: Response, id: String) -> (tagged: Response)
    ensures
        tagged@ == (ResponseView {
            headers: response@.headers.push(("X-Request-Id"@, id@)),
            ..response@
        }),
{
    let Response { status, mut headers, body } = response;
    let ghost before = pairs_view(headers@);
    headers.push(("X-Request-Id".to_owned(), id));
    let tagged = Response { status, headers, body };
    assert(tagged@.headers =~= before.push(("X-Request-Id"@, id@)));
    tagged
}

/// The webhook path takes `POST` alone: a request with another method is
/// refused with 405 and told which method is allowed, whatever its headers.
pub proof fn lemma_webhook_needs_post(request: RequestView)
    requires
        request.method != Method::Post,
    ensures
        webhook_action(request) == ActionView::Respond(
            ResponseView { status: 405, headers: seq![("Allow"@, "POST"@)], body: Seq::empty() },
        ),
{
}

/// A webhook request without an event header is a bad request, with the
/// message that says so, whatever its signature header is: the event header
/// comes first.
pub proof fn lemma_webhook_needs_event(request: RequestView)
    requires
        request.method == Method::Post,
        request.event is Missing,
    ensures
        webhook_action(request) == ActionView::Respond(
            plain(400, "X-GitHub-Event header must be set"@),
        ),
{
}

/// A webhook request whose event header names no recognized kind is a bad
/// request, whatever its signature header is.
pub proof fn lemma_webhook_needs_known_event(request: RequestView, identifier: Seq<char>)
    requires
        request.method == Method::Post,
        request.event == HeaderView::Text(identifier),
        classified(identifier) is None,
    ensures
        webhook_action(request) == ActionView::Respond(
            plain(400, "X-GitHub-Event header must name a recognized event"@),
        ),
{
}

/// The body of a webhook request is read, and handlers are invoked, only
/// for a `POST` whose event header is the identifier of a recognized kind
/// and whose signature header is text; the event is then of that kind.
pub proof fn lemma_webhook_goes_on(request: RequestView)
    ensures
        webhook_action(request) is Webhook <==> request.method == Method::Post && request.event is Text
            && classified(request.event->Text_0) is Some && request.signature is Text,
        webhook_action(request) is Webhook ==> webhook_action(request) == (ActionView::Webhook {
            event: classified(request.event->Text_0)->Some_0,
            signature: request.signature->Text_0,
        }),
{
}

/// Where no triage page matches, a request on the webhook path is answered
/// as a webhook request.
pub proof fn lemma_webhook_path(request: RequestView)
    requires
        request.path == "/github-hook"@,
        triage_page(request.path) is None,
    ensures
        routed(request) == webhook_action(request),
{
    reveal_strlit("/github-hook");
    reveal_strlit("/");
    reveal_strlit("/bors-commit-list");
    reveal_strlit("/notifications");
    reveal_strlit("/zulip-hook");
    assert("/github-hook"@.len() == 12);
    assert("/github-hook"@[1] == 'g');
}

/// A signature other than the one that the secret gives for the payload is
/// forbidden, with one response whatever was altered and whether or not the
/// payload is text: the signature is held against the raw bytes first.
pub proof fn lemma_other_signature_forbidden(signature: Seq<char>, payload: Seq<u8>, secret: Seq<u8>)
    requires
        signature != signature_text(secret, payload),
    ensures
        authenticated(signature, payload, secret) == Err::<Seq<char>, ResponseView>(
            plain(403, "Wrong signature"@),
        ),
{
}

/// A payload with the signature that the secret gives for it is handed on
/// exactly when it is valid UTF-8, as the text that it encodes.
pub proof fn lemma_signed_payload_handed_on(payload: Seq<u8>, secret: Seq<u8>)
    ensures
        valid_utf8(payload) ==> authenticated(signature_text(secret, payload), payload, secret)
            == Ok::<Seq<char>, ResponseView>(decode_utf8(payload)),
        !valid_utf8(payload) ==> authenticated(signature_text(secret, payload), payload, secret)
            == Err::<Seq<char>, ResponseView>(plain(400, "Payload must be UTF-8"@)),
{
}

} // verus!
