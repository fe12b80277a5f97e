//! From a package record to the URL of its archive.
//!
//! A registry publishes the base URL of its downloads in a configuration
//! document, `config.json`, under the key `dl`. A resolver asks for that
//! document once, keeps the base URL, and builds every link from it.
//!
//! The resolver performs no request itself. Each call takes what has
//! happened so far and answers with the next thing to do.

use crate::http::{outcome_view, HttpResponse, HttpResponseView};
use crate::lockfile::{Crate, CrateView};
use vstd::prelude::*;
use vstd::string::*;

verus! {

/// Why no link could be made.
#[derive(Debug, Clone, Copy, PartialEq, Eq, Structural)]
pub enum ResolutionError {
    /// A request failed in transport.
    Transport,
    /// The configuration document is not JSON.
    MalformedConfig,
    /// The configuration document has no `dl` member, or one that is no string.
    MissingDownloadUrl,
}

/// What a JSON document holds under a key.
#[derive(Debug, Clone, PartialEq, Eq)]
pub enum JsonMember {
    /// The document is no object, or has no such key.
    Absent,
    Null,
    Bool,
    Number,
    Text(String),
    Array,
    Object,
}

/// A member of a JSON document, as plain values.
pub enum JsonMemberView {
    Absent,
    Null,
    Bool,
    Number,
    Text(Seq<char>),
    Array,
    Object,
}

impl View for JsonMember {
    type V = JsonMemberView;

    open spec fn view(&self) -> JsonMemberView {
        match self {
            JsonMember::Absent => JsonMemberView::Absent,
            JsonMember::Null => JsonMemberView::Null,
            JsonMember::Bool => JsonMemberView::Bool,
            JsonMember::Number => JsonMemberView::Number,
            JsonMember::Text(text) => JsonMemberView::Text(text@),
            JsonMember::Array => JsonMemberView::Array,
            JsonMember::Object => JsonMemberView::Object,
        }
    }
}

/// What `serde_json` finds under `key` in `document`, or `None` where it
/// does not accept `document` as JSON.
pub uninterp spec fn json_member(document: Seq<u8>, key: Seq<char>) -> Option<JsonMemberView>;

/// `serde_json::Error`, the reason for which a document was not accepted.
/// Nothing is read from it.
#[verifier::external_type_specification]
#[verifier::external_body]
pub struct ExJsonError(serde_json::Error);

/// Parses `document` with `serde_json::from_slice` and looks `key` up with
/// `serde_json::Value::get`. Trusted: the outcome is the one that
/// [`json_member`] names for the same bytes and key, an error standing for
/// `None`.
#[verifier::external_body]
fn json_member_of(document: &[u8], key: &str) -> (member: Result<JsonMember, serde_json::Error>)
    ensures
        match member {
            Ok(member) => json_member(document@, key@) == Some(member@),
            Err(_) => json_member(document@, key@) is None,
        },
{
    let value: serde_json::Value = serde_json::from_slice(document)?;
    Ok(
        match value.get(key) {
            None => JsonMember::Absent,
            Some(serde_json::Value::Null) => JsonMember::Null,
            Some(serde_json::Value::Bool(_)) => JsonMember::Bool,
            Some(serde_json::Value::Number(_)) => JsonMember::Number,
            Some(serde_json::Value::String(text)) => JsonMember::Text(text.clone()),
            Some(serde_json::Value::Array(_)) => JsonMember::Array,
            Some(serde_json::Value::Object(_)) => JsonMember::Object,
        },
    )
}

/// The URL of a registry's configuration document.
pub open spec fn registry_config_url(remote_registry_url: Seq<char>) -> Seq<char> {
    remote_registry_url + "/raw/master/config.json"@
}

/// The URL of a package's archive: `{registry_dl_url}/{crate_name}/{version}/download`.
pub open spec fn download_link(
    registry_dl_url: Seq<char>,
    crate_name: Seq<char>,
    version: Seq<char>,
) -> Seq<char> {
    registry_dl_url + "/"@ + crate_name + "/"@ + version + "/download"@
}

/// The base URL that a looked-up `dl` member gives.
pub open spec fn dl_url_of(member: Option<JsonMemberView>) -> Result<Seq<char>, ResolutionError> {
    match member {
        None => Err(ResolutionError::MalformedConfig),
        Some(JsonMemberView::Text(url)) => Ok(url),
        Some(_) => Err(ResolutionError::MissingDownloadUrl),
    }
}

/// The base URL that a configuration document gives.
pub open spec fn config_dl_url(body: Seq<u8>) -> Result<Seq<char>, ResolutionError> {
    dl_url_of(json_member(body, "dl"@))
}

/// What has happened in a resolution.
#[derive(Debug, Clone, PartialEq, Eq)]
pub enum ResolveEvent {
    /// Nothing yet.
    Start,
    /// The request for the configuration document ended.
    Config(Option<HttpResponse>),
    /// The request that followed a redirection ended.
    Redirected(Option<HttpResponse>),
}

/// A resolution event, as plain values.
pub enum ResolveEventView {
    Start,
    Config(Option<HttpResponseView>),
    Redirected(Option<HttpResponseView>),
}

impl View for ResolveEvent {
    type V = ResolveEventView;

    open spec fn view(&self) -> ResolveEventView {
        match self {
            ResolveEvent::Start => ResolveEventView::Start,
            ResolveEvent::Config(outcome) => ResolveEventView::Config(outcome_view(*outcome)),
            ResolveEvent::Redirected(outcome) => ResolveEventView::Redirected(
                outcome_view(*outcome),
            ),
        }
    }
}

/// What to do next in a resolution.
#[derive(Debug, Clone, PartialEq, Eq)]
pub enum ResolveStep {
    /// Request the configuration document at this URL; answer with
    /// [`ResolveEvent::Config`].
    FetchConfig(String),
    /// Request this URL, to which the registry redirected; answer with
    /// [`ResolveEvent::Redirected`].
    FollowRedirect(String),
    /// The resolution is done, with this URL.
    Resolved(String),
    /// The resolution has failed.
    Failed(ResolutionError),
}

/// A resolution step, as plain values.
pub enum ResolveStepView {
    FetchConfig(Seq<char>),
    FollowRedirect(Seq<char>),
    Resolved(Seq<char>),
    Failed(ResolutionError),
}

impl View for ResolveStep {
    type V = ResolveStepView;

    open spec fn view(&self) -> ResolveStepView {
        match self {
            ResolveStep::FetchConfig(url) => ResolveStepView::FetchConfig(url@),
            ResolveStep::FollowRedirect(url) => ResolveStepView::FollowRedirect(url@),
            ResolveStep::Resolved(url) => ResolveStepView::Resolved(url@),
            ResolveStep::Failed(error) => ResolveStepView::Failed(*error),
        }
    }
}

impl ResolveStepView {
    /// The step asks for a request.
    pub open spec fn is_request(self) -> bool {
        self is FetchConfig || self is FollowRedirect
    }
}

/// What to do with the response to a request that may be redirected once.
#[derive(Debug, Clone, PartialEq, Eq)]
pub enum FollowStep {
    /// Request this URL, and take the body of whatever answers.
    Follow(String),
    /// The body has arrived.
    Body(Vec<u8>),
    /// The request failed in transport.
    Failed,
}

/// A follow step, as plain values.
pub enum FollowStepView {
    Follow(Seq<char>),
    Body(Seq<u8>),
    Failed,
}

impl View for FollowStep {
    type V = FollowStepView;

    open spec fn view(&self) -> FollowStepView {
        match self {
            FollowStep::Follow(url) => FollowStepView::Follow(url@),
            FollowStep::Body(body) => FollowStepView::Body(body@),
            FollowStep::Failed => FollowStepView::Failed,
        }
    }
}

/// What the first response to a request calls for.
pub open spec fn followed(outcome: Option<HttpResponseView>) -> FollowStepView {
    match outcome {
        None => FollowStepView::Failed,
        Some(response) => if response.redirects() {
            FollowStepView::Follow(response.location->0)
        } else {
            FollowStepView::Body(response.body)
        },
    }
}

/// Decides on the first response to a request: a redirection that names a
/// location is followed, any other response gives its body.
pub fn follow_get(outcome: Option<HttpResponse>) -> (step: FollowStep)
    ensures
        step@ == followed(outcome_view(outcome)),
{
    match outcome {
        None => FollowStep::Failed,
        Some(response) => {
            if 300 <= response.status && response.status < 400 {
                match response.location {
                    Some(location) => FollowStep::Follow(location),
                    None => FollowStep::Body(response.body),
                }
            } else {
                FollowStep::Body(response.body)
            }
        },
    }
}

/// A looked-up member, as plain values: `None` where the document was not
/// accepted.
pub open spec fn lookup_view(member: Option<JsonMember>) -> Option<JsonMemberView> {
    match member {
        Some(member) => Some(member@),
        None => None,
    }
}

/// A base URL or the reason for having none, as plain values.
pub open spec fn url_view(url: Result<String, ResolutionError>) -> Result<
    Seq<char>,
    ResolutionError,
> {
    match url {
        Ok(url) => Ok(url@),
        Err(error) => Err(error),
    }
}

/// The base URL that a looked-up `dl` member gives: the member's text where
/// it is a string, an error otherwise.
pub fn registry_dl_url_of(member: Option<JsonMember>) -> (url: Result<String, ResolutionError>)
    ensures
        url_view(url) == dl_url_of(lookup_view(member)),
{
    match member {
        None => Err(ResolutionError::MalformedConfig),
        Some(JsonMember::Text(url)) => Ok(url),
        Some(_) => Err(ResolutionError::MissingDownloadUrl),
    }
}

/// The base URL that a configuration document gives.
pub fn registry_dl_url_in(body: &[u8]) -> (url: Result<String, ResolutionError>)
    ensures
        url_view(url) == config_dl_url(body@),
{
    let member = match json_member_of(body, "dl") {
        Ok(member) => Some(member),
        Err(_) => None,
    };
    registry_dl_url_of(member)
}

/// Resolves packages against one remote registry.
///
/// A resolver starts without the registry's base URL. The first successful
/// answer to a configuration request gives it one, and it keeps that URL
/// unchanged from then on.
#[derive(Debug)]
pub struct RemoteRegistrySourceResolver {
    remote_registry_url: String,
    cached_registry_dl_url: Option<String>,
}

/// A resolver, as plain values.
pub struct ResolverView {
    pub remote_registry_url: Seq<char>,
    pub cached_registry_dl_url: Option<Seq<char>>,
}

impl View for RemoteRegistrySourceResolver {
    type V = ResolverView;

    closed spec fn view(&self) -> ResolverView {
        ResolverView {
            remote_registry_url: self.remote_registry_url@,
            cached_registry_dl_url: match self.cached_registry_dl_url {
                Some(url) => Some(url@),
                None => None,
            },
        }
    }
}

/// The base URL that a resolver holds after a configuration document has
/// given `found`: the one it had, or else the one found.
pub open spec fn kept_dl_url(
    cached: Option<Seq<char>>,
    found: Result<Seq<char>, ResolutionError>,
) -> Option<Seq<char>> {
    match (cached, found) {
        (None, Ok(url)) => Some(url),
        _ => cached,
    }
}

/// The step that ends a search for the base URL once a body has arrived.
pub open spec fn dl_url_concluded(
    cached: Option<Seq<char>>,
    found: Result<Seq<char>, ResolutionError>,
) -> ResolveStepView {
    match found {
        Ok(_) => ResolveStepView::Resolved(kept_dl_url(cached, found)->0),
        Err(error) => ResolveStepView::Failed(error),
    }
}

/// The next step of a search for the base URL, and the base URL that the
/// resolver holds after it.
pub open spec fn dl_url_step(resolver: ResolverView, event: ResolveEventView) -> (
    Option<Seq<char>>,
    ResolveStepView,
) {
    let cached = resolver.cached_registry_dl_url;
    match event {
        ResolveEventView::Start => match cached {
            Some(url) => (cached, ResolveStepView::Resolved(url)),
            None => (
                cached,
                ResolveStepView::FetchConfig(registry_config_url(resolver.remote_registry_url)),
            ),
        },
        ResolveEventView::Config(outcome) => match followed(outcome) {
            FollowStepView::Failed => (cached, ResolveStepView::Failed(ResolutionError::Transport)),
            FollowStepView::Follow(url) => (cached, ResolveStepView::FollowRedirect(url)),
            FollowStepView::Body(body) => (
                kept_dl_url(cached, config_dl_url(body)),
                dl_url_concluded(cached, config_dl_url(body)),
            ),
        },
        ResolveEventView::Redirected(outcome) => match outcome {
            None => (cached, ResolveStepView::Failed(ResolutionError::Transport)),
            Some(response) => (
                kept_dl_url(cached, config_dl_url(response.body)),
                dl_url_concluded(cached, config_dl_url(response.body)),
            ),
        },
    }
}

/// A step towards a link: a base URL, once found, becomes the link of the
/// package; every other step stands as it is.
pub open spec fn link_step(step: ResolveStepView, record: CrateView) -> ResolveStepView {
    match step {
        ResolveStepView::Resolved(url) => ResolveStepView::Resolved(
            download_link(url, record.crate_name, record.version),
        ),
        _ => step,
    }
}

impl RemoteRegistrySourceResolver {
    /// A resolver for the registry at `remote_registry_url`, without a base URL.
    pub fn new(remote_registry_url: &str) -> (resolver: Self)
        ensures
            resolver@.remote_registry_url == remote_registry_url@,
            resolver@.cached_registry_dl_url is None,
    {
        RemoteRegistrySourceResolver {
            remote_registry_url: remote_registry_url.to_owned(),
            cached_registry_dl_url: None,
        }
    }

    /// Ends a search once the body of the configuration document is here:
    /// reads the base URL from it and keeps it, unless one is kept already.
    fn conclude(&mut self, body: &[u8]) -> (step: ResolveStep)
        ensures
            final(self)@.remote_registry_url == old(self)@.remote_registry_url,
            final(self)@.cached_registry_dl_url == kept_dl_url(
                old(self)@.cached_registry_dl_url,
                config_dl_url(body@),
            ),
            step@ == dl_url_concluded(old(self)@.cached_registry_dl_url, config_dl_url(body@)),
    {
        match registry_dl_url_in(body) {
            Ok(url) => {
                match &self.cached_registry_dl_url {
                    Some(cached) => ResolveStep::Resolved(cached.clone()),
                    None => {
                        self.cached_registry_dl_url = Some(url.clone());
                        ResolveStep::Resolved(url)
                    },
                }
            },
            Err(error) => ResolveStep::Failed(error),
        }
    }

    /// Takes a search for the registry's base URL one step further.
    ///
    /// At the start, a resolver that holds the base URL answers with it at
    /// once; another asks for the configuration document. A response that
    /// redirects is followed once. The body that arrives then is read as
    /// JSON, and its `dl` member is the base URL.
    pub fn get_registry_dl_url(&mut self, event: ResolveEvent) -> (step: ResolveStep)
        ensures
            final(self)@.remote_registry_url == old(self)@.remote_registry_url,
            final(self)@.cached_registry_dl_url == dl_url_step(old(self)@, event@).0,
            step@ == dl_url_step(old(self)@, event@).1,
    {
        match event {
            ResolveEvent::Start => {
                match &self.cached_registry_dl_url {
                    Some(cached) => ResolveStep::Resolved(cached.clone()),
                    None => {
                        let mut url = self.remote_registry_url.clone();
                        url.append("/raw/master/config.json");
                        ResolveStep::FetchConfig(url)
                    },
                }
            },
            ResolveEvent::Config(outcome) => {
                match follow_get(outcome) {
                    FollowStep::Failed => ResolveStep::Failed(ResolutionError::Transport),
                    FollowStep::Follow(url) => ResolveStep::FollowRedirect(url),
                    FollowStep::Body(body) => self.conclude(body.as_slice()),
                }
            },
            ResolveEvent::Redirected(outcome) => {
                match outcome {
                    None => ResolveStep::Failed(ResolutionError::Transport),
                    Some(response) => self.conclude(response.body.as_slice()),
                }
            },
        }
    }

    /// The link of a package's archive under the base URL `registry_dl_url`.
    pub fn resolve_crate_download_link(
        &self,
        _crate: &Crate,
        registry_dl_url: String,
    ) -> (link: String)
        ensures
            link@ == download_link(registry_dl_url@, _crate@.crate_name, _crate@.version),
    {
        let mut link = registry_dl_url;
        link.append("/");
        link.append(_crate.crate_name);
        link.append("/");
        link.append(_crate.version);
        link.append("/download");
        link
    }

    /// Takes the resolution of a package one step further: finds the
    /// registry's base URL as [`Self::get_registry_dl_url`] does, and makes
    /// the package's link from it.
    pub fn resolve_crate(&mut self, _crate: &Crate, event: ResolveEvent) -> (step: ResolveStep)
        ensures
            final(self)@.remote_registry_url == old(self)@.remote_registry_url,
            final(self)@.cached_registry_dl_url == dl_url_step(old(self)@, event@).0,
            step@ == link_step(dl_url_step(old(self)@, event@).1, _crate@),
    {
        match self.get_registry_dl_url(event) {
            ResolveStep::Resolved(registry_dl_url) => ResolveStep::Resolved(
                self.resolve_crate_download_link(_crate, registry_dl_url),
            ),
            step => step,
        }
    }
}

/// A resolution asks for the configuration document at most once, and
/// only at its start; it follows at most one redirection, and only on the
/// answer to that first request.
pub proof fn lemma_resolution_requests(
    resolver: ResolverView,
    config: Option<HttpResponseView>,
    redirected: Option<HttpResponseView>,
)
    ensures
        dl_url_step(resolver, ResolveEventView::Start).1 == match resolver.cached_registry_dl_url {
            Some(url) => ResolveStepView::Resolved(url),
            None => ResolveStepView::FetchConfig(registry_config_url(resolver.remote_registry_url)),
        },
        !(dl_url_step(resolver, ResolveEventView::Config(config)).1 is FetchConfig),
        dl_url_step(resolver, ResolveEventView::Config(config)).1 is FollowRedirect
            <==> config is Some && config->0.redirects(),
        !dl_url_step(resolver, ResolveEventView::Redirected(redirected)).1.is_request(),
{
}

/// A resolver that holds a base URL keeps it, whatever happens.
pub proof fn lemma_base_url_is_kept(resolver: ResolverView, event: ResolveEventView)
    requires
        resolver.cached_registry_dl_url is Some,
    ensures
        dl_url_step(resolver, event).0 == resolver.cached_registry_dl_url,
{
}

/// Once a resolution has ended with a link, the resolver holds the base URL
/// of which the link was made; a later resolution, of any package, then
/// asks for nothing and makes its link of the same base URL.
pub proof fn lemma_later_resolutions_ask_nothing(
    resolver: ResolverView,
    event: ResolveEventView,
    record: CrateView,
    later: CrateView,
)
    requires
        link_step(dl_url_step(resolver, event).1, record) is Resolved,
    ensures
        ({
            let held = dl_url_step(resolver, event).0;
            let after = ResolverView {
                remote_registry_url: resolver.remote_registry_url,
                cached_registry_dl_url: held,
            };
            &&& held is Some
            &&& link_step(dl_url_step(resolver, event).1, record) == ResolveStepView::Resolved(
                download_link(held->0, record.crate_name, record.version),
            )
            &&& dl_url_step(after, ResolveEventView::Start).0 == held
            &&& link_step(dl_url_step(after, ResolveEventView::Start).1, later)
                == ResolveStepView::Resolved(
                download_link(held->0, later.crate_name, later.version),
            )
        }),
{
}

} // verus!
