//! The client: its configuration, and the requests that it sends.

use std::time::Duration;

use reqwest::header::{HeaderMap, HeaderValue};
use vstd::prelude::*;
use vstd::set_lib::{lemma_len_subset, lemma_len_union};
use vstd::string::*;
use vstd::utf8::*;

use crate::headers::{
    add_missing, copied_headers, header_bytes, header_contents, is_plain_name, is_value_text,
    lemma_printable_is_value_text, no_contents, no_headers, sure_room, text_value,
};
use crate::json::{Json, Tree};
use crate::text::{
    blank, is_blank, join, join3, lemma_trim_blank, lemma_trim_slashes_end, optional, quoted,
    quoted_text, same_text, trim_slashes, trimmed, without_trailing_slashes,
};
use crate::time::nanos;
use crate::typesafe::error::{optional_nanos, optional_tree, Error, ErrorView};
use crate::typesafe::question::Question;
use crate::typesafe::request::{RequestView, SystemOneRequest};
use crate::typesafe::retry::{default_policy, RetryPolicy, RetryPolicyView};

verus! {

/// Version of this client, reported in the `User-Agent` header.
pub const VERSION: &'static str = "0.1.0";

/// Default API root, used when [`ENV_BASE_URL`] is not set.
pub const DEFAULT_BASE_URL: &'static str = "https://api.typesafe.ai";

/// Default model, used when [`ENV_DEFAULT_MODEL`] is not set and a request
/// does not override the model.
pub const DEFAULT_MODEL: &'static str = "jev-latest";

/// Default per-attempt timeout, in seconds.
pub const DEFAULT_TIMEOUT_SECS: u64 = 10;

/// Environment variable holding the API key.
pub const ENV_API_KEY: &'static str = "TYPESAFE_API_KEY";

/// Environment variable overriding the API root.
pub const ENV_BASE_URL: &'static str = "TYPESAFE_BASE_URL";

/// Environment variable overriding the default model.
pub const ENV_DEFAULT_MODEL: &'static str = "TYPESAFE_DEFAULT_MODEL";

pub const SYSTEMONE_PATH: &'static str = "/v1/systemone";

pub const MODELS_PATH: &'static str = "/v1/models";

pub const USER_AGENT_VALUE: &'static str = "typesafe-rust/0.1.0";

#[verifier::external_type_specification]
#[verifier::external_body]
pub struct ExClient(reqwest::Client);

/// Client for the TypeSafe AI API.
///
/// Configuration precedence matches the official SDKs: explicit options, then
/// environment variables, then SDK defaults. Empty or whitespace-only
/// environment values are ignored. Build one with
/// [`TypeSafeClient::builder`] or [`TypeSafeClient::from_env`].
///
/// The client is cheap to clone; clones share the underlying connection pool.
#[derive(Debug)]
pub struct TypeSafeClient {
    http: reqwest::Client,
    base_url: String,
    auth_header: HeaderValue,
    default_model: String,
    default_headers: HeaderMap,
    timeout: Duration,
    retry: RetryPolicy,
}

/// How a [`TypeSafeClient`] is configured: the API root, the value of the
/// `Authorization` header, the default model, the additional headers, the
/// timeout in nanoseconds and the retry policy.
pub struct ClientView {
    pub base_url: Seq<char>,
    pub authorization: Seq<u8>,
    pub default_model: Seq<char>,
    pub default_headers: Map<Seq<char>, Seq<Seq<u8>>>,
    pub timeout: nat,
    pub retry: RetryPolicyView,
}

/// Builder for [`TypeSafeClient`]. Start with [`TypeSafeClient::builder`].
#[derive(Debug)]
pub struct ClientBuilder {
    api_key: Option<String>,
    base_url: Option<String>,
    default_model: Option<String>,
    timeout: Option<Duration>,
    default_headers: Option<HeaderMap>,
    retry: Option<RetryPolicy>,
    http: Option<reqwest::Client>,
}

/// The options of a [`ClientBuilder`] that were set.
pub struct BuilderView {
    pub api_key: Option<Seq<char>>,
    pub base_url: Option<Seq<char>>,
    pub default_model: Option<Seq<char>>,
    pub timeout: Option<nat>,
    pub default_headers: Option<Map<Seq<char>, Seq<Seq<u8>>>>,
    pub retry: Option<RetryPolicyView>,
    pub http: Option<reqwest::Client>,
}

/// The options of a builder of which none was set.
pub open spec fn no_options() -> BuilderView {
    BuilderView {
        api_key: None,
        base_url: None,
        default_model: None,
        timeout: None,
        default_headers: None,
        retry: None,
        http: None,
    }
}

/// The values of [`ENV_API_KEY`], [`ENV_BASE_URL`] and [`ENV_DEFAULT_MODEL`],
/// as the environment has them.
#[derive(Debug)]
pub struct Environment {
    pub api_key: Option<String>,
    pub base_url: Option<String>,
    pub default_model: Option<String>,
}

/// What an [`Environment`] holds.
pub struct EnvironmentView {
    pub api_key: Option<Seq<char>>,
    pub base_url: Option<Seq<char>>,
    pub default_model: Option<Seq<char>>,
}

impl View for Environment {
    type V = EnvironmentView;

    open spec fn view(&self) -> EnvironmentView {
        EnvironmentView {
            api_key: optional(self.api_key),
            base_url: optional(self.base_url),
            default_model: optional(self.default_model),
        }
    }
}

/// What optional headers hold.
pub open spec fn optional_contents(headers: Option<HeaderMap>) -> Option<
    Map<Seq<char>, Seq<Seq<u8>>>,
> {
    match headers {
        Some(headers) => Some(header_contents(headers)),
        None => None,
    }
}

/// What an optional policy says.
pub open spec fn optional_policy(policy: Option<RetryPolicy>) -> Option<RetryPolicyView> {
    match policy {
        Some(policy) => Some(policy@),
        None => None,
    }
}

impl View for ClientBuilder {
    type V = BuilderView;

    closed spec fn view(&self) -> BuilderView {
        BuilderView {
            api_key: optional(self.api_key),
            base_url: optional(self.base_url),
            default_model: optional(self.default_model),
            timeout: optional_nanos(self.timeout),
            default_headers: optional_contents(self.default_headers),
            retry: optional_policy(self.retry),
            http: self.http,
        }
    }
}

impl View for TypeSafeClient {
    type V = ClientView;

    closed spec fn view(&self) -> ClientView {
        ClientView {
            base_url: self.base_url@,
            authorization: header_bytes(self.auth_header),
            default_model: self.default_model@,
            default_headers: header_contents(self.default_headers),
            timeout: nanos(self.timeout),
            retry: self.retry@,
        }
    }
}

impl TypeSafeClient {
    #[verifier::type_invariant]
    spec fn inv(self) -> bool {
        no_trailing_slash(self.base_url@) && is_web_url(self.base_url@)
    }
}

/// `reqwest::Client::clone`, which clones the `Arc` that a client is: the same
/// client, with the same connection pool.
pub assume_specification[ <reqwest::Client as Clone>::clone ](client: &reqwest::Client) -> (r:
    reqwest::Client)
    ensures
        r == *client,
;

impl Clone for TypeSafeClient {
    fn clone(&self) -> (copy: Self)
        ensures
            copy@ == self@,
            copy.http_spec() == self.http_spec(),
    {
        proof {
            use_type_invariant(self);
        }
        TypeSafeClient {
            http: self.http.clone(),
            base_url: self.base_url.clone(),
            auth_header: self.auth_header.clone(),
            default_model: self.default_model.clone(),
            default_headers: copied_headers(&self.default_headers),
            timeout: self.timeout,
            retry: self.retry.clone(),
        }
    }
}

// ---------------------------------------------------------------------------
// Configuration
// ---------------------------------------------------------------------------

/// Whether a text does not end with a slash.
pub open spec fn no_trailing_slash(text: Seq<char>) -> bool {
    text.len() > 0 ==> text.last() != '/'
}

/// Whether a text is a URL with the scheme `http` or `https`.
pub open spec fn is_web_url(text: Seq<char>) -> bool {
    url_scheme_of(text) == Ok::<Seq<char>, Seq<char>>("http"@) || url_scheme_of(text) == Ok::<
        Seq<char>,
        Seq<char>,
    >("https"@)
}

/// The value of an environment variable, without white space at its ends. A
/// blank one counts as not set.
pub open spec fn set_value(value: Option<Seq<char>>) -> Option<Seq<char>> {
    match value {
        Some(text) if !is_blank(text) => Some(trimmed(text)),
        _ => None,
    }
}

/// The scheme of the URL that a text says, or how the error reads where it
/// says none, as `Url::parse` finds it.
pub uninterp spec fn url_scheme_of(text: Seq<char>) -> Result<Seq<char>, Seq<char>>;

/// `Url::parse`, of which the scheme or the text of the error is kept. Which
/// texts are URLs is left to the name.
#[verifier::external_body]
fn url_scheme(text: &str) -> (r: Result<String, String>)
    ensures
        match r {
            Ok(scheme) => url_scheme_of(text@) == Ok::<_, Seq<char>>(scheme@),
            Err(message) => url_scheme_of(text@) == Err::<Seq<char>, _>(message@),
        },
{
    match reqwest::Url::parse(text) {
        Ok(url) => Ok(url.scheme().to_owned()),
        Err(error) => Err(error.to_string()),
    }
}

/// `reqwest::Client::builder` and its `build`, which set up TLS and read the
/// machine's configuration: the client, or how the error reads. Nothing is
/// said of either.
#[verifier::external_body]
fn new_http_client() -> (r: Result<reqwest::Client, String>) {
    reqwest::Client::builder().build().map_err(|error| error.to_string())
}

/// The base URL without white space at its ends and without slashes at its
/// end, or what is wrong with it, given the scheme that it has as a URL.
pub open spec fn base_url_of(
    base_url: Seq<char>,
    scheme: Result<Seq<char>, Seq<char>>,
) -> Result<Seq<char>, Seq<char>> {
    match scheme {
        Err(message) => Err("invalid base URL "@ + quoted_text(base_url) + ": "@ + message),
        Ok(scheme) => if scheme == "http"@ || scheme == "https"@ {
            Ok(trim_slashes(trimmed(base_url)))
        } else {
            Err(
                "invalid base URL "@ + quoted_text(base_url)
                    + ": the scheme must be http or https"@,
            )
        },
    }
}

/// The base URL that a text says, or what is wrong with it.
pub open spec fn normal_base_url(base_url: Seq<char>) -> Result<Seq<char>, Seq<char>> {
    base_url_of(base_url, url_scheme_of(trim_slashes(trimmed(base_url))))
}

/// The configuration that the options that were set, the environment and the
/// defaults give, in this order, or what is wrong with it.
pub open spec fn configuration(builder: BuilderView, env: EnvironmentView) -> Result<
    ClientView,
    Seq<char>,
> {
    let api_key = match builder.api_key {
        Some(key) => Some(key),
        None => set_value(env.api_key),
    };
    let base_url = match (builder.base_url, set_value(env.base_url)) {
        (Some(url), _) => url,
        (None, Some(url)) => url,
        (None, None) => DEFAULT_BASE_URL@,
    };
    let default_model = match (builder.default_model, set_value(env.default_model)) {
        (Some(model), _) => model,
        (None, Some(model)) => model,
        (None, None) => DEFAULT_MODEL@,
    };
    match api_key {
        None => Err(
            "missing API key: set the "@ + ENV_API_KEY@
                + " environment variable or pass ClientBuilder::api_key"@,
        ),
        Some(key) => if !is_value_text("Bearer "@ + key) {
            Err("the API key contains characters that are not valid in an HTTP header"@)
        } else {
            match normal_base_url(base_url) {
                Err(fault) => Err(fault),
                Ok(base_url) => Ok(
                    ClientView {
                        base_url,
                        authorization: encode_utf8("Bearer "@ + key),
                        default_model,
                        default_headers: match builder.default_headers {
                            Some(headers) => headers,
                            None => no_contents(),
                        },
                        timeout: match builder.timeout {
                            Some(timeout) => timeout,
                            None => (DEFAULT_TIMEOUT_SECS * 1_000_000_000) as nat,
                        },
                        retry: match builder.retry {
                            Some(retry) => retry,
                            None => default_policy(),
                        },
                    },
                ),
            }
        },
    }
}

/// Whether an error reports that the HTTP client could not be built.
pub open spec fn is_http_failure(error: ErrorView) -> bool {
    error matches ErrorView::Config(message) && "could not build the HTTP client: "@.is_prefix_of(
        message,
    )
}

/// Read an environment variable, ignoring empty or whitespace-only values.
pub fn env_value(value: Option<String>) -> (r: Option<String>)
    ensures
        optional(r) == set_value(optional(value)),
{
    match value {
        Some(text) => if blank(text.as_str()) {
            None
        } else {
            Some(text.as_str().trim().to_owned())
        },
        None => None,
    }
}

/// Whether `r` is the text that `expected` holds, or the configuration error
/// with the message that it holds.
pub open spec fn text_result(
    r: Result<String, Error>,
    expected: Result<Seq<char>, Seq<char>>,
) -> bool {
    match (r, expected) {
        (Ok(text), Ok(view)) => text@ == view,
        (Err(error), Err(message)) => error@ == ErrorView::Config(message),
        _ => false,
    }
}

/// What a scheme or the text of an error says.
pub open spec fn scheme_view(scheme: Result<String, String>) -> Result<Seq<char>, Seq<char>> {
    match scheme {
        Ok(scheme) => Ok(scheme@),
        Err(message) => Err(message@),
    }
}

/// Check the scheme of a base URL and strip its trailing slash. `scheme` is
/// the scheme that the URL has, or how the error reads where it is none.
pub fn checked_base_url(base_url: &str, scheme: Result<String, String>) -> (r: Result<
    String,
    Error,
>)
    ensures
        text_result(r, base_url_of(base_url@, scheme_view(scheme))),
{
    match scheme {
        Ok(scheme) => if same_text(scheme.as_str(), "http") || same_text(scheme.as_str(), "https") {
            Ok(without_trailing_slashes(base_url.trim()).to_owned())
        } else {
            Err(
                Error::Config(
                    join3(
                        "invalid base URL ",
                        quoted(base_url).as_str(),
                        ": the scheme must be http or https",
                    ),
                ),
            )
        },
        Err(message) => {
            let mut text = join3("invalid base URL ", quoted(base_url).as_str(), ": ");
            text.append(message.as_str());
            Err(Error::Config(text))
        },
    }
}

/// Validate a base URL and strip its trailing slash.
pub fn normalize_base_url(base_url: &str) -> (r: Result<String, Error>)
    ensures
        text_result(r, normal_base_url(base_url@)),
{
    let scheme = url_scheme(without_trailing_slashes(base_url.trim()));
    checked_base_url(base_url, scheme)
}

impl ClientBuilder {
    /// A builder without options.
    pub fn new() -> (r: Self)
        ensures
            r@ == no_options(),
    {
        ClientBuilder {
            api_key: None,
            base_url: None,
            default_model: None,
            timeout: None,
            default_headers: None,
            retry: None,
            http: None,
        }
    }

    /// Set the API key; falls back to [`ENV_API_KEY`].
    pub fn api_key(self, api_key: String) -> (r: Self)
        ensures
            r@ == (BuilderView { api_key: Some(api_key@), ..self@ }),
    {
        let mut builder = self;
        builder.api_key = Some(api_key);
        builder
    }

    /// Set the API root; falls back to [`ENV_BASE_URL`], then
    /// [`DEFAULT_BASE_URL`]. Any trailing slash is removed.
    pub fn base_url(self, base_url: String) -> (r: Self)
        ensures
            r@ == (BuilderView { base_url: Some(base_url@), ..self@ }),
    {
        let mut builder = self;
        builder.base_url = Some(base_url);
        builder
    }

    /// Set the model used when a request omits one; falls back to
    /// [`ENV_DEFAULT_MODEL`], then [`DEFAULT_MODEL`].
    pub fn default_model(self, model: String) -> (r: Self)
        ensures
            r@ == (BuilderView { default_model: Some(model@), ..self@ }),
    {
        let mut builder = self;
        builder.default_model = Some(model);
        builder
    }

    /// Set the timeout per attempt (default: [`DEFAULT_TIMEOUT_SECS`]). There
    /// is no total retry budget; each attempt gets the full timeout.
    pub fn timeout(self, timeout: Duration) -> (r: Self)
        ensures
            r@ == (BuilderView { timeout: Some(nanos(timeout)), ..self@ }),
    {
        let mut builder = self;
        builder.timeout = Some(timeout);
        builder
    }

    /// Set headers sent with every request. These override the client's
    /// built-in headers on collision.
    pub fn default_headers(self, headers: HeaderMap) -> (r: Self)
        ensures
            r@ == (BuilderView { default_headers: Some(header_contents(headers)), ..self@ }),
    {
        let mut builder = self;
        builder.default_headers = Some(headers);
        builder
    }

    /// Set the retry policy (default: [`RetryPolicy::default`]).
    pub fn retry(self, retry: RetryPolicy) -> (r: Self)
        ensures
            r@ == (BuilderView { retry: Some(retry@), ..self@ }),
    {
        let mut builder = self;
        builder.retry = Some(retry);
        builder
    }

    /// Use a custom `reqwest::Client` (for transport configuration or tests).
    pub fn http_client(self, http: reqwest::Client) -> (r: Self)
        ensures
            r@ == (BuilderView { http: Some(http), ..self@ }),
    {
        let mut builder = self;
        builder.http = Some(http);
        builder
    }

    /// Build the client. `env` holds the environment variables that stand in
    /// for options that are not set.
    ///
    /// # Errors
    ///
    /// Returns [`Error::Config`] when the API key is missing, the base URL is
    /// invalid, or the HTTP client cannot be built.
    pub fn build(self, env: Environment) -> (r: Result<TypeSafeClient, Error>)
        ensures
            match (r, configuration(self@, env@)) {
                (Err(error), Err(message)) => error@ == ErrorView::Config(message),
                (Ok(client), Ok(view)) => client@ == view && (self@.http matches Some(http)
                    ==> client.http_spec() == http),
                (Err(error), Ok(_)) => self@.http is None && is_http_failure(error@),
                (Ok(_), Err(_)) => false,
            },
    {
        if self.http.is_some() {
            self.build_with(env, Err(String::new()))
        } else {
            self.build_with(env, new_http_client())
        }
    }

    /// Build the client, over `http` where no HTTP client was set: an HTTP
    /// client, or how the error reads where it could not be built.
    pub fn build_with(self, env: Environment, http: Result<reqwest::Client, String>) -> (r: Result<
        TypeSafeClient,
        Error,
    >)
        ensures
            match (r, configuration(self@, env@)) {
                (Err(error), Err(message)) => error@ == ErrorView::Config(message),
                (Ok(client), Ok(view)) => client@ == view && match (self@.http, http) {
                    (Some(http), _) => client.http_spec() == http,
                    (None, Ok(http)) => client.http_spec() == http,
                    (None, Err(_)) => false,
                },
                (Err(error), Ok(_)) => self@.http is None && http is Err && error@
                    == ErrorView::Config("could not build the HTTP client: "@ + http->Err_0@),
                (Ok(_), Err(_)) => false,
            },
    {
        let ghost builder = self@;
        let ghost env_view = env@;
        let api_key = match self.api_key {
            Some(key) => key,
            None => match env_value(env.api_key) {
                Some(key) => key,
                None => return Err(
                    Error::Config(
                        join3(
                            "missing API key: set the ",
                            ENV_API_KEY,
                            " environment variable or pass ClientBuilder::api_key",
                        ),
                    ),
                ),
            },
        };
        let bearer = join("Bearer ", api_key.as_str());
        let auth_header = match text_value(bearer.as_str()) {
            Some(value) => value,
            None => return Err(
                Error::Config(
                    "the API key contains characters that are not valid in an HTTP header".to_owned(),
                ),
            ),
        };
        let base_url = match self.base_url {
            Some(base_url) => base_url,
            None => match env_value(env.base_url) {
                Some(base_url) => base_url,
                None => DEFAULT_BASE_URL.to_owned(),
            },
        };
        let base_url = match normalize_base_url(base_url.as_str()) {
            Ok(base_url) => base_url,
            Err(error) => return Err(error),
        };
        let default_model = match self.default_model {
            Some(model) => model,
            None => match env_value(env.default_model) {
                Some(model) => model,
                None => DEFAULT_MODEL.to_owned(),
            },
        };
        let http = match self.http {
            Some(http) => http,
            None => match http {
                Ok(http) => http,
                Err(message) => return Err(
                    Error::Config(join("could not build the HTTP client: ", message.as_str())),
                ),
            },
        };
        let default_headers = match self.default_headers {
            Some(headers) => headers,
            None => no_headers(),
        };
        let timeout = match self.timeout {
            Some(timeout) => timeout,
            None => Duration::from_secs(DEFAULT_TIMEOUT_SECS),
        };
        let retry = match self.retry {
            Some(retry) => retry,
            None => RetryPolicy::default(),
        };
        proof {
            law_base_url_is_normal(builder, env_view);
        }
        Ok(
            TypeSafeClient {
                http,
                base_url,
                auth_header,
                default_model,
                default_headers,
                timeout,
                retry,
            },
        )
    }
}

/// An option that was set counts before the environment, the environment
/// before the default.
pub proof fn law_configuration_precedence(builder: BuilderView, env: EnvironmentView)
    requires
        configuration(builder, env) is Ok,
    ensures
        ({
            let client = configuration(builder, env)->Ok_0;
            let key = if builder.api_key is Some {
                builder.api_key->0
            } else {
                set_value(env.api_key)->0
            };
            let url = if builder.base_url is Some {
                builder.base_url->0
            } else if set_value(env.base_url) is Some {
                set_value(env.base_url)->0
            } else {
                DEFAULT_BASE_URL@
            };
            let model = if builder.default_model is Some {
                builder.default_model->0
            } else if set_value(env.default_model) is Some {
                set_value(env.default_model)->0
            } else {
                DEFAULT_MODEL@
            };
            &&& builder.api_key is Some || set_value(env.api_key) is Some
            &&& client.authorization == encode_utf8("Bearer "@ + key)
            &&& client.base_url == trim_slashes(trimmed(url))
            &&& client.default_model == model
        }),
{
}

/// The API root is a URL with the scheme `http` or `https`, and never ends with
/// a slash.
pub proof fn law_base_url_is_normal(builder: BuilderView, env: EnvironmentView)
    requires
        configuration(builder, env) is Ok,
    ensures
        no_trailing_slash(configuration(builder, env)->Ok_0.base_url),
        is_web_url(configuration(builder, env)->Ok_0.base_url),
{
    let url = match (builder.base_url, set_value(env.base_url)) {
        (Some(url), _) => url,
        (None, Some(url)) => url,
        (None, None) => DEFAULT_BASE_URL@,
    };
    lemma_trim_slashes_end(trimmed(url));
}

/// Blank environment variables count as not set.
pub proof fn law_blank_environment_is_ignored(
    builder: BuilderView,
    env: EnvironmentView,
    blank_env: EnvironmentView,
)
    requires
        blank_env.api_key == env.api_key || (env.api_key is None && is_blank(
            blank_env.api_key->0,
        )),
        blank_env.base_url == env.base_url || (env.base_url is None && is_blank(
            blank_env.base_url->0,
        )),
        blank_env.default_model == env.default_model || (env.default_model is None && is_blank(
            blank_env.default_model->0,
        )),
    ensures
        configuration(builder, blank_env) == configuration(builder, env),
{
}

/// Without a key, neither set nor in the environment, there is no client.
pub proof fn law_key_is_needed(builder: BuilderView, env: EnvironmentView)
    requires
        builder.api_key is None,
        set_value(env.api_key) is None,
    ensures
        configuration(builder, env) == Err::<ClientView, Seq<char>>(
            "missing API key: set the "@ + ENV_API_KEY@
                + " environment variable or pass ClientBuilder::api_key"@,
        ),
{
}

/// A key of printable ASCII is accepted.
pub proof fn law_printable_key_is_accepted(key: Seq<char>)
    requires
        forall|i: int| 0 <= i < key.len() ==> ' ' <= #[trigger] key[i] <= '~',
    ensures
        is_value_text("Bearer "@ + key),
{
    reveal_strlit("Bearer ");
    lemma_printable_is_value_text("Bearer "@ + key);
}

// ---------------------------------------------------------------------------
// Requests
// ---------------------------------------------------------------------------

/// The HTTP method of a request.
#[derive(Debug, Clone, Copy, PartialEq, Eq, Structural)]
pub enum Method {
    Get,
    Post,
}

/// A request that is ready to be sent. The payload, if any, is the JSON body.
#[derive(Debug)]
pub struct Call {
    pub method: Method,
    pub url: String,
    pub headers: HeaderMap,
    pub payload: Option<Json>,
}

/// What a [`Call`] sends.
pub struct CallView {
    pub method: Method,
    pub url: Seq<char>,
    pub headers: Map<Seq<char>, Seq<Seq<u8>>>,
    pub payload: Option<Tree>,
}

impl View for Call {
    type V = CallView;

    open spec fn view(&self) -> CallView {
        CallView {
            method: self.method,
            url: self.url@,
            headers: header_contents(self.headers),
            payload: optional_tree(self.payload),
        }
    }
}

/// The headers that the client sends of itself.
pub open spec fn builtin_headers(authorization: Seq<u8>, has_payload: bool) -> Map<
    Seq<char>,
    Seq<Seq<u8>>,
> {
    let headers = no_contents().insert("authorization"@, seq![authorization]).insert(
        "user-agent"@,
        seq![encode_utf8(USER_AGENT_VALUE@)],
    ).insert("accept"@, seq![encode_utf8("application/json"@)]);
    if has_payload {
        headers.insert("content-type"@, seq![encode_utf8("application/json"@)])
    } else {
        headers
    }
}

/// Headers after others override them: where both have a name, the values of
/// the other count.
pub open spec fn overridden(
    headers: Map<Seq<char>, Seq<Seq<u8>>>,
    others: Map<Seq<char>, Seq<Seq<u8>>>,
) -> Map<Seq<char>, Seq<Seq<u8>>> {
    Map::new(
        |name: Seq<char>| headers.contains_key(name) || others.contains_key(name),
        |name: Seq<char>|
            if others.contains_key(name) {
                others[name]
            } else {
                headers[name]
            },
    )
}

impl ClientView {
    /// The headers of a request.
    pub open spec fn headers(self, has_payload: bool) -> Map<Seq<char>, Seq<Seq<u8>>> {
        overridden(builtin_headers(self.authorization, has_payload), self.default_headers)
    }

    /// The request with this method, path and payload.
    pub open spec fn call(self, method: Method, path: Seq<char>, payload: Option<Tree>) -> CallView {
        CallView {
            method,
            url: self.base_url + path,
            headers: self.headers(payload is Some),
            payload,
        }
    }

    /// The model that a request is asked of.
    pub open spec fn model_for(self, request: RequestView) -> Seq<char> {
        match request.model {
            Some(model) => model,
            None => self.default_model,
        }
    }

    /// Whether a request may not hold the built-in headers beside the
    /// additional ones: one of them is to be added, and there are more names in
    /// all than a map is sure to have room for.
    pub open spec fn crowded(self, has_payload: bool) -> bool {
        &&& self.headers(has_payload).dom().len() > sure_room() + 1
        &&& exists|name: Seq<char>| #[trigger]
            builtin_headers(self.authorization, has_payload).contains_key(name)
                && !self.default_headers.contains_key(name)
    }
}

/// Where a name cannot be added to a part of the headers of a request, the
/// request is crowded.
proof fn lemma_crowded(
    client: ClientView,
    has_payload: bool,
    part: Map<Seq<char>, Seq<Seq<u8>>>,
    name: Seq<char>,
)
    requires
        client.default_headers.dom().finite(),
        client.default_headers.dom().subset_of(part.dom()),
        part.dom().subset_of(client.headers(has_payload).dom()),
        builtin_headers(client.authorization, has_payload).contains_key(name),
        !part.contains_key(name),
        part.dom().len() > sure_room(),
    ensures
        client.crowded(has_payload),
{
    let builtin = builtin_headers(client.authorization, has_payload);
    let sent = client.headers(has_payload);
    assert(builtin.dom().finite());
    assert(sent.dom() =~= builtin.dom().union(client.default_headers.dom()));
    lemma_len_subset(part.dom(), sent.dom());
    assert(part.dom().insert(name).subset_of(sent.dom()));
    lemma_len_subset(part.dom().insert(name), sent.dom());
    assert(!client.default_headers.contains_key(name));
}

impl TypeSafeClient {
    /// The HTTP client.
    pub closed spec fn http_spec(self) -> reqwest::Client {
        self.http
    }

    /// A builder for a [`TypeSafeClient`].
    pub fn builder() -> (r: ClientBuilder)
        ensures
            r@ == no_options(),
    {
        ClientBuilder::new()
    }

    /// A client configured from environment variables and SDK defaults:
    /// [`ENV_API_KEY`] is required; [`ENV_BASE_URL`] and
    /// [`ENV_DEFAULT_MODEL`] are optional.
    pub fn from_env(env: Environment) -> (r: Result<Self, Error>)
        ensures
            match (r, configuration(no_options(), env@)) {
                (Err(error), Err(message)) => error@ == ErrorView::Config(message),
                (Ok(client), Ok(view)) => client@ == view,
                (Err(error), Ok(_)) => is_http_failure(error@),
                (Ok(_), Err(_)) => false,
            },
    {
        Self::builder().build(env)
    }

    /// The HTTP client that requests are sent with.
    pub fn http(&self) -> (r: &reqwest::Client)
        ensures
            *r == self.http_spec(),
    {
        &self.http
    }

    /// The API root, without a trailing slash.
    pub fn base_url(&self) -> (r: &str)
        ensures
            r@ == self@.base_url,
            no_trailing_slash(r@),
            is_web_url(r@),
    {
        proof {
            use_type_invariant(self);
        }
        self.base_url.as_str()
    }

    /// The model used when a request omits one.
    pub fn default_model(&self) -> (r: &str)
        ensures
            r@ == self@.default_model,
    {
        self.default_model.as_str()
    }

    /// The timeout per attempt.
    pub fn timeout(&self) -> (r: Duration)
        ensures
            nanos(r) == self@.timeout,
    {
        self.timeout
    }

    /// The retry policy in use.
    pub fn retry(&self) -> (r: &RetryPolicy)
        ensures
            r@ == self@.retry,
    {
        &self.retry
    }

    /// Additional headers sent with every request.
    pub fn default_headers(&self) -> (r: &HeaderMap)
        ensures
            header_contents(*r) == self@.default_headers,
    {
        &self.default_headers
    }

    /// The request that answers named questions about text or structured
    /// state: `POST /v1/systemone`. It is `None` where the client has so many
    /// additional headers that they do not fit in one request.
    pub fn system_one(&self, request: SystemOneRequest) -> (r: Result<Option<Call>, Error>)
        ensures
            match r {
                Err(error) => request.questions@ == Map::<Seq<char>, Question>::empty() && error@
                    == ErrorView::InvalidRequest("a request needs at least one question"@),
                Ok(Some(call)) => request.questions@ != Map::<Seq<char>, Question>::empty()
                    && request.well_formed() && call@ == self@.call(
                    Method::Post,
                    SYSTEMONE_PATH@,
                    Some(request.wire(self@.model_for(request@))),
                ),
                Ok(None) => request.questions@ != Map::<Seq<char>, Question>::empty()
                    && self@.crowded(true),
            },
            r matches Ok(Some(call)) ==> {
                &&& call.method == Method::Post
                &&& call.url@ == self@.base_url + "/v1/systemone"@
                &&& call.payload matches Some(body) && body.tree().field("state"@) == Some(
                    request.state.tree(),
                ) && body.tree().field("model"@) == Some(
                    Tree::Text(
                        match request.model {
                            Some(model) => model@,
                            None => self@.default_model,
                        },
                    ),
                )
            },
    {
        if request.questions.is_empty() {
            return Err(
                Error::InvalidRequest("a request needs at least one question".to_owned()),
            );
        }
        let model = match &request.model {
            Some(model) => model.clone(),
            None => self.default_model.clone(),
        };
        let body = request.into_json(model);
        Ok(self.prepare(Method::Post, SYSTEMONE_PATH, Some(body)))
    }

    /// The request that lists the models and aliases the account can send in
    /// the `model` field: `GET /v1/models`. It is `None` where the client has
    /// so many additional headers that they do not fit in one request.
    pub fn list_models(&self) -> (r: Option<Call>)
        ensures
            match r {
                Some(call) => call@ == self@.call(Method::Get, MODELS_PATH@, None),
                None => self@.crowded(false),
            },
            r matches Some(call) ==> call.method == Method::Get && call.url@ == self@.base_url
                + "/v1/models"@ && call.payload is None,
    {
        self.prepare(Method::Get, MODELS_PATH, None)
    }

    /// The request with this method, path and payload.
    pub fn prepare(&self, method: Method, path: &str, payload: Option<Json>) -> (r: Option<Call>)
        ensures
            match r {
                Some(call) => call@ == self@.call(method, path@, optional_tree(payload)),
                None => self@.crowded(payload is Some),
            },
            r matches Some(call) ==> call.method == method && call.url@ == self@.base_url + path@
                && call.payload == payload && header_contents(call.headers) == self@.headers(
                payload is Some,
            ),
    {
        let url = join(self.base_url.as_str(), path);
        match self.request_headers(payload.is_some()) {
            Some(headers) => Some(Call { method, url, headers, payload }),
            None => None,
        }
    }

    /// The headers of a request: the additional ones, and each built-in one
    /// whose name is not among them.
    fn request_headers(&self, has_payload: bool) -> (r: Option<HeaderMap>)
        ensures
            match r {
                Some(headers) => header_contents(headers) == self@.headers(has_payload),
                None => self@.crowded(has_payload),
            },
    {
        proof {
            lemma_builtin_names();
            reveal_strlit("typesafe-rust/0.1.0");
            reveal_strlit("application/json");
            lemma_printable_is_value_text("typesafe-rust/0.1.0"@);
            lemma_printable_is_value_text("application/json"@);
        }
        let mut headers = copied_headers(&self.default_headers);
        if !add_missing(&mut headers, "authorization", self.auth_header.clone()) {
            proof {
                lemma_crowded(self@, has_payload, header_contents(headers), "authorization"@);
            }
            return None;
        }
        if !add_missing(&mut headers, "user-agent", plain_value(USER_AGENT_VALUE)) {
            proof {
                lemma_crowded(self@, has_payload, header_contents(headers), "user-agent"@);
            }
            return None;
        }
        if !add_missing(&mut headers, "accept", plain_value("application/json")) {
            proof {
                lemma_crowded(self@, has_payload, header_contents(headers), "accept"@);
            }
            return None;
        }
        if has_payload {
            if !add_missing(&mut headers, "content-type", plain_value("application/json")) {
                proof {
                    lemma_crowded(self@, has_payload, header_contents(headers), "content-type"@);
                }
                return None;
            }
        }
        assert(header_contents(headers) =~= self@.headers(has_payload));
        Some(headers)
    }
}

/// The names of the built-in headers are names that differ.
proof fn lemma_builtin_names()
    ensures
        is_plain_name("authorization"@) && "authorization"@.len() == 13,
        is_plain_name("user-agent"@) && "user-agent"@.len() == 10,
        is_plain_name("accept"@) && "accept"@.len() == 6,
        is_plain_name("content-type"@) && "content-type"@.len() == 12,
{
    reveal_strlit("authorization");
    reveal_strlit("user-agent");
    reveal_strlit("accept");
    reveal_strlit("content-type");
}

/// A header value of visible ASCII.
fn plain_value(text: &str) -> (r: HeaderValue)
    requires
        is_value_text(text@),
    ensures
        header_bytes(r) == encode_utf8(text@),
{
    text_value(text).unwrap()
}

/// The `User-Agent` header reports the version of this client.
pub proof fn law_user_agent_reports_the_version()
    ensures
        USER_AGENT_VALUE@ == "typesafe-rust/"@ + VERSION@,
{
    reveal_strlit("typesafe-rust/0.1.0");
    reveal_strlit("typesafe-rust/");
    reveal_strlit("0.1.0");
    assert("typesafe-rust/0.1.0"@ =~= "typesafe-rust/"@ + "0.1.0"@);
}

/// Additional headers are sent with every request, all values of each name, and
/// override the built-in ones.
pub proof fn law_additional_headers_override(client: ClientView, has_payload: bool, name: Seq<char>)
    requires
        client.default_headers.contains_key(name),
    ensures
        client.headers(has_payload).contains_key(name),
        client.headers(has_payload)[name] == client.default_headers[name],
{
}

/// A request carries the key of the client, unless the additional headers say
/// otherwise.
pub proof fn law_requests_are_authorized(client: ClientView, has_payload: bool)
    requires
        !client.default_headers.contains_key("authorization"@),
    ensures
        client.headers(has_payload).contains_key("authorization"@),
        client.headers(has_payload)["authorization"@] == seq![client.authorization],
{
    lemma_builtin_names();
}

/// Few additional headers, or all built-in names among them, leave no request
/// crowded.
pub proof fn law_room_for_the_built_in_headers(client: ClientView, has_payload: bool)
    requires
        client.default_headers.dom().finite(),
        client.default_headers.dom().len() + 3 <= sure_room() || forall|name: Seq<char>|
            builtin_headers(client.authorization, has_payload).contains_key(name)
                ==> client.default_headers.contains_key(name),
    ensures
        !client.crowded(has_payload),
{
    let builtin = builtin_headers(client.authorization, has_payload);
    let sent = client.headers(has_payload);
    assert(sent.dom() =~= builtin.dom().union(client.default_headers.dom()));
    lemma_len_union(builtin.dom(), client.default_headers.dom());
}

/// A request is asked of the model that it names, or of the default model.
pub proof fn law_model_override(client: ClientView, request: RequestView, model: Seq<char>)
    ensures
        client.model_for(RequestView { model: Some(model), ..request }) == model,
        client.model_for(RequestView { model: None, ..request }) == client.default_model,
{
}

// ---------------------------------------------------------------------------
// More laws
// ---------------------------------------------------------------------------

/// Where the API is, what is asked of it, and what stands in for an option
/// that is not set.
pub proof fn law_defaults()
    ensures
        DEFAULT_BASE_URL@ == "https://api.typesafe.ai"@,
        DEFAULT_MODEL@ == "jev-latest"@,
        DEFAULT_TIMEOUT_SECS == 10,
        SYSTEMONE_PATH@ == "/v1/systemone"@,
        MODELS_PATH@ == "/v1/models"@,
        ENV_API_KEY@ == "TYPESAFE_API_KEY"@,
        ENV_BASE_URL@ == "TYPESAFE_BASE_URL"@,
        ENV_DEFAULT_MODEL@ == "TYPESAFE_DEFAULT_MODEL"@,
{
}

/// An environment variable counts without white space at its ends, and only
/// where something is left of it.
pub proof fn law_environment_values(text: Seq<char>)
    ensures
        set_value(None) is None,
        trimmed(text).len() == 0 ==> set_value(Some(text)) is None,
        trimmed(text).len() > 0 ==> set_value(Some(text)) == Some(trimmed(text)),
{
    lemma_trim_blank(text);
}

/// A base URL counts without white space at its ends and slashes at its end. It
/// is accepted exactly when it is a URL with the scheme `http` or `https`, and
/// refused with itself and the reason.
pub proof fn law_base_urls(base_url: Seq<char>, scheme: Result<Seq<char>, Seq<char>>)
    ensures
        base_url_of(base_url, scheme) is Ok <==> scheme == Ok::<Seq<char>, Seq<char>>("http"@)
            || scheme == Ok::<Seq<char>, Seq<char>>("https"@),
        match (base_url_of(base_url, scheme), scheme) {
            (Ok(url), _) => url == trim_slashes(trimmed(base_url)),
            (Err(fault), Err(message)) => fault == "invalid base URL "@ + quoted_text(base_url)
                + ": "@ + message,
            (Err(fault), Ok(_)) => fault == "invalid base URL "@ + quoted_text(base_url)
                + ": the scheme must be http or https"@,
        },
        normal_base_url(base_url) == base_url_of(
            base_url,
            url_scheme_of(trim_slashes(trimmed(base_url))),
        ),
{
}

/// How a client is configured by a key, an API root and a model: each is the
/// option that was set, else what the environment says, else the default, of
/// which there is none for the key. A key that is missing or cannot be sent and
/// an API root that is refused are reported in this order.
pub proof fn law_client_is_configured(
    builder: BuilderView,
    env: EnvironmentView,
    key: Option<Seq<char>>,
    url: Seq<char>,
    model: Seq<char>,
)
    requires
        match (builder.api_key, env.api_key) {
            (Some(option), _) => key == Some(option),
            (None, Some(text)) => key == (if trimmed(text).len() > 0 {
                Some(trimmed(text))
            } else {
                None
            }),
            (None, None) => key is None,
        },
        match (builder.base_url, env.base_url) {
            (Some(option), _) => url == option,
            (None, Some(text)) => url == (if trimmed(text).len() > 0 {
                trimmed(text)
            } else {
                "https://api.typesafe.ai"@
            }),
            (None, None) => url == "https://api.typesafe.ai"@,
        },
        match (builder.default_model, env.default_model) {
            (Some(option), _) => model == option,
            (None, Some(text)) => model == (if trimmed(text).len() > 0 {
                trimmed(text)
            } else {
                "jev-latest"@
            }),
            (None, None) => model == "jev-latest"@,
        },
    ensures
        match key {
            None => configuration(builder, env) == Err::<ClientView, Seq<char>>(
                "missing API key: set the "@ + "TYPESAFE_API_KEY"@
                    + " environment variable or pass ClientBuilder::api_key"@,
            ),
            Some(key) => if !is_value_text("Bearer "@ + key) {
                configuration(builder, env) == Err::<ClientView, Seq<char>>(
                    "the API key contains characters that are not valid in an HTTP header"@,
                )
            } else {
                match normal_base_url(url) {
                    Err(fault) => configuration(builder, env) == Err::<ClientView, Seq<char>>(fault),
                    Ok(root) => {
                        &&& configuration(builder, env) matches Ok(client)
                        &&& client.base_url == root
                        &&& client.authorization == encode_utf8("Bearer "@ + key)
                        &&& client.default_model == model
                        &&& match builder.default_headers {
                            Some(headers) => client.default_headers == headers,
                            None => client.default_headers.dom() == Set::<Seq<char>>::empty(),
                        }
                        &&& match builder.timeout {
                            Some(timeout) => client.timeout == timeout,
                            None => client.timeout == 10_000_000_000,
                        }
                        &&& match builder.retry {
                            Some(retry) => client.retry == retry,
                            None => client.retry == default_policy(),
                        }
                    },
                }
            },
        },
{
    if let Some(text) = env.api_key {
        lemma_trim_blank(text);
    }
    if let Some(text) = env.base_url {
        lemma_trim_blank(text);
    }
    if let Some(text) = env.default_model {
        lemma_trim_blank(text);
    }
}

/// A request has the additional headers, all values of each name, and beside
/// them the key, the name of this client, and that JSON is accepted, and that
/// it holds JSON where it has a payload. It has no other header.
pub proof fn law_request_headers(client: ClientView, has_payload: bool, name: Seq<char>)
    ensures
        client.headers(has_payload).contains_key(name) <==> {
            ||| client.default_headers.contains_key(name)
            ||| name == "authorization"@
            ||| name == "user-agent"@
            ||| name == "accept"@
            ||| name == "content-type"@ && has_payload
        },
        client.default_headers.contains_key(name) ==> client.headers(has_payload)[name]
            == client.default_headers[name],
        !client.default_headers.contains_key(name) ==> {
            &&& name == "authorization"@ ==> client.headers(has_payload)[name]
                == seq![client.authorization]
            &&& name == "user-agent"@ ==> client.headers(has_payload)[name]
                == seq![encode_utf8("typesafe-rust/0.1.0"@)]
            &&& name == "accept"@ ==> client.headers(has_payload)[name]
                == seq![encode_utf8("application/json"@)]
            &&& name == "content-type"@ && has_payload ==> client.headers(has_payload)[name]
                == seq![encode_utf8("application/json"@)]
        },
{
    lemma_builtin_names();
}

/// A request goes to the API root followed by the path, with the method and the
/// payload that were given.
pub proof fn law_calls(client: ClientView, method: Method, path: Seq<char>, payload: Option<Tree>)
    ensures
        client.call(method, path, payload).method == method,
        client.call(method, path, payload).url == client.base_url + path,
        client.call(method, path, payload).payload == payload,
        client.call(method, path, payload).headers == client.headers(payload is Some),
{
}

/// Only a request with more than 6554 names of headers is crowded, and only
/// where one of the built-in names is not among the additional ones.
pub proof fn law_crowded_requests(client: ClientView, has_payload: bool)
    ensures
        client.headers(has_payload).dom().len() <= 6554 ==> !client.crowded(has_payload),
        client.default_headers.contains_key("authorization"@) && client.default_headers.contains_key(
            "user-agent"@,
        ) && client.default_headers.contains_key("accept"@) && client.default_headers.contains_key(
            "content-type"@,
        ) ==> !client.crowded(has_payload),
{
}

/// A text comes back exactly where one is expected, and is the one that is
/// expected; else the client is misconfigured, with the message that is
/// expected.
pub proof fn law_text_results(r: Result<String, Error>, expected: Result<Seq<char>, Seq<char>>)
    requires
        text_result(r, expected),
    ensures
        r is Ok <==> expected is Ok,
        r matches Ok(text) ==> text@ == expected->Ok_0,
        r matches Err(error) ==> error matches Error::Config(message) && message@
            == expected->Err_0,
{
}

/// The environment says what its variables hold, and a scheme or the error in
/// its place says its text.
pub proof fn law_environment_says(env: Environment, scheme: Result<String, String>)
    ensures
        match env.api_key {
            Some(text) => env@.api_key == Some(text@),
            None => env@.api_key is None,
        },
        match env.base_url {
            Some(text) => env@.base_url == Some(text@),
            None => env@.base_url is None,
        },
        match env.default_model {
            Some(text) => env@.default_model == Some(text@),
            None => env@.default_model is None,
        },
        match scheme {
            Ok(text) => scheme_view(scheme) == Ok::<Seq<char>, Seq<char>>(text@),
            Err(text) => scheme_view(scheme) == Err::<Seq<char>, Seq<char>>(text@),
        },
{
}

/// That the HTTP client could not be built is a matter of configuration, and
/// the message begins with it.
pub proof fn law_http_failures(error: ErrorView)
    requires
        is_http_failure(error),
    ensures
        error matches ErrorView::Config(message) && message.len()
            >= "could not build the HTTP client: "@.len() && message.take(
            "could not build the HTTP client: "@.len() as int,
        ) == "could not build the HTTP client: "@,
{
    let start = "could not build the HTTP client: "@;
    let message = error->Config_0;
    assert(message.take(start.len() as int) =~= start);
}

} // verus!
