use crate::builder::{HttpClientBuilder, IntoUrl};
use crate::error::Error;
use crate::json::{
    all_strings, has_key, inserted, keys_distinct, keys_sorted, lookup, removed, JsonObject, JsonValue,
};
use crate::request::{Request, UploadFileRequest};
use crate::url::{
    endpoint_url, has_path_segments, has_trailing_slash, is_plain_relative, is_serialization,
    without_trailing_slash, EndpointUrl, Url,
};
use reqwest::Error as ReqwestError;
use serde_json::Error as JsonError;
use vstd::prelude::*;

verus! {

#[verifier::external_type_specification]
#[verifier::external_body]
pub struct ExTransport(reqwest::Client);

/// Builds the HTTP transport with `reqwest::ClientBuilder::new().build()`.
/// Nothing is claimed of the outcome: it fails where the TLS backend or the
/// resolver cannot be set up, which depends on the machine.
#[verifier::external_body]
pub(crate) fn build_transport() -> (r: Result<reqwest::Client, ReqwestError>) {
    reqwest::ClientBuilder::new().build()
}

/// The characters of an optional string.
pub open spec fn opt_view(s: Option<String>) -> Option<Seq<char>> {
    match s {
        Some(t) => Some(t@),
        None => None,
    }
}

/// The text of a JSON string value (empty for any other value).
pub open spec fn string_text(v: JsonValue) -> Seq<char> {
    match v {
        JsonValue::String(s) => s@,
        _ => Seq::<char>::empty(),
    }
}

/// The entries of a request object as sent: with a token, the entry `i`
/// carrying it is added.
pub open spec fn keyed_entries(token: Option<String>, es: Seq<(Seq<char>, JsonValue)>) -> Seq<
    (Seq<char>, JsonValue),
> {
    match token {
        None => es,
        Some(t) => inserted(es, "i"@, JsonValue::String(t)),
    }
}

/// `request` can be sent with `token`: with a token it must be an object
/// without an entry `i`.
pub open spec fn accepts_token(token: Option<String>, request: JsonValue) -> bool {
    token is Some ==> (request matches JsonValue::Object(o) && !has_key(o.entries(), "i"@))
}

/// `body` is what is sent for `request` with `token`: the request itself
/// without a token; with one, the request object with the entry `i`.
pub open spec fn keyed_body(token: Option<String>, request: JsonValue, body: JsonValue) -> bool {
    match token {
        None => body == request,
        Some(_) => request matches JsonValue::Object(o) && body matches JsonValue::Object(b)
            && b.entries() == keyed_entries(token, o.entries()),
    }
}

/// The text fields of a file upload: each entry's key and string text.
pub open spec fn text_fields(es: Seq<(Seq<char>, JsonValue)>) -> Seq<(Seq<char>, Seq<char>)> {
    es.map_values(|e: (Seq<char>, JsonValue)| (e.0, string_text(e.1)))
}

/// The views of a list of string pairs.
pub open spec fn pairs_view(v: Seq<(String, String)>) -> Seq<(Seq<char>, Seq<char>)> {
    v.map_values(|p: (String, String)| (p.0@, p.1@))
}

/// With a token, the body carries it under `i`, every other key reads as in
/// the request, the keys stay sorted and distinct, and there is one entry more.
pub proof fn lemma_token_entry(token: String, es: Seq<(Seq<char>, JsonValue)>)
    requires
        keys_sorted(es),
        !has_key(es, "i"@),
    ensures
        lookup(keyed_entries(Some(token), es), "i"@) == Some(JsonValue::String(token)),
        forall|k: Seq<char>|
            k != "i"@ ==> #[trigger] lookup(keyed_entries(Some(token), es), k) == lookup(es, k),
        keys_distinct(keyed_entries(Some(token), es)),
        keys_sorted(keyed_entries(Some(token), es)),
        keyed_entries(Some(token), es).len() == es.len() + 1,
{
    crate::json::lemma_inserted(es, "i"@, JsonValue::String(token));
}

/// Taking the entry `i` out of a body made with a token gives back the
/// request's entries.
pub proof fn lemma_api_key_removable(token: String, es: Seq<(Seq<char>, JsonValue)>)
    requires
        keys_sorted(es),
        !has_key(es, "i"@),
    ensures
        removed(keyed_entries(Some(token), es), "i"@) == es,
{
    crate::json::lemma_remove_undoes_insert(es, "i"@, JsonValue::String(token));
}

/// The text fields of an upload are as many as the entries they come from,
/// in the same order, with the same keys.
pub proof fn lemma_text_fields(es: Seq<(Seq<char>, JsonValue)>)
    ensures
        text_fields(es).len() == es.len(),
        forall|i: int|
            0 <= i < es.len() ==> (#[trigger] text_fields(es)[i]).0 == es[i].0 && text_fields(
                es,
            )[i].1 == string_text(es[i].1),
{
}

/// The view of a list of string pairs keeps every pair, in order, with
/// both texts whole.
pub proof fn lemma_pairs_view(v: Seq<(String, String)>)
    ensures
        pairs_view(v).len() == v.len(),
        forall|i: int| 0 <= i < v.len() ==> #[trigger] pairs_view(v)[i] == (v[i].0@, v[i].1@),
{
}

/// The text of a JSON string is the whole string.
pub proof fn lemma_string_text(s: String)
    ensures
        string_text(JsonValue::String(s)) == s@,
{
}

/// Each upload field carries its entry's key and the whole text of its
/// string value; with a token, the field `i` carries the whole token.
pub proof fn lemma_upload_field_texts(token: Option<String>, es: Seq<(Seq<char>, JsonValue)>)
    requires
        keys_sorted(es),
        token is Some ==> !has_key(es, "i"@),
    ensures
        forall|i: int|
            0 <= i < es.len() ==> ((#[trigger] es[i]).1 matches JsonValue::String(v)
                ==> text_fields(es)[i] == (es[i].0, v@)),
        token matches Some(t) ==> exists|i: int|
            0 <= i < keyed_entries(token, es).len() && #[trigger] text_fields(
                keyed_entries(token, es),
            )[i] == ("i"@, t@),
{
    if let Some(t) = token {
        lemma_token_entry(t, es);
        let ks = keyed_entries(token, es);
        crate::json::lemma_sorted_distinct(ks);
        let k = crate::json::key_index(ks, "i"@);
        assert(ks[k].1 == JsonValue::String(t));
        assert(text_fields(ks)[k] == ("i"@, t@));
    }
}

/// With a token, a request is accepted exactly when it is an object without
/// an entry `i`, whatever its size; without a token every request is.
pub proof fn lemma_accepts_token(token: Option<String>, request: JsonValue)
    ensures
        token is None ==> accepts_token(token, request),
        token is Some ==> (accepts_token(token, request) <==> (request matches JsonValue::Object(o)
            && !has_key(o.entries(), "i"@))),
{
}

/// Without a token the body is the request itself, whatever the request.
pub proof fn lemma_body_without_token(request: JsonValue, body: JsonValue)
    ensures
        keyed_body(None, request, body) <==> body == request,
{
}

/// With a token, the body of an object request is an object holding the
/// token under `i` and every other key as the request does.
pub proof fn lemma_body_with_token(t: String, o: JsonObject, body: JsonValue)
    requires
        keys_sorted(o.entries()),
        !has_key(o.entries(), "i"@),
        keyed_body(Some(t), JsonValue::Object(o), body),
    ensures
        body is Object,
        lookup(body->Object_0.entries(), "i"@) == Some(JsonValue::String(t)),
        forall|k: Seq<char>|
            k != "i"@ ==> #[trigger] lookup(body->Object_0.entries(), k) == lookup(o.entries(), k),
{
    lemma_token_entry(t, o.entries());
}

/// The outcome of building the URL of `endpoint` under the root `base`:
/// exactly `endpoint_url`, its error carried as `InvalidUrl`; for a plain
/// relative endpoint under a root without path segments, that error is
/// `RelativeUrlWithCannotBeABaseBase`. A `/` ending the root's path makes
/// no difference: the outcome is the one for the root without it.
pub open spec fn endpoint_outcome(
    base: Seq<char>,
    endpoint: Seq<char>,
    r: Result<EndpointUrl, Error>,
) -> bool {
    &&& match endpoint_url(base, endpoint) {
        Ok(t) => r matches Ok(u) && u@ == t,
        Err(e) => r matches Err(x) && x == Error::InvalidUrl(e),
    }
    &&& (!has_path_segments(base) && is_plain_relative(endpoint)) ==> (r matches Err(x) && x
        == Error::InvalidUrl(url::ParseError::RelativeUrlWithCannotBeABaseBase))
    &&& (has_trailing_slash(base) && is_serialization(without_trailing_slash(base)))
        ==> endpoint_url(base, endpoint) == endpoint_url(without_trailing_slash(base), endpoint)
}

/// `r` is what preparing an upload to `endpoint` under the root `base` with
/// `token` gives for the serialization outcome `request`: the URL error
/// first, then the serialization error, else the URL and the text fields.
pub open spec fn upload_outcome(
    base: Seq<char>,
    token: Option<String>,
    endpoint: Seq<char>,
    request: Result<JsonValue, JsonError>,
    r: Result<PreparedUpload, Error>,
) -> bool {
    match endpoint_url(base, endpoint) {
        Err(e) => r matches Err(x) && x == Error::InvalidUrl(e),
        Ok(t) => match request {
            Err(e) => r matches Err(x) && x == Error::Json(e),
            Ok(v) => r matches Ok(p) && p.url@ == t && (v matches JsonValue::Object(o) && pairs_view(
                p.fields@,
            ) == text_fields(keyed_entries(token, o.entries()))),
        },
    }
}

/// A request ready to be sent: where it goes and the JSON body.
pub struct PreparedRequest {
    pub url: EndpointUrl,
    pub body: JsonValue,
}

/// A file upload ready to be sent: where it goes and the text fields that
/// accompany the file.
pub struct PreparedUpload {
    pub url: EndpointUrl,
    pub fields: Vec<(String, String)>,
}

/// How a response is to be read: as a success, and the JSON text to parse.
pub struct ResponseBody {
    pub success: bool,
    pub json: Vec<u8>,
}

/// The bytes of the JSON text `null`.
pub open spec fn null_json() -> Seq<u8> {
    seq![110u8, 117u8, 108u8, 108u8]
}

/// Reads a response with HTTP status `status` and body `body`: a status in
/// 200..=299 is a success, anything else carries an API error; an empty
/// body is read as `null`.
pub fn interpret_response(status: u16, body: Vec<u8>) -> (r: ResponseBody)
    ensures
        r.success == (200 <= status && status <= 299),
        r.json@ == if body@.len() == 0 {
            null_json()
        } else {
            body@
        },
{
    let json = if body.len() == 0 {
        let mut null: Vec<u8> = Vec::new();
        null.push(110u8);
        null.push(117u8);
        null.push(108u8);
        null.push(108u8);
        assert(null@ =~= null_json());
        null
    } else {
        body
    };
    ResponseBody { success: 200 <= status && status <= 299, json }
}

/// Asynchronous HTTP-based client for Misskey: the API root, the access
/// token if any, and the HTTP transport.
pub struct HttpClient {
    url: Url,
    token: Option<String>,
    client: reqwest::Client,
}

impl HttpClient {
    /// The API root.
    pub closed spec fn base_url(&self) -> Seq<char> {
        self.url@
    }

    /// The access token, if any.
    pub closed spec fn api_token(&self) -> Option<String> {
        self.token
    }

    /// The HTTP transport.
    pub closed spec fn transport_spec(&self) -> reqwest::Client {
        self.client
    }

    /// A client for the API root `url` with `token`, sending through
    /// `transport`.
    pub fn from_parts(url: Url, token: Option<String>, transport: reqwest::Client) -> (r: HttpClient)
        ensures
            r.base_url() == url@,
            r.api_token() == token,
            r.transport_spec() == transport,
    {
        HttpClient { url, token, client: transport }
    }

    /// Creates a new HTTP-based client without a token.
    pub fn new(url: Url) -> (r: Result<HttpClient, Error>)
        ensures
            r matches Ok(c) ==> c.base_url() == url@ && c.api_token() is None,
            r matches Err(e) ==> e is Network,
    {
        match build_transport() {
            Ok(transport) => Ok(HttpClient::from_parts(url, None, transport)),
            Err(e) => Err(Error::Network(e)),
        }
    }

    /// Creates a new HTTP-based client with a token.
    pub fn with_token(url: Url, token: &str) -> (r: Result<HttpClient, Error>)
        ensures
            r matches Ok(c) ==> c.base_url() == url@ && opt_view(c.api_token()) == Some(token@),
            r matches Err(e) ==> e is Network,
    {
        let token = token.to_owned();
        match build_transport() {
            Ok(transport) => Ok(HttpClient::from_parts(url, Some(token), transport)),
            Err(e) => Err(Error::Network(e)),
        }
    }

    /// Creates a new builder instance with `url`; all other settings are
    /// left at their defaults. Identical to `HttpClientBuilder::new`.
    pub fn builder<T: IntoUrl>(url: T) -> (r: HttpClientBuilder)
        ensures
            r.url_spec() == url.url_spec(),
            r.api_token() is None,
    {
        HttpClientBuilder::new(url)
    }

    /// The API root.
    pub fn url(&self) -> (r: &Url)
        ensures
            r@ == self.base_url(),
    {
        &self.url
    }

    /// The HTTP transport.
    pub fn transport(&self) -> (r: &reqwest::Client)
        ensures
            *r == self.transport_spec(),
    {
        &self.client
    }

    /// Writes this client for debugging: only the API root, never the token.
    pub fn debug_string(&self) -> (r: String)
        ensures
            r@ == "HttpClient { url: "@ + crate::url::url_debug(self.base_url()) + " }"@,
    {
        let mut s = String::from_str("HttpClient { url: ");
        let u = self.url.debug_string();
        s.append(u.as_str());
        s.append(" }");
        s
    }

    /// Whether this client has an access token.
    pub fn has_token(&self) -> (r: bool)
        ensures
            r == (self.api_token() is Some),
    {
        self.token.is_some()
    }

    /// Whether `request` can be sent by this client: with a token it must be
    /// an object without an entry `i`.
    pub fn accepts(&self, request: &JsonValue) -> (r: bool)
        ensures
            r == accepts_token(self.api_token(), *request),
    {
        match &self.token {
            None => true,
            Some(_) => match request {
                JsonValue::Object(o) => !o.contains_key("i"),
                _ => false,
            },
        }
    }

    /// The body sent for `request`: with a token, the request object with
    /// the entry `i` carrying the token; without one, the request itself.
    pub fn set_api_key(&self, request: JsonValue) -> (r: JsonValue)
        requires
            accepts_token(self.api_token(), request),
        ensures
            keyed_body(self.api_token(), request, r),
    {
        match &self.token {
            None => request,
            Some(token) => {
                match request {
                    JsonValue::Object(mut object) => {
                        let key = "i".to_owned();
                        object.insert(key, JsonValue::String(token.clone()));
                        JsonValue::Object(object)
                    },
                    _ => {
                        assert(false);
                        request
                    },
                }
            },
        }
    }

    /// The URL of `endpoint` under the API root; the error is the one the
    /// url crate gave for joining it to a root without path segments.
    pub fn endpoint_url(&self, endpoint: &str) -> (r: Result<EndpointUrl, Error>)
        ensures
            endpoint_outcome(self.base_url(), endpoint@, r),
    {
        match self.url.endpoint(endpoint) {
            Ok(u) => Ok(u),
            Err(e) => Err(Error::InvalidUrl(e)),
        }
    }

    /// The URL of the endpoint of `R` under the API root.
    pub fn make_url<R: Request>(&self) -> (r: Result<EndpointUrl, Error>)
        ensures
            endpoint_outcome(self.base_url(), R::ENDPOINT@, r),
    {
        self.endpoint_url(R::ENDPOINT)
    }

    /// Everything about a request of type `R` but its sending: the URL of
    /// its endpoint and its body, from the outcome of serializing the
    /// request. An error building the URL wins over one serializing.
    pub fn prepare_request<R: Request>(&self, request: Result<JsonValue, JsonError>) -> (r: Result<
        PreparedRequest,
        Error,
    >)
        requires
            request matches Ok(v) ==> accepts_token(self.api_token(), v),
        ensures
            match endpoint_url(self.base_url(), R::ENDPOINT@) {
                Err(e) => r matches Err(x) && x == Error::InvalidUrl(e),
                Ok(t) => match request {
                    Err(e) => r matches Err(x) && x == Error::Json(e),
                    Ok(v) => r matches Ok(p) && p.url@ == t && keyed_body(
                        self.api_token(),
                        v,
                        p.body,
                    ),
                },
            },
    {
        let url = match self.make_url::<R>() {
            Ok(url) => url,
            Err(e) => return Err(e),
        };
        match request {
            Ok(value) => Ok(PreparedRequest { url, body: self.set_api_key(value) }),
            Err(e) => Err(Error::Json(e)),
        }
    }

    /// The text fields that go with an uploaded file: every entry of the
    /// request object, with the entry `i` carrying the token if there is one.
    pub fn upload_fields(&self, request: JsonValue) -> (r: Vec<(String, String)>)
        requires
            accepts_token(self.api_token(), request),
            request matches JsonValue::Object(o) && all_strings(o.entries()),
        ensures
            request matches JsonValue::Object(o) && pairs_view(r@) == text_fields(
                keyed_entries(self.api_token(), o.entries()),
            ),
    {
        let ghost request_entries = request->Object_0.entries();
        if let JsonValue::Object(o) = &request {
            proof {
                use_type_invariant(o);
                JsonObject::lemma_valid(*o);
            }
        }
        let body = self.set_api_key(request);
        let ghost es = keyed_entries(self.api_token(), request_entries);
        proof {
            if let Some(t) = self.api_token() {
                crate::json::lemma_inserted_strings(request_entries, "i"@, JsonValue::String(t));
            }
        }
        let mut fields: Vec<(String, String)> = Vec::new();
        match &body {
            JsonValue::Object(object) => {
                let n = object.len();
                let mut i: usize = 0;
                while i < n
                    invariant
                        n == object.entries().len(),
                        object.entries() == es,
                        all_strings(es),
                        i <= n,
                        pairs_view(fields@) == text_fields(es).take(i as int),
                    decreases n - i,
                {
                    let (key, value) = object.entry(i);
                    let ghost before = fields@;
                    match value {
                        JsonValue::String(text) => {
                            fields.push((key.clone(), text.clone()));
                            assert(pairs_view(fields@) =~= pairs_view(before).push((key@, text@)));
                        },
                        _ => {
                            assert(es[i as int].1 is String);
                        },
                    }
                    assert(text_fields(es)[i as int] == (es[i as int].0, string_text(es[i as int].1)));
                    assert(text_fields(es).take(i + 1) =~= text_fields(es).take(i as int).push(
                        text_fields(es)[i as int],
                    ));
                    i += 1;
                }
                assert(text_fields(es).take(n as int) =~= text_fields(es));
            },
            _ => {},
        }
        fields
    }

    /// Everything about a file upload of type `R` but its sending: the URL
    /// of its endpoint and the text fields that go with the file, from the
    /// outcome of serializing the request. An error building the URL wins
    /// over one serializing; only then must the request be an object of
    /// strings.
    pub fn prepare_upload<R: UploadFileRequest>(
        &self,
        request: Result<JsonValue, JsonError>,
    ) -> (r: Result<PreparedUpload, Error>)
        requires
            request matches Ok(v) ==> accepts_token(self.api_token(), v),
            endpoint_url(self.base_url(), R::ENDPOINT@) is Ok ==> (request matches Ok(v) ==> (
            v matches JsonValue::Object(o) && all_strings(o.entries()))),
        ensures
            upload_outcome(self.base_url(), self.api_token(), R::ENDPOINT@, request, r),
    {
        let url = match self.make_url::<R>() {
            Ok(url) => url,
            Err(e) => return Err(e),
        };
        match request {
            Ok(value) => Ok(PreparedUpload { url, fields: self.upload_fields(value) }),
            Err(e) => Err(Error::Json(e)),
        }
    }

    /// `prepare_upload` where its conditions hold, `None` where they do not:
    /// where a token cannot be added to the request, or where the endpoint
    /// URL can be built and the request is no object of strings.
    pub fn try_prepare_upload<R: UploadFileRequest>(
        &self,
        request: Result<JsonValue, JsonError>,
    ) -> (r: Option<Result<PreparedUpload, Error>>)
        ensures
            r is None <==> (request matches Ok(v) && (!accepts_token(self.api_token(), v) || (
            endpoint_url(self.base_url(), R::ENDPOINT@) is Ok && !(v matches JsonValue::Object(
                o,
            ) && all_strings(o.entries()))))),
            r matches Some(x) ==> upload_outcome(
                self.base_url(),
                self.api_token(),
                R::ENDPOINT@,
                request,
                x,
            ),
    {
        if let Ok(v) = &request {
            if !self.accepts(v) {
                return None;
            }
            let url_ok = self.make_url::<R>().is_ok();
            if url_ok {
                let strings = match v.as_object() {
                    Some(o) => o.all_strings(),
                    None => false,
                };
                if !strings {
                    return None;
                }
            }
        }
        Some(self.prepare_upload::<R>(request))
    }
}

} // verus!
