use crate::client::{build_transport, opt_view, HttpClient};
use crate::error::Error;
use crate::url::{url_parse, Url};
use vstd::prelude::*;

verus! {

/// A value that names an API root: a URL, or a text to be parsed as one.
pub trait IntoUrl {
    /// The serialization of the URL this value names, or the error that
    /// says why it names none.
    spec fn url_spec(&self) -> Result<Seq<char>, url::ParseError>;

    /// The URL this value names.
    fn into_url(self) -> (r: Result<Url, url::ParseError>)
        ensures
            match self.url_spec() {
                Ok(t) => r matches Ok(u) && u@ == t,
                Err(e) => r matches Err(x) && x == e,
            },
    ;
}

impl IntoUrl for Url {
    open spec fn url_spec(&self) -> Result<Seq<char>, url::ParseError> {
        Ok(self@)
    }

    fn into_url(self) -> (r: Result<Url, url::ParseError>) {
        Ok(self)
    }
}

impl<'a> IntoUrl for &'a str {
    open spec fn url_spec(&self) -> Result<Seq<char>, url::ParseError> {
        url_parse((*self)@)
    }

    fn into_url(self) -> (r: Result<Url, url::ParseError>) {
        Url::parse(self)
    }
}

impl IntoUrl for String {
    open spec fn url_spec(&self) -> Result<Seq<char>, url::ParseError> {
        url_parse(self@)
    }

    fn into_url(self) -> (r: Result<Url, url::ParseError>) {
        Url::parse(self.as_str())
    }
}

/// A text names the URL that `url::Url::parse` makes of the whole text.
pub proof fn lemma_text_names_its_parse(text: &str, owned: String)
    ensures
        text.url_spec() == url_parse(text@),
        owned.url_spec() == url_parse(owned@),
{
}

/// A URL names itself.
pub proof fn lemma_url_names_itself(url: Url)
    ensures
        url.url_spec() == Ok::<Seq<char>, url::ParseError>(url@),
{
}

/// Settings for an `HttpClient`: the API root (or why it could not be
/// had) and the access token.
pub struct HttpClientBuilder {
    url: Result<Url, url::ParseError>,
    token: Option<String>,
}

impl HttpClientBuilder {
    /// The API root, or the error that says why the given value named no URL.
    pub closed spec fn url_spec(&self) -> Result<Seq<char>, url::ParseError> {
        match self.url {
            Ok(u) => Ok(u@),
            Err(e) => Err(e),
        }
    }

    /// The access token, if one was set.
    pub closed spec fn api_token(&self) -> Option<String> {
        self.token
    }

    /// Creates a builder for the API root `url`, without a token.
    pub fn new<T: IntoUrl>(url: T) -> (r: HttpClientBuilder)
        ensures
            r.url_spec() == url.url_spec(),
            r.api_token() is None,
    {
        HttpClientBuilder { url: url.into_url(), token: None }
    }

    /// Sets the access token.
    pub fn token(self, token: &str) -> (r: HttpClientBuilder)
        ensures
            r.url_spec() == self.url_spec(),
            opt_view(r.api_token()) == Some(token@),
    {
        HttpClientBuilder { url: self.url, token: Some(token.to_owned()) }
    }

    /// Builds the client. Fails with `InvalidUrl` where no API root could
    /// be had, and with `Network` where the HTTP transport cannot be set up.
    pub fn build(self) -> (r: Result<HttpClient, Error>)
        ensures
            self.url_spec() matches Err(e) ==> (r matches Err(x) && x == Error::InvalidUrl(e)),
            r matches Ok(c) ==> Ok::<Seq<char>, url::ParseError>(c.base_url()) == self.url_spec()
                && c.api_token() == self.api_token(),
            self.url_spec() is Ok ==> (r matches Err(e) ==> e is Network),
    {
        match self.url {
            Err(e) => Err(Error::InvalidUrl(e)),
            Ok(url) => match build_transport() {
                Ok(transport) => Ok(HttpClient::from_parts(url, self.token, transport)),
                Err(e) => Err(Error::Network(e)),
            },
        }
    }
}

} // verus!
