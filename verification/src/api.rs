//! The weather service endpoint: the request URL, built once in a
//! 120-byte buffer, and the seed handed to the TLS session.

use vstd::prelude::*;

use crate::text::{byte_len, lemma_ascii_byte_len, lemma_byte_len_concat, url_buffer_as_str, url_buffer_new, url_buffer_push_str, url_text};

verus! {

/// The request URL up to the API key: current weather in metric units at
/// latitude 45.19, longitude 5.72.
pub const URL_PREFIX: &'static str =
    "https://api.openweathermap.org/data/2.5/weather?lat=45.19&lon=5.72&units=metric&appid=";

/// Characters of `URL_PREFIX`.
pub open spec fn url_prefix() -> Seq<char> {
    URL_PREFIX@
}

/// The full request URL for an API key.
pub open spec fn request_url(api_key: Seq<char>) -> Seq<char> {
    url_prefix() + api_key
}

/// The prefix takes 86 bytes, which leaves 34 of the URL buffer for the
/// key.
pub proof fn lemma_url_prefix_len()
    ensures
        byte_len(url_prefix()) == 86,
        url_prefix().len() == 86,
{
    reveal_strlit(
        "https://api.openweathermap.org/data/2.5/weather?lat=45.19&lon=5.72&units=metric&appid=",
    );
    assert(vstd::utf8::is_ascii_chars(url_prefix()));
    lemma_ascii_byte_len(url_prefix());
}

/// The request URL is the 86-character prefix followed by the key, and
/// the key is the part after the prefix.
pub proof fn lemma_request_url(api_key: Seq<char>)
    ensures
        request_url(api_key).len() == 86 + api_key.len(),
        request_url(api_key).take(86) == url_prefix(),
        request_url(api_key).skip(86) == api_key,
        byte_len(request_url(api_key)) == 86 + byte_len(api_key),
{
    lemma_url_prefix_len();
    assert(request_url(api_key).take(86) =~= url_prefix());
    assert(request_url(api_key).skip(86) =~= api_key);
    lemma_byte_len_concat(url_prefix(), api_key);
}

/// Client settings of the weather service.
pub struct WeatherApi {
    url: heapless::String<120>,
    tls_seed: u64,
}

impl WeatherApi {
    /// The request URL held.
    pub closed spec fn url_view(&self) -> Seq<char> {
        url_text(self.url)
    }

    /// The TLS seed held.
    pub closed spec fn tls_seed_view(&self) -> u64 {
        self.tls_seed
    }

    /// Builds the request URL for `api_key`. The URL buffer holds 120
    /// bytes: the key must fit in what the prefix leaves of it.
    pub fn new(api_key: &str, tls_seed: u64) -> (api: Self)
        requires
            byte_len(url_prefix()) + byte_len(api_key@) <= 120,
        ensures
            api.url_view() == request_url(api_key@),
            api.tls_seed_view() == tls_seed,
    {
        let mut url = url_buffer_new();
        let prefixed = url_buffer_push_str(&mut url, URL_PREFIX);
        assert(prefixed is Ok);
        let keyed = url_buffer_push_str(&mut url, api_key);
        assert(keyed is Ok);
        WeatherApi { url, tls_seed }
    }

    /// The request URL.
    pub fn url(&self) -> (url: &str)
        ensures
            url@ == self.url_view(),
    {
        url_buffer_as_str(&self.url)
    }

    /// The seed of the TLS session.
    pub fn tls_seed(&self) -> (seed: u64)
        ensures
            seed == self.tls_seed_view(),
    {
        self.tls_seed
    }
}

} // verus!
