//! Requests to the translation service, and what its replies hold.
//!
//! The exchange with the service is left to the caller: the library writes
//! the request and reads the reply.

use crate::parser::pair_views;
use crate::pattern::optional_text;
use vstd::prelude::*;

verus! {

/// What `serde_json` writes for the list of one object with the one member
/// `key`, a string, and its value `value`.
pub uninterp spec fn json_single(key: Seq<char>, value: Seq<char>) -> Seq<char>;

/// The string that `serde_json` finds in the document `body` at the place
/// `pointer`, a JSON Pointer; nothing where `body` is no JSON, or holds
/// nothing or no string at that place.
pub uninterp spec fn json_text_at(body: Seq<char>, pointer: Seq<char>) -> Option<Seq<char>>;

/// Builds a `serde_json::Value`, an array of one object with one member, and
/// writes it out with `to_string`. The text depends on `key` and `value`
/// alone.
#[verifier::external_body]
fn write_json_single(key: &str, value: &str) -> (r: String)
    ensures
        r@ == json_single(key@, value@),
{
    let mut entry = serde_json::Map::new();
    entry.insert(key.to_string(), serde_json::Value::String(value.to_string()));
    serde_json::Value::Array(vec![serde_json::Value::Object(entry)]).to_string()
}

/// Parses `body` with `serde_json::from_str`, follows `pointer` with
/// `Value::pointer` and hands out the string found there with
/// `Value::as_str`. Each of the three may find nothing; what comes back
/// depends on the two texts alone.
#[verifier::external_body]
fn read_json_text(body: &str, pointer: &str) -> (r: Option<String>)
    ensures
        optional_text(r) == json_text_at(body@, pointer@),
{
    match serde_json::from_str::<serde_json::Value>(body) {
        Ok(value) => value.pointer(pointer).and_then(|found| found.as_str()).map(|t| t.to_string()),
        Err(_) => None,
    }
}

/// One request to the translation service: where it goes, the headers and
/// the query that go with it, and its body.
#[derive(Debug, Clone)]
pub struct TranslationRequest {
    pub url: String,
    pub headers: Vec<(String, String)>,
    pub query: Vec<(String, String)>,
    pub body: String,
}

/// A `TranslationRequest` as plain values.
pub struct TranslationRequestView {
    pub url: Seq<char>,
    pub headers: Seq<(Seq<char>, Seq<char>)>,
    pub query: Seq<(Seq<char>, Seq<char>)>,
    pub body: Seq<char>,
}

impl View for TranslationRequest {
    type V = TranslationRequestView;

    open spec fn view(&self) -> TranslationRequestView {
        TranslationRequestView {
            url: self.url@,
            headers: pair_views(self.headers@),
            query: pair_views(self.query@),
            body: self.body@,
        }
    }
}

/// The translation service of Azure: its address, the key of the account,
/// and the region of the account where it has one.
pub struct AzureTranslator {
    service_url: String,
    access_key: String,
    region: Option<String>,
}

/// An `AzureTranslator` as plain values.
pub struct AzureTranslatorView {
    pub service_url: Seq<char>,
    pub access_key: Seq<char>,
    pub region: Option<Seq<char>>,
}

impl View for AzureTranslator {
    type V = AzureTranslatorView;

    closed spec fn view(&self) -> AzureTranslatorView {
        AzureTranslatorView {
            service_url: self.service_url@,
            access_key: self.access_key@,
            region: optional_text(self.region),
        }
    }
}

/// The place of the first translation in a reply of the service.
pub open spec fn translation_pointer() -> Seq<char> {
    "/0/translations/0/text"@
}

impl AzureTranslatorView {
    /// The request that asks for `text`, written in the language `from_lang`,
    /// in the language `to_lang`. An account without a region is one of the
    /// region `global`.
    pub open spec fn request(
        self,
        text: Seq<char>,
        from_lang: Seq<char>,
        to_lang: Seq<char>,
    ) -> TranslationRequestView {
        TranslationRequestView {
            url: self.service_url,
            headers: seq![
                ("Content-Type"@, "application/json"@),
                ("Ocp-Apim-Subscription-Key"@, self.access_key),
                (
                    "Ocp-Apim-Subscription-Region"@,
                    match self.region {
                        Some(region) => region,
                        None => "global"@,
                    },
                ),
            ],
            query: seq![("from"@, from_lang), ("to"@, to_lang)],
            body: json_single("text"@, text),
        }
    }
}

/// The translation that the reply `body` of the service holds.
pub open spec fn translation_in(body: Seq<char>) -> Option<Seq<char>> {
    json_text_at(body, translation_pointer())
}

impl AzureTranslator {
    /// The service at `service_url`, used with the key `access_key`.
    pub fn new(service_url: String, access_key: String, region: Option<String>) -> (r:
        AzureTranslator)
        ensures
            r@ == (AzureTranslatorView {
                service_url: service_url@,
                access_key: access_key@,
                region: optional_text(region),
            }),
    {
        AzureTranslator { service_url, access_key, region }
    }

    /// The request that asks for `text` to be translated.
    pub fn request(&self, text: &str, from_lang: &str, to_lang: &str) -> (r: TranslationRequest)
        ensures
            r@ == self@.request(text@, from_lang@, to_lang@),
    {
        let region: String = match &self.region {
            Some(region) => region.clone(),
            None => "global".to_owned(),
        };
        let mut headers: Vec<(String, String)> = Vec::new();
        headers.push(("Content-Type".to_owned(), "application/json".to_owned()));
        headers.push(("Ocp-Apim-Subscription-Key".to_owned(), self.access_key.clone()));
        headers.push(("Ocp-Apim-Subscription-Region".to_owned(), region));
        let mut query: Vec<(String, String)> = Vec::new();
        query.push(("from".to_owned(), from_lang.to_owned()));
        query.push(("to".to_owned(), to_lang.to_owned()));
        let r = TranslationRequest {
            url: self.service_url.clone(),
            headers,
            query,
            body: write_json_single("text", text),
        };
        assert(r@.headers =~= self@.request(text@, from_lang@, to_lang@).headers);
        assert(r@.query =~= self@.request(text@, from_lang@, to_lang@).query);
        r
    }

    /// The translation that the reply `body` of the service holds, if it
    /// holds one.
    pub fn read_response(body: &str) -> (r: Option<String>)
        ensures
            optional_text(r) == translation_in(body@),
    {
        read_json_text(body, "/0/translations/0/text")
    }
}

} // verus!
