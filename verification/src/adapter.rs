//! The provider adapter: a pure mapping from provider identity, API key and
//! settings to an HTTP request, and from one decoded stream event payload to
//! an optional text delta.
//!
//! Both providers take the same role-alternating message shape; they differ
//! in URL, authentication headers and the JSON path that carries a delta.

use vstd::prelude::*;
use vstd::string::StrSliceExecFns;
use vstd::string::StringExecFns;

use crate::encode::escape_json_str;
use crate::encode::json_escape;
use crate::encode::spec_dec;
use crate::encode::u32_to_dec;
use crate::settings::Provider;
use crate::settings::Settings;

verus! {

/// One HTTP request, ready for a transport to send. The method is always
/// POST and the body is complete: the engine never touches the network
/// itself.
pub struct HttpRequest {
    pub url: String,
    pub headers: Vec<(String, String)>,
    pub body: String,
}

/// The character-level image of a header list.
pub open spec fn headers_view(hs: Seq<(String, String)>) -> Seq<(Seq<char>, Seq<char>)> {
    hs.map_values(|h: (String, String)| (h.0@, h.1@))
}

/// The character-level image of a (prompt, response) history snapshot.
pub open spec fn pairs_view(hs: Seq<(String, String)>) -> Seq<(Seq<char>, Seq<char>)> {
    hs.map_values(|h: (String, String)| (h.0@, h.1@))
}

/// The endpoint a provider's requests go to.
pub open spec fn provider_url(p: Provider) -> Seq<char> {
    match p {
        Provider::OpenAI => "https://api.openai.com/v1/chat/completions"@,
        Provider::Anthropic => "https://api.anthropic.com/v1/messages"@,
    }
}

/// The headers a provider's requests carry: OpenAI authenticates with a
/// bearer token, Anthropic with a dedicated key header plus a version
/// header; both send JSON.
pub open spec fn spec_headers(p: Provider, key: Seq<char>) -> Seq<(Seq<char>, Seq<char>)> {
    match p {
        Provider::OpenAI => seq![
            ("Authorization"@, "Bearer "@ + key),
            ("Content-Type"@, "application/json"@),
        ],
        Provider::Anthropic => seq![
            ("x-api-key"@, key),
            ("anthropic-version"@, "2023-06-01"@),
            ("Content-Type"@, "application/json"@),
        ],
    }
}

/// One `{"role":...,"content":...}` message object.
pub open spec fn message_json(role: Seq<char>, content: Seq<char>) -> Seq<char> {
    "{\"role\":\""@ + role + "\",\"content\":\""@ + json_escape(content) + "\"}"@
}

/// The message objects of the history, in conversation order: each exchange
/// contributes its prompt as a user message and its response as an
/// assistant message, every one followed by the comma that separates it
/// from its successor.
pub open spec fn history_json(h: Seq<(Seq<char>, Seq<char>)>) -> Seq<char>
    decreases h.len(),
{
    if h.len() == 0 {
        Seq::empty()
    } else {
        history_json(h.drop_last()) + message_json("user"@, h.last().0) + ","@ + message_json(
            "assistant"@,
            h.last().1,
        ) + ","@
    }
}

/// The complete request body: the model and sampling settings, `stream`
/// set, and the message history followed by the new prompt as the final
/// user message. The temperature is written with one decimal digit.
pub open spec fn request_body_json(
    model: Seq<char>,
    max_tokens: u32,
    temperature_tenths: u32,
    history: Seq<(Seq<char>, Seq<char>)>,
    prompt: Seq<char>,
) -> Seq<char> {
    "{\"model\":\""@ + json_escape(model) + "\",\"max_tokens\":"@ + spec_dec(max_tokens as nat)
        + ",\"temperature\":"@ + spec_dec((temperature_tenths / 10) as nat) + "."@ + spec_dec(
        (temperature_tenths % 10) as nat,
    ) + ",\"stream\":true,\"messages\":["@ + history_json(history) + message_json("user"@, prompt)
        + "]}"@
}

/// Appends one message object to the body being built.
fn append_message(b: &mut String, role: &str, content: &str)
    ensures
        final(b)@ == old(b)@ + message_json(role@, content@),
{
    b.append("{\"role\":\"");
    b.append(role);
    b.append("\",\"content\":\"");
    let esc = escape_json_str(content);
    b.append(esc.as_str());
    b.append("\"}");
    proof {
        assert(b@ =~= old(b)@ + message_json(role@, content@));
    }
}

/// Builds the request body for either provider (both use the same shape).
pub fn build_request_body(
    model: &str,
    max_tokens: u32,
    temperature_tenths: u32,
    history: &Vec<(String, String)>,
    prompt: &str,
) -> (r: String)
    ensures
        r@ == request_body_json(
            model@,
            max_tokens,
            temperature_tenths,
            pairs_view(history@),
            prompt@,
        ),
{
    let ghost hist = pairs_view(history@);
    let mut b = String::from_str("{\"model\":\"");
    let esc_model = escape_json_str(model);
    b.append(esc_model.as_str());
    b.append("\",\"max_tokens\":");
    let dec_max = u32_to_dec(max_tokens);
    b.append(dec_max.as_str());
    b.append(",\"temperature\":");
    let dec_whole = u32_to_dec(temperature_tenths / 10);
    b.append(dec_whole.as_str());
    b.append(".");
    let dec_frac = u32_to_dec(temperature_tenths % 10);
    b.append(dec_frac.as_str());
    b.append(",\"stream\":true,\"messages\":[");
    let ghost head = b@;
    let mut i: usize = 0;
    while i < history.len()
        invariant
            i <= history@.len(),
            hist == pairs_view(history@),
            hist.len() == history@.len(),
            b@ == head + history_json(hist.take(i as int)),
        decreases history@.len() - i,
    {
        append_message(&mut b, "user", history[i].0.as_str());
        b.append(",");
        append_message(&mut b, "assistant", history[i].1.as_str());
        b.append(",");
        proof {
            assert(hist.take(i + 1).drop_last() =~= hist.take(i as int));
            assert(hist.take(i + 1).last() == hist[i as int]);
            assert(hist[i as int].0 == history@[i as int].0@);
            assert(hist[i as int].1 == history@[i as int].1@);
            assert(b@ =~= head + history_json(hist.take(i + 1)));
        }
        i = i + 1;
    }
    proof {
        assert(hist.take(hist.len() as int) =~= hist);
    }
    append_message(&mut b, "user", prompt);
    b.append("]}");
    proof {
        assert(b@ =~= request_body_json(model@, max_tokens, temperature_tenths, hist, prompt@));
    }
    b
}

/// The OpenAI endpoint and headers: bearer-token authentication.
fn build_openai_request(key: &str) -> (r: HttpRequest)
    ensures
        r.url@ == provider_url(Provider::OpenAI),
        headers_view(r.headers@) == spec_headers(Provider::OpenAI, key@),
        r.body@ == Seq::<char>::empty(),
{
    let mut bearer = String::from_str("Bearer ");
    bearer.append(key);
    let mut headers: Vec<(String, String)> = Vec::new();
    headers.push((String::from_str("Authorization"), bearer));
    headers.push((String::from_str("Content-Type"), String::from_str("application/json")));
    let r = HttpRequest {
        url: String::from_str("https://api.openai.com/v1/chat/completions"),
        headers,
        body: String::new(),
    };
    proof {
        assert(headers_view(r.headers@) =~= spec_headers(Provider::OpenAI, key@));
    }
    r
}

/// The Anthropic endpoint and headers: a dedicated API-key header and a
/// fixed version header.
fn build_anthropic_request(key: &str) -> (r: HttpRequest)
    ensures
        r.url@ == provider_url(Provider::Anthropic),
        headers_view(r.headers@) == spec_headers(Provider::Anthropic, key@),
        r.body@ == Seq::<char>::empty(),
{
    let mut headers: Vec<(String, String)> = Vec::new();
    headers.push((String::from_str("x-api-key"), String::from_str(key)));
    headers.push((String::from_str("anthropic-version"), String::from_str("2023-06-01")));
    headers.push((String::from_str("Content-Type"), String::from_str("application/json")));
    let r = HttpRequest {
        url: String::from_str("https://api.anthropic.com/v1/messages"),
        headers,
        body: String::new(),
    };
    proof {
        assert(headers_view(r.headers@) =~= spec_headers(Provider::Anthropic, key@));
    }
    r
}

/// Builds the complete request for a provider: its endpoint, its
/// authentication headers, and the shared body shape over the history
/// snapshot and the new prompt.
pub fn build_request(
    provider: Provider,
    key: &str,
    settings: &Settings,
    history: &Vec<(String, String)>,
    prompt: &str,
) -> (r: HttpRequest)
    ensures
        r.url@ == provider_url(provider),
        headers_view(r.headers@) == spec_headers(provider, key@),
        r.body@ == request_body_json(
            settings.model@,
            settings.max_tokens,
            settings.temperature_tenths,
            pairs_view(history@),
            prompt@,
        ),
{
    let mut r = match provider {
        Provider::OpenAI => build_openai_request(key),
        Provider::Anthropic => build_anthropic_request(key),
    };
    r.body = build_request_body(
        settings.model.as_str(),
        settings.max_tokens,
        settings.temperature_tenths,
        history,
        prompt,
    );
    r
}

/// The text delta an OpenAI stream payload carries, if any: the string at
/// `choices[0].delta.content`. A payload that does not parse as JSON, or
/// whose path holds no string, carries none.
pub uninterp spec fn openai_delta(payload: Seq<char>) -> Option<Seq<char>>;

/// The text delta an Anthropic stream payload carries, if any: the string
/// at `delta.text`. A payload that does not parse as JSON, or whose path
/// holds no string, carries none.
pub uninterp spec fn anthropic_delta(payload: Seq<char>) -> Option<Seq<char>>;

/// The delta a payload carries under a provider's wire format.
pub open spec fn spec_extract_delta(p: Provider, payload: Seq<char>) -> Option<Seq<char>> {
    match p {
        Provider::OpenAI => openai_delta(payload),
        Provider::Anthropic => anthropic_delta(payload),
    }
}

/// Relies on serde_json::from_str and serde_json::Value's indexing and
/// as_str: parses the payload and reads the string at
/// `choices[0].delta.content`. Indexing a Value never panics (a mismatch
/// yields null), so the call returns None exactly when the payload does not
/// parse or that path holds no string; the result depends on the payload
/// text alone.
#[verifier::external_body]
fn extract_openai_delta(payload: &str) -> (r: Option<String>)
    ensures
        (match r {
            Some(s) => Some(s@),
            None => None,
        }) == openai_delta(payload@),
{
    let parsed: Result<serde_json::Value, serde_json::Error> = serde_json::from_str(payload);
    match parsed {
        Ok(v) => v["choices"][0]["delta"]["content"].as_str().map(|s| s.to_string()),
        Err(_) => None,
    }
}

/// Relies on serde_json::from_str and serde_json::Value's indexing and
/// as_str: parses the payload and reads the string at `delta.text`.
/// Indexing a Value never panics (a mismatch yields null), so the call
/// returns None exactly when the payload does not parse or that path holds
/// no string; the result depends on the payload text alone.
#[verifier::external_body]
fn extract_anthropic_delta(payload: &str) -> (r: Option<String>)
    ensures
        (match r {
            Some(s) => Some(s@),
            None => None,
        }) == anthropic_delta(payload@),
{
    let parsed: Result<serde_json::Value, serde_json::Error> = serde_json::from_str(payload);
    match parsed {
        Ok(v) => v["delta"]["text"].as_str().map(|s| s.to_string()),
        Err(_) => None,
    }
}

/// Extracts the text delta of one stream payload under the provider's wire
/// format; a malformed or unrecognized payload yields no delta (it is
/// skipped, not an error).
pub fn extract_delta(provider: Provider, payload: &str) -> (r: Option<String>)
    ensures
        (match r {
            Some(s) => Some(s@),
            None => None,
        }) == spec_extract_delta(provider, payload@),
{
    match provider {
        Provider::OpenAI => extract_openai_delta(payload),
        Provider::Anthropic => extract_anthropic_delta(payload),
    }
}

} // verus!
