//! What the completion client sends: the endpoint, rewritten for the
//! managed cloud, and the request headers.

use vstd::prelude::*;
use crate::model::{ConfigInterface, MessageInterface, ModelOptions};
use crate::text::{contains, ends_with, has_suffix, occurs_in};

verus! {

/// The host suffix of the managed cloud.
pub open spec fn managed_cloud_marker() -> Seq<char> {
    ".azure.com"@
}

/// The endpoint is served by the managed cloud.
pub open spec fn spec_is_azure_endpoint(endpoint: Seq<char>) -> bool {
    occurs_in(endpoint, managed_cloud_marker())
}

/// Whether the endpoint is served by the managed cloud.
pub fn is_azure_endpoint(endpoint: &str) -> (r: bool)
    ensures
        r == spec_is_azure_endpoint(endpoint@),
{
    contains(endpoint, ".azure.com")
}

/// The managed cloud's API version for a model.
pub open spec fn spec_api_version(model: ModelOptions) -> Seq<char> {
    if model.spec_is_gpt4_family() {
        "2023-07-01-preview"@
    } else {
        "2023-03-15-preview"@
    }
}

/// The managed cloud's API version for a model.
pub fn api_version(model: &ModelOptions) -> (r: &'static str)
    ensures
        r@ == spec_api_version(*model),
{
    if model.is_gpt4_family() {
        "2023-07-01-preview"
    } else {
        "2023-03-15-preview"
    }
}

/// The deployment-scoped path of a model on the managed cloud.
pub open spec fn spec_deployment_path(model: ModelOptions) -> Seq<char> {
    "openai/deployments/"@ + model.spec_name() + "/chat/completions?api-version="@ + spec_api_version(model)
}

/// The deployment-scoped path of a model on the managed cloud.
pub fn deployment_path(model: &ModelOptions) -> (r: String)
    ensures
        r@ == spec_deployment_path(*model),
{
    let mut path = String::from_str("openai/deployments/");
    path.append(model.name());
    path.append("/chat/completions?api-version=");
    path.append(api_version(model));
    path
}

/// The endpoint a request goes to: on the managed cloud, with a key, the
/// deployment path is appended (after a `/` if there is none) unless the
/// endpoint already ends with it.
pub open spec fn spec_rewrite_endpoint(endpoint: Seq<char>, model: ModelOptions, has_key: bool) -> Seq<char> {
    let path = spec_deployment_path(model);
    if spec_is_azure_endpoint(endpoint) && has_key && !has_suffix(endpoint, path) {
        if endpoint.len() > 0 && endpoint.last() == '/' {
            endpoint + path
        } else {
            endpoint.push('/') + path
        }
    } else {
        endpoint
    }
}

/// The endpoint a request goes to (see `spec_rewrite_endpoint`).
pub fn rewrite_endpoint(endpoint: &str, model: &ModelOptions, has_key: bool) -> (r: String)
    ensures
        r@ == spec_rewrite_endpoint(endpoint@, *model, has_key),
{
    let mut out = endpoint.to_owned();
    if is_azure_endpoint(endpoint) && has_key {
        let path = deployment_path(model);
        if !ends_with(endpoint, path.as_str()) {
            let slash = ends_with(endpoint, "/");
            proof {
                reveal_strlit("/");
                assert("/"@ =~= seq!['/']);
                if endpoint@.len() > 0 {
                    let tail = endpoint@.subrange(endpoint@.len() - 1, endpoint@.len() as int);
                    assert(tail =~= seq![endpoint@.last()]);
                    if endpoint@.last() == '/' {
                        assert(tail =~= "/"@);
                    } else {
                        assert(tail[0] != "/"@[0]);
                    }
                }
                assert(slash == (endpoint@.len() > 0 && endpoint@.last() == '/'));
            }
            if !slash {
                out.push('/');
            }
            out.append(path.as_str());
        }
    }
    out
}

/// A string ending with `path` ends with it after anything is put in front.
proof fn lemma_suffix_of_concat(a: Seq<char>, path: Seq<char>)
    ensures
        has_suffix(a + path, path),
{
    assert((a + path).subrange((a + path).len() - path.len(), (a + path).len() as int) =~= path);
}

/// Rewriting an endpoint that was already rewritten changes nothing.
pub proof fn lemma_rewrite_idempotent(endpoint: Seq<char>, model: ModelOptions, has_key: bool)
    ensures
        spec_rewrite_endpoint(spec_rewrite_endpoint(endpoint, model, has_key), model, has_key)
            == spec_rewrite_endpoint(endpoint, model, has_key),
{
    let path = spec_deployment_path(model);
    if spec_is_azure_endpoint(endpoint) && has_key && !has_suffix(endpoint, path) {
        if endpoint.len() > 0 && endpoint.last() == '/' {
            lemma_suffix_of_concat(endpoint, path);
        } else {
            lemma_suffix_of_concat(endpoint.push('/'), path);
        }
    }
}

/// The views of a list of header name/value pairs.
pub open spec fn header_views(v: Seq<(String, String)>) -> Seq<(Seq<char>, Seq<char>)> {
    v.map_values(|h: (String, String)| (h.0@, h.1@))
}

/// The headers of a completion request: the JSON content type; with a key,
/// a bearer authorization header and the vendor key header; then `custom`.
pub open spec fn spec_request_headers(api_key: Option<Seq<char>>, custom: Seq<(Seq<char>, Seq<char>)>) -> Seq<(Seq<char>, Seq<char>)> {
    let base = seq![("Content-Type"@, "application/json"@)];
    match api_key {
        Some(k) => base + seq![("Authorization"@, "Bearer "@ + k), ("api-key"@, k)] + custom,
        None => base + custom,
    }
}

/// The headers of a completion request (see `spec_request_headers`).
pub fn request_headers(api_key: &Option<String>, custom: Vec<(String, String)>) -> (r: Vec<(String, String)>)
    ensures
        header_views(r@) == spec_request_headers(
            match api_key { Some(k) => Some(k@), None => None },
            header_views(custom@),
        ),
{
    let mut out: Vec<(String, String)> = Vec::new();
    out.push((String::from_str("Content-Type"), String::from_str("application/json")));
    if let Some(k) = api_key {
        let mut bearer = String::from_str("Bearer ");
        bearer.append(k.as_str());
        out.push((String::from_str("Authorization"), bearer));
        out.push((String::from_str("api-key"), k.clone()));
    }
    let ghost prefix = header_views(out@);
    let rest = custom;
    let ghost all = header_views(rest@);
    let ghost items = rest@;
    for h in it: rest.into_iter()
        invariant
            it.seq() == items,
            all == header_views(items),
            header_views(out@) == prefix + all.subrange(0, it.index() as int),
    {
        let ghost before = out@;
        assert(h == items[it.index() as int]);
        out.push(h);
        assert(out@ =~= before.push(h));
        assert(header_views(out@) =~= header_views(before).push((h.0@, h.1@)));
        assert(all.subrange(0, it.index() + 1) =~= all.subrange(0, it.index() as int).push(all[it.index() as int]));
        assert(header_views(out@) =~= prefix + all.subrange(0, it.index() + 1));
    }
    assert(all.subrange(0, all.len() as int) =~= all);
    assert(header_views(out@) =~= prefix + all);
    out
}


/// What `serde_json::to_string` makes of a string: its JSON string literal.
pub uninterp spec fn json_string_of(s: Seq<char>) -> Seq<char>;

/// Relies on `serde_json::to_string` for `str`: the quoted, escaped JSON
/// string literal (writing to memory, it does not fail).
#[verifier::external_body]
fn json_string(s: &str) -> (r: String)
    ensures
        r@ == json_string_of(s@),
{
    match serde_json::to_string(s) {
        Ok(j) => j,
        Err(_) => String::new(),
    }
}

/// The decimal digit for `d < 10`.
pub open spec fn digit_char(d: nat) -> char {
    if d == 0 { '0' } else if d == 1 { '1' } else if d == 2 { '2' } else if d == 3 { '3' }
    else if d == 4 { '4' } else if d == 5 { '5' } else if d == 6 { '6' } else if d == 7 { '7' }
    else if d == 8 { '8' } else { '9' }
}

/// The decimal digits of `n`.
pub open spec fn digits_of(n: nat) -> Seq<char>
    decreases n,
{
    if n < 10 {
        seq![digit_char(n)]
    } else {
        digits_of(n / 10).push(digit_char(n % 10))
    }
}

/// The decimal text of `n`, with a leading `-` if negative.
pub open spec fn decimal_of(n: int) -> Seq<char> {
    if n < 0 {
        seq!['-'] + digits_of((-n) as nat)
    } else {
        digits_of(n as nat)
    }
}

/// Appends the decimal digits of `v`.
fn push_digits(out: &mut String, v: u64)
    ensures
        final(out)@ == old(out)@ + digits_of(v as nat),
    decreases v,
{
    if v >= 10 {
        push_digits(out, v / 10);
    }
    let d = v % 10;
    let c = if d == 0 { '0' } else if d == 1 { '1' } else if d == 2 { '2' } else if d == 3 { '3' }
        else if d == 4 { '4' } else if d == 5 { '5' } else if d == 6 { '6' } else if d == 7 { '7' }
        else if d == 8 { '8' } else { '9' };
    out.push(c);
}

/// Appends the decimal text of `n`.
fn push_decimal(out: &mut String, n: i32)
    ensures
        final(out)@ == old(out)@ + decimal_of(n as int),
{
    if n < 0 {
        out.push('-');
        let v: u64 = (0i64 - n as i64) as u64;
        push_digits(out, v);
    } else {
        push_digits(out, n as u64);
    }
}

/// A message as the request carries it, its content given as the JSON
/// string literal `q`.
pub open spec fn message_json(m: MessageInterface, q: Seq<char>) -> Seq<char> {
    "{\"role\":\""@ + m.role.spec_name() + "\",\"content\":"@ + q + "}"@
}

/// The messages as the request carries them, separated by commas; `qs[i]`
/// is the literal of message `i`'s content.
pub open spec fn messages_json(ms: Seq<MessageInterface>, qs: Seq<Seq<char>>) -> Seq<char>
    decreases ms.len(),
{
    if ms.len() == 0 {
        Seq::<char>::empty()
    } else if ms.len() == 1 {
        message_json(ms[0], qs[0])
    } else {
        messages_json(ms.drop_last(), qs) + ","@ + message_json(ms.last(), qs[ms.len() - 1])
    }
}

/// The JSON body of a completion request, the contents given as literals.
pub open spec fn spec_request_body_with(ms: Seq<MessageInterface>, qs: Seq<Seq<char>>, config: ConfigInterface, stream: bool) -> Seq<char> {
    "{\"messages\":["@ + messages_json(ms, qs) + "],\"temperature\":"@ + decimal_of(config.temperature as int)
        + ",\"max_tokens\":"@ + decimal_of(config.max_tokens as int)
        + (if stream { ",\"stream\":true"@ } else { Seq::<char>::empty() }) + "}"@
}

/// The JSON string literals of the messages' contents.
pub open spec fn content_literals(ms: Seq<MessageInterface>) -> Seq<Seq<char>> {
    ms.map_values(|m: MessageInterface| json_string_of(m.content@))
}

/// The JSON body of a completion request.
pub open spec fn spec_request_body(ms: Seq<MessageInterface>, config: ConfigInterface, stream: bool) -> Seq<char> {
    spec_request_body_with(ms, content_literals(ms), config, stream)
}

/// The JSON body of a completion request, where `quoted[i]` is the JSON
/// string literal of message `i`'s content: the messages with their role and
/// content, the temperature, the token limit, and for a stream the flag.
pub fn frame_request_body(messages: &[MessageInterface], quoted: &[String], config: &ConfigInterface, stream: bool) -> (r: String)
    requires
        quoted@.len() == messages@.len(),
    ensures
        r@ == spec_request_body_with(messages@, quoted@.map_values(|q: String| q@), *config, stream),
{
    let ghost qs = quoted@.map_values(|q: String| q@);
    let mut out = String::from_str("{\"messages\":[");
    let ghost head = out@;
    let n = messages.len();
    let mut k: usize = 0;
    assert(messages@.subrange(0, 0) =~= Seq::<MessageInterface>::empty());
    while k < n
        invariant
            k <= n == messages@.len() == quoted@.len(),
            qs == quoted@.map_values(|q: String| q@),
            out@ == head + messages_json(messages@.subrange(0, k as int), qs),
        decreases n - k,
    {
        let ghost before = messages@.subrange(0, k as int);
        let ghost after = messages@.subrange(0, k + 1);
        assert(after.drop_last() =~= before);
        assert(after.last() == messages@[k as int]);
        if k > 0 {
            out.append(",");
        }
        let m = &messages[k];
        out.append("{\"role\":\"");
        out.append(m.role.name());
        out.append("\",\"content\":");
        out.append(quoted[k].as_str());
        out.append("}");
        assert(qs[k as int] == quoted@[k as int]@);
        proof {
            if k == 0 {
                assert(before =~= Seq::<MessageInterface>::empty());
                assert(after =~= seq![messages@[0]]);
            }
        }
        assert(out@ =~= head + messages_json(after, qs));
        k += 1;
    }
    assert(messages@.subrange(0, n as int) =~= messages@);
    out.append("],\"temperature\":");
    push_decimal(&mut out, config.temperature);
    out.append(",\"max_tokens\":");
    push_decimal(&mut out, config.max_tokens);
    if stream {
        out.append(",\"stream\":true");
    }
    out.append("}");
    proof {
        if !stream {
            assert(out@ =~= spec_request_body_with(messages@, qs, *config, stream));
        }
    }
    out
}

/// The JSON body of a completion request (see `frame_request_body`), with
/// each content quoted by serde_json.
pub fn request_body(messages: &[MessageInterface], config: &ConfigInterface, stream: bool) -> (r: String)
    ensures
        r@ == spec_request_body(messages@, *config, stream),
{
    let mut quoted: Vec<String> = Vec::new();
    let mut k: usize = 0;
    while k < messages.len()
        invariant
            k <= messages@.len(),
            quoted@.len() == k,
            forall|j: int| 0 <= j < k ==> (#[trigger] quoted@[j])@ == json_string_of(messages@[j].content@),
        decreases messages@.len() - k,
    {
        quoted.push(json_string(messages[k].content.as_str()));
        k += 1;
    }
    let r = frame_request_body(messages, quoted.as_slice(), config, stream);
    assert(quoted@.map_values(|q: String| q@) =~= content_literals(messages@));
    r
}

} // verus!
