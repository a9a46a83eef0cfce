//! Decision logic of the gRPC front end: the Nacos payload envelope, the
//! dispatch on its metadata type, and the exact JSON bodies of the replies
//! and of the pushed change notifications.

use vstd::prelude::*;

use crate::config::Config;
use crate::encoding::{json_quote, json_quoted};
use crate::numeric::{dec_rep, u64_to_string};
use crate::target::{tenant_or_empty, Target, TargetV};
use crate::wire::str_eq;

verus! {

/// The metadata of a Nacos gRPC payload. The request dispatch is keyed on
/// `type_url` (the protocol calls the field `type`).
pub struct Metadata {
    pub type_url: String,
    pub client_ip: String,
    pub headers: Vec<(String, String)>,
}

/// The body of a Nacos gRPC payload: a type URL and the message text
/// (JSON; the transport carries it as bytes).
pub struct Any {
    pub type_url: String,
    pub value: String,
}

/// The Nacos gRPC envelope: optional metadata and optional body.
pub struct Payload {
    pub metadata: Option<Metadata>,
    pub body: Option<Any>,
}

/// What a handler decided: the payload to send back, whether it stands for
/// success, and an optional message for the log.
pub struct HandlerResult {
    pub success: bool,
    pub payload: Payload,
    pub message: Option<String>,
}

/// A payload as [`PayloadUtils::build_payload`] shapes it: the given type
/// and value, empty client ip, no headers, empty body type URL.
pub open spec fn payload_is(p: Payload, type_url: Seq<char>, value: Seq<char>) -> bool {
    &&& match p.metadata {
        Some(m) => m.type_url@ == type_url && m.client_ip@.len() == 0 && m.headers@.len() == 0,
        None => false,
    }
    &&& match p.body {
        Some(b) => b.type_url@.len() == 0 && b.value@ == value,
        None => false,
    }
}

/// The error envelope the server answers with:
/// `{"resultCode":<code>,"errorCode":<code>,"message":<msg>}`.
pub open spec fn error_envelope(code: nat, msg: Seq<char>) -> Seq<char> {
    "{\"resultCode\":"@ + dec_rep(code) + ",\"errorCode\":"@ + dec_rep(code) + ",\"message\":"@
        + json_quoted(msg) + "}"@
}

impl HandlerResult {
    pub fn success(payload: Payload) -> (r: Self)
        ensures
            r.success,
            r.payload == payload,
            r.message is None,
    {
        Self { success: true, message: None, payload }
    }

    pub fn error(code: u16, message: String) -> (r: Self)
        ensures
            !r.success,
            payload_is(r.payload, "ErrorResponse"@, error_envelope(code as nat, message@)),
            match r.message {
                Some(m) => m@ == message@,
                None => false,
            },
    {
        let payload = PayloadUtils::build_error_payload(code, message.clone());
        Self { success: false, message: Some(message), payload }
    }

    pub fn error_mark(payload: Payload) -> (r: Self)
        ensures
            !r.success,
            r.payload == payload,
            r.message is None,
    {
        Self { success: false, message: None, payload }
    }

    pub fn error_with_message(payload: Payload, message: String) -> (r: Self)
        ensures
            !r.success,
            r.payload == payload,
            r.message == Some(message),
    {
        Self { success: false, message: Some(message), payload }
    }
}

/// One rendered header entry: `"key": "value"`.
pub open spec fn header_item(h: (String, String)) -> Seq<char> {
    "\""@ + h.0@ + "\": \""@ + h.1@ + "\""@
}

/// The rendered header list, comma-separated, braces excluded.
pub open spec fn headers_items(hs: Seq<(String, String)>) -> Seq<char>
    decreases hs.len(),
{
    if hs.len() == 0 {
        Seq::empty()
    } else {
        headers_items(hs.drop_last()) + (if hs.len() > 1 {
            ", "@
        } else {
            Seq::<char>::empty()
        }) + header_item(hs.last())
    }
}

/// The rendered header map: `{"k": "v", ...}`.
pub open spec fn headers_rendered(hs: Seq<(String, String)>) -> Seq<char> {
    "{"@ + headers_items(hs) + "}"@
}

fn render_headers(hs: &Vec<(String, String)>) -> (r: String)
    ensures
        r@ == headers_rendered(hs@),
{
    let mut r = "{".to_owned();
    let n = hs.len();
    let mut i: usize = 0;
    proof {
        assert(hs@.take(0) =~= Seq::<(String, String)>::empty());
        assert(r@ =~= "{"@ + headers_items(hs@.take(0)));
    }
    while i < n
        invariant
            i <= n,
            n == hs@.len(),
            r@ == "{"@ + headers_items(hs@.take(i as int)),
        decreases n - i,
    {
        if i > 0 {
            r.append(", ");
        }
        r.append("\"");
        r.append(hs[i].0.as_str());
        r.append("\": \"");
        r.append(hs[i].1.as_str());
        r.append("\"");
        proof {
            let t = hs@.take(i + 1);
            assert(t.drop_last() =~= hs@.take(i as int));
            assert(t.last() == hs@[i as int]);
            assert(r@ =~= "{"@ + headers_items(t));
        }
        i = i + 1;
    }
    r.append("}");
    proof {
        assert(hs@.take(n as int) =~= hs@);
        assert(r@ =~= headers_rendered(hs@));
    }
    r
}

/// The log line for a payload's metadata:
/// `type:<t>,client_ip:<ip>,header:<headers>,`, empty without metadata.
pub open spec fn payload_header_of(p: Payload) -> Seq<char> {
    match p.metadata {
        Some(m) => "type:"@ + m.type_url@ + ",client_ip:"@ + m.client_ip@ + ",header:"@
            + headers_rendered(m.headers@) + ","@,
        None => Seq::empty(),
    }
}

/// The long log form of a payload: the metadata over three lines, then
/// `body:<value>` when a body is present.
pub open spec fn payload_string_of(p: Payload) -> Seq<char> {
    let meta = match p.metadata {
        Some(m) => "type:"@ + m.type_url@ + ",\n\tclient_ip:"@ + m.client_ip@ + ",\n\theader:"@
            + headers_rendered(m.headers@) + ",\n\t"@,
        None => Seq::<char>::empty(),
    };
    match p.body {
        Some(b) => meta + "body:"@ + b.value@,
        None => meta,
    }
}

/// Builders and readers of the Nacos gRPC envelope.
pub struct PayloadUtils;

impl PayloadUtils {
    pub fn new_metadata(type_url: &str, client_ip: &str, headers: Vec<(String, String)>) -> (r:
        Metadata)
        ensures
            r.type_url@ == type_url@,
            r.client_ip@ == client_ip@,
            r.headers == headers,
    {
        Metadata { type_url: type_url.to_owned(), client_ip: client_ip.to_owned(), headers }
    }

    pub fn build_error_payload(error_code: u16, error_msg: String) -> (r: Payload)
        ensures
            payload_is(r, "ErrorResponse"@, error_envelope(error_code as nat, error_msg@)),
    {
        let mut val = "{\"resultCode\":".to_owned();
        let code = u64_to_string(error_code as u64);
        val.append(code.as_str());
        val.append(",\"errorCode\":");
        val.append(code.as_str());
        val.append(",\"message\":");
        val.append(json_quote(error_msg.as_str()).as_str());
        val.append("}");
        proof {
            assert(val@ =~= error_envelope(error_code as nat, error_msg@));
        }
        Self::build_payload("ErrorResponse", val)
    }

    pub fn build_payload(url: &str, val: String) -> (r: Payload)
        ensures
            payload_is(r, url@, val@),
    {
        let r = Self::build_full_payload(url, val, "", Vec::new());
        proof {
            reveal_strlit("");
        }
        r
    }

    pub fn build_full_payload(
        url: &str,
        val: String,
        client_ip: &str,
        headers: Vec<(String, String)>,
    ) -> (r: Payload)
        ensures
            match r.metadata {
                Some(m) => m.type_url@ == url@ && m.client_ip@ == client_ip@ && m.headers
                    == headers,
                None => false,
            },
            match r.body {
                Some(b) => b.type_url@.len() == 0 && b.value == val,
                None => false,
            },
    {
        let body = Any { type_url: "".to_owned(), value: val };
        let meta = Self::new_metadata(url, client_ip, headers);
        proof {
            reveal_strlit("");
        }
        Payload { body: Some(body), metadata: Some(meta) }
    }

    pub fn get_payload_header(payload: &Payload) -> (r: String)
        ensures
            r@ == payload_header_of(*payload),
    {
        let mut r = String::new();
        match &payload.metadata {
            Some(meta) => {
                r.append("type:");
                r.append(meta.type_url.as_str());
                r.append(",client_ip:");
                r.append(meta.client_ip.as_str());
                r.append(",header:");
                r.append(render_headers(&meta.headers).as_str());
                r.append(",");
                proof {
                    assert(r@ =~= payload_header_of(*payload));
                }
            },
            None => (),
        }
        r
    }

    pub fn get_payload_string(payload: &Payload) -> (r: String)
        ensures
            r@ == payload_string_of(*payload),
    {
        let mut r = String::new();
        match &payload.metadata {
            Some(meta) => {
                r.append("type:");
                r.append(meta.type_url.as_str());
                r.append(",\n\tclient_ip:");
                r.append(meta.client_ip.as_str());
                r.append(",\n\theader:");
                r.append(render_headers(&meta.headers).as_str());
                r.append(",\n\t");
            },
            None => (),
        }
        match &payload.body {
            Some(body) => {
                r.append("body:");
                r.append(body.value.as_str());
            },
            None => (),
        }
        proof {
            assert(r@ =~= payload_string_of(*payload));
        }
        r
    }

    pub fn get_payload_type(payload: &Payload) -> (r: Option<&String>)
        ensures
            match r {
                Some(t) => match payload.metadata {
                    Some(m) => t@ == m.type_url@,
                    None => false,
                },
                None => payload.metadata is None,
            },
    {
        match &payload.metadata {
            Some(meta) => Some(&meta.type_url),
            None => None,
        }
    }
}

/// Which handler a payload's metadata type selects.
pub enum Dispatch {
    EmptyType,
    HealthCheck,
    ServerCheck,
    ConfigQuery,
    BatchListen,
    Unknown,
}

/// Selects the handler for a request payload's metadata type.
pub fn dispatch(type_url: &Option<String>) -> (r: Dispatch)
    ensures
        match r {
            Dispatch::EmptyType => type_url is None,
            Dispatch::HealthCheck => match type_url {
                Some(u) => u@ == "HealthCheckRequest"@,
                None => false,
            },
            Dispatch::ServerCheck => match type_url {
                Some(u) => u@ == "ServerCheckRequest"@,
                None => false,
            },
            Dispatch::ConfigQuery => match type_url {
                Some(u) => u@ == "ConfigQueryRequest"@,
                None => false,
            },
            Dispatch::BatchListen => match type_url {
                Some(u) => u@ == "ConfigBatchListenRequest"@,
                None => false,
            },
            Dispatch::Unknown => match type_url {
                Some(u) => u@ != "HealthCheckRequest"@ && u@ != "ServerCheckRequest"@ && u@
                    != "ConfigQueryRequest"@ && u@ != "ConfigBatchListenRequest"@,
                None => false,
            },
        },
{
    match type_url {
        None => Dispatch::EmptyType,
        Some(u) => {
            if str_eq(u.as_str(), "HealthCheckRequest") {
                Dispatch::HealthCheck
            } else if str_eq(u.as_str(), "ServerCheckRequest") {
                Dispatch::ServerCheck
            } else if str_eq(u.as_str(), "ConfigQueryRequest") {
                Dispatch::ConfigQuery
            } else if str_eq(u.as_str(), "ConfigBatchListenRequest") {
                Dispatch::BatchListen
            } else {
                Dispatch::Unknown
            }
        },
    }
}

/// The reply to a payload without a metadata type.
pub fn empty_type_result() -> (r: HandlerResult)
    ensures
        !r.success,
        payload_is(r.payload, "ErrorResponse"@, error_envelope(302, "empty type url"@)),
{
    HandlerResult::error(302, "empty type url".to_owned())
}

/// The reply to a metadata type no handler serves:
/// `302, "<type> RequestHandler Not Found"`.
pub fn unknown_type_result(type_url: &String) -> (r: HandlerResult)
    ensures
        !r.success,
        payload_is(
            r.payload,
            "ErrorResponse"@,
            error_envelope(302, type_url@ + " RequestHandler Not Found"@),
        ),
{
    let mut msg = type_url.clone();
    msg.append(" RequestHandler Not Found");
    HandlerResult::error(302, msg)
}

/// The success envelope: `{"resultCode":200,"errorCode":0}`.
pub open spec fn success_envelope() -> Seq<char> {
    "{\"resultCode\":200,\"errorCode\":0}"@
}

/// The reply to `HealthCheckRequest`: the success envelope.
pub fn health_check_result() -> (r: HandlerResult)
    ensures
        r.success,
        payload_is(r.payload, "HealthCheckResponse"@, success_envelope()),
{
    HandlerResult::success(
        PayloadUtils::build_payload("HealthCheckResponse", "{\"resultCode\":200,\"errorCode\":0}".to_owned()),
    )
}

/// The reply to `ServerCheckRequest`: result code 200 and an empty
/// connection id.
pub open spec fn server_check_body() -> Seq<char> {
    "{\"resultCode\":200,\"errorCode\":0,\"connectionId\":\"\"}"@
}

pub fn server_check_result() -> (r: HandlerResult)
    ensures
        r.success,
        payload_is(r.payload, "ServerCheckResponse"@, server_check_body()),
{
    HandlerResult::success(
        PayloadUtils::build_payload(
            "ServerCheckResponse",
            "{\"resultCode\":200,\"errorCode\":0,\"connectionId\":\"\"}".to_owned(),
        ),
    )
}

/// A request id as JSON: the quoted id, or `null` when absent.
pub open spec fn request_id_json(r: Option<Seq<char>>) -> Seq<char> {
    match r {
        Some(s) => json_quoted(s),
        None => "null"@,
    }
}

fn append_request_id(out: &mut String, request_id: &Option<String>)
    ensures
        final(out)@ == old(out)@ + request_id_json(crate::httpapi::opt_view(*request_id)),
{
    match request_id {
        Some(s) => out.append(json_quote(s.as_str()).as_str()),
        None => out.append("null"),
    }
}

/// The body of a successful `ConfigQueryResponse`: the content, its digest,
/// content type `text`, last-modified 0.
pub open spec fn query_ok_body(request_id: Option<Seq<char>>, c: Config) -> Seq<char> {
    "{\"requestId\":"@ + request_id_json(request_id) + ",\"resultCode\":200,\"errorCode\":0,\"content\":"@
        + json_quoted(c.spec_content()) + ",\"contentType\":\"text\",\"md5\":"@ + json_quoted(
        c.spec_md5(),
    ) + ",\"lastModified\":0}"@
}

/// The reply to `ConfigQueryRequest` when the provider answered.
pub fn config_query_ok(request_id: &Option<String>, config: &Config) -> (r: HandlerResult)
    ensures
        r.success,
        payload_is(
            r.payload,
            "ConfigQueryResponse"@,
            query_ok_body(crate::httpapi::opt_view(*request_id), *config),
        ),
{
    let mut val = "{\"requestId\":".to_owned();
    append_request_id(&mut val, request_id);
    val.append(",\"resultCode\":200,\"errorCode\":0,\"content\":");
    val.append(json_quote(config.content()).as_str());
    val.append(",\"contentType\":\"text\",\"md5\":");
    val.append(json_quote(config.md5()).as_str());
    val.append(",\"lastModified\":0}");
    proof {
        assert(val@ =~= query_ok_body(crate::httpapi::opt_view(*request_id), *config));
    }
    HandlerResult::success(PayloadUtils::build_payload("ConfigQueryResponse", val))
}

/// The body of a failed `ConfigQueryResponse`: result and error code 500
/// and the provider's message.
pub open spec fn query_err_body(request_id: Option<Seq<char>>, msg: Seq<char>) -> Seq<char> {
    "{\"requestId\":"@ + request_id_json(request_id)
        + ",\"resultCode\":500,\"errorCode\":500,\"message\":"@ + json_quoted(msg) + "}"@
}

/// The reply to `ConfigQueryRequest` when the provider failed; sent under
/// the `ErrorResponse` type URL.
pub fn config_query_err(request_id: &Option<String>, message: &str) -> (r: HandlerResult)
    ensures
        r.success,
        payload_is(
            r.payload,
            "ErrorResponse"@,
            query_err_body(crate::httpapi::opt_view(*request_id), message@),
        ),
{
    let mut val = "{\"requestId\":".to_owned();
    append_request_id(&mut val, request_id);
    val.append(",\"resultCode\":500,\"errorCode\":500,\"message\":");
    val.append(json_quote(message).as_str());
    val.append("}");
    proof {
        assert(val@ =~= query_err_body(crate::httpapi::opt_view(*request_id), message@));
    }
    HandlerResult::success(PayloadUtils::build_payload("ErrorResponse", val))
}

/// The body of a pushed `ConfigChangeNotifyRequest` for target `t` with the
/// given per-stream request id.
pub open spec fn notify_body_of(t: TargetV, request_id: nat) -> Seq<char> {
    "{\"requestId\":"@ + json_quoted(dec_rep(request_id)) + ",\"dataId\":"@ + json_quoted(t.data_id)
        + ",\"group\":"@ + json_quoted(t.group) + ",\"tenant\":"@ + json_quoted(
        tenant_or_empty(t.tenant),
    ) + ",\"module\":\"config\"}"@
}

/// The payload pushed on the bi-stream for a changed target.
pub fn notify_payload(t: &Target, request_id: u64) -> (r: Payload)
    ensures
        payload_is(r, "ConfigChangeNotifyRequest"@, notify_body_of(t@, request_id as nat)),
{
    let mut val = "{\"requestId\":".to_owned();
    let id = u64_to_string(request_id);
    val.append(json_quote(id.as_str()).as_str());
    val.append(",\"dataId\":");
    val.append(json_quote(t.data_id.as_str()).as_str());
    val.append(",\"group\":");
    val.append(json_quote(t.group.as_str()).as_str());
    val.append(",\"tenant\":");
    match &t.tenant {
        Some(s) => val.append(json_quote(s.as_str()).as_str()),
        None => val.append(json_quote("").as_str()),
    }
    val.append(",\"module\":\"config\"}");
    proof {
        reveal_strlit("");
        assert(""@ =~= Seq::<char>::empty());
        assert(val@ =~= notify_body_of(t@, request_id as nat));
    }
    PayloadUtils::build_payload("ConfigChangeNotifyRequest", val)
}

/// The body of `ConfigQueryRequest`: the entry asked for. An empty tenant
/// means no tenant.
pub struct ConfigQueryRequest {
    pub data_id: String,
    pub group: String,
    pub tenant: String,
    pub request_id: Option<String>,
}

/// One entry of `ConfigBatchListenRequest`: the entry listened for and the
/// digest the client believes current.
pub struct ConfigListenContext {
    pub data_id: String,
    pub group: String,
    pub tenant: String,
    pub md5: String,
}

/// One changed entry of `ConfigChangeBatchListenResponse`.
pub struct ConfigContext {
    pub data_id: String,
    pub group: String,
    pub tenant: String,
}

/// The target an entry names at the gRPC boundary: the empty tenant
/// collapses to absent.
pub open spec fn boundary_target(data_id: Seq<char>, group: Seq<char>, tenant: Seq<char>) -> TargetV {
    TargetV {
        data_id,
        group,
        tenant: if tenant.len() == 0 {
            None
        } else {
            Some(tenant)
        },
    }
}

fn collapse_tenant(tenant: &String) -> (r: Option<String>)
    ensures
        crate::httpapi::opt_view(r) == if tenant@.len() == 0 {
            None::<Seq<char>>
        } else {
            Some(tenant@)
        },
{
    if tenant.as_str().is_empty() {
        None
    } else {
        Some(tenant.clone())
    }
}

/// The target a `ConfigQueryRequest` asks for.
pub fn query_target(req: &ConfigQueryRequest) -> (r: Target)
    ensures
        r@ == boundary_target(req.data_id@, req.group@, req.tenant@),
{
    Target {
        data_id: req.data_id.clone(),
        group: req.group.clone(),
        tenant: collapse_tenant(&req.tenant),
    }
}

/// The registrations a `ConfigBatchListenRequest` carries: every context's
/// target with the digest the client sent, in order.
pub fn batch_listen_registrations(ctxs: &Vec<ConfigListenContext>) -> (r: Vec<(Target, String)>)
    ensures
        r@.len() == ctxs@.len(),
        forall|i: int|
            0 <= i < r@.len() ==> r@[i].0@ == boundary_target(
                ctxs@[i].data_id@,
                ctxs@[i].group@,
                ctxs@[i].tenant@,
            ) && r@[i].1@ == ctxs@[i].md5@,
{
    let mut r: Vec<(Target, String)> = Vec::new();
    let n = ctxs.len();
    let mut i: usize = 0;
    while i < n
        invariant
            i <= n,
            n == ctxs@.len(),
            r@.len() == i,
            forall|j: int|
                0 <= j < i ==> r@[j].0@ == boundary_target(
                    ctxs@[j].data_id@,
                    ctxs@[j].group@,
                    ctxs@[j].tenant@,
                ) && r@[j].1@ == ctxs@[j].md5@,
        decreases n - i,
    {
        let ctx = &ctxs[i];
        let t = Target {
            data_id: ctx.data_id.clone(),
            group: ctx.group.clone(),
            tenant: collapse_tenant(&ctx.tenant),
        };
        r.push((t, ctx.md5.clone()));
        i = i + 1;
    }
    r
}

/// The contexts whose provider read returned a digest other than the one
/// the client sent, in order.
pub open spec fn changed_contexts_of(ctxs: Seq<ConfigListenContext>, outcomes: Seq<Config>) -> Seq<
    ConfigContext,
>
    decreases ctxs.len(),
{
    if ctxs.len() == 0 {
        Seq::empty()
    } else {
        let head = if outcomes[0].spec_md5() != ctxs[0].md5@ {
            seq![
                ConfigContext {
                    data_id: ctxs[0].data_id,
                    group: ctxs[0].group,
                    tenant: ctxs[0].tenant,
                },
            ]
        } else {
            Seq::<ConfigContext>::empty()
        };
        head + changed_contexts_of(ctxs.skip(1), outcomes.skip(1))
    }
}

/// One changed entry as JSON.
pub open spec fn context_item(c: ConfigContext) -> Seq<char> {
    "{\"dataId\":"@ + json_quoted(c.data_id@) + ",\"group\":"@ + json_quoted(c.group@)
        + ",\"tenant\":"@ + json_quoted(c.tenant@) + "}"@
}

/// The changed entries as a JSON array body, brackets excluded.
pub open spec fn contexts_array(cs: Seq<ConfigContext>) -> Seq<char>
    decreases cs.len(),
{
    if cs.len() == 0 {
        Seq::empty()
    } else {
        contexts_array(cs.drop_last()) + (if cs.len() > 1 {
            ","@
        } else {
            Seq::<char>::empty()
        }) + context_item(cs.last())
    }
}

/// The body of `ConfigChangeBatchListenResponse`.
pub open spec fn batch_body(request_id: Option<Seq<char>>, changed: Seq<ConfigContext>) -> Seq<
    char,
> {
    "{\"requestId\":"@ + request_id_json(request_id)
        + ",\"resultCode\":200,\"errorCode\":0,\"changedConfigs\":["@ + contexts_array(changed)
        + "]}"@
}

/// The reply to `ConfigBatchListenRequest` when every provider read
/// succeeded: result code 200 and the changed contexts.
pub fn batch_listen_result(
    request_id: &Option<String>,
    ctxs: &Vec<ConfigListenContext>,
    outcomes: &Vec<Config>,
) -> (r: HandlerResult)
    requires
        ctxs@.len() == outcomes@.len(),
    ensures
        r.success,
        payload_is(
            r.payload,
            "ConfigChangeBatchListenResponse"@,
            batch_body(
                crate::httpapi::opt_view(*request_id),
                changed_contexts_of(ctxs@, outcomes@),
            ),
        ),
{
    // Collect the changed contexts.
    let mut changed: Vec<ConfigContext> = Vec::new();
    let n = ctxs.len();
    let mut i: usize = 0;
    proof {
        assert(ctxs@.skip(0) =~= ctxs@);
        assert(outcomes@.skip(0) =~= outcomes@);
        assert(changed@ + changed_contexts_of(ctxs@, outcomes@) =~= changed_contexts_of(
            ctxs@,
            outcomes@,
        ));
    }
    while i < n
        invariant
            i <= n,
            n == ctxs@.len(),
            ctxs@.len() == outcomes@.len(),
            changed_contexts_of(ctxs@, outcomes@) == changed@ + changed_contexts_of(
                ctxs@.skip(i as int),
                outcomes@.skip(i as int),
            ),
        decreases n - i,
    {
        let ghost pre = changed@;
        proof {
            assert(ctxs@.skip(i as int)[0] == ctxs@[i as int]);
            assert(outcomes@.skip(i as int)[0] == outcomes@[i as int]);
            assert(ctxs@.skip(i as int).skip(1) =~= ctxs@.skip(i + 1));
            assert(outcomes@.skip(i as int).skip(1) =~= outcomes@.skip(i + 1));
        }
        if !str_eq(outcomes[i].md5(), ctxs[i].md5.as_str()) {
            let c = ConfigContext {
                data_id: ctxs[i].data_id.clone(),
                group: ctxs[i].group.clone(),
                tenant: ctxs[i].tenant.clone(),
            };
            changed.push(c);
            proof {
                assert(changed@ =~= pre + seq![
                    ConfigContext {
                        data_id: ctxs@[i as int].data_id,
                        group: ctxs@[i as int].group,
                        tenant: ctxs@[i as int].tenant,
                    },
                ]);
                assert(pre + seq![
                    ConfigContext {
                        data_id: ctxs@[i as int].data_id,
                        group: ctxs@[i as int].group,
                        tenant: ctxs@[i as int].tenant,
                    },
                ] + changed_contexts_of(ctxs@.skip(i + 1), outcomes@.skip(i + 1)) =~= pre + (seq![
                    ConfigContext {
                        data_id: ctxs@[i as int].data_id,
                        group: ctxs@[i as int].group,
                        tenant: ctxs@[i as int].tenant,
                    },
                ] + changed_contexts_of(ctxs@.skip(i + 1), outcomes@.skip(i + 1))));
            }
        } else {
            proof {
                assert(Seq::<ConfigContext>::empty() + changed_contexts_of(
                    ctxs@.skip(i + 1),
                    outcomes@.skip(i + 1),
                ) =~= changed_contexts_of(ctxs@.skip(i + 1), outcomes@.skip(i + 1)));
            }
        }
        i = i + 1;
    }
    proof {
        assert(changed_contexts_of(ctxs@.skip(n as int), outcomes@.skip(n as int)) =~= Seq::<
            ConfigContext,
        >::empty());
        assert(changed@ + Seq::<ConfigContext>::empty() =~= changed@);
    }
    // Render the reply.
    let mut val = "{\"requestId\":".to_owned();
    append_request_id(&mut val, request_id);
    val.append(",\"resultCode\":200,\"errorCode\":0,\"changedConfigs\":[");
    let m = changed.len();
    let ghost rendered_prefix = val@;
    let mut k: usize = 0;
    proof {
        assert(changed@.take(0) =~= Seq::<ConfigContext>::empty());
        assert(val@ =~= rendered_prefix + contexts_array(changed@.take(0)));
    }
    while k < m
        invariant
            k <= m,
            m == changed@.len(),
            val@ == rendered_prefix + contexts_array(changed@.take(k as int)),
        decreases m - k,
    {
        if k > 0 {
            val.append(",");
        }
        val.append("{\"dataId\":");
        val.append(json_quote(changed[k].data_id.as_str()).as_str());
        val.append(",\"group\":");
        val.append(json_quote(changed[k].group.as_str()).as_str());
        val.append(",\"tenant\":");
        val.append(json_quote(changed[k].tenant.as_str()).as_str());
        val.append("}");
        proof {
            let t = changed@.take(k + 1);
            assert(t.drop_last() =~= changed@.take(k as int));
            assert(t.last() == changed@[k as int]);
            assert(val@ =~= rendered_prefix + contexts_array(t));
        }
        k = k + 1;
    }
    val.append("]}");
    proof {
        assert(changed@.take(m as int) =~= changed@);
        assert(val@ =~= batch_body(
            crate::httpapi::opt_view(*request_id),
            changed_contexts_of(ctxs@, outcomes@),
        ));
    }
    HandlerResult::success(PayloadUtils::build_payload("ConfigChangeBatchListenResponse", val))
}

/// The per-stream request id counter: counts `1, 2, ...` up to `2^63 - 1`
/// and then wraps to `0`, so it always stays below `2^63`.
pub fn next_request_id(cur: u64) -> (r: u64)
    ensures
        r == if cur >= 0x7fff_ffff_ffff_ffff {
            0u64
        } else {
            (cur + 1) as u64
        },
        r < 0x8000_0000_0000_0000,
{
    if cur >= 0x7fff_ffff_ffff_ffff {
        0
    } else {
        cur + 1
    }
}

} // verus!
