use nacos_adapter::config::Config;
use nacos_adapter::grpcapi::{
    batch_listen_registrations, batch_listen_result, config_query_err, config_query_ok, dispatch,
    empty_type_result, health_check_result, next_request_id, notify_payload, query_target,
    server_check_result, unknown_type_result, ConfigListenContext, ConfigQueryRequest, Dispatch,
    HandlerResult, Payload, PayloadUtils,
};
use nacos_adapter::target::Target;

fn body_of(p: &Payload) -> &str {
    p.body.as_ref().unwrap().value.as_str()
}

fn type_of(p: &Payload) -> &str {
    p.metadata.as_ref().unwrap().type_url.as_str()
}

#[test]
fn dispatch_selects_handlers() {
    assert!(matches!(dispatch(&None), Dispatch::EmptyType));
    assert!(matches!(dispatch(&Some("HealthCheckRequest".to_string())), Dispatch::HealthCheck));
    assert!(matches!(dispatch(&Some("ServerCheckRequest".to_string())), Dispatch::ServerCheck));
    assert!(matches!(dispatch(&Some("ConfigQueryRequest".to_string())), Dispatch::ConfigQuery));
    assert!(matches!(
        dispatch(&Some("ConfigBatchListenRequest".to_string())),
        Dispatch::BatchListen
    ));
    assert!(matches!(dispatch(&Some("SomethingElse".to_string())), Dispatch::Unknown));
}

#[test]
fn health_and_server_check_replies() {
    let h = health_check_result();
    assert!(h.success);
    assert_eq!(type_of(&h.payload), "HealthCheckResponse");
    assert_eq!(body_of(&h.payload), r#"{"resultCode":200,"errorCode":0}"#);
    let s = server_check_result();
    assert!(s.success);
    assert_eq!(type_of(&s.payload), "ServerCheckResponse");
    assert_eq!(body_of(&s.payload), r#"{"resultCode":200,"errorCode":0,"connectionId":""}"#);
}

#[test]
fn unknown_type_reply_names_the_type() {
    let r = unknown_type_result(&"FooRequest".to_string());
    assert!(!r.success);
    assert_eq!(r.message.as_deref(), Some("FooRequest RequestHandler Not Found"));
    assert_eq!(type_of(&r.payload), "ErrorResponse");
    assert_eq!(
        body_of(&r.payload),
        r#"{"resultCode":302,"errorCode":302,"message":"FooRequest RequestHandler Not Found"}"#
    );
}

#[test]
fn empty_type_reply() {
    let r = empty_type_result();
    assert!(!r.success);
    assert_eq!(
        body_of(&r.payload),
        r#"{"resultCode":302,"errorCode":302,"message":"empty type url"}"#
    );
}

#[test]
fn config_query_success_reply() {
    let c = Config::new("a=1".to_string());
    let r = config_query_ok(&Some("7".to_string()), &c);
    assert!(r.success);
    assert_eq!(type_of(&r.payload), "ConfigQueryResponse");
    assert_eq!(
        body_of(&r.payload),
        r#"{"requestId":"7","resultCode":200,"errorCode":0,"content":"a=1","contentType":"text","md5":"3872c9ae3f427af0be0ead09d07ae2cf","lastModified":0}"#
    );
}

#[test]
fn config_query_error_reply() {
    let r = config_query_err(&None, "No such file or directory (os error 2)");
    assert!(r.success);
    assert_eq!(type_of(&r.payload), "ErrorResponse");
    assert_eq!(
        body_of(&r.payload),
        r#"{"requestId":null,"resultCode":500,"errorCode":500,"message":"No such file or directory (os error 2)"}"#
    );
}

#[test]
fn query_target_collapses_empty_tenant() {
    let req = ConfigQueryRequest {
        data_id: "d".to_string(),
        group: "g".to_string(),
        tenant: String::new(),
        request_id: None,
    };
    let t = query_target(&req);
    assert!(t == Target { data_id: "d".to_string(), group: "g".to_string(), tenant: None });
}

fn ctx(data_id: &str, group: &str, tenant: &str, md5: &str) -> ConfigListenContext {
    ConfigListenContext {
        data_id: data_id.to_string(),
        group: group.to_string(),
        tenant: tenant.to_string(),
        md5: md5.to_string(),
    }
}

#[test]
fn batch_listen_reports_stale_contexts() {
    // The gRPC query-and-push flow: a batch listen for (d1, g1, "") with a
    // stale digest answers with one changed ConfigContext.
    let ctxs = vec![ctx("d1", "g1", "", "stale")];
    let outcomes = vec![Config::new("a=2".to_string())];
    let r = batch_listen_result(&None, &ctxs, &outcomes);
    assert!(r.success);
    assert_eq!(type_of(&r.payload), "ConfigChangeBatchListenResponse");
    assert_eq!(
        body_of(&r.payload),
        r#"{"requestId":null,"resultCode":200,"errorCode":0,"changedConfigs":[{"dataId":"d1","group":"g1","tenant":""}]}"#
    );
}

#[test]
fn batch_listen_with_current_digest_reports_nothing() {
    let c = Config::new("a=1".to_string());
    let ctxs = vec![ctx("d1", "g1", "", c.md5())];
    let outcomes = vec![c.clone()];
    let r = batch_listen_result(&Some("42".to_string()), &ctxs, &outcomes);
    assert_eq!(
        body_of(&r.payload),
        r#"{"requestId":"42","resultCode":200,"errorCode":0,"changedConfigs":[]}"#
    );
}

#[test]
fn batch_listen_registers_every_context() {
    let ctxs = vec![ctx("d1", "g1", "", "m1"), ctx("d2", "g2", "ns", "m2")];
    let regs = batch_listen_registrations(&ctxs);
    assert_eq!(regs.len(), 2);
    assert!(regs[0].0 == Target { data_id: "d1".to_string(), group: "g1".to_string(), tenant: None });
    assert_eq!(regs[0].1, "m1");
    assert!(
        regs[1].0 == Target {
            data_id: "d2".to_string(),
            group: "g2".to_string(),
            tenant: Some("ns".to_string()),
        }
    );
}

#[test]
fn notify_payload_has_matching_fields_and_numeric_request_id() {
    let t = Target { data_id: "d1".to_string(), group: "g1".to_string(), tenant: None };
    let p = notify_payload(&t, 1);
    assert_eq!(type_of(&p), "ConfigChangeNotifyRequest");
    assert_eq!(
        body_of(&p),
        r#"{"requestId":"1","dataId":"d1","group":"g1","tenant":"","module":"config"}"#
    );
}

#[test]
fn request_id_counter_wraps_below_two_to_the_63() {
    assert_eq!(next_request_id(0), 1);
    assert_eq!(next_request_id(1), 2);
    assert_eq!(next_request_id(0x7fff_ffff_ffff_fffe), 0x7fff_ffff_ffff_ffff);
    assert_eq!(next_request_id(0x7fff_ffff_ffff_ffff), 0);
    assert_eq!(next_request_id(u64::MAX), 0);
}

#[test]
fn handler_result_constructors() {
    let p = PayloadUtils::build_payload("X", "body".to_string());
    let ok = HandlerResult::success(p);
    assert!(ok.success && ok.message.is_none());
    let e = HandlerResult::error(500, "boom".to_string());
    assert!(!e.success);
    assert_eq!(e.message.as_deref(), Some("boom"));
    assert_eq!(
        body_of(&e.payload),
        r#"{"resultCode":500,"errorCode":500,"message":"boom"}"#
    );
    let p2 = PayloadUtils::build_payload("Y", "b".to_string());
    let em = HandlerResult::error_mark(p2);
    assert!(!em.success && em.message.is_none());
    let p3 = PayloadUtils::build_payload("Z", "b".to_string());
    let ewm = HandlerResult::error_with_message(p3, "why".to_string());
    assert!(!ewm.success);
    assert_eq!(ewm.message.as_deref(), Some("why"));
}

#[test]
fn payload_builders_and_readers() {
    let p = PayloadUtils::build_full_payload(
        "T",
        "V".to_string(),
        "1.2.3.4",
        vec![("k".to_string(), "v".to_string())],
    );
    assert_eq!(PayloadUtils::get_payload_type(&p).map(|s| s.as_str()), Some("T"));
    assert_eq!(
        PayloadUtils::get_payload_header(&p),
        "type:T,client_ip:1.2.3.4,header:{\"k\": \"v\"},"
    );
    assert_eq!(
        PayloadUtils::get_payload_string(&p),
        "type:T,\n\tclient_ip:1.2.3.4,\n\theader:{\"k\": \"v\"},\n\tbody:V"
    );
    let bare = Payload { metadata: None, body: None };
    assert_eq!(PayloadUtils::get_payload_header(&bare), "");
    assert_eq!(PayloadUtils::get_payload_string(&bare), "");
    assert!(PayloadUtils::get_payload_type(&bare).is_none());
    let two = PayloadUtils::new_metadata(
        "T",
        "",
        vec![("a".to_string(), "1".to_string()), ("b".to_string(), "2".to_string())],
    );
    let p2 = Payload { metadata: Some(two), body: None };
    assert_eq!(
        PayloadUtils::get_payload_header(&p2),
        "type:T,client_ip:,header:{\"a\": \"1\", \"b\": \"2\"},"
    );
}
