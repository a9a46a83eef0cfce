use nacos_adapter::target::{ListenRecord, Target};

fn target(data_id: &str, group: &str, tenant: Option<&str>) -> Target {
    Target {
        data_id: data_id.to_string(),
        group: group.to_string(),
        tenant: tenant.map(|s| s.to_string()),
    }
}

#[test]
fn param_string_without_tenant() {
    let t = target("d1", "g1", None);
    assert_eq!(t.to_param_string(), "d1\u{2}g1\u{2}\u{1}");
}

#[test]
fn param_string_with_tenant() {
    let t = target("d1", "g1", Some("ns"));
    assert_eq!(t.to_param_string(), "d1\u{2}g1\u{2}ns\u{1}");
}

#[test]
fn tenant_accessor() {
    assert_eq!(target("d", "g", Some("ns")).tenant(), Some("ns"));
    assert_eq!(target("d", "g", None).tenant(), None);
}

#[test]
fn target_equality_is_by_fields() {
    assert!(target("d", "g", Some("ns")) == target("d", "g", Some("ns")));
    assert!(target("d", "g", None) != target("d", "g", Some("ns")));
    assert!(target("d", "g2", None) != target("d", "g", None));
}

#[test]
fn parse_single_record_without_tenant() {
    let recs = nacos_adapter::target::parse_listening_configs("d1\u{2}g1\u{2}md5v\u{1}").unwrap();
    assert_eq!(recs.len(), 1);
    assert_eq!(recs[0].data_id, "d1");
    assert_eq!(recs[0].group, "g1");
    assert_eq!(recs[0].md5, "md5v");
    assert!(recs[0].tenant.is_none());
}

#[test]
fn parse_single_record_with_tenant() {
    let recs = nacos_adapter::target::parse_listening_configs("d\u{2}g\u{2}m\u{2}ns\u{1}").unwrap();
    assert_eq!(recs.len(), 1);
    assert_eq!(recs[0].tenant.as_deref(), Some("ns"));
}

#[test]
fn parse_many_records_skips_empty_chunks() {
    let recs =
        nacos_adapter::target::parse_listening_configs("a\u{2}b\u{2}c\u{1}\u{1}x\u{2}y\u{2}z\u{2}t\u{1}")
            .unwrap();
    assert_eq!(recs.len(), 2);
    assert_eq!(recs[0].data_id, "a");
    assert_eq!(recs[1].data_id, "x");
    assert_eq!(recs[1].tenant.as_deref(), Some("t"));
}

#[test]
fn parse_record_with_extra_fields_ignores_them() {
    let recs =
        nacos_adapter::target::parse_listening_configs("a\u{2}b\u{2}c\u{2}d\u{2}e\u{1}").unwrap();
    assert_eq!(recs.len(), 1);
    assert_eq!(recs[0].tenant.as_deref(), Some("d"));
}

#[test]
fn parse_rejects_short_record() {
    assert!(nacos_adapter::target::parse_listening_configs("a\u{2}b\u{1}").is_none());
    assert!(nacos_adapter::target::parse_listening_configs("justone").is_none());
}

#[test]
fn record_target_collapses_empty_tenant() {
    let rec = ListenRecord {
        data_id: "d".to_string(),
        group: "g".to_string(),
        md5: "m".to_string(),
        tenant: Some(String::new()),
    };
    let t = rec.target();
    assert!(t.tenant.is_none());
    let rec2 = ListenRecord { tenant: Some("ns".to_string()), ..rec };
    assert_eq!(rec2.target().tenant.as_deref(), Some("ns"));
}

#[test]
fn param_string_round_trips_through_listener_parser() {
    // The wire form of a target parses back as one record: data_id and
    // group exactly, the third field carrying the tenant-or-empty.
    let t = target("d1", "g1", Some("ns"));
    let recs = nacos_adapter::target::parse_listening_configs(&t.to_param_string()).unwrap();
    assert_eq!(recs.len(), 1);
    assert_eq!(recs[0].data_id, "d1");
    assert_eq!(recs[0].group, "g1");
    assert_eq!(recs[0].md5, "ns");
    assert!(recs[0].tenant.is_none());
}

#[test]
fn param_string_injective_on_wf_targets() {
    let ts = [
        target("d", "g", None),
        target("d", "g", Some("ns")),
        target("dg", "g", None),
        target("d", "gg", None),
        target("g", "d", None),
    ];
    for (i, a) in ts.iter().enumerate() {
        for (j, b) in ts.iter().enumerate() {
            assert_eq!(i == j, a.to_param_string() == b.to_param_string());
        }
    }
}
