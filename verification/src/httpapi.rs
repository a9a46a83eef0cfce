//! Decision logic of the HTTP front end: parameter checks and exact response
//! bodies for the v1 and v2 config GET routes, and the long-poll listener's
//! immediate-update and notification bodies.

use vstd::prelude::*;

use crate::config::Config;
use crate::encoding::{json_quote, json_quoted, percent_encode, percent_encoded};
use crate::numeric::{all_dec_digits, dec_value, parse_u64};
use crate::target::{param_string_of, record_target, ListenRecord, ListenRecordV, Target, TargetV};

verus! {

pub const DATA_ID_NOT_FOUND_1: &'static str =
    "caused: Required request parameter &#39;dataId&#39; for method parameter type String is not present;";

pub const GROUP_NOT_FOUND_1: &'static str =
    "caused: Required request parameter &#39;group&#39; for method parameter type String is not present;";

pub const DATA_ID_NOT_FOUND_2: &'static str =
    "{\"code\":10000,\"message\":\"parameter missing\",\"data\":\"Required request parameter 'dataId' for method parameter type String is not present\"}";

pub const GROUP_NOT_FOUND_2: &'static str =
    "{\"code\":10000,\"message\":\"parameter missing\",\"data\":\"Required request parameter 'group' for method parameter type String is not present\"}";

pub const CONFIG_NOT_FOUND_2: &'static str =
    "{\"code\":20004,\"message\":\"resource not found\",\"data\":\"config data not exist\"}";

pub const INVALID_PROBE_MODIFY: &'static str = "caused: invalid probeModify;";

/// A query parameter, with the empty string treated as missing.
pub open spec fn spec_non_empty(v: Option<Seq<char>>) -> Option<Seq<char>> {
    match v {
        Some(s) => if s.len() > 0 {
            Some(s)
        } else {
            None
        },
        None => None,
    }
}

/// The view of an optional string.
pub open spec fn opt_view(v: Option<String>) -> Option<Seq<char>> {
    match v {
        Some(s) => Some(s@),
        None => None,
    }
}

/// A query parameter with the empty string collapsed to missing.
pub fn get_non_empty(v: Option<String>) -> (r: Option<String>)
    ensures
        opt_view(r) == spec_non_empty(opt_view(v)),
{
    match v {
        Some(s) => if s.as_str().is_empty() {
            None
        } else {
            Some(s)
        },
        None => None,
    }
}

/// The early error response of `GET /nacos/v1/cs/configs`: 500 with the
/// Nacos `dataId` message when `dataId` is missing or empty, else 500 with
/// the `group` message when `group` is, else no response and the provider
/// is consulted.
pub fn v1_check_params(data_id: &Option<String>, group: &Option<String>) -> (r: Option<
    (u16, String),
>)
    ensures
        match r {
            Some(resp) => (spec_non_empty(opt_view(*data_id)) is None && resp.0 == 500 && resp.1@
                == DATA_ID_NOT_FOUND_1@) || (spec_non_empty(opt_view(*data_id)) is Some
                && spec_non_empty(opt_view(*group)) is None && resp.0 == 500 && resp.1@
                == GROUP_NOT_FOUND_1@),
            None => spec_non_empty(opt_view(*data_id)) is Some && spec_non_empty(
                opt_view(*group),
            ) is Some,
        },
{
    let no_data_id = match data_id {
        Some(s) => s.as_str().is_empty(),
        None => true,
    };
    if no_data_id {
        return Some((500, DATA_ID_NOT_FOUND_1.to_owned()));
    }
    let no_group = match group {
        Some(s) => s.as_str().is_empty(),
        None => true,
    };
    if no_group {
        return Some((500, GROUP_NOT_FOUND_1.to_owned()));
    }
    None
}

/// The early error response of `GET /nacos/v2/cs/config`: as the v1 check,
/// but 400 with the v2 JSON bodies.
pub fn v2_check_params(data_id: &Option<String>, group: &Option<String>) -> (r: Option<
    (u16, String),
>)
    ensures
        match r {
            Some(resp) => (spec_non_empty(opt_view(*data_id)) is None && resp.0 == 400 && resp.1@
                == DATA_ID_NOT_FOUND_2@) || (spec_non_empty(opt_view(*data_id)) is Some
                && spec_non_empty(opt_view(*group)) is None && resp.0 == 400 && resp.1@
                == GROUP_NOT_FOUND_2@),
            None => spec_non_empty(opt_view(*data_id)) is Some && spec_non_empty(
                opt_view(*group),
            ) is Some,
        },
{
    let no_data_id = match data_id {
        Some(s) => s.as_str().is_empty(),
        None => true,
    };
    if no_data_id {
        return Some((400, DATA_ID_NOT_FOUND_2.to_owned()));
    }
    let no_group = match group {
        Some(s) => s.as_str().is_empty(),
        None => true,
    };
    if no_group {
        return Some((400, GROUP_NOT_FOUND_2.to_owned()));
    }
    None
}

/// The response of `GET /nacos/v1/cs/configs` once the provider has
/// answered: the raw content on success, `404 Not Found` otherwise.
pub fn v1_get_response(outcome: Option<&Config>) -> (r: (u16, String))
    ensures
        match outcome {
            Some(c) => r.0 == 200 && r.1@ == c.spec_content(),
            None => r.0 == 404 && r.1@ == "Not Found"@,
        },
{
    match outcome {
        Some(c) => (200, c.content().to_owned()),
        None => (404, "Not Found".to_owned()),
    }
}

/// The v2 success body: `{"code":0,"data":<content>,"message":"success"}`,
/// the content as a JSON string literal.
pub open spec fn v2_success_body(content: Seq<char>) -> Seq<char> {
    "{\"code\":0,\"data\":"@ + json_quoted(content) + ",\"message\":\"success\"}"@
}

/// The response of `GET /nacos/v2/cs/config` once the provider has
/// answered: the JSON envelope on success, the fixed v2 not-found JSON
/// otherwise.
pub fn v2_get_response(outcome: Option<&Config>) -> (r: (u16, String))
    ensures
        match outcome {
            Some(c) => r.0 == 200 && r.1@ == v2_success_body(c.spec_content()),
            None => r.0 == 404 && r.1@ == CONFIG_NOT_FOUND_2@,
        },
{
    match outcome {
        Some(c) => {
            let mut body = "{\"code\":0,\"data\":".to_owned();
            body.append(json_quote(c.content()).as_str());
            body.append(",\"message\":\"success\"}");
            (200, body)
        },
        None => (404, CONFIG_NOT_FOUND_2.to_owned()),
    }
}

/// The early rejection of a listener POST: 400 with the fixed body exactly
/// when the `Listening-Configs` value is empty.
pub fn listener_check(targets: &str) -> (r: Option<(u16, String)>)
    ensures
        match r {
            Some(resp) => targets@.len() == 0 && resp.0 == 400 && resp.1@ == INVALID_PROBE_MODIFY@,
            None => targets@.len() > 0,
        },
{
    if targets.is_empty() {
        Some((400, INVALID_PROBE_MODIFY.to_owned()))
    } else {
        None
    }
}

/// The targets of the records whose provider read succeeded with a digest
/// other than the one the client sent, in record order.
pub open spec fn changed_of(records: Seq<ListenRecordV>, outcomes: Seq<Option<Config>>) -> Seq<
    TargetV,
>
    decreases records.len(),
{
    if records.len() == 0 {
        Seq::empty()
    } else {
        let head = match outcomes[0] {
            Some(c) => if c.spec_md5() != records[0].md5 {
                seq![record_target(records[0])]
            } else {
                Seq::empty()
            },
            None => Seq::empty(),
        };
        head + changed_of(records.skip(1), outcomes.skip(1))
    }
}

/// The immediate-update set of a listener POST: every record whose
/// `refresh = false` provider read returned content with a digest other
/// than the record's. A failed read never puts its target in the set.
pub fn changed_targets(records: &Vec<ListenRecord>, outcomes: &Vec<Option<Config>>) -> (r: Vec<
    Target,
>)
    requires
        records@.len() == outcomes@.len(),
    ensures
        r@.map_values(|t: Target| t@) == changed_of(
            records@.map_values(|x: ListenRecord| x@),
            outcomes@,
        ),
{
    let ghost rviews = records@.map_values(|x: ListenRecord| x@);
    let mut r: Vec<Target> = Vec::new();
    let n = records.len();
    let mut i: usize = 0;
    proof {
        assert(rviews.skip(0) =~= rviews);
        assert(outcomes@.skip(0) =~= outcomes@);
        assert(r@.map_values(|t: Target| t@) =~= Seq::<TargetV>::empty());
    }
    while i < n
        invariant
            i <= n,
            n == records@.len(),
            records@.len() == outcomes@.len(),
            rviews == records@.map_values(|x: ListenRecord| x@),
            changed_of(rviews, outcomes@) == r@.map_values(|t: Target| t@) + changed_of(
                rviews.skip(i as int),
                outcomes@.skip(i as int),
            ),
        decreases n - i,
    {
        let ghost pre = r@.map_values(|t: Target| t@);
        proof {
            assert(rviews.skip(i as int)[0] == rviews[i as int]);
            assert(outcomes@.skip(i as int)[0] == outcomes@[i as int]);
            assert(rviews.skip(i as int).skip(1) =~= rviews.skip(i + 1));
            assert(outcomes@.skip(i as int).skip(1) =~= outcomes@.skip(i + 1));
        }
        match &outcomes[i] {
            Some(c) => {
                if !crate::wire::str_eq(c.md5(), records[i].md5.as_str()) {
                    let t = records[i].target();
                    r.push(t);
                    proof {
                        assert(r@.map_values(|t: Target| t@) =~= pre + seq![
                            record_target(rviews[i as int]),
                        ]);
                        assert(pre + seq![record_target(rviews[i as int])] + changed_of(
                            rviews.skip(i + 1),
                            outcomes@.skip(i + 1),
                        ) =~= pre + (seq![record_target(rviews[i as int])] + changed_of(
                            rviews.skip(i + 1),
                            outcomes@.skip(i + 1),
                        )));
                    }
                } else {
                    proof {
                        assert(Seq::<TargetV>::empty() + changed_of(
                            rviews.skip(i + 1),
                            outcomes@.skip(i + 1),
                        ) =~= changed_of(rviews.skip(i + 1), outcomes@.skip(i + 1)));
                    }
                }
            },
            None => {
                proof {
                    assert(Seq::<TargetV>::empty() + changed_of(
                        rviews.skip(i + 1),
                        outcomes@.skip(i + 1),
                    ) =~= changed_of(rviews.skip(i + 1), outcomes@.skip(i + 1)));
                }
            },
        }
        i = i + 1;
    }
    proof {
        assert(changed_of(rviews.skip(n as int), outcomes@.skip(n as int)) =~= Seq::<
            TargetV,
        >::empty());
        assert(r@.map_values(|t: Target| t@) + Seq::<TargetV>::empty() =~= r@.map_values(
            |t: Target| t@,
        ));
    }
    r
}

/// Record `i` puts target `t` in the immediate-update set: its provider
/// read succeeded with a digest other than the one the client sent.
pub open spec fn witnesses_change(
    records: Seq<ListenRecordV>,
    outcomes: Seq<Option<Config>>,
    i: int,
    t: TargetV,
) -> bool {
    match outcomes[i] {
        Some(c) => c.spec_md5() != records[i].md5 && t == record_target(records[i]),
        None => false,
    }
}

/// Every target of the immediate-update set comes from a record whose
/// `refresh = false` provider read succeeded with a digest other than the
/// one the client sent: a long-poll that answers at once does so only for
/// mismatched targets.
pub proof fn lemma_immediate_implies_mismatch(
    records: Seq<ListenRecordV>,
    outcomes: Seq<Option<Config>>,
    j: int,
)
    requires
        records.len() == outcomes.len(),
        0 <= j < changed_of(records, outcomes).len(),
    ensures
        exists|i: int|
            0 <= i < records.len() && #[trigger] witnesses_change(
                records,
                outcomes,
                i,
                changed_of(records, outcomes)[j],
            ),
    decreases records.len(),
{
    let head_changed = match outcomes[0] {
        Some(c) => c.spec_md5() != records[0].md5,
        None => false,
    };
    if head_changed && j == 0 {
        assert(changed_of(records, outcomes)[0] == record_target(records[0]));
        assert(witnesses_change(records, outcomes, 0, changed_of(records, outcomes)[j]));
    } else {
        let j2 = if head_changed {
            j - 1
        } else {
            j
        };
        lemma_immediate_implies_mismatch(records.skip(1), outcomes.skip(1), j2);
        let t2 = changed_of(records.skip(1), outcomes.skip(1))[j2];
        let i2 = choose|i: int|
            0 <= i < records.skip(1).len() && #[trigger] witnesses_change(
                records.skip(1),
                outcomes.skip(1),
                i,
                t2,
            );
        assert(records.skip(1)[i2] == records[i2 + 1]);
        assert(outcomes.skip(1)[i2] == outcomes[i2 + 1]);
        assert(changed_of(records, outcomes)[j] == t2);
        assert(witnesses_change(records, outcomes, i2 + 1, changed_of(records, outcomes)[j]));
    }
}

/// The concatenation of the wire forms of a target list.
pub open spec fn concat_param_strings(ts: Seq<TargetV>) -> Seq<char>
    decreases ts.len(),
{
    if ts.len() == 0 {
        Seq::empty()
    } else {
        param_string_of(ts[0]) + concat_param_strings(ts.skip(1))
    }
}

/// The 200 body of a listener POST that answers immediately: the percent-
/// encoded concatenation of the changed targets' wire forms.
pub fn immediate_body(targets: &Vec<Target>) -> (r: String)
    ensures
        r@ == percent_encoded(concat_param_strings(targets@.map_values(|t: Target| t@))),
        targets@.len() > 0 ==> r@.len() > 0,
{
    let ghost tviews = targets@.map_values(|t: Target| t@);
    let mut joined = String::new();
    let n = targets.len();
    let mut i: usize = 0;
    proof {
        assert(tviews.skip(0) =~= tviews);
    }
    while i < n
        invariant
            i <= n,
            n == targets@.len(),
            tviews == targets@.map_values(|t: Target| t@),
            concat_param_strings(tviews) == joined@ + concat_param_strings(tviews.skip(i as int)),
        decreases n - i,
    {
        proof {
            assert(tviews.skip(i as int)[0] == tviews[i as int]);
            assert(tviews.skip(i as int).skip(1) =~= tviews.skip(i + 1));
        }
        let p = targets[i].to_param_string();
        joined.append(p.as_str());
        i = i + 1;
        proof {
            assert(joined@ + concat_param_strings(tviews.skip(i as int)) =~= concat_param_strings(
                tviews,
            ));
        }
    }
    proof {
        assert(concat_param_strings(tviews.skip(n as int)) =~= Seq::<char>::empty());
        assert(joined@ + Seq::<char>::empty() =~= joined@);
        if targets@.len() > 0 {
            assert(param_string_of(tviews[0]).len() > 0);
            assert(concat_param_strings(tviews).len() > 0);
        }
    }
    percent_encode(joined.as_str())
}

/// The 200 body of a listener POST woken by a change notification: the
/// percent-encoded wire form of that one target.
pub fn notify_body(t: &Target) -> (r: String)
    ensures
        r@ == percent_encoded(param_string_of(t@)),
{
    let p = t.to_param_string();
    percent_encode(p.as_str())
}

/// What `Long-Pulling-Timeout` means in milliseconds: the header value when
/// it is a decimal number fitting `u64`, else the default of 30000.
pub open spec fn spec_timeout(h: Option<Seq<char>>) -> int {
    match h {
        Some(s) => if s.len() > 0 && all_dec_digits(s) && dec_value(s) <= u64::MAX {
            dec_value(s)
        } else {
            30000
        },
        None => 30000,
    }
}

/// The long-poll wait in milliseconds, from the `Long-Pulling-Timeout`
/// header.
pub fn parse_timeout_header(h: &Option<String>) -> (r: u64)
    ensures
        r as int == spec_timeout(opt_view(*h)),
{
    match h {
        Some(s) => match parse_u64(s.as_str()) {
            Some(v) => v,
            None => 30000,
        },
        None => 30000,
    }
}

/// Whether a broadcast target is one this listener registered: the filter a
/// long-poll applies before answering a change notification.
pub fn target_in_set(set: &Vec<Target>, t: &Target) -> (r: bool)
    ensures
        r == set@.map_values(|x: Target| x@).contains(t@),
{
    let n = set.len();
    let mut i: usize = 0;
    while i < n
        invariant
            i <= n,
            n == set@.len(),
            forall|j: int| 0 <= j < i ==> set@[j]@ != t@,
        decreases n - i,
    {
        if &set[i] == t {
            proof {
                assert(set@.map_values(|x: Target| x@)[i as int] == t@);
            }
            return true;
        }
        i = i + 1;
    }
    proof {
        assert(forall|j: int|
            0 <= j < set@.len() ==> set@.map_values(|x: Target| x@)[j] == set@[j]@);
    }
    false
}

} // verus!
