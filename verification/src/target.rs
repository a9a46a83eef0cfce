//! The identity of a configuration entry: `(data_id, group, tenant?)`, its
//! canonical wire form `data_id \x02 group \x02 tenant_or_empty \x01`, and
//! the parser for the `Listening-Configs` records a long-poll client sends.

use vstd::prelude::*;

use crate::wire::{
    lemma_split_no_sep, lemma_split_sep_concat, seq_has_char, split_at_sep, split_char, FIELD_SEP,
    RECORD_SEP,
};

verus! {

/// Mathematical image of a [`Target`].
#[verifier::ext_equal]
pub struct TargetV {
    pub data_id: Seq<char>,
    pub group: Seq<char>,
    pub tenant: Option<Seq<char>>,
}

/// The identity triple of a configuration entry. `tenant` is never the empty
/// string: an empty tenant at the protocol boundary collapses to absent.
pub struct Target {
    pub data_id: String,
    pub group: String,
    pub tenant: Option<String>,
}

impl View for Target {
    type V = TargetV;

    open spec fn view(&self) -> TargetV {
        TargetV {
            data_id: self.data_id@,
            group: self.group@,
            tenant: match self.tenant {
                Some(t) => Some(t@),
                None => None,
            },
        }
    }
}

impl Clone for Target {
    fn clone(&self) -> (r: Self)
        ensures
            r@ == self@,
    {
        Target {
            data_id: self.data_id.clone(),
            group: self.group.clone(),
            tenant: match &self.tenant {
                Some(t) => Some(t.clone()),
                None => None,
            },
        }
    }
}

impl PartialEq for Target {
    fn eq(&self, other: &Self) -> (r: bool) {
        let tenant_eq = match (&self.tenant, &other.tenant) {
            (Some(a), Some(b)) => *a == *b,
            (None, None) => true,
            _ => false,
        };
        let r = tenant_eq && self.data_id == other.data_id && self.group == other.group;
        proof {
            if r {
                assert(self@ =~= other@);
            }
        }
        r
    }
}

impl vstd::std_specs::cmp::PartialEqSpecImpl for Target {
    open spec fn obeys_eq_spec() -> bool {
        true
    }

    open spec fn eq_spec(&self, other: &Self) -> bool {
        self@ == other@
    }
}

impl Eq for Target {
}

/// The tenant field as it appears on the wire: the tenant, or empty if absent.
pub open spec fn tenant_or_empty(t: Option<Seq<char>>) -> Seq<char> {
    match t {
        Some(s) => s,
        None => Seq::empty(),
    }
}

/// The canonical wire form of a target.
pub open spec fn param_string_of(t: TargetV) -> Seq<char> {
    t.data_id + seq![FIELD_SEP] + t.group + seq![FIELD_SEP] + tenant_or_empty(t.tenant) + seq![
        RECORD_SEP,
    ]
}

/// A field may carry neither separator, or the wire form is ambiguous.
pub open spec fn field_ok(s: Seq<char>) -> bool {
    !seq_has_char(s, FIELD_SEP) && !seq_has_char(s, RECORD_SEP)
}

/// A target as the protocol admits it: non-empty opaque `data_id` and
/// `group`, tenant absent or non-empty, no separator bytes in any field.
pub open spec fn target_wf(t: TargetV) -> bool {
    &&& t.data_id.len() > 0
    &&& field_ok(t.data_id)
    &&& t.group.len() > 0
    &&& field_ok(t.group)
    &&& match t.tenant {
        Some(s) => s.len() > 0 && field_ok(s),
        None => true,
    }
}

impl Target {
    /// Returns `"{data_id}\x02{group}\x02{tenant_or_empty}\x01"`.
    pub fn to_param_string(&self) -> (r: String)
        ensures
            r@ == param_string_of(self@),
    {
        let mut r = String::new();
        r.append(self.data_id.as_str());
        r.append("\u{2}");
        r.append(self.group.as_str());
        r.append("\u{2}");
        match &self.tenant {
            Some(t) => r.append(t.as_str()),
            None => (),
        }
        r.append("\u{1}");
        proof {
            reveal_strlit("\u{2}");
            reveal_strlit("\u{1}");
            assert("\u{2}"@ =~= seq![FIELD_SEP]);
            assert("\u{1}"@ =~= seq![RECORD_SEP]);
            assert(r@ =~= param_string_of(self@));
        }
        r
    }

    pub fn tenant(&self) -> (r: Option<&str>)
        ensures
            match r {
                Some(s) => self@.tenant == Some(s@),
                None => self@.tenant is None,
            },
    {
        match &self.tenant {
            Some(t) => Some(t.as_str()),
            None => None,
        }
    }
}

/// Mathematical image of a [`ListenRecord`].
#[verifier::ext_equal]
pub struct ListenRecordV {
    pub data_id: Seq<char>,
    pub group: Seq<char>,
    pub md5: Seq<char>,
    pub tenant: Option<Seq<char>>,
}

/// One record of a `Listening-Configs` body: `data_id \x02 group \x02 md5`
/// and an optional fourth `tenant` field.
pub struct ListenRecord {
    pub data_id: String,
    pub group: String,
    pub md5: String,
    pub tenant: Option<String>,
}

impl View for ListenRecord {
    type V = ListenRecordV;

    open spec fn view(&self) -> ListenRecordV {
        ListenRecordV {
            data_id: self.data_id@,
            group: self.group@,
            md5: self.md5@,
            tenant: match self.tenant {
                Some(t) => Some(t@),
                None => None,
            },
        }
    }
}

impl ListenRecord {
    /// The target this record listens for. An empty or absent fourth field
    /// both mean "no tenant".
    pub fn target(&self) -> (r: Target)
        ensures
            r@ == record_target(self@),
    {
        Target {
            data_id: self.data_id.clone(),
            group: self.group.clone(),
            tenant: match &self.tenant {
                Some(t) => if t.as_str().is_empty() {
                    None
                } else {
                    Some(t.clone())
                },
                None => None,
            },
        }
    }
}

/// The target a listener record denotes: the empty tenant collapses to absent.
pub open spec fn record_target(r: ListenRecordV) -> TargetV {
    TargetV {
        data_id: r.data_id,
        group: r.group,
        tenant: match r.tenant {
            Some(t) => if t.len() == 0 {
                None
            } else {
                Some(t)
            },
            None => None,
        },
    }
}

/// The record one `\x01`-chunk denotes: at least three `\x02`-fields, the
/// fourth, when present, the tenant; later fields are ignored.
pub open spec fn record_of_chunk(c: Seq<char>) -> Option<ListenRecordV> {
    let parts = split_at_sep(c, FIELD_SEP);
    if parts.len() >= 4 {
        Some(
            ListenRecordV {
                data_id: parts[0],
                group: parts[1],
                md5: parts[2],
                tenant: Some(parts[3]),
            },
        )
    } else if parts.len() == 3 {
        Some(ListenRecordV { data_id: parts[0], group: parts[1], md5: parts[2], tenant: None })
    } else {
        None
    }
}

/// The records of a chunk list. Empty chunks are skipped; a malformed
/// non-empty chunk spoils the whole parse.
pub open spec fn records_of_chunks(cs: Seq<Seq<char>>) -> Option<Seq<ListenRecordV>>
    decreases cs.len(),
{
    if cs.len() == 0 {
        Some(Seq::empty())
    } else if cs[0].len() == 0 {
        records_of_chunks(cs.skip(1))
    } else {
        match record_of_chunk(cs[0]) {
            Some(r) => match records_of_chunks(cs.skip(1)) {
                Some(rest) => Some(seq![r] + rest),
                None => None,
            },
            None => None,
        }
    }
}

/// What a `Listening-Configs` value parses to.
pub open spec fn parse_listening_spec(s: Seq<char>) -> Option<Seq<ListenRecordV>> {
    records_of_chunks(split_at_sep(s, RECORD_SEP))
}

spec fn compose_records(pre: Seq<ListenRecordV>, rest: Option<Seq<ListenRecordV>>) -> Option<
    Seq<ListenRecordV>,
> {
    match rest {
        Some(r) => Some(pre + r),
        None => None,
    }
}

/// Parses a `Listening-Configs` value: records separated by `\x01`, each of
/// `\x02`-separated fields `data_id, group, md5` and an optional `tenant`.
/// `None` when some non-empty record has fewer than three fields.
pub fn parse_listening_configs(s: &str) -> (r: Option<Vec<ListenRecord>>)
    ensures
        match r {
            Some(v) => parse_listening_spec(s@) == Some(
                v@.map_values(|x: ListenRecord| x@),
            ),
            None => parse_listening_spec(s@) is None,
        },
{
    let chunks = split_char(s, '\u{1}');
    let ghost cviews = chunks@.map_values(|f: String| f@);
    let mut out: Vec<ListenRecord> = Vec::new();
    let n = chunks.len();
    let mut idx: usize = 0;
    proof {
        assert(cviews.skip(0) =~= cviews);
        assert(out@.map_values(|x: ListenRecord| x@) =~= Seq::<ListenRecordV>::empty());
    }
    while idx < n
        invariant
            idx <= n,
            n == chunks@.len(),
            cviews == chunks@.map_values(|f: String| f@),
            cviews == split_at_sep(s@, RECORD_SEP),
            parse_listening_spec(s@) == compose_records(
                out@.map_values(|x: ListenRecord| x@),
                records_of_chunks(cviews.skip(idx as int)),
            ),
        decreases n - idx,
    {
        let ghost pre = out@.map_values(|x: ListenRecord| x@);
        proof {
            assert(cviews.skip(idx as int)[0] == cviews[idx as int]);
            assert(cviews.skip(idx as int).skip(1) =~= cviews.skip(idx + 1));
        }
        let chunk = &chunks[idx];
        if !chunk.as_str().is_empty() {
            let parts = split_char(chunk.as_str(), '\u{2}');
            let ghost pviews = parts@.map_values(|f: String| f@);
            if parts.len() < 3 {
                proof {
                    assert(record_of_chunk(cviews[idx as int]) is None);
                    assert(parse_listening_spec(s@) is None);
                }
                return None;
            }
            let tenant = if parts.len() >= 4 {
                Some(parts[3].clone())
            } else {
                None
            };
            let rec = ListenRecord {
                data_id: parts[0].clone(),
                group: parts[1].clone(),
                md5: parts[2].clone(),
                tenant,
            };
            proof {
                assert(Some(rec@) == record_of_chunk(cviews[idx as int]));
            }
            out.push(rec);
            proof {
                assert(out@.map_values(|x: ListenRecord| x@) =~= pre + seq![rec@]);
                if records_of_chunks(cviews.skip(idx + 1)) is Some {
                    assert((pre + seq![rec@]) + records_of_chunks(
                        cviews.skip(idx + 1),
                    )->Some_0 =~= pre + (seq![rec@] + records_of_chunks(
                        cviews.skip(idx + 1),
                    )->Some_0));
                }
            }
        }
        idx = idx + 1;
    }
    proof {
        assert(cviews.skip(n as int) =~= Seq::<Seq<char>>::empty());
        assert(out@.map_values(|x: ListenRecord| x@) + Seq::<ListenRecordV>::empty()
            =~= out@.map_values(|x: ListenRecord| x@));
    }
    Some(out)
}

/// The canonical wire form of a well-formed target parses back, as one
/// listener record: `data_id` and `group` are recovered exactly, and the
/// third field carries the tenant (or is empty when the tenant is absent).
pub proof fn lemma_param_string_round_trip(t: TargetV)
    requires
        target_wf(t),
    ensures
        parse_listening_spec(param_string_of(t)) == Some(
            seq![
                ListenRecordV {
                    data_id: t.data_id,
                    group: t.group,
                    md5: tenant_or_empty(t.tenant),
                    tenant: None,
                },
            ],
        ),
{
    let ten = tenant_or_empty(t.tenant);
    let x = t.data_id + seq![FIELD_SEP] + t.group + seq![FIELD_SEP] + ten;
    assert(param_string_of(t) =~= x + seq![RECORD_SEP] + Seq::<char>::empty());
    assert(!seq_has_char(x, RECORD_SEP)) by {
        assert(forall|i: int| 0 <= i < t.data_id.len() ==> x[i] == t.data_id[i]);
        assert(x[t.data_id.len() as int] == FIELD_SEP);
        assert(forall|i: int|
            0 <= i < t.group.len() ==> x[t.data_id.len() as int + 1 + i] == t.group[i]);
        assert(x[t.data_id.len() as int + 1 + t.group.len() as int] == FIELD_SEP);
        assert(forall|i: int|
            0 <= i < ten.len() ==> x[t.data_id.len() as int + t.group.len() as int + 2 + i] == ten[i]);
    }
    lemma_split_sep_concat(x, Seq::empty(), RECORD_SEP);
    assert(split_at_sep(Seq::<char>::empty(), RECORD_SEP) == seq![Seq::<char>::empty()]);
    let chunks = split_at_sep(param_string_of(t), RECORD_SEP);
    assert(chunks =~= seq![x, Seq::<char>::empty()]);

    // The fields of the one non-empty chunk.
    assert(x =~= t.data_id + seq![FIELD_SEP] + (t.group + seq![FIELD_SEP] + ten));
    lemma_split_sep_concat(t.data_id, t.group + seq![FIELD_SEP] + ten, FIELD_SEP);
    lemma_split_sep_concat(t.group, ten, FIELD_SEP);
    lemma_split_no_sep(ten, FIELD_SEP);
    assert(split_at_sep(x, FIELD_SEP) =~= seq![t.data_id, t.group, ten]);
    assert(x.len() > 0);

    // Fold the chunk list.
    assert(chunks.skip(1) =~= seq![Seq::<char>::empty()]);
    assert(chunks.skip(1).skip(1) =~= Seq::<Seq<char>>::empty());
    let rec = ListenRecordV { data_id: t.data_id, group: t.group, md5: ten, tenant: None };
    assert(record_of_chunk(x) == Some(rec));
    assert(records_of_chunks(Seq::<Seq<char>>::empty()) == Some(Seq::<ListenRecordV>::empty()));
    assert(records_of_chunks(chunks.skip(1)) == Some(Seq::<ListenRecordV>::empty()));
    assert(records_of_chunks(chunks) == Some(seq![rec] + Seq::<ListenRecordV>::empty()));
    assert(seq![rec] + Seq::<ListenRecordV>::empty() =~= seq![rec]);
}

/// The wire form is injective: two well-formed targets with the same
/// `param_string` are the same target.
pub proof fn lemma_param_string_injective(t1: TargetV, t2: TargetV)
    requires
        target_wf(t1),
        target_wf(t2),
        param_string_of(t1) == param_string_of(t2),
    ensures
        t1 == t2,
{
    lemma_param_string_round_trip(t1);
    lemma_param_string_round_trip(t2);
    assert(t1.data_id == t2.data_id && t1.group == t2.group && tenant_or_empty(t1.tenant)
        == tenant_or_empty(t2.tenant)) by {
        let r1 = parse_listening_spec(param_string_of(t1))->Some_0;
        let r2 = parse_listening_spec(param_string_of(t2))->Some_0;
        assert(r1 == r2);
        assert(r1[0] == r2[0]);
    }
    match (t1.tenant, t2.tenant) {
        (Some(a), Some(b)) => {
            assert(t1 =~= t2);
        },
        (None, None) => {
            assert(t1 =~= t2);
        },
        (Some(a), None) => {
            assert(a.len() > 0);
            assert(tenant_or_empty(t2.tenant).len() == 0);
            assert(false);
        },
        (None, Some(b)) => {
            assert(b.len() > 0);
            assert(false);
        },
    }
}

} // verus!
