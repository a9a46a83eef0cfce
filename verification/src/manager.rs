//! The target manager: the registry mapping each listened-for target to the
//! digest its client believes current (`client_md5`), the digest of the last
//! provider read (`latest_md5`), and the pending completion handle of an
//! unacknowledged refresh. Registrations and refresh results arrive one at a
//! time (the event loop around it is single-consumer); each step is a pure
//! transition on the registry, stated by `spec_register` and
//! `spec_refresh_one`.

use vstd::prelude::*;

use crate::target::{Target, TargetV};
use crate::wire::str_eq;

verus! {

/// The completion handle of a refresh cycle: one sender of the cycle's
/// channel. The channel closes when every handle is dropped, which is what
/// tells the refresh coordinator the cycle has drained.
#[verifier::external_type_specification]
#[verifier::external_body]
#[verifier::reject_recursive_types(T)]
pub struct ExTokioSender<T>(tokio::sync::mpsc::Sender<T>);

/// Relies on `tokio::sync::mpsc::Sender::clone`: another handle to the same
/// channel; the channel closes only when every handle is dropped.
#[verifier::external_body]
fn clone_completion(tx: &tokio::sync::mpsc::Sender<()>) -> (r: tokio::sync::mpsc::Sender<()>) {
    tx.clone()
}

/// Mathematical image of a [`TargetState`]: the two digests and whether a
/// completion handle is held.
pub struct TargetStateV {
    pub client_md5: Seq<char>,
    pub latest_md5: Seq<char>,
    pub pending: bool,
}

/// What the manager knows of one target: the digest the most recent client
/// registration claimed, the digest of the last provider read, and the
/// completion handle of the refresh cycle that last changed it, held until
/// the client catches up or the cycle is dropped.
struct TargetState {
    client_md5: String,
    latest_md5: String,
    pending: Option<tokio::sync::mpsc::Sender<()>>,
}

impl View for TargetState {
    type V = TargetStateV;

    closed spec fn view(&self) -> TargetStateV {
        TargetStateV {
            client_md5: self.client_md5@,
            latest_md5: self.latest_md5@,
            pending: self.pending is Some,
        }
    }
}

spec fn entries_map(s: Seq<(Target, TargetState)>) -> Map<TargetV, TargetStateV>
    decreases s.len(),
{
    if s.len() == 0 {
        Map::empty()
    } else {
        entries_map(s.drop_last()).insert(s.last().0@, s.last().1@)
    }
}

spec fn unique_keys(s: Seq<(Target, TargetState)>) -> bool {
    forall|i: int, j: int| 0 <= i < j < s.len() ==> s[i].0@ != s[j].0@
}

proof fn lemma_entries_contains(s: Seq<(Target, TargetState)>, k: TargetV)
    ensures
        entries_map(s).dom().contains(k) <==> exists|i: int| 0 <= i < s.len() && s[i].0@ == k,
    decreases s.len(),
{
    if s.len() > 0 {
        lemma_entries_contains(s.drop_last(), k);
        if s.last().0@ == k {
            assert(s[s.len() - 1].0@ == k);
        } else if entries_map(s).dom().contains(k) {
            let i = choose|i: int| 0 <= i < s.drop_last().len() && s.drop_last()[i].0@ == k;
            assert(s[i].0@ == k);
        } else if exists|i: int| 0 <= i < s.len() && s[i].0@ == k {
            let i = choose|i: int| 0 <= i < s.len() && s[i].0@ == k;
            assert(i < s.len() - 1);
            assert(s.drop_last()[i].0@ == k);
        }
    }
}

proof fn lemma_entries_lookup(s: Seq<(Target, TargetState)>, i: int)
    requires
        unique_keys(s),
        0 <= i < s.len(),
    ensures
        entries_map(s).dom().contains(s[i].0@),
        entries_map(s)[s[i].0@] == s[i].1@,
    decreases s.len(),
{
    if i == s.len() - 1 {
    } else {
        assert(unique_keys(s.drop_last()));
        assert(s.drop_last()[i] == s[i]);
        lemma_entries_lookup(s.drop_last(), i);
        assert(s[i].0@ != s.last().0@);
    }
}

proof fn lemma_entries_update(s1: Seq<(Target, TargetState)>, s2: Seq<(Target, TargetState)>, i: int)
    requires
        unique_keys(s1),
        0 <= i < s1.len(),
        s2.len() == s1.len(),
        s2[i].0@ == s1[i].0@,
        forall|j: int| 0 <= j < s1.len() && j != i ==> s2[j] == s1[j],
    ensures
        entries_map(s2) == entries_map(s1).insert(s1[i].0@, s2[i].1@),
        unique_keys(s2),
    decreases s1.len(),
{
    assert(unique_keys(s2)) by {
        assert(forall|a: int, b: int|
            0 <= a < b < s2.len() ==> s2[a].0@ == s1[a].0@ && s2[b].0@ == s1[b].0@);
    }
    if i == s1.len() - 1 {
        assert(s2.drop_last() =~= s1.drop_last());
        assert(entries_map(s2) == entries_map(s1.drop_last()).insert(s2[i].0@, s2[i].1@));
        assert(entries_map(s1.drop_last()).insert(s1[i].0@, s2[i].1@) =~= entries_map(
            s1.drop_last(),
        ).insert(s1[i].0@, s1[i].1@).insert(s1[i].0@, s2[i].1@));
    } else {
        assert(unique_keys(s1.drop_last()));
        assert(s2.drop_last()[i] == s2[i] && s1.drop_last()[i] == s1[i]);
        assert(forall|j: int|
            0 <= j < s1.drop_last().len() && j != i ==> s2.drop_last()[j] == s1.drop_last()[j]);
        lemma_entries_update(s1.drop_last(), s2.drop_last(), i);
        assert(s2.last() == s1.last());
        assert(s1[i].0@ != s1.last().0@);
        assert(entries_map(s1.drop_last()).insert(s1[i].0@, s2[i].1@).insert(
            s1.last().0@,
            s1.last().1@,
        ) =~= entries_map(s1.drop_last()).insert(s1.last().0@, s1.last().1@).insert(
            s1[i].0@,
            s2[i].1@,
        ));
    }
}

/// What `register(t, md5)` does to the registry: a first registration gets
/// a fresh state with both digests at `md5` and nothing pending; a
/// re-registration overwrites `client_md5` and, when the client has caught
/// up with `latest_md5`, releases the pending completion handle.
pub open spec fn spec_register(m: Map<TargetV, TargetStateV>, t: TargetV, md5: Seq<char>) -> Map<
    TargetV,
    TargetStateV,
> {
    if m.dom().contains(t) {
        let s = m[t];
        m.insert(
            t,
            TargetStateV {
                client_md5: md5,
                latest_md5: s.latest_md5,
                pending: s.pending && md5 != s.latest_md5,
            },
        )
    } else {
        m.insert(t, TargetStateV { client_md5: md5, latest_md5: md5, pending: false })
    }
}

/// What one target's step of a refresh cycle does to the registry, and
/// whether it publishes a change: when the fresh digest differs from
/// `client_md5`, `latest_md5` is advanced, the cycle's completion handle is
/// stored, and the target is published; otherwise nothing happens. A target
/// that was never registered is not touched.
pub open spec fn spec_refresh_one(
    m: Map<TargetV, TargetStateV>,
    t: TargetV,
    fresh: Seq<char>,
) -> (Map<TargetV, TargetStateV>, bool) {
    if m.dom().contains(t) {
        let s = m[t];
        if fresh != s.client_md5 {
            (
                m.insert(
                    t,
                    TargetStateV { client_md5: s.client_md5, latest_md5: fresh, pending: true },
                ),
                true,
            )
        } else {
            (m, false)
        }
    } else {
        (m, false)
    }
}

/// An empty registry.
pub open spec fn empty_registry() -> Map<TargetV, TargetStateV> {
    Map::empty()
}

/// The in-memory registry `Target -> TargetState`. Owned by a single event
/// loop: every mutation is one `register` or one `record_refresh`.
pub struct TargetManager {
    targets: Vec<(Target, TargetState)>,
}

impl View for TargetManager {
    type V = Map<TargetV, TargetStateV>;

    closed spec fn view(&self) -> Map<TargetV, TargetStateV> {
        entries_map(self.targets@)
    }
}

impl TargetManager {
    /// No two entries bind the same target.
    pub closed spec fn wf(&self) -> bool {
        unique_keys(self.targets@)
    }

    /// The registered targets, in registration order.
    pub closed spec fn spec_keys(&self) -> Seq<TargetV> {
        self.targets@.map_values(|p: (Target, TargetState)| p.0@)
    }

    /// The registry holds a target exactly when some entry binds it.
    pub proof fn lemma_keys_view(&self)
        ensures
            forall|k: TargetV| #[trigger]
                self@.dom().contains(k) <==> self.spec_keys().contains(k),
    {
        assert forall|k: TargetV| #[trigger]
            self@.dom().contains(k) <==> self.spec_keys().contains(k) by {
            lemma_entries_contains(self.targets@, k);
            if self@.dom().contains(k) {
                let i = choose|i: int|
                    0 <= i < self.targets@.len() && self.targets@[i].0@ == k;
                assert(self.spec_keys()[i] == k);
                assert(self.spec_keys().contains(k));
            }
            if self.spec_keys().contains(k) {
                let i = choose|i: int|
                    0 <= i < self.spec_keys().len() && self.spec_keys()[i] == k;
                assert(self.targets@[i].0@ == k);
            }
        }
    }

    pub fn new() -> (r: Self)
        ensures
            r.wf(),
            r@ == empty_registry(),
    {
        let r = TargetManager { targets: Vec::new() };
        proof {
            assert(r.targets@.len() == 0);
        }
        r
    }

    fn find_index(&self, t: &Target) -> (r: Option<usize>)
        ensures
            match r {
                Some(i) => i < self.targets@.len() && self.targets@[i as int].0@ == t@,
                None => forall|j: int| 0 <= j < self.targets@.len() ==> self.targets@[j].0@ != t@,
            },
    {
        let n = self.targets.len();
        let mut i: usize = 0;
        while i < n
            invariant
                i <= n,
                n == self.targets@.len(),
                forall|j: int| 0 <= j < i ==> self.targets@[j].0@ != t@,
            decreases n - i,
        {
            if &self.targets[i].0 == t {
                return Some(i);
            }
            i = i + 1;
        }
        None
    }

    /// Handles `register(t, md5)` from a front end.
    pub fn register(&mut self, t: Target, md5: String)
        requires
            old(self).wf(),
        ensures
            final(self).wf(),
            final(self)@ == spec_register(old(self)@, t@, md5@),
    {
        let ghost s1 = self.targets@;
        match self.find_index(&t) {
            None => {
                proof {
                    lemma_entries_contains(s1, t@);
                }
                let state = TargetState {
                    client_md5: md5.clone(),
                    latest_md5: md5,
                    pending: None,
                };
                self.targets.push((t, state));
                proof {
                    assert(self.targets@.drop_last() =~= s1);
                    assert(forall|j: int| 0 <= j < s1.len() ==> self.targets@[j] == s1[j]);
                }
            },
            Some(i) => {
                proof {
                    lemma_entries_contains(s1, t@);
                    lemma_entries_lookup(s1, i as int);
                }
                let caught_up = str_eq(
                    self.targets[i].1.latest_md5.as_str(),
                    md5.as_str(),
                );
                self.targets[i].1.client_md5 = md5;
                if caught_up {
                    self.targets[i].1.pending = None;
                }
                proof {
                    lemma_entries_update(s1, self.targets@, i as int);
                }
            },
        }
    }

    /// The targets a refresh cycle must re-read: every registered one.
    pub fn targets_to_refresh(&self) -> (r: Vec<Target>)
        ensures
            r@.map_values(|t: Target| t@) == self.spec_keys(),
    {
        let n = self.targets.len();
        let mut r: Vec<Target> = Vec::new();
        let mut i: usize = 0;
        while i < n
            invariant
                i <= n,
                n == self.targets@.len(),
                r@.len() == i,
                forall|j: int| 0 <= j < i ==> r@[j]@ == self.targets@[j].0@,
            decreases n - i,
        {
            let t = self.targets[i].0.clone();
            r.push(t);
            i = i + 1;
        }
        proof {
            assert(r@.map_values(|t: Target| t@) =~= self.spec_keys());
        }
        r
    }

    /// Handles one target's result of a refresh cycle: `fresh_md5` is what
    /// the provider read with `refresh = true`. Returns whether the change
    /// must be published (one unit sent on `completion`, the target
    /// broadcast); when it must, a handle of `completion` stays stored
    /// until the client catches up.
    pub fn record_refresh(
        &mut self,
        t: &Target,
        fresh_md5: String,
        completion: &tokio::sync::mpsc::Sender<()>,
    ) -> (changed: bool)
        requires
            old(self).wf(),
        ensures
            final(self).wf(),
            final(self)@ == spec_refresh_one(old(self)@, t@, fresh_md5@).0,
            changed == spec_refresh_one(old(self)@, t@, fresh_md5@).1,
    {
        let ghost s1 = self.targets@;
        match self.find_index(t) {
            None => {
                proof {
                    lemma_entries_contains(s1, t@);
                }
                false
            },
            Some(i) => {
                proof {
                    lemma_entries_contains(s1, t@);
                    lemma_entries_lookup(s1, i as int);
                }
                let mismatch = !str_eq(
                    self.targets[i].1.client_md5.as_str(),
                    fresh_md5.as_str(),
                );
                if mismatch {
                    self.targets[i].1.latest_md5 = fresh_md5;
                    self.targets[i].1.pending = Some(clone_completion(completion));
                    proof {
                        lemma_entries_update(s1, self.targets@, i as int);
                    }
                    true
                } else {
                    false
                }
            },
        }
    }

    /// What the registry holds for a target: `(client_md5, latest_md5,
    /// pending)`, or nothing if it was never registered.
    pub fn lookup(&self, t: &Target) -> (r: Option<(String, String, bool)>)
        requires
            self.wf(),
        ensures
            match r {
                Some(x) => self@.dom().contains(t@) && x.0@ == self@[t@].client_md5 && x.1@
                    == self@[t@].latest_md5 && x.2 == self@[t@].pending,
                None => !self@.dom().contains(t@),
            },
    {
        let ghost s1 = self.targets@;
        match self.find_index(t) {
            None => {
                proof {
                    lemma_entries_contains(s1, t@);
                }
                None
            },
            Some(i) => {
                proof {
                    lemma_entries_contains(s1, t@);
                    lemma_entries_lookup(s1, i as int);
                }
                let state = &self.targets[i].1;
                Some(
                    (
                        state.client_md5.clone(),
                        state.latest_md5.clone(),
                        state.pending.is_some(),
                    ),
                )
            },
        }
    }
}

/// A whole refresh cycle: the registry after recording, in order, the
/// fresh digest each provider read reported for its target.
pub open spec fn spec_refresh_cycle(
    m: Map<TargetV, TargetStateV>,
    reads: Seq<(TargetV, Seq<char>)>,
) -> Map<TargetV, TargetStateV>
    decreases reads.len(),
{
    if reads.len() == 0 {
        m
    } else {
        spec_refresh_cycle(spec_refresh_one(m, reads[0].0, reads[0].1).0, reads.skip(1))
    }
}

/// A refresh cycle creates no state: a target that was never registered
/// has none afterwards either.
pub proof fn lemma_cycle_preserves_dom(m: Map<TargetV, TargetStateV>, reads: Seq<(TargetV, Seq<char>)>)
    ensures
        spec_refresh_cycle(m, reads).dom() == m.dom(),
    decreases reads.len(),
{
    if reads.len() > 0 {
        let m1 = spec_refresh_one(m, reads[0].0, reads[0].1).0;
        assert(m1.dom() =~= m.dom());
        lemma_cycle_preserves_dom(m1, reads.skip(1));
    }
}

/// A refresh cycle leaves a target it does not read untouched.
pub proof fn lemma_cycle_untouched(
    m: Map<TargetV, TargetStateV>,
    reads: Seq<(TargetV, Seq<char>)>,
    k: TargetV,
)
    requires
        forall|i: int| 0 <= i < reads.len() ==> reads[i].0 != k,
        m.dom().contains(k),
    ensures
        spec_refresh_cycle(m, reads).dom().contains(k),
        spec_refresh_cycle(m, reads)[k] == m[k],
    decreases reads.len(),
{
    if reads.len() > 0 {
        let m1 = spec_refresh_one(m, reads[0].0, reads[0].1).0;
        assert(m1.dom().contains(k) && m1[k] == m[k]);
        lemma_cycle_untouched(m1, reads.skip(1), k);
    }
}

/// For every target: after a refresh cycle that read each registered target
/// once with no provider error, and whose read targets' clients were in
/// sync when the cycle started, the target's `latest_md5` equals the digest
/// the provider reported for it; and a target the cycle did not know gets
/// no state (`lemma_cycle_preserves_dom`).
pub proof fn lemma_cycle_settles_latest(
    m: Map<TargetV, TargetStateV>,
    reads: Seq<(TargetV, Seq<char>)>,
    i: int,
)
    requires
        forall|j: int|
            0 <= j < reads.len() && #[trigger] m.dom().contains(reads[j].0) ==> m[reads[j].0].latest_md5
                == m[reads[j].0].client_md5,
        forall|a: int, b: int| 0 <= a < b < reads.len() ==> reads[a].0 != reads[b].0,
        0 <= i < reads.len(),
        m.dom().contains(reads[i].0),
    ensures
        spec_refresh_cycle(m, reads).dom().contains(reads[i].0),
        spec_refresh_cycle(m, reads)[reads[i].0].latest_md5 == reads[i].1,
    decreases reads.len(),
{
    let t0 = reads[0].0;
    let fresh0 = reads[0].1;
    let m1 = spec_refresh_one(m, t0, fresh0).0;
    if i == 0 {
        assert(m1.dom().contains(t0) && m1[t0].latest_md5 == fresh0);
        assert(forall|j: int| 0 <= j < reads.skip(1).len() ==> reads.skip(1)[j] == reads[j + 1]);
        lemma_cycle_untouched(m1, reads.skip(1), t0);
    } else {
        assert(forall|j: int| 0 <= j < reads.skip(1).len() ==> reads.skip(1)[j] == reads[j + 1]);
        assert(forall|j: int|
            0 <= j < reads.skip(1).len() && #[trigger] m1.dom().contains(reads.skip(1)[j].0)
                ==> m1[reads.skip(1)[j].0].latest_md5 == m1[reads.skip(1)[j].0].client_md5) by {
            assert(forall|j: int|
                0 <= j < reads.skip(1).len() ==> reads.skip(1)[j].0 != t0 && (
                m.dom().contains(reads.skip(1)[j].0) ==> m1.dom().contains(reads.skip(1)[j].0)
                    && m1[reads.skip(1)[j].0] == m[reads.skip(1)[j].0]));
            assert(m1.dom() =~= m.dom());
        }
        assert(m1.dom().contains(reads.skip(1)[i - 1].0));
        lemma_cycle_settles_latest(m1, reads.skip(1), i - 1);
        assert(reads.skip(1)[i - 1] == reads[i]);
    }
}

/// A refresh publishes a change for a target only when the fresh digest
/// differs from the digest the client last registered: every notification a
/// long-poll or bi-stream reader wakes up for had `provider md5 !=
/// client md5` when the cycle read it.
pub proof fn lemma_notify_implies_mismatch(
    m: Map<TargetV, TargetStateV>,
    t: TargetV,
    fresh: Seq<char>,
)
    ensures
        spec_refresh_one(m, t, fresh).1 ==> m.dom().contains(t) && fresh != m[t].client_md5,
{
}

/// Right after `register(t, md5)`, the registry's `client_md5` for `t` is
/// `md5`, so a `refresh = false` get that returns a cached entry returns
/// content whose digest equals the registered one exactly when the cached
/// entry's digest does: the digests agree precisely while the provider
/// cache for the target is the one the client last saw.
pub proof fn lemma_register_then_get(
    m: Map<TargetV, TargetStateV>,
    t: TargetV,
    md5: Seq<char>,
    entry_md5: Seq<char>,
)
    ensures
        spec_register(m, t, md5).dom().contains(t),
        (entry_md5 == spec_register(m, t, md5)[t].client_md5) <==> (entry_md5 == md5),
{
}

} // verus!
