//! The stats store and the single-writer operations against it: profile
//! lookup and update, document existence guarantees, corruption
//! quarantine, decoded queries, and bundle upload.
//!
//! Every mutating or reading operation takes the store through `&mut self`
//! or `&self` on one value, so within one process the operations are
//! serialized by construction: no two ensure-then-increment sequences can
//! interleave, which is the race-safety argument the two-step document
//! protocol relies on.

use vstd::prelude::*;

use crate::model::{
    copy_string, stats_counts_positive, stats_decode_ok, stats_wf, GlobalGameStatsV,
    PlayerGameStatsV, PlayerProfile, PlayerProfileV, StatEntry, StatEntryV, PlayerGameStats,
    GlobalGameStats, NamedGameStat, NamedGameStatV, NamespaceStats, NamespaceStatsV,
    PlayerStatsResponse,
};
use crate::stats::{apply_upload_spec, DecodeError, RawStatV};
use crate::model::{has_stat, stat_idx, stat_named, updates_names_valid, GameStatsBundle,
    GameStatsBundleV, StatUpdate, StatUpdateV};

verus! {

// ---------------------------------------------------------------------------
// Quarantine records
// ---------------------------------------------------------------------------

/// A raw copy of a stats document that failed to decode, stripped of its
/// storage identity, kept beside a diagnostic for offline inspection.
/// Never read by the running system.
#[derive(Debug)]
pub struct QuarantinedDocument {
    pub namespace: String,
    pub global: bool,
    pub player: Option<u128>,
    pub stats: Vec<StatEntry>,
    pub error: DecodeError,
}

/// Ghost mirror of [`QuarantinedDocument`].
#[verifier::ext_equal]
pub struct QuarantinedDocumentV {
    pub namespace: Seq<char>,
    pub global: bool,
    pub player: Option<u128>,
    pub stats: Seq<StatEntryV>,
    pub error: DecodeError,
}

impl View for QuarantinedDocument {
    type V = QuarantinedDocumentV;

    open spec fn view(&self) -> QuarantinedDocumentV {
        QuarantinedDocumentV {
            namespace: self.namespace@,
            global: self.global,
            player: self.player,
            stats: self.stats.deep_view(),
            error: self.error,
        }
    }
}

impl DeepView for QuarantinedDocument {
    type V = QuarantinedDocumentV;

    open spec fn deep_view(&self) -> QuarantinedDocumentV {
        self@
    }
}

// ---------------------------------------------------------------------------
// The store
// ---------------------------------------------------------------------------

/// The document store's four collections, as the single writer sees them:
/// player profiles, per-player stats documents, namespace-wide stats
/// documents, and the quarantine area.
#[derive(Debug)]
pub struct StatsStore {
    pub profiles: Vec<PlayerProfile>,
    pub player_stats: Vec<PlayerGameStats>,
    pub global_stats: Vec<GlobalGameStats>,
    pub corrupt_stats: Vec<QuarantinedDocument>,
}

/// Ghost mirror of [`StatsStore`].
#[verifier::ext_equal]
pub struct StatsStoreV {
    pub profiles: Seq<PlayerProfileV>,
    pub player_stats: Seq<PlayerGameStatsV>,
    pub global_stats: Seq<GlobalGameStatsV>,
    pub corrupt_stats: Seq<QuarantinedDocumentV>,
}

impl View for StatsStore {
    type V = StatsStoreV;

    open spec fn view(&self) -> StatsStoreV {
        StatsStoreV {
            profiles: self.profiles.deep_view(),
            player_stats: self.player_stats.deep_view(),
            global_stats: self.global_stats.deep_view(),
            corrupt_stats: self.corrupt_stats.deep_view(),
        }
    }
}

impl StatsStoreV {
    /// Each player has at most one profile, each subject at most one
    /// stats document, stat names are unique within a document, and
    /// stored counts are positive, as the increment rules keep them.
    pub open spec fn wf(self) -> bool {
        &&& forall|i: int, j: int|
            0 <= i < j < self.profiles.len() ==> self.profiles[i].uuid != self.profiles[j].uuid
        &&& forall|i: int, j: int|
            0 <= i < j < self.player_stats.len() ==> !(self.player_stats[i].uuid
                == self.player_stats[j].uuid && self.player_stats[i].namespace
                == self.player_stats[j].namespace)
        &&& forall|i: int, j: int|
            0 <= i < j < self.global_stats.len() ==> self.global_stats[i].namespace
                != self.global_stats[j].namespace
        &&& forall|i: int|
            0 <= i < self.player_stats.len() ==> #[trigger] stats_wf(self.player_stats[i].stats)
                && stats_counts_positive(self.player_stats[i].stats)
        &&& forall|i: int|
            0 <= i < self.global_stats.len() ==> #[trigger] stats_wf(self.global_stats[i].stats)
                && stats_counts_positive(self.global_stats[i].stats)
    }

    /// A profile exists for this player.
    pub open spec fn has_profile(self, uuid: u128) -> bool {
        exists|i: int| 0 <= i < self.profiles.len() && self.profiles[i].uuid == uuid
    }

    /// The position of this player's profile.
    pub open spec fn profile_idx(self, uuid: u128) -> int {
        choose|i: int| 0 <= i < self.profiles.len() && self.profiles[i].uuid == uuid
    }

    /// This player's profile.
    pub open spec fn profile_of(self, uuid: u128) -> PlayerProfileV {
        self.profiles[self.profile_idx(uuid)]
    }

    /// A stats document exists for this player and namespace.
    pub open spec fn has_player_doc(self, uuid: u128, ns: Seq<char>) -> bool {
        exists|i: int|
            0 <= i < self.player_stats.len() && self.player_stats[i].uuid == uuid
                && self.player_stats[i].namespace == ns
    }

    /// The position of the stats document of this player and namespace.
    pub open spec fn player_doc_idx(self, uuid: u128, ns: Seq<char>) -> int {
        choose|i: int|
            0 <= i < self.player_stats.len() && self.player_stats[i].uuid == uuid
                && self.player_stats[i].namespace == ns
    }

    /// The stats document of this player and namespace.
    pub open spec fn player_doc(self, uuid: u128, ns: Seq<char>) -> PlayerGameStatsV {
        self.player_stats[self.player_doc_idx(uuid, ns)]
    }

    /// A namespace-wide stats document exists for this namespace.
    pub open spec fn has_global_doc(self, ns: Seq<char>) -> bool {
        exists|i: int| 0 <= i < self.global_stats.len() && self.global_stats[i].namespace == ns
    }

    /// The position of this namespace's document.
    pub open spec fn global_doc_idx(self, ns: Seq<char>) -> int {
        choose|i: int| 0 <= i < self.global_stats.len() && self.global_stats[i].namespace == ns
    }

    /// This namespace's stats document.
    pub open spec fn global_doc(self, ns: Seq<char>) -> GlobalGameStatsV {
        self.global_stats[self.global_doc_idx(ns)]
    }
}

/// All profiles except possibly this player's are carried over unchanged.
pub open spec fn profiles_unchanged_except(pre: StatsStoreV, post: StatsStoreV, uuid: u128) -> bool {
    forall|u: u128|
        u != uuid ==> ((#[trigger] post.has_profile(u) <==> pre.has_profile(u)) && (
        pre.has_profile(u) ==> post.profile_of(u) == pre.profile_of(u)))
}

/// All player stats documents except possibly this subject's are carried
/// over unchanged.
pub open spec fn player_docs_unchanged_except(
    pre: StatsStoreV,
    post: StatsStoreV,
    uuid: u128,
    ns: Seq<char>,
) -> bool {
    forall|u: u128, n: Seq<char>|
        !(u == uuid && n == ns) ==> ((#[trigger] post.has_player_doc(u, n)
            <==> pre.has_player_doc(u, n)) && (pre.has_player_doc(u, n) ==> post.player_doc(u, n)
            == pre.player_doc(u, n)))
}

/// All namespace-wide documents except possibly this namespace's are
/// carried over unchanged.
pub open spec fn global_docs_unchanged_except(
    pre: StatsStoreV,
    post: StatsStoreV,
    ns: Seq<char>,
) -> bool {
    forall|n: Seq<char>|
        n != ns ==> ((#[trigger] post.has_global_doc(n) <==> pre.has_global_doc(n)) && (
        pre.has_global_doc(n) ==> post.global_doc(n) == pre.global_doc(n)))
}

/// Unchanged-except predicates chain across two steps.
pub proof fn lemma_player_docs_unchanged_trans(
    a: StatsStoreV,
    b: StatsStoreV,
    c: StatsStoreV,
    uuid: u128,
    ns: Seq<char>,
)
    requires
        player_docs_unchanged_except(a, b, uuid, ns),
        player_docs_unchanged_except(b, c, uuid, ns),
    ensures
        player_docs_unchanged_except(a, c, uuid, ns),
{
    assert forall|u: u128, n: Seq<char>|
        !(u == uuid && n == ns) implies (#[trigger] c.has_player_doc(u, n) <==> a.has_player_doc(
        u,
        n,
    )) by {
        assert(c.has_player_doc(u, n) <==> b.has_player_doc(u, n));
        assert(b.has_player_doc(u, n) <==> a.has_player_doc(u, n));
    }
    assert forall|u: u128, n: Seq<char>|
        !(u == uuid && n == ns) && a.has_player_doc(u, n) implies (#[trigger] c.player_doc(u, n)
        == a.player_doc(u, n)) by {
        assert(b.has_player_doc(u, n) <==> a.has_player_doc(u, n));
        assert(c.has_player_doc(u, n) <==> b.has_player_doc(u, n));
        assert(b.player_doc(u, n) == a.player_doc(u, n));
        assert(c.player_doc(u, n) == b.player_doc(u, n));
    }
}

/// Unchanged-except predicates chain across two steps.
pub proof fn lemma_global_docs_unchanged_trans(
    a: StatsStoreV,
    b: StatsStoreV,
    c: StatsStoreV,
    ns: Seq<char>,
)
    requires
        global_docs_unchanged_except(a, b, ns),
        global_docs_unchanged_except(b, c, ns),
    ensures
        global_docs_unchanged_except(a, c, ns),
{
    assert forall|n: Seq<char>| n != ns implies ((#[trigger] c.has_global_doc(n)
        <==> a.has_global_doc(n)) && (a.has_global_doc(n) ==> c.global_doc(n) == a.global_doc(n)))
        by {
        assert(c.has_global_doc(n) <==> b.has_global_doc(n));
        assert(b.has_global_doc(n) <==> a.has_global_doc(n));
        if a.has_global_doc(n) {
            assert(b.global_doc(n) == a.global_doc(n));
            assert(c.global_doc(n) == b.global_doc(n));
        }
    }
}

/// Unchanged-except predicates chain across two steps.
pub proof fn lemma_profiles_unchanged_trans(
    a: StatsStoreV,
    b: StatsStoreV,
    c: StatsStoreV,
    uuid: u128,
)
    requires
        profiles_unchanged_except(a, b, uuid),
        profiles_unchanged_except(b, c, uuid),
    ensures
        profiles_unchanged_except(a, c, uuid),
{
    assert forall|u: u128| u != uuid implies ((#[trigger] c.has_profile(u) <==> a.has_profile(u))
        && (a.has_profile(u) ==> c.profile_of(u) == a.profile_of(u))) by {
        assert(c.has_profile(u) <==> b.has_profile(u));
        assert(b.has_profile(u) <==> a.has_profile(u));
        if a.has_profile(u) {
            assert(b.profile_of(u) == a.profile_of(u));
            assert(c.profile_of(u) == b.profile_of(u));
        }
    }
}

/// The profile write path's one decision, shared with the database edge:
/// the username to write, where the supplied name must replace the stored
/// one — because it differs from the stored name, or because no name is
/// stored yet. `None` means the stored profile is left as it is.
pub fn profile_update_replacement(stored: &Option<String>, supplied: &Option<String>) -> (r:
    Option<String>)
    ensures
        match (supplied.deep_view(), stored.deep_view()) {
            (Some(n), Some(o)) => if n != o {
                r.deep_view() == Some::<Seq<char>>(n)
            } else {
                r is None
            },
            (Some(n), None) => r.deep_view() == Some::<Seq<char>>(n),
            _ => r is None,
        },
{
    match (supplied, stored) {
        (Some(n), Some(o)) => if !n.eq(o) {
            Some(copy_string(n))
        } else {
            None
        },
        (Some(n), None) => Some(copy_string(n)),
        _ => None,
    }
}

/// Pin the profile sitting at a known position: under well-formedness it
/// is the one profile of its player.
pub proof fn lemma_profile_at(s: StatsStoreV, i: int, uuid: u128)
    requires
        s.wf(),
        0 <= i < s.profiles.len(),
        s.profiles[i].uuid == uuid,
    ensures
        s.has_profile(uuid),
        s.profile_idx(uuid) == i,
        s.profile_of(uuid) == s.profiles[i],
{
    assert(s.has_profile(uuid));
    let j = s.profile_idx(uuid);
    if j != i {
        if j < i {
            assert(s.profiles[j].uuid != s.profiles[i].uuid);
        } else {
            assert(s.profiles[i].uuid != s.profiles[j].uuid);
        }
    }
}

/// Pin the player stats document sitting at a known position.
pub proof fn lemma_player_doc_at(s: StatsStoreV, i: int, uuid: u128, ns: Seq<char>)
    requires
        s.wf(),
        0 <= i < s.player_stats.len(),
        s.player_stats[i].uuid == uuid,
        s.player_stats[i].namespace == ns,
    ensures
        s.has_player_doc(uuid, ns),
        s.player_doc_idx(uuid, ns) == i,
        s.player_doc(uuid, ns) == s.player_stats[i],
{
    assert(s.has_player_doc(uuid, ns));
    let j = s.player_doc_idx(uuid, ns);
    if j != i {
        if j < i {
            assert(!(s.player_stats[j].uuid == s.player_stats[i].uuid && s.player_stats[j].namespace
                == s.player_stats[i].namespace));
        } else {
            assert(!(s.player_stats[i].uuid == s.player_stats[j].uuid && s.player_stats[i].namespace
                == s.player_stats[j].namespace));
        }
    }
}

/// Pin the namespace-wide document sitting at a known position.
pub proof fn lemma_global_doc_at(s: StatsStoreV, i: int, ns: Seq<char>)
    requires
        s.wf(),
        0 <= i < s.global_stats.len(),
        s.global_stats[i].namespace == ns,
    ensures
        s.has_global_doc(ns),
        s.global_doc_idx(ns) == i,
        s.global_doc(ns) == s.global_stats[i],
{
    assert(s.has_global_doc(ns));
    let j = s.global_doc_idx(ns);
    if j != i {
        if j < i {
            assert(s.global_stats[j].namespace != s.global_stats[i].namespace);
        } else {
            assert(s.global_stats[i].namespace != s.global_stats[j].namespace);
        }
    }
}

impl StatsStore {
    /// An empty store.
    pub fn new() -> (s: StatsStore)
        ensures
            s@.wf(),
            s@.profiles.len() == 0,
            s@.player_stats.len() == 0,
            s@.global_stats.len() == 0,
            s@.corrupt_stats.len() == 0,
    {
        StatsStore {
            profiles: Vec::new(),
            player_stats: Vec::new(),
            global_stats: Vec::new(),
            corrupt_stats: Vec::new(),
        }
    }

    /// Scan for a player's profile.
    fn find_profile_idx(&self, uuid: u128) -> (r: Option<usize>)
        ensures
            match r {
                Some(i) => i < self@.profiles.len() && self@.profiles[i as int].uuid == uuid,
                None => !self@.has_profile(uuid),
            },
    {
        let mut i: usize = 0;
        while i < self.profiles.len()
            invariant
                i <= self@.profiles.len(),
                self@.profiles.len() == self.profiles.len(),
                forall|k: int| 0 <= k < i ==> self@.profiles[k].uuid != uuid,
            decreases self.profiles.len() - i,
        {
            if self.profiles[i].uuid == uuid {
                return Some(i);
            }
            i = i + 1;
        }
        None
    }

    /// Point lookup of a player's profile; no side effect; absent if the
    /// player has never been seen.
    pub fn get_player_profile(&self, uuid: u128) -> (r: Option<PlayerProfile>)
        requires
            self@.wf(),
        ensures
            match r {
                Some(p) => self@.has_profile(uuid) && p@ == self@.profile_of(uuid),
                None => !self@.has_profile(uuid),
            },
    {
        match self.find_profile_idx(uuid) {
            Some(i) => {
                proof {
                    lemma_profile_at(self@, i as int, uuid);
                }
                Some(self.profiles[i].duplicate())
            },
            None => None,
        }
    }

    /// The only write path for profiles. If the player has no profile,
    /// one is created with the given optional username. If one exists and
    /// a username is supplied that differs from the stored one — the
    /// stored one being another name, or no name at all — the supplied
    /// name is written. Otherwise the store is left untouched. Returns
    /// the profile as stored after the call.
    pub fn update_player_profile(&mut self, uuid: u128, username: Option<String>) -> (p:
        PlayerProfile)
        requires
            old(self)@.wf(),
        ensures
            update_profile_post(old(self)@, final(self)@, uuid, username.deep_view(), p@),
    {
        let ghost pre = self@;
        match self.find_profile_idx(uuid) {
            Some(i) => {
                proof {
                    lemma_profile_at(pre, i as int, uuid);
                }
                let replacement = profile_update_replacement(&self.profiles[i].username, &username);
                match replacement {
                    Some(n) => {
                        let newp = PlayerProfile { uuid, username: Some(n) };
                        let ret = newp.duplicate();
                        self.profiles.set(i, newp);
                        proof {
                            assert(self@.profiles =~= pre.profiles.update(
                                i as int,
                                PlayerProfileV { uuid, username: username.deep_view() },
                            ));
                            assert forall|a: int, b: int|
                                0 <= a < b < self@.profiles.len() implies self@.profiles[a].uuid
                                != self@.profiles[b].uuid by {
                                assert(pre.profiles[a].uuid == self@.profiles[a].uuid);
                                assert(pre.profiles[b].uuid == self@.profiles[b].uuid);
                            }
                            assert(self@.player_stats == pre.player_stats);
                            assert(self@.global_stats == pre.global_stats);
                            assert(self@.wf());
                            lemma_profile_at(self@, i as int, uuid);
                            assert(profiles_unchanged_except(pre, self@, uuid)) by {
                                assert forall|u: u128| u != uuid implies ((#[trigger] self@.has_profile(
                                    u,
                                ) <==> pre.has_profile(u)) && (pre.has_profile(u)
                                    ==> self@.profile_of(u) == pre.profile_of(u))) by {
                                    if pre.has_profile(u) {
                                        let k = pre.profile_idx(u);
                                        lemma_profile_at(self@, k, u);
                                    }
                                    if self@.has_profile(u) {
                                        let k = self@.profile_idx(u);
                                        lemma_profile_at(pre, k, u);
                                    }
                                }
                            }
                        }
                        ret
                    },
                    None => {
                        let ret = self.profiles[i].duplicate();
                        ret
                    },
                }
            },
            None => {
                let p = PlayerProfile { uuid, username };
                let ret = p.duplicate();
                self.profiles.push(p);
                proof {
                    let ghost post = self@;
                    assert(post.profiles =~= pre.profiles.push(ret@));
                    assert forall|a: int, b: int|
                        0 <= a < b < post.profiles.len() implies post.profiles[a].uuid
                        != post.profiles[b].uuid by {
                        if b == pre.profiles.len() as int {
                            assert(post.profiles[a] == pre.profiles[a]);
                            assert(post.profiles[b].uuid == uuid);
                            if pre.profiles[a].uuid == uuid {
                                assert(pre.has_profile(uuid));
                            }
                        } else {
                            assert(post.profiles[a] == pre.profiles[a]);
                            assert(post.profiles[b] == pre.profiles[b]);
                            assert(pre.profiles[a].uuid != pre.profiles[b].uuid);
                        }
                    }
                    assert(post.player_stats == pre.player_stats);
                    assert(post.global_stats == pre.global_stats);
                    assert(post.wf());
                    lemma_profile_at(post, pre.profiles.len() as int, uuid);
                    assert(profiles_unchanged_except(pre, post, uuid)) by {
                        assert forall|u: u128| u != uuid implies ((#[trigger] post.has_profile(u)
                            <==> pre.has_profile(u)) && (pre.has_profile(u) ==> post.profile_of(u)
                            == pre.profile_of(u))) by {
                            if pre.has_profile(u) {
                                let k = pre.profile_idx(u);
                                lemma_profile_at(post, k, u);
                            }
                            if post.has_profile(u) {
                                let k = post.profile_idx(u);
                                assert(0 <= k < post.profiles.len());
                                assert(post.profiles[k].uuid == u);
                                assert(k < pre.profiles.len());
                                lemma_profile_at(pre, k, u);
                            }
                        }
                    }
                }
                ret
            },
        }
    }
}

// ---------------------------------------------------------------------------
// Decode checks and quarantine
// ---------------------------------------------------------------------------

/// Try to decode every stat in a document, reporting the first failure.
pub fn check_stats_decode(stats: &Vec<StatEntry>) -> (r: Result<(), DecodeError>)
    ensures
        match r {
            Ok(()) => stats_decode_ok(stats.deep_view()),
            Err(e) => !stats_decode_ok(stats.deep_view()) && exists|k: int|
                0 <= k < stats.deep_view().len() && crate::stats::decode_stat_spec(
                    (#[trigger] stats.deep_view()[k]).stat,
                ) == Err::<crate::stats::GameStatV, DecodeError>(e),
        },
{
    let mut i: usize = 0;
    while i < stats.len()
        invariant
            0 <= i <= stats.len(),
            forall|k: int|
                0 <= k < i ==> #[trigger] crate::stats::decode_stat_spec(
                    stats.deep_view()[k].stat,
                ) is Ok,
        decreases stats.len() - i,
    {
        match stats[i].stat.decode() {
            Ok(_) => {},
            Err(e) => {
                proof {
                    assert(crate::stats::decode_stat_spec(stats.deep_view()[i as int].stat)
                        == Err::<crate::stats::GameStatV, DecodeError>(e));
                }
                return Err(e);
            },
        }
        i = i + 1;
    }
    Ok(())
}

impl StatsStore {
    /// Scan for the stats document of one player and namespace.
    fn find_player_doc_idx(&self, uuid: u128, ns: &str) -> (r: Option<usize>)
        ensures
            match r {
                Some(i) => i < self@.player_stats.len() && self@.player_stats[i as int].uuid
                    == uuid && self@.player_stats[i as int].namespace == ns@,
                None => !self@.has_player_doc(uuid, ns@),
            },
    {
        let mut i: usize = 0;
        while i < self.player_stats.len()
            invariant
                0 <= i <= self@.player_stats.len(),
                self@.player_stats.len() == self.player_stats.len(),
                forall|k: int|
                    0 <= k < i ==> !(self@.player_stats[k].uuid == uuid
                        && self@.player_stats[k].namespace == ns@),
            decreases self.player_stats.len() - i,
        {
            if self.player_stats[i].uuid == uuid && crate::str_eq(
                self.player_stats[i].namespace.as_str(),
                ns,
            ) {
                return Some(i);
            }
            i = i + 1;
        }
        None
    }

    /// Scan for the namespace-wide stats document of one namespace.
    fn find_global_doc_idx(&self, ns: &str) -> (r: Option<usize>)
        ensures
            match r {
                Some(i) => i < self@.global_stats.len() && self@.global_stats[i as int].namespace
                    == ns@,
                None => !self@.has_global_doc(ns@),
            },
    {
        let mut i: usize = 0;
        while i < self.global_stats.len()
            invariant
                0 <= i <= self@.global_stats.len(),
                self@.global_stats.len() == self.global_stats.len(),
                forall|k: int| 0 <= k < i ==> self@.global_stats[k].namespace != ns@,
            decreases self.global_stats.len() - i,
        {
            if crate::str_eq(self.global_stats[i].namespace.as_str(), ns) {
                return Some(i);
            }
            i = i + 1;
        }
        None
    }

    /// Move a player stats document that failed to decode into the
    /// quarantine area, recording the decode error, the namespace and the
    /// player it belonged to, and delete the original.
    #[verifier::rlimit(100)]
    #[verifier::spinoff_prover]
    fn quarantine_player_doc(&mut self, i: usize, e: DecodeError)
        requires
            old(self)@.wf(),
            i < old(self)@.player_stats.len(),
        ensures
            final(self)@.wf(),
            final(self)@.profiles == old(self)@.profiles,
            final(self)@.global_stats == old(self)@.global_stats,
            final(self)@.player_stats == old(self)@.player_stats.remove(i as int),
            final(self)@.corrupt_stats == old(self)@.corrupt_stats.push(
                QuarantinedDocumentV {
                    namespace: old(self)@.player_stats[i as int].namespace,
                    global: false,
                    player: Some(old(self)@.player_stats[i as int].uuid),
                    stats: old(self)@.player_stats[i as int].stats,
                    error: e,
                },
            ),
    {
        let ghost pre = self@;
        let doc = self.player_stats.remove(i);
        let q = QuarantinedDocument {
            namespace: doc.namespace,
            global: false,
            player: Some(doc.uuid),
            stats: doc.stats,
            error: e,
        };
        self.corrupt_stats.push(q);
        proof {
            pre.player_stats.remove_ensures(i as int);
            assert(self@.player_stats =~= pre.player_stats.remove(i as int));
            assert(self@.corrupt_stats =~= pre.corrupt_stats.push(
                QuarantinedDocumentV {
                    namespace: pre.player_stats[i as int].namespace,
                    global: false,
                    player: Some(pre.player_stats[i as int].uuid),
                    stats: pre.player_stats[i as int].stats,
                    error: e,
                },
            ));
            assert forall|a: int, b: int|
                0 <= a < b < self@.player_stats.len() implies !(self@.player_stats[a].uuid
                == self@.player_stats[b].uuid && self@.player_stats[a].namespace
                == self@.player_stats[b].namespace) by {
                let a0 = if a < i as int { a } else { a + 1 };
                let b0 = if b < i as int { b } else { b + 1 };
                assert(self@.player_stats[a] == pre.player_stats[a0]);
                assert(self@.player_stats[b] == pre.player_stats[b0]);
            }
            assert forall|k: int| 0 <= k < self@.player_stats.len() implies #[trigger] stats_wf(
                self@.player_stats[k].stats,
            ) && stats_counts_positive(self@.player_stats[k].stats) by {
                let k0 = if k < i as int { k } else { k + 1 };
                assert(self@.player_stats[k] == pre.player_stats[k0]);
                assert(stats_wf(pre.player_stats[k0].stats));
                assert(stats_counts_positive(pre.player_stats[k0].stats));
            }
            assert(self@.profiles == pre.profiles);
            assert(self@.global_stats == pre.global_stats);
            assert(self@.wf());
        }
    }

    /// Move a namespace-wide stats document that failed to decode into
    /// the quarantine area and delete the original.
    #[verifier::rlimit(100)]
    #[verifier::spinoff_prover]
    fn quarantine_global_doc(&mut self, i: usize, e: DecodeError)
        requires
            old(self)@.wf(),
            i < old(self)@.global_stats.len(),
        ensures
            final(self)@.wf(),
            final(self)@.profiles == old(self)@.profiles,
            final(self)@.player_stats == old(self)@.player_stats,
            final(self)@.global_stats == old(self)@.global_stats.remove(i as int),
            final(self)@.corrupt_stats == old(self)@.corrupt_stats.push(
                QuarantinedDocumentV {
                    namespace: old(self)@.global_stats[i as int].namespace,
                    global: true,
                    player: None,
                    stats: old(self)@.global_stats[i as int].stats,
                    error: e,
                },
            ),
    {
        let ghost pre = self@;
        let doc = self.global_stats.remove(i);
        let q = QuarantinedDocument {
            namespace: doc.namespace,
            global: true,
            player: None,
            stats: doc.stats,
            error: e,
        };
        self.corrupt_stats.push(q);
        proof {
            pre.global_stats.remove_ensures(i as int);
            assert(self@.global_stats =~= pre.global_stats.remove(i as int));
            assert(self@.corrupt_stats =~= pre.corrupt_stats.push(
                QuarantinedDocumentV {
                    namespace: pre.global_stats[i as int].namespace,
                    global: true,
                    player: None,
                    stats: pre.global_stats[i as int].stats,
                    error: e,
                },
            ));
            assert forall|a: int, b: int|
                0 <= a < b < self@.global_stats.len() implies self@.global_stats[a].namespace
                != self@.global_stats[b].namespace by {
                let a0 = if a < i as int { a } else { a + 1 };
                let b0 = if b < i as int { b } else { b + 1 };
                assert(self@.global_stats[a] == pre.global_stats[a0]);
                assert(self@.global_stats[b] == pre.global_stats[b0]);
            }
            assert forall|k: int| 0 <= k < self@.global_stats.len() implies #[trigger] stats_wf(
                self@.global_stats[k].stats,
            ) && stats_counts_positive(self@.global_stats[k].stats) by {
                let k0 = if k < i as int { k } else { k + 1 };
                assert(self@.global_stats[k] == pre.global_stats[k0]);
                assert(stats_wf(pre.global_stats[k0].stats));
                assert(stats_counts_positive(pre.global_stats[k0].stats));
            }
            assert(self@.profiles == pre.profiles);
            assert(self@.player_stats == pre.player_stats);
            assert(self@.wf());
        }
    }
}

// ---------------------------------------------------------------------------
// Operation postconditions
// ---------------------------------------------------------------------------

/// What the profile write path guarantees: the player ends up with
/// exactly one profile, returned as stored; a creation appends, a rename
/// replaces in place, anything else leaves the store untouched.
pub open spec fn update_profile_post(
    pre: StatsStoreV,
    post: StatsStoreV,
    uuid: u128,
    username: Option<Seq<char>>,
    ret: PlayerProfileV,
) -> bool {
    &&& post.wf()
    &&& post.player_stats == pre.player_stats
    &&& post.global_stats == pre.global_stats
    &&& post.corrupt_stats == pre.corrupt_stats
    &&& post.has_profile(uuid)
    &&& ret == post.profile_of(uuid)
    &&& profiles_unchanged_except(pre, post, uuid)
    &&& !pre.has_profile(uuid) ==> post.profiles == pre.profiles.push(
        PlayerProfileV { uuid, username },
    )
    &&& pre.has_profile(uuid) ==> (match (username, pre.profile_of(uuid).username) {
        (Some(n), Some(o)) => if n != o {
            post.profiles == pre.profiles.update(
                pre.profile_idx(uuid),
                PlayerProfileV { uuid, username: Some(n) },
            )
        } else {
            post == pre
        },
        (Some(n), None) => post.profiles == pre.profiles.update(
            pre.profile_idx(uuid),
            PlayerProfileV { uuid, username: Some(n) },
        ),
        _ => post == pre,
    })
}

/// What guaranteeing a namespace-wide document leaves behind: a document
/// for the namespace that decodes cleanly, obtained without touching any
/// other collection or namespace; found-and-clean is a no-op, absent
/// appends an empty document, found-but-corrupt quarantines the raw
/// content and replaces the document with an empty one.
pub open spec fn ensure_global_post(pre: StatsStoreV, post: StatsStoreV, ns: Seq<char>) -> bool {
    &&& post.wf()
    &&& post.profiles == pre.profiles
    &&& post.player_stats == pre.player_stats
    &&& post.has_global_doc(ns)
    &&& stats_decode_ok(post.global_doc(ns).stats)
    &&& global_docs_unchanged_except(pre, post, ns)
    &&& (pre.has_global_doc(ns) && stats_decode_ok(pre.global_doc(ns).stats)) ==> post == pre
    &&& (pre.has_global_doc(ns) && !stats_decode_ok(pre.global_doc(ns).stats)) ==> {
        &&& post.global_stats.len() == pre.global_stats.len()
        &&& post.global_doc(ns).stats.len() == 0
        &&& post.corrupt_stats.len() == pre.corrupt_stats.len() + 1
        &&& post.corrupt_stats.subrange(0, pre.corrupt_stats.len() as int) == pre.corrupt_stats
        &&& post.corrupt_stats.last().namespace == ns
        &&& post.corrupt_stats.last().global
        &&& post.corrupt_stats.last().player is None
        &&& post.corrupt_stats.last().stats == pre.global_doc(ns).stats
        &&& exists|i: int|
            0 <= i < post.corrupt_stats.last().stats.len() && crate::stats::decode_stat_spec(
                (#[trigger] post.corrupt_stats.last().stats[i]).stat,
            ) == Err::<crate::stats::GameStatV, DecodeError>(post.corrupt_stats.last().error)
    }
    &&& !pre.has_global_doc(ns) ==> {
        &&& post.global_stats == pre.global_stats.push(
            GlobalGameStatsV { namespace: ns, stats: Seq::empty() },
        )
        &&& post.corrupt_stats == pre.corrupt_stats
    }
}

/// What guaranteeing a player's document leaves behind: the player is
/// tracked by a profile, the (player, namespace) document exists and
/// decodes cleanly, and nothing else moved; the three outcomes mirror
/// [`ensure_global_post`].
pub open spec fn ensure_player_post(
    pre: StatsStoreV,
    post: StatsStoreV,
    uuid: u128,
    ns: Seq<char>,
) -> bool {
    &&& post.wf()
    &&& post.global_stats == pre.global_stats
    &&& post.has_profile(uuid)
    &&& profiles_unchanged_except(pre, post, uuid)
    &&& !pre.has_profile(uuid) ==> post.profiles == pre.profiles.push(
        PlayerProfileV { uuid, username: None },
    )
    &&& pre.has_profile(uuid) ==> post.profiles == pre.profiles
    &&& post.has_player_doc(uuid, ns)
    &&& stats_decode_ok(post.player_doc(uuid, ns).stats)
    &&& player_docs_unchanged_except(pre, post, uuid, ns)
    &&& (pre.has_player_doc(uuid, ns) && stats_decode_ok(pre.player_doc(uuid, ns).stats)) ==> {
        &&& post.player_stats == pre.player_stats
        &&& post.corrupt_stats == pre.corrupt_stats
    }
    &&& (pre.has_player_doc(uuid, ns) && !stats_decode_ok(pre.player_doc(uuid, ns).stats)) ==> {
        &&& post.player_stats.len() == pre.player_stats.len()
        &&& post.player_doc(uuid, ns).stats.len() == 0
        &&& post.corrupt_stats.len() == pre.corrupt_stats.len() + 1
        &&& post.corrupt_stats.subrange(0, pre.corrupt_stats.len() as int) == pre.corrupt_stats
        &&& post.corrupt_stats.last().namespace == ns
        &&& !post.corrupt_stats.last().global
        &&& post.corrupt_stats.last().player == Some(uuid)
        &&& post.corrupt_stats.last().stats == pre.player_doc(uuid, ns).stats
        &&& exists|i: int|
            0 <= i < post.corrupt_stats.last().stats.len() && crate::stats::decode_stat_spec(
                (#[trigger] post.corrupt_stats.last().stats[i]).stat,
            ) == Err::<crate::stats::GameStatV, DecodeError>(post.corrupt_stats.last().error)
    }
    &&& !pre.has_player_doc(uuid, ns) ==> {
        &&& post.player_stats == pre.player_stats.push(
            PlayerGameStatsV { uuid, namespace: ns, stats: Seq::empty() },
        )
        &&& post.corrupt_stats == pre.corrupt_stats
    }
}

impl StatsStore {
    /// Guarantee that the namespace-wide stats document for this
    /// namespace exists and decodes cleanly before any field-level
    /// increment is issued against it. Found and clean: no-op. Absent: an
    /// empty document is inserted. Found but undecodable: the raw content
    /// is quarantined, the document deleted, and an empty one inserted.
    #[verifier::rlimit(100)]
    #[verifier::spinoff_prover]
    pub fn ensure_global_stats_document(&mut self, namespace: &str)
        requires
            old(self)@.wf(),
        ensures
            ensure_global_post(old(self)@, final(self)@, namespace@),
    {
        let ghost pre = self@;
        match self.find_global_doc_idx(namespace) {
            Some(i) => {
                proof {
                    lemma_global_doc_at(pre, i as int, namespace@);
                }
                match check_stats_decode(&self.global_stats[i].stats) {
                    Ok(()) => {
                        proof {
                            assert(ensure_global_post(pre, self@, namespace@));
                        }
                    },
                    Err(e) => {
                        self.quarantine_global_doc(i, e);
                        let ghost mid = self@;
                        self.global_stats.push(
                            GlobalGameStats { namespace: namespace.to_owned(), stats: Vec::new() },
                        );
                        proof {
                            pre.global_stats.remove_ensures(i as int);
                            let ghost doc = GlobalGameStatsV {
                                namespace: namespace@,
                                stats: Seq::empty(),
                            };
                            assert(self@.global_stats =~~= mid.global_stats.push(doc));
                            let ghost post = self@;
                            let ghost last = post.global_stats.len() - 1;
                            // the namespace occurred only at position i before
                            assert forall|k: int|
                                0 <= k < mid.global_stats.len() implies mid.global_stats[k].namespace
                                != namespace@ by {
                                let k0 = if k < i as int { k } else { k + 1 };
                                assert(mid.global_stats[k] == pre.global_stats[k0]);
                                if k0 != i as int {
                                    if k0 < i as int {
                                        assert(pre.global_stats[k0].namespace
                                            != pre.global_stats[i as int].namespace);
                                    } else {
                                        assert(pre.global_stats[i as int].namespace
                                            != pre.global_stats[k0].namespace);
                                    }
                                }
                            }
                            assert forall|a: int, b: int|
                                0 <= a < b < post.global_stats.len() implies post.global_stats[a].namespace
                                != post.global_stats[b].namespace by {
                                if b == last {
                                    assert(post.global_stats[a] == mid.global_stats[a]);
                                } else {
                                    assert(post.global_stats[a] == mid.global_stats[a]);
                                    assert(post.global_stats[b] == mid.global_stats[b]);
                                }
                            }
                            assert forall|k: int|
                                0 <= k < post.global_stats.len() implies #[trigger] stats_wf(
                                post.global_stats[k].stats,
                            ) && stats_counts_positive(post.global_stats[k].stats) by {
                                if k != last {
                                    assert(post.global_stats[k] == mid.global_stats[k]);
                                    assert(stats_wf(mid.global_stats[k].stats));
                                    assert(stats_counts_positive(mid.global_stats[k].stats));
                                } else {
                                    assert(post.global_stats[k].stats.len() == 0);
                                }
                            }
                            assert(post.profiles == pre.profiles);
                            assert(post.player_stats == pre.player_stats);
                            assert(post.wf());
                            lemma_global_doc_at(post, last, namespace@);
                            assert(post.corrupt_stats.subrange(0, pre.corrupt_stats.len() as int)
                                =~= pre.corrupt_stats);
                            assert(global_docs_unchanged_except(pre, post, namespace@)) by {
                                assert forall|n: Seq<char>| n != namespace@ implies ((
                                #[trigger] post.has_global_doc(n) <==> pre.has_global_doc(n)) && (
                                pre.has_global_doc(n) ==> post.global_doc(n) == pre.global_doc(n)))
                                    by {
                                    if pre.has_global_doc(n) {
                                        let k0 = pre.global_doc_idx(n);
                                        lemma_global_doc_at(pre, k0, n);
                                        let k = if k0 < i as int {
                                            k0
                                        } else {
                                            k0 - 1
                                        };
                                        assert(post.global_stats[k] == pre.global_stats[k0]);
                                        lemma_global_doc_at(post, k, n);
                                    }
                                    if post.has_global_doc(n) {
                                        let k = post.global_doc_idx(n);
                                        lemma_global_doc_at(post, k, n);
                                        assert(k != last);
                                        let k0 = if k < i as int {
                                            k
                                        } else {
                                            k + 1
                                        };
                                        assert(post.global_stats[k] == pre.global_stats[k0]);
                                        lemma_global_doc_at(pre, k0, n);
                                    }
                                }
                            }
                            assert(ensure_global_post(pre, post, namespace@));
                        }
                    },
                }
            },
            None => {
                self.global_stats.push(
                    GlobalGameStats { namespace: namespace.to_owned(), stats: Vec::new() },
                );
                proof {
                    let ghost doc = GlobalGameStatsV { namespace: namespace@, stats: Seq::empty() };
                    let ghost post = self@;
                    assert(post.global_stats =~~= pre.global_stats.push(doc));
                    let ghost last = post.global_stats.len() - 1;
                    assert forall|a: int, b: int|
                        0 <= a < b < post.global_stats.len() implies post.global_stats[a].namespace
                        != post.global_stats[b].namespace by {
                        if b == last {
                            assert(post.global_stats[a] == pre.global_stats[a]);
                            if pre.global_stats[a].namespace == namespace@ {
                                assert(pre.has_global_doc(namespace@));
                            }
                        } else {
                            assert(post.global_stats[a] == pre.global_stats[a]);
                            assert(post.global_stats[b] == pre.global_stats[b]);
                        }
                    }
                    assert forall|k: int|
                        0 <= k < post.global_stats.len() implies #[trigger] stats_wf(
                        post.global_stats[k].stats,
                    ) && stats_counts_positive(post.global_stats[k].stats) by {
                        if k != last {
                            assert(post.global_stats[k] == pre.global_stats[k]);
                            assert(stats_wf(pre.global_stats[k].stats));
                            assert(stats_counts_positive(pre.global_stats[k].stats));
                        } else {
                            assert(post.global_stats[k].stats.len() == 0);
                        }
                    }
                    assert(post.player_stats == pre.player_stats);
                    assert(post.profiles == pre.profiles);
                    assert(forall|i: int, j: int|
                        0 <= i < j < post.profiles.len() ==> post.profiles[i].uuid
                            != post.profiles[j].uuid);
                    assert(forall|i: int, j: int|
                        0 <= i < j < post.player_stats.len() ==> !(post.player_stats[i].uuid
                            == post.player_stats[j].uuid && post.player_stats[i].namespace
                            == post.player_stats[j].namespace));
                    assert(forall|i: int|
                        0 <= i < post.player_stats.len() ==> #[trigger] stats_wf(
                            post.player_stats[i].stats,
                        ) && stats_counts_positive(post.player_stats[i].stats));
                    assert(post.wf());
                    lemma_global_doc_at(post, last, namespace@);
                    assert(global_docs_unchanged_except(pre, post, namespace@)) by {
                        assert forall|n: Seq<char>| n != namespace@ implies ((
                        #[trigger] post.has_global_doc(n) <==> pre.has_global_doc(n)) && (
                        pre.has_global_doc(n) ==> post.global_doc(n) == pre.global_doc(n))) by {
                            if pre.has_global_doc(n) {
                                let k0 = pre.global_doc_idx(n);
                                lemma_global_doc_at(pre, k0, n);
                                assert(post.global_stats[k0] == pre.global_stats[k0]);
                                lemma_global_doc_at(post, k0, n);
                            }
                            if post.has_global_doc(n) {
                                let k = post.global_doc_idx(n);
                                lemma_global_doc_at(post, k, n);
                                assert(k != last);
                                assert(post.global_stats[k] == pre.global_stats[k]);
                                lemma_global_doc_at(pre, k, n);
                            }
                        }
                    }
                    assert(ensure_global_post(pre, post, namespace@));
                }
            },
        }
    }
}

impl StatsStore {
    /// Guarantee that the stats document for this player and namespace
    /// exists and decodes cleanly before any field-level increment is
    /// issued against it, first making sure the player is tracked by a
    /// profile. Found and clean: no-op. Absent: an empty document is
    /// inserted. Found but undecodable: the raw content is quarantined,
    /// the document deleted, and an empty one inserted.
    #[verifier::rlimit(100)]
    #[verifier::spinoff_prover]
    pub fn ensure_player_stats_document(&mut self, uuid: u128, namespace: &str)
        requires
            old(self)@.wf(),
        ensures
            ensure_player_post(old(self)@, final(self)@, uuid, namespace@),
    {
        let ghost pre = self@;
        let _tracked_profile = self.update_player_profile(uuid, None);
        let ghost mid0 = self@;
        proof {
            assert(mid0.player_stats == pre.player_stats);
            assert(mid0.global_stats == pre.global_stats);
            assert(mid0.corrupt_stats == pre.corrupt_stats);
        }
        match self.find_player_doc_idx(uuid, namespace) {
            Some(i) => {
                proof {
                    lemma_player_doc_at(mid0, i as int, uuid, namespace@);
                    lemma_player_doc_at(pre, i as int, uuid, namespace@);
                }
                match check_stats_decode(&self.player_stats[i].stats) {
                    Ok(()) => {
                        proof {
                            assert(self@ == mid0);
                            assert(player_docs_unchanged_except(pre, self@, uuid, namespace@));
                            assert(ensure_player_post(pre, self@, uuid, namespace@));
                        }
                    },
                    Err(e) => {
                        self.quarantine_player_doc(i, e);
                        let ghost mid = self@;
                        self.player_stats.push(
                            PlayerGameStats {
                                uuid,
                                namespace: namespace.to_owned(),
                                stats: Vec::new(),
                            },
                        );
                        proof {
                            pre.player_stats.remove_ensures(i as int);
                            let ghost doc = PlayerGameStatsV {
                                uuid,
                                namespace: namespace@,
                                stats: Seq::empty(),
                            };
                            assert(self@.player_stats =~~= mid.player_stats.push(doc));
                            let ghost post = self@;
                            let ghost last = post.player_stats.len() - 1;
                            assert(post.profiles == mid0.profiles);
                            assert(post.global_stats == pre.global_stats);
                            // the subject's document sat only at position i before
                            assert forall|k: int|
                                0 <= k < mid.player_stats.len() implies !(mid.player_stats[k].uuid
                                == uuid && mid.player_stats[k].namespace == namespace@) by {
                                let k0 = if k < i as int { k } else { k + 1 };
                                assert(mid.player_stats[k] == pre.player_stats[k0]);
                                if k0 != i as int {
                                    if k0 < i as int {
                                        assert(!(pre.player_stats[k0].uuid == pre.player_stats[i as int].uuid
                                            && pre.player_stats[k0].namespace
                                            == pre.player_stats[i as int].namespace));
                                    } else {
                                        assert(!(pre.player_stats[i as int].uuid
                                            == pre.player_stats[k0].uuid
                                            && pre.player_stats[i as int].namespace
                                            == pre.player_stats[k0].namespace));
                                    }
                                }
                            }
                            assert forall|a: int, b: int|
                                0 <= a < b < post.player_stats.len() implies !(post.player_stats[a].uuid
                                == post.player_stats[b].uuid && post.player_stats[a].namespace
                                == post.player_stats[b].namespace) by {
                                if b == last {
                                    assert(post.player_stats[a] == mid.player_stats[a]);
                                } else {
                                    assert(post.player_stats[a] == mid.player_stats[a]);
                                    assert(post.player_stats[b] == mid.player_stats[b]);
                                }
                            }
                            assert forall|k: int|
                                0 <= k < post.player_stats.len() implies #[trigger] stats_wf(
                                post.player_stats[k].stats,
                            ) && stats_counts_positive(post.player_stats[k].stats) by {
                                if k != last {
                                    assert(post.player_stats[k] == mid.player_stats[k]);
                                    assert(stats_wf(mid.player_stats[k].stats));
                                    assert(stats_counts_positive(mid.player_stats[k].stats));
                                } else {
                                    assert(post.player_stats[k].stats.len() == 0);
                                }
                            }
                            assert(post.wf());
                            lemma_player_doc_at(post, last, uuid, namespace@);
                            assert(post.corrupt_stats.subrange(0, pre.corrupt_stats.len() as int)
                                =~= pre.corrupt_stats);
                            assert(player_docs_unchanged_except(pre, post, uuid, namespace@)) by {
                                assert forall|u: u128, n: Seq<char>|
                                    !(u == uuid && n == namespace@) implies ((
                                #[trigger] post.has_player_doc(u, n) <==> pre.has_player_doc(
                                    u,
                                    n,
                                )) && (pre.has_player_doc(u, n) ==> post.player_doc(u, n)
                                    == pre.player_doc(u, n))) by {
                                    if pre.has_player_doc(u, n) {
                                        let k0 = pre.player_doc_idx(u, n);
                                        lemma_player_doc_at(pre, k0, u, n);
                                        let k = if k0 < i as int {
                                            k0
                                        } else {
                                            k0 - 1
                                        };
                                        assert(post.player_stats[k] == pre.player_stats[k0]);
                                        lemma_player_doc_at(post, k, u, n);
                                    }
                                    if post.has_player_doc(u, n) {
                                        let k = post.player_doc_idx(u, n);
                                        lemma_player_doc_at(post, k, u, n);
                                        assert(k != last);
                                        let k0 = if k < i as int {
                                            k
                                        } else {
                                            k + 1
                                        };
                                        assert(post.player_stats[k] == pre.player_stats[k0]);
                                        lemma_player_doc_at(pre, k0, u, n);
                                    }
                                }
                            }
                            assert(profiles_unchanged_except(pre, post, uuid)) by {
                                assert forall|u: u128| u != uuid implies ((
                                #[trigger] post.has_profile(u) <==> pre.has_profile(u)) && (
                                pre.has_profile(u) ==> post.profile_of(u) == pre.profile_of(u)))
                                    by {
                                    assert(post.has_profile(u) <==> mid0.has_profile(u));
                                    if mid0.has_profile(u) {
                                        let k = mid0.profile_idx(u);
                                        lemma_profile_at(mid0, k, u);
                                        assert(post.profiles[k] == mid0.profiles[k]);
                                        lemma_profile_at(post, k, u);
                                    }
                                }
                            }
                            assert(post.has_profile(uuid)) by {
                                let k = mid0.profile_idx(uuid);
                                lemma_profile_at(mid0, k, uuid);
                                assert(post.profiles[k].uuid == uuid);
                            }
                            assert(ensure_player_post(pre, post, uuid, namespace@));
                        }
                    },
                }
            },
            None => {
                self.player_stats.push(
                    PlayerGameStats { uuid, namespace: namespace.to_owned(), stats: Vec::new() },
                );
                proof {
                    let ghost doc = PlayerGameStatsV {
                        uuid,
                        namespace: namespace@,
                        stats: Seq::empty(),
                    };
                    let ghost post = self@;
                    assert(post.player_stats =~~= mid0.player_stats.push(doc));
                    let ghost last = post.player_stats.len() - 1;
                    assert(post.profiles == mid0.profiles);
                    assert(post.global_stats == pre.global_stats);
                    assert(post.corrupt_stats == pre.corrupt_stats);
                    assert forall|a: int, b: int|
                        0 <= a < b < post.player_stats.len() implies !(post.player_stats[a].uuid
                        == post.player_stats[b].uuid && post.player_stats[a].namespace
                        == post.player_stats[b].namespace) by {
                        if b == last {
                            assert(post.player_stats[a] == pre.player_stats[a]);
                            if post.player_stats[a].uuid == uuid && post.player_stats[a].namespace
                                == namespace@ {
                                assert(mid0.has_player_doc(uuid, namespace@));
                            }
                        } else {
                            assert(post.player_stats[a] == pre.player_stats[a]);
                            assert(post.player_stats[b] == pre.player_stats[b]);
                        }
                    }
                    assert forall|k: int|
                        0 <= k < post.player_stats.len() implies #[trigger] stats_wf(
                        post.player_stats[k].stats,
                    ) && stats_counts_positive(post.player_stats[k].stats) by {
                        if k != last {
                            assert(post.player_stats[k] == pre.player_stats[k]);
                            assert(stats_wf(pre.player_stats[k].stats));
                            assert(stats_counts_positive(pre.player_stats[k].stats));
                        } else {
                            assert(post.player_stats[k].stats.len() == 0);
                        }
                    }
                    assert(forall|i: int, j: int|
                        0 <= i < j < post.profiles.len() ==> post.profiles[i].uuid
                            != post.profiles[j].uuid);
                    assert(forall|i: int, j: int|
                        0 <= i < j < post.global_stats.len() ==> post.global_stats[i].namespace
                            != post.global_stats[j].namespace);
                    assert(forall|i: int|
                        0 <= i < post.global_stats.len() ==> #[trigger] stats_wf(
                            post.global_stats[i].stats,
                        ) && stats_counts_positive(post.global_stats[i].stats));
                    assert(post.wf());
                    lemma_player_doc_at(post, last, uuid, namespace@);
                    assert(player_docs_unchanged_except(pre, post, uuid, namespace@)) by {
                        assert forall|u: u128, n: Seq<char>|
                            !(u == uuid && n == namespace@) implies ((
                        #[trigger] post.has_player_doc(u, n) <==> pre.has_player_doc(u, n)) && (
                        pre.has_player_doc(u, n) ==> post.player_doc(u, n) == pre.player_doc(
                            u,
                            n,
                        ))) by {
                            if pre.has_player_doc(u, n) {
                                let k0 = pre.player_doc_idx(u, n);
                                lemma_player_doc_at(pre, k0, u, n);
                                assert(post.player_stats[k0] == pre.player_stats[k0]);
                                lemma_player_doc_at(post, k0, u, n);
                            }
                            if post.has_player_doc(u, n) {
                                let k = post.player_doc_idx(u, n);
                                lemma_player_doc_at(post, k, u, n);
                                assert(k != last);
                                assert(post.player_stats[k] == pre.player_stats[k]);
                                lemma_player_doc_at(pre, k, u, n);
                            }
                        }
                    }
                    assert(profiles_unchanged_except(pre, post, uuid)) by {
                        assert forall|u: u128| u != uuid implies ((#[trigger] post.has_profile(u)
                            <==> pre.has_profile(u)) && (pre.has_profile(u) ==> post.profile_of(u)
                            == pre.profile_of(u))) by {
                            assert(post.has_profile(u) <==> mid0.has_profile(u));
                            if mid0.has_profile(u) {
                                let k = mid0.profile_idx(u);
                                lemma_profile_at(mid0, k, u);
                                assert(post.profiles[k] == mid0.profiles[k]);
                                lemma_profile_at(post, k, u);
                            }
                        }
                    }
                    assert(post.has_profile(uuid)) by {
                        let k = mid0.profile_idx(uuid);
                        lemma_profile_at(mid0, k, uuid);
                        assert(post.profiles[k].uuid == uuid);
                    }
                    assert(ensure_player_post(pre, post, uuid, namespace@));
                }
            },
        }
    }
}

// ---------------------------------------------------------------------------
// Queries
// ---------------------------------------------------------------------------

/// The response list decodes the document's stats one for one, in order.
pub open spec fn decoded_doc(stats: Seq<StatEntryV>, out: Seq<NamedGameStatV>) -> bool {
    &&& out.len() == stats.len()
    &&& forall|k: int|
        0 <= k < stats.len() ==> (#[trigger] out[k].name) == stats[k].name
            && crate::stats::decode_stat_spec(stats[k].stat) == Ok::<
            crate::stats::GameStatV,
            DecodeError,
        >(out[k].value)
}

/// A document is selected by a stats query for this player: it is the
/// player's, and it lies in the requested namespace, if one was given.
pub open spec fn doc_matches(d: PlayerGameStatsV, uuid: u128, ns: Option<Seq<char>>) -> bool {
    d.uuid == uuid && (match ns {
        Some(n) => d.namespace == n,
        None => true,
    })
}

/// One response entry is the decoding of a document selected among the
/// first `upto` stored documents.
pub open spec fn query_entry_from(
    stats: Seq<PlayerGameStatsV>,
    uuid: u128,
    ns: Option<Seq<char>>,
    upto: int,
    e: NamespaceStatsV,
) -> bool {
    exists|i0: int|
        0 <= i0 < upto && doc_matches(#[trigger] stats[i0], uuid, ns) && e.namespace
            == stats[i0].namespace && decoded_doc(stats[i0].stats, e.stats)
}

/// What a stats query returns for the first `upto` stored documents:
/// every entry decodes a selected document, every selected document is
/// represented, and no namespace is repeated.
pub open spec fn query_post(
    stats: Seq<PlayerGameStatsV>,
    uuid: u128,
    ns: Option<Seq<char>>,
    upto: int,
    resp: Seq<NamespaceStatsV>,
) -> bool {
    &&& forall|k: int|
        0 <= k < resp.len() ==> query_entry_from(stats, uuid, ns, upto, #[trigger] resp[k])
    &&& forall|i0: int|
        0 <= i0 < upto && doc_matches(#[trigger] stats[i0], uuid, ns) ==> exists|k: int|
            0 <= k < resp.len() && (#[trigger] resp[k]).namespace == stats[i0].namespace
    &&& forall|k1: int, k2: int|
        0 <= k1 < k2 < resp.len() ==> (#[trigger] resp[k1]).namespace != (
        #[trigger] resp[k2]).namespace
}

/// Folding one selected, cleanly decoding document into the response
/// keeps the query shape.
proof fn lemma_query_step(
    stats: Seq<PlayerGameStatsV>,
    uuid: u128,
    ns: Option<Seq<char>>,
    i: int,
    resp0: Seq<NamespaceStatsV>,
    e: NamespaceStatsV,
)
    requires
        forall|a: int, b: int|
            0 <= a < b < stats.len() ==> !(stats[a].uuid == stats[b].uuid && stats[a].namespace
                == stats[b].namespace),
        0 <= i < stats.len(),
        query_post(stats, uuid, ns, i, resp0),
        doc_matches(stats[i], uuid, ns),
        e.namespace == stats[i].namespace,
        decoded_doc(stats[i].stats, e.stats),
    ensures
        query_post(stats, uuid, ns, i + 1, resp0.push(e)),
{
    let resp = resp0.push(e);
    assert forall|k: int| 0 <= k < resp.len() implies query_entry_from(
        stats,
        uuid,
        ns,
        i + 1,
        #[trigger] resp[k],
    ) by {
        if k < resp0.len() {
            assert(resp[k] == resp0[k]);
            assert(query_entry_from(stats, uuid, ns, i, resp0[k]));
            let i0 = choose|i0: int|
                0 <= i0 < i && doc_matches(#[trigger] stats[i0], uuid, ns) && resp0[k].namespace
                    == stats[i0].namespace && decoded_doc(stats[i0].stats, resp0[k].stats);
            assert(doc_matches(stats[i0], uuid, ns));
        } else {
            assert(resp[k] == e);
            assert(doc_matches(stats[i], uuid, ns));
        }
    }
    assert forall|i0: int|
        0 <= i0 < i + 1 && doc_matches(#[trigger] stats[i0], uuid, ns) implies exists|k: int|
        0 <= k < resp.len() && (#[trigger] resp[k]).namespace == stats[i0].namespace by {
        if i0 < i {
            let k = choose|k: int|
                0 <= k < resp0.len() && (#[trigger] resp0[k]).namespace == stats[i0].namespace;
            assert(resp[k] == resp0[k]);
            assert(resp[k].namespace == stats[i0].namespace);
        } else {
            assert(resp[resp0.len() as int].namespace == stats[i0].namespace);
        }
    }
    assert forall|k1: int, k2: int| 0 <= k1 < k2 < resp.len() implies (
    #[trigger] resp[k1]).namespace != (#[trigger] resp[k2]).namespace by {
        if k2 == resp0.len() as int {
            assert(resp[k1] == resp0[k1]);
            assert(query_entry_from(stats, uuid, ns, i, resp0[k1]));
            let i0 = choose|i0: int|
                0 <= i0 < i && doc_matches(#[trigger] stats[i0], uuid, ns) && resp0[k1].namespace
                    == stats[i0].namespace && decoded_doc(stats[i0].stats, resp0[k1].stats);
            assert(!(stats[i0].uuid == stats[i].uuid && stats[i0].namespace == stats[i].namespace));
        } else {
            assert(resp[k1] == resp0[k1]);
            assert(resp[k2] == resp0[k2]);
        }
    }
}

/// Skipping a document the query does not select keeps the query shape.
proof fn lemma_query_skip(
    stats: Seq<PlayerGameStatsV>,
    uuid: u128,
    ns: Option<Seq<char>>,
    i: int,
    resp0: Seq<NamespaceStatsV>,
)
    requires
        0 <= i < stats.len(),
        query_post(stats, uuid, ns, i, resp0),
        !doc_matches(stats[i], uuid, ns),
    ensures
        query_post(stats, uuid, ns, i + 1, resp0),
{
    assert forall|k: int| 0 <= k < resp0.len() implies query_entry_from(
        stats,
        uuid,
        ns,
        i + 1,
        #[trigger] resp0[k],
    ) by {
        assert(query_entry_from(stats, uuid, ns, i, resp0[k]));
        let i0 = choose|i0: int|
            0 <= i0 < i && doc_matches(#[trigger] stats[i0], uuid, ns) && resp0[k].namespace
                == stats[i0].namespace && decoded_doc(stats[i0].stats, resp0[k].stats);
        assert(doc_matches(stats[i0], uuid, ns));
    }
}

/// Decode every stat of one document into response entries.
fn decode_doc_stats(stats: &Vec<StatEntry>) -> (r: Result<Vec<NamedGameStat>, DecodeError>)
    ensures
        match r {
            Ok(list) => decoded_doc(stats.deep_view(), list.deep_view()),
            Err(e) => !stats_decode_ok(stats.deep_view()),
        },
{
    let mut list: Vec<NamedGameStat> = Vec::new();
    let mut i: usize = 0;
    while i < stats.len()
        invariant
            0 <= i <= stats.len(),
            list.deep_view().len() == i,
            forall|k: int|
                0 <= k < i ==> (#[trigger] list.deep_view()[k].name) == stats.deep_view()[k].name
                    && crate::stats::decode_stat_spec(stats.deep_view()[k].stat) == Ok::<
                    crate::stats::GameStatV,
                    DecodeError,
                >(list.deep_view()[k].value),
        decreases stats.len() - i,
    {
        match stats[i].stat.decode() {
            Ok(g) => {
                let ghost list0 = list.deep_view();
                let entry = NamedGameStat { name: copy_string(&stats[i].name), value: g };
                proof {
                    assert(entry@.name == stats.deep_view()[i as int].name);
                }
                list.push(entry);
                proof {
                    assert(list.deep_view() =~= list0.push(entry@));
                }
            },
            Err(e) => {
                proof {
                    assert(crate::stats::decode_stat_spec(stats.deep_view()[i as int].stat)
                        is Err);
                }
                return Err(e);
            },
        }
        i = i + 1;
    }
    Ok(list)
}

impl StatsStore {
    /// Decoded statistics of one player: absent players yield an explicit
    /// not-found. With a namespace given, a known player always yields
    /// exactly one entry for that namespace — the decoded stats of their
    /// document, or an empty mapping where no document exists. Without a
    /// namespace, every namespace the player has a document in appears.
    /// A document that fails to decode fails the whole query.
    #[verifier::rlimit(60)]
    pub fn get_player_stats(&self, uuid: u128, namespace: &Option<String>) -> (r: Result<
        Option<PlayerStatsResponse>,
        DecodeError,
    >)
        requires
            self@.wf(),
        ensures
            match r {
                Ok(opt) => match opt {
                    None => !self@.has_profile(uuid),
                    Some(resp) => self@.has_profile(uuid) && (match namespace.deep_view() {
                        Some(ns) => {
                            &&& resp.deep_view().len() == 1
                            &&& resp.deep_view()[0].namespace == ns
                            &&& self@.has_player_doc(uuid, ns) ==> decoded_doc(
                                self@.player_doc(uuid, ns).stats,
                                resp.deep_view()[0].stats,
                            )
                            &&& !self@.has_player_doc(uuid, ns) ==> resp.deep_view()[0].stats.len()
                                == 0
                        },
                        None => query_post(
                            self@.player_stats,
                            uuid,
                            None,
                            self@.player_stats.len() as int,
                            resp.deep_view(),
                        ),
                    }),
                },
                Err(e) => self@.has_profile(uuid) && exists|i: int|
                    0 <= i < self@.player_stats.len() && doc_matches(
                        #[trigger] self@.player_stats[i],
                        uuid,
                        namespace.deep_view(),
                    ) && !stats_decode_ok(self@.player_stats[i].stats),
            },
    {
        let pidx = match self.find_profile_idx(uuid) {
            None => {
                return Ok(None);
            },
            Some(pidx) => pidx,
        };
        proof {
            lemma_profile_at(self@, pidx as int, uuid);
        }
        match namespace {
            Some(ns) => {
                let entry = match self.find_player_doc_idx(uuid, ns.as_str()) {
                    Some(i) => {
                        proof {
                            lemma_player_doc_at(self@, i as int, uuid, ns@);
                        }
                        match decode_doc_stats(&self.player_stats[i].stats) {
                            Ok(list) => NamespaceStats { namespace: copy_string(ns), stats: list },
                            Err(e) => {
                                proof {
                                    assert(doc_matches(
                                        self@.player_stats[i as int],
                                        uuid,
                                        namespace.deep_view(),
                                    ));
                                    assert(!stats_decode_ok(self@.player_stats[i as int].stats));
                                }
                                return Err(e);
                            },
                        }
                    },
                    None => NamespaceStats { namespace: copy_string(ns), stats: Vec::new() },
                };
                let ghost entryv = entry@;
                let mut resp: Vec<NamespaceStats> = Vec::new();
                resp.push(entry);
                proof {
                    assert(resp.deep_view() =~~= seq![entryv]);
                }
                Ok(Some(resp))
            },
            None => {
                proof {
                    assert(namespace.deep_view() is None);
                }
                let mut resp: Vec<NamespaceStats> = Vec::new();
                let mut i: usize = 0;
                while i < self.player_stats.len()
                    invariant
                        namespace.deep_view() is None,
                        self@.wf(),
                        self@.has_profile(uuid),
                        0 <= i <= self@.player_stats.len(),
                        self@.player_stats.len() == self.player_stats.len(),
                        query_post(
                            self@.player_stats,
                            uuid,
                            None,
                            i as int,
                            resp.deep_view(),
                        ),
                    decreases self.player_stats.len() - i,
                {
                    let d = &self.player_stats[i];
                    let selected = d.uuid == uuid;
                    proof {
                        assert(selected == doc_matches(
                            self@.player_stats[i as int],
                            uuid,
                            None,
                        ));
                    }
                    if selected {
                        match decode_doc_stats(&d.stats) {
                            Ok(list) => {
                                let ghost resp0 = resp.deep_view();
                                let entry = NamespaceStats {
                                    namespace: copy_string(&d.namespace),
                                    stats: list,
                                };
                                proof {
                                    lemma_query_step(
                                        self@.player_stats,
                                        uuid,
                                        None,
                                        i as int,
                                        resp0,
                                        entry@,
                                    );
                                }
                                resp.push(entry);
                                proof {
                                    assert(resp.deep_view() =~= resp0.push(entry@));
                                }
                            },
                            Err(e) => {
                                proof {
                                    assert(doc_matches(
                                        self@.player_stats[i as int],
                                        uuid,
                                        None,
                                    ));
                                    assert(!stats_decode_ok(self@.player_stats[i as int].stats));
                                }
                                return Err(e);
                            },
                        }
                    } else {
                        proof {
                            lemma_query_skip(
                                self@.player_stats,
                                uuid,
                                None,
                                i as int,
                                resp.deep_view(),
                            );
                        }
                    }
                    i = i + 1;
                }
                Ok(Some(resp))
            },
        }
    }
}

// ---------------------------------------------------------------------------
// Applying updates to a document
// ---------------------------------------------------------------------------

/// The stat slot a named stat occupies in a document, if any.
pub open spec fn opt_stat(s: Seq<StatEntryV>, name: Seq<char>) -> Option<RawStatV> {
    if has_stat(s, name) {
        Some(stat_named(s, name))
    } else {
        None
    }
}

/// What one named update makes of a document's stats: the slot under the
/// update's name goes through the increment rules; `None` where the store
/// refuses the mutation.
pub open spec fn apply_one_spec(s: Seq<StatEntryV>, u: StatUpdateV) -> Option<Seq<StatEntryV>> {
    match apply_upload_spec(opt_stat(s, u.name), u.stat) {
        Some(v) => Some(
            if has_stat(s, u.name) {
                s.update(stat_idx(s, u.name), StatEntryV { name: u.name, stat: v })
            } else {
                s.push(StatEntryV { name: u.name, stat: v })
            },
        ),
        None => None,
    }
}

/// Folding the updates from position `t` on into a document's stats,
/// stopping at the first refused mutation.
pub open spec fn apply_updates_from(
    s: Seq<StatEntryV>,
    upd: Seq<StatUpdateV>,
    t: int,
) -> Option<Seq<StatEntryV>>
    decreases upd.len() - t,
{
    if t < 0 || t >= upd.len() {
        Some(s)
    } else {
        match apply_one_spec(s, upd[t]) {
            Some(s2) => apply_updates_from(s2, upd, t + 1),
            None => None,
        }
    }
}

/// Folding a whole group of updates into a document's stats.
pub open spec fn apply_updates_spec(s: Seq<StatEntryV>, upd: Seq<StatUpdateV>) -> Option<
    Seq<StatEntryV>,
> {
    apply_updates_from(s, upd, 0)
}

/// Folding updates from position `t` on into a document's stats, keeping
/// what applied and stopping before the first refused mutation.
pub open spec fn apply_prefix_spec(
    s: Seq<StatEntryV>,
    upd: Seq<StatUpdateV>,
    t: int,
) -> Seq<StatEntryV>
    decreases upd.len() - t,
{
    if t < 0 || t >= upd.len() {
        s
    } else {
        match apply_one_spec(s, upd[t]) {
            Some(s2) => apply_prefix_spec(s2, upd, t + 1),
            None => s,
        }
    }
}

/// Where every update applies, the kept prefix is the whole fold.
pub proof fn lemma_prefix_of_success(s: Seq<StatEntryV>, upd: Seq<StatUpdateV>, t: int)
    requires
        apply_updates_from(s, upd, t) is Some,
    ensures
        apply_prefix_spec(s, upd, t) == apply_updates_from(s, upd, t)->Some_0,
    decreases upd.len() - t,
{
    if t < 0 || t >= upd.len() {
    } else {
        let s2 = apply_one_spec(s, upd[t])->Some_0;
        lemma_prefix_of_success(s2, upd, t + 1);
    }
}

/// Pin the stat sitting at a known position: under unique names it is the
/// one stat of its name.
pub proof fn lemma_stat_at(s: Seq<StatEntryV>, j: int, name: Seq<char>)
    requires
        stats_wf(s),
        0 <= j < s.len(),
        s[j].name == name,
    ensures
        has_stat(s, name),
        stat_idx(s, name) == j,
        stat_named(s, name) == s[j].stat,
{
    assert(has_stat(s, name));
    let k = stat_idx(s, name);
    if k != j {
        if k < j {
            assert(s[k].name != s[j].name);
        } else {
            assert(s[j].name != s[k].name);
        }
    }
}

/// One applied update keeps names unique and counts positive.
pub proof fn lemma_apply_one_wf(s: Seq<StatEntryV>, u: StatUpdateV)
    requires
        stats_wf(s),
        stats_counts_positive(s),
        apply_one_spec(s, u) is Some,
    ensures
        stats_wf(apply_one_spec(s, u)->Some_0),
        stats_counts_positive(apply_one_spec(s, u)->Some_0),
{
    let r = apply_one_spec(s, u)->Some_0;
    let v = apply_upload_spec(opt_stat(s, u.name), u.stat)->Some_0;
    if has_stat(s, u.name) {
        let j = stat_idx(s, u.name);
        assert(stats_counts_positive(s));
        assert(crate::stats::count_positive(s[j].stat));
        crate::stats::lemma_apply_keeps_count_positive(
            Some(s[j].stat),
            u.stat.kind_spec(),
            u.stat.amount_spec(),
        );
        assert forall|a: int, b: int| 0 <= a < b < r.len() implies r[a].name != r[b].name by {
            assert(r[a].name == s[a].name);
            assert(r[b].name == s[b].name);
        }
        assert forall|k: int| 0 <= k < r.len() implies #[trigger] crate::stats::count_positive(
            r[k].stat,
        ) by {
            if k != j {
                assert(r[k] == s[k]);
                assert(crate::stats::count_positive(s[k].stat));
            }
        }
    } else {
        crate::stats::lemma_apply_keeps_count_positive(
            None,
            u.stat.kind_spec(),
            u.stat.amount_spec(),
        );
        assert forall|a: int, b: int| 0 <= a < b < r.len() implies r[a].name != r[b].name by {
            if b == s.len() as int {
                assert(r[a] == s[a]);
                if s[a].name == u.name {
                    assert(has_stat(s, u.name));
                }
            } else {
                assert(r[a] == s[a]);
                assert(r[b] == s[b]);
            }
        }
        assert forall|k: int| 0 <= k < r.len() implies #[trigger] crate::stats::count_positive(
            r[k].stat,
        ) by {
            if k != s.len() as int {
                assert(r[k] == s[k]);
                assert(crate::stats::count_positive(s[k].stat));
            }
        }
    }
}

/// Scan a document for a named stat.
fn find_stat_idx(stats: &Vec<StatEntry>, name: &str) -> (r: Option<usize>)
    ensures
        match r {
            Some(j) => j < stats.deep_view().len() && stats.deep_view()[j as int].name == name@,
            None => !has_stat(stats.deep_view(), name@),
        },
{
    let mut j: usize = 0;
    while j < stats.len()
        invariant
            0 <= j <= stats.len(),
            stats.deep_view().len() == stats.len(),
            forall|k: int| 0 <= k < j ==> (#[trigger] stats.deep_view()[k].name) != name@,
        decreases stats.len() - j,
    {
        if crate::str_eq(stats[j].name.as_str(), name) {
            return Some(j);
        }
        j = j + 1;
    }
    None
}

/// Apply one named update to a document's stats, as the store's atomic
/// field mutation would: the named slot is created or incremented, or the
/// whole mutation is refused and nothing changes.
fn apply_update_to_stats(stats: &mut Vec<StatEntry>, upd: &StatUpdate) -> (ok: bool)
    requires
        stats_wf(old(stats).deep_view()),
        stats_counts_positive(old(stats).deep_view()),
    ensures
        stats_wf(final(stats).deep_view()),
        stats_counts_positive(final(stats).deep_view()),
        ok ==> apply_one_spec(old(stats).deep_view(), upd@) == Some(final(stats).deep_view()),
        !ok ==> apply_one_spec(old(stats).deep_view(), upd@) is None && final(stats).deep_view()
            == old(stats).deep_view(),
{
    let ghost pre = stats.deep_view();
    match find_stat_idx(stats, upd.name.as_str()) {
        Some(j) => {
            proof {
                lemma_stat_at(pre, j as int, upd.name@);
            }
            match crate::stats::apply_stat(
                Some(&stats[j].stat),
                upd.stat.kind(),
                upd.stat.amount(),
            ) {
                Some(v) => {
                    let ghost vv = v@;
                    let name = copy_string(&stats[j].name);
                    stats.set(j, StatEntry { name, stat: v });
                    proof {
                        assert(stats.deep_view() =~~= pre.update(
                            j as int,
                            StatEntryV { name: upd.name@, stat: vv },
                        ));
                        lemma_apply_one_wf(pre, upd@);
                        assert(apply_one_spec(pre, upd@) == Some(stats.deep_view()));
                    }
                    true
                },
                None => false,
            }
        },
        None => {
            match crate::stats::apply_stat(None, upd.stat.kind(), upd.stat.amount()) {
                Some(v) => {
                    let ghost vv = v@;
                    stats.push(StatEntry { name: copy_string(&upd.name), stat: v });
                    proof {
                        assert(stats.deep_view() =~~= pre.push(
                            StatEntryV { name: upd.name@, stat: vv },
                        ));
                        lemma_apply_one_wf(pre, upd@);
                        assert(apply_one_spec(pre, upd@) == Some(stats.deep_view()));
                    }
                    true
                },
                None => {
                    proof {
                        assert(false);
                    }
                    false
                },
            }
        },
    }
}

// ---------------------------------------------------------------------------
// Uploading groups of updates
// ---------------------------------------------------------------------------

/// The stats a subject's document holds once its existence is guaranteed:
/// what was stored if it decoded cleanly, an empty document otherwise.
pub open spec fn ensured_player_base(pre: StatsStoreV, uuid: u128, ns: Seq<char>) -> Seq<
    StatEntryV,
> {
    if pre.has_player_doc(uuid, ns) && stats_decode_ok(pre.player_doc(uuid, ns).stats) {
        pre.player_doc(uuid, ns).stats
    } else {
        Seq::empty()
    }
}

/// The stats the namespace-wide document holds once its existence is
/// guaranteed.
pub open spec fn ensured_global_base(pre: StatsStoreV, ns: Seq<char>) -> Seq<StatEntryV> {
    if pre.has_global_doc(ns) && stats_decode_ok(pre.global_doc(ns).stats) {
        pre.global_doc(ns).stats
    } else {
        Seq::empty()
    }
}

/// The quarantine area only ever grows, and keeps what it held.
pub open spec fn quarantine_extended(pre: StatsStoreV, post: StatsStoreV) -> bool {
    &&& post.corrupt_stats.len() >= pre.corrupt_stats.len()
    &&& post.corrupt_stats.subrange(0, pre.corrupt_stats.len() as int) == pre.corrupt_stats
}

impl StatsStore {
    /// Guarantee one player's document under this namespace and fold one
    /// group of named updates into it, stopping at the first mutation the
    /// store refuses. Returns whether every update applied.
    #[verifier::rlimit(100)]
    #[verifier::spinoff_prover]
    fn upload_player_group(&mut self, uuid: u128, namespace: &str, group: &Vec<StatUpdate>) -> (ok:
        bool)
        requires
            old(self)@.wf(),
        ensures
            final(self)@.wf(),
            final(self)@.global_stats == old(self)@.global_stats,
            final(self)@.has_profile(uuid),
            profiles_unchanged_except(old(self)@, final(self)@, uuid),
            !old(self)@.has_profile(uuid) ==> final(self)@.profiles == old(self)@.profiles.push(
                PlayerProfileV { uuid, username: None },
            ),
            old(self)@.has_profile(uuid) ==> final(self)@.profiles == old(self)@.profiles,
            player_docs_unchanged_except(old(self)@, final(self)@, uuid, namespace@),
            quarantine_extended(old(self)@, final(self)@),
            final(self)@.has_player_doc(uuid, namespace@),
            ok <==> apply_updates_spec(
                ensured_player_base(old(self)@, uuid, namespace@),
                group.deep_view(),
            ) is Some,
            ok ==> final(self)@.player_doc(uuid, namespace@).stats == apply_updates_spec(
                ensured_player_base(old(self)@, uuid, namespace@),
                group.deep_view(),
            )->Some_0,
            final(self)@.player_doc(uuid, namespace@).stats == apply_prefix_spec(
                ensured_player_base(old(self)@, uuid, namespace@),
                group.deep_view(),
                0,
            ),
    {
        let ghost pre = self@;
        self.ensure_player_stats_document(uuid, namespace);
        let ghost mid = self@;
        let ghost base = ensured_player_base(pre, uuid, namespace@);
        let i = match self.find_player_doc_idx(uuid, namespace) {
            Some(i) => i,
            None => {
                return vstd::pervasive::unreached();
            },
        };
        proof {
            lemma_player_doc_at(mid, i as int, uuid, namespace@);
            // the ensured document holds exactly the base stats
            if pre.has_player_doc(uuid, namespace@) && stats_decode_ok(
                pre.player_doc(uuid, namespace@).stats,
            ) {
                assert(mid.player_stats == pre.player_stats);
                let k = pre.player_doc_idx(uuid, namespace@);
                lemma_player_doc_at(pre, k, uuid, namespace@);
                lemma_player_doc_at(mid, k, uuid, namespace@);
                assert(mid.player_doc(uuid, namespace@).stats == base);
            } else {
                assert(mid.player_doc(uuid, namespace@).stats.len() == 0);
                assert(mid.player_doc(uuid, namespace@).stats =~= base);
            }
            assert(mid.player_doc(uuid, namespace@).stats == base);
        }
        let mut doc = self.player_stats.remove(i);
        let ghost mid2 = self@;
        proof {
            assert(doc@ == mid.player_stats[i as int]);
            assert(stats_wf(mid.player_stats[i as int].stats));
            assert(stats_counts_positive(mid.player_stats[i as int].stats));
        }
        let mut ok = true;
        let mut t: usize = 0;
        while ok && t < group.len()
            invariant
                0 <= t <= group.deep_view().len(),
                group.deep_view().len() == group.len(),
                self@ == mid2,
                doc@.uuid == uuid,
                doc@.namespace == namespace@,
                stats_wf(doc@.stats),
                stats_counts_positive(doc@.stats),
                ok ==> apply_updates_from(doc@.stats, group.deep_view(), t as int)
                    == apply_updates_spec(base, group.deep_view()),
                ok ==> apply_prefix_spec(doc@.stats, group.deep_view(), t as int)
                    == apply_prefix_spec(base, group.deep_view(), 0),
                !ok ==> apply_updates_spec(base, group.deep_view()) is None && t <= group.len(),
                !ok ==> doc@.stats == apply_prefix_spec(base, group.deep_view(), 0),
            decreases group.len() - t,
        {
            let applied = apply_update_to_stats(&mut doc.stats, &group[t]);
            proof {
                assert(group.deep_view()[t as int] == group[t as int]@);
            }
            if !applied {
                ok = false;
            }
            t = t + 1;
        }
        proof {
            if ok {
                assert(apply_updates_from(doc@.stats, group.deep_view(), t as int) == Some(
                    doc@.stats,
                ));
            }
        }
        let ghost docv = doc@;
        self.player_stats.insert(i, doc);
        proof {
            let ghost post = self@;
            assert(post.player_stats =~~= mid.player_stats.update(i as int, docv));
            assert(post.profiles == mid.profiles);
            assert(post.global_stats == mid.global_stats);
            assert(post.corrupt_stats == mid.corrupt_stats);
            // well-formedness: the document kept its key and its stats stayed unique
            assert forall|a: int, b: int|
                0 <= a < b < post.player_stats.len() implies !(post.player_stats[a].uuid
                == post.player_stats[b].uuid && post.player_stats[a].namespace
                == post.player_stats[b].namespace) by {
                assert(post.player_stats[a].uuid == mid.player_stats[a].uuid
                    && post.player_stats[a].namespace == mid.player_stats[a].namespace);
                assert(post.player_stats[b].uuid == mid.player_stats[b].uuid
                    && post.player_stats[b].namespace == mid.player_stats[b].namespace);
            }
            assert forall|k: int| 0 <= k < post.player_stats.len() implies #[trigger] stats_wf(
                post.player_stats[k].stats,
            ) && stats_counts_positive(post.player_stats[k].stats) by {
                if k != i as int {
                    assert(post.player_stats[k] == mid.player_stats[k]);
                    assert(stats_wf(mid.player_stats[k].stats));
                    assert(stats_counts_positive(mid.player_stats[k].stats));
                }
            }
            assert(forall|i0: int, j0: int|
                0 <= i0 < j0 < post.profiles.len() ==> post.profiles[i0].uuid
                    != post.profiles[j0].uuid);
            assert(forall|i0: int, j0: int|
                0 <= i0 < j0 < post.global_stats.len() ==> post.global_stats[i0].namespace
                    != post.global_stats[j0].namespace);
            assert(forall|i0: int|
                0 <= i0 < post.global_stats.len() ==> #[trigger] stats_wf(
                    post.global_stats[i0].stats,
                ) && stats_counts_positive(post.global_stats[i0].stats));
            assert(post.wf());
            lemma_player_doc_at(post, i as int, uuid, namespace@);
            // documents of other subjects carried over from the ensured state
            assert(player_docs_unchanged_except(mid, post, uuid, namespace@)) by {
                assert forall|u: u128, n: Seq<char>|
                    !(u == uuid && n == namespace@) implies ((#[trigger] post.has_player_doc(u, n)
                    <==> mid.has_player_doc(u, n)) && (mid.has_player_doc(u, n)
                    ==> post.player_doc(u, n) == mid.player_doc(u, n))) by {
                    if mid.has_player_doc(u, n) {
                        let k = mid.player_doc_idx(u, n);
                        lemma_player_doc_at(mid, k, u, n);
                        assert(k != i as int);
                        assert(post.player_stats[k] == mid.player_stats[k]);
                        lemma_player_doc_at(post, k, u, n);
                    }
                    if post.has_player_doc(u, n) {
                        let k = post.player_doc_idx(u, n);
                        lemma_player_doc_at(post, k, u, n);
                        assert(k != i as int);
                        assert(post.player_stats[k] == mid.player_stats[k]);
                        lemma_player_doc_at(mid, k, u, n);
                    }
                }
            }
            // and hence from the original state
            lemma_player_docs_unchanged_trans(pre, mid, post, uuid, namespace@);
            assert(profiles_unchanged_except(pre, post, uuid)) by {
                assert forall|u: u128| u != uuid implies ((#[trigger] post.has_profile(u)
                    <==> pre.has_profile(u)) && (pre.has_profile(u) ==> post.profile_of(u)
                    == pre.profile_of(u))) by {
                    assert(post.has_profile(u) <==> mid.has_profile(u));
                    if mid.has_profile(u) {
                        let k = mid.profile_idx(u);
                        lemma_profile_at(mid, k, u);
                        assert(post.profiles[k] == mid.profiles[k]);
                        lemma_profile_at(post, k, u);
                    }
                }
            }
            assert(post.has_profile(uuid)) by {
                let k = mid.profile_idx(uuid);
                lemma_profile_at(mid, k, uuid);
                assert(post.profiles[k].uuid == uuid);
            }
            assert(post.corrupt_stats.subrange(0, pre.corrupt_stats.len() as int)
                =~= pre.corrupt_stats);
        }
        ok
    }

    /// Guarantee the namespace-wide document and fold one group of named
    /// updates into it, stopping at the first mutation the store refuses.
    #[verifier::rlimit(100)]
    #[verifier::spinoff_prover]
    fn upload_global_group(&mut self, namespace: &str, group: &Vec<StatUpdate>) -> (ok: bool)
        requires
            old(self)@.wf(),
        ensures
            final(self)@.wf(),
            final(self)@.profiles == old(self)@.profiles,
            final(self)@.player_stats == old(self)@.player_stats,
            global_docs_unchanged_except(old(self)@, final(self)@, namespace@),
            quarantine_extended(old(self)@, final(self)@),
            final(self)@.has_global_doc(namespace@),
            ok <==> apply_updates_spec(
                ensured_global_base(old(self)@, namespace@),
                group.deep_view(),
            ) is Some,
            ok ==> final(self)@.global_doc(namespace@).stats == apply_updates_spec(
                ensured_global_base(old(self)@, namespace@),
                group.deep_view(),
            )->Some_0,
            final(self)@.global_doc(namespace@).stats == apply_prefix_spec(
                ensured_global_base(old(self)@, namespace@),
                group.deep_view(),
                0,
            ),
    {
        let ghost pre = self@;
        self.ensure_global_stats_document(namespace);
        let ghost mid = self@;
        let ghost base = ensured_global_base(pre, namespace@);
        let i = match self.find_global_doc_idx(namespace) {
            Some(i) => i,
            None => {
                return vstd::pervasive::unreached();
            },
        };
        proof {
            lemma_global_doc_at(mid, i as int, namespace@);
            if pre.has_global_doc(namespace@) && stats_decode_ok(pre.global_doc(namespace@).stats) {
                assert(mid.global_stats == pre.global_stats);
                let k = pre.global_doc_idx(namespace@);
                lemma_global_doc_at(pre, k, namespace@);
                lemma_global_doc_at(mid, k, namespace@);
                assert(mid.global_doc(namespace@).stats == base);
            } else {
                assert(mid.global_doc(namespace@).stats.len() == 0);
                assert(mid.global_doc(namespace@).stats =~= base);
            }
            assert(mid.global_doc(namespace@).stats == base);
        }
        let mut doc = self.global_stats.remove(i);
        let ghost mid2 = self@;
        proof {
            assert(doc@ == mid.global_stats[i as int]);
            assert(stats_wf(mid.global_stats[i as int].stats));
            assert(stats_counts_positive(mid.global_stats[i as int].stats));
        }
        let mut ok = true;
        let mut t: usize = 0;
        while ok && t < group.len()
            invariant
                0 <= t <= group.deep_view().len(),
                group.deep_view().len() == group.len(),
                self@ == mid2,
                doc@.namespace == namespace@,
                stats_wf(doc@.stats),
                stats_counts_positive(doc@.stats),
                ok ==> apply_updates_from(doc@.stats, group.deep_view(), t as int)
                    == apply_updates_spec(base, group.deep_view()),
                ok ==> apply_prefix_spec(doc@.stats, group.deep_view(), t as int)
                    == apply_prefix_spec(base, group.deep_view(), 0),
                !ok ==> apply_updates_spec(base, group.deep_view()) is None && t <= group.len(),
                !ok ==> doc@.stats == apply_prefix_spec(base, group.deep_view(), 0),
            decreases group.len() - t,
        {
            let applied = apply_update_to_stats(&mut doc.stats, &group[t]);
            proof {
                assert(group.deep_view()[t as int] == group[t as int]@);
            }
            if !applied {
                ok = false;
            }
            t = t + 1;
        }
        proof {
            if ok {
                assert(apply_updates_from(doc@.stats, group.deep_view(), t as int) == Some(
                    doc@.stats,
                ));
            }
        }
        let ghost docv = doc@;
        self.global_stats.insert(i, doc);
        proof {
            let ghost post = self@;
            assert(post.global_stats =~~= mid.global_stats.update(i as int, docv));
            assert(post.profiles == mid.profiles);
            assert(post.player_stats == mid.player_stats);
            assert(post.corrupt_stats == mid.corrupt_stats);
            assert forall|a: int, b: int|
                0 <= a < b < post.global_stats.len() implies post.global_stats[a].namespace
                != post.global_stats[b].namespace by {
                assert(post.global_stats[a].namespace == mid.global_stats[a].namespace);
                assert(post.global_stats[b].namespace == mid.global_stats[b].namespace);
            }
            assert forall|k: int| 0 <= k < post.global_stats.len() implies #[trigger] stats_wf(
                post.global_stats[k].stats,
            ) && stats_counts_positive(post.global_stats[k].stats) by {
                if k != i as int {
                    assert(post.global_stats[k] == mid.global_stats[k]);
                    assert(stats_wf(mid.global_stats[k].stats));
                    assert(stats_counts_positive(mid.global_stats[k].stats));
                }
            }
            assert(forall|i0: int, j0: int|
                0 <= i0 < j0 < post.profiles.len() ==> post.profiles[i0].uuid
                    != post.profiles[j0].uuid);
            assert(forall|i0: int, j0: int|
                0 <= i0 < j0 < post.player_stats.len() ==> !(post.player_stats[i0].uuid
                    == post.player_stats[j0].uuid && post.player_stats[i0].namespace
                    == post.player_stats[j0].namespace));
            assert(forall|i0: int|
                0 <= i0 < post.player_stats.len() ==> #[trigger] stats_wf(
                    post.player_stats[i0].stats,
                ) && stats_counts_positive(post.player_stats[i0].stats));
            assert(post.wf());
            lemma_global_doc_at(post, i as int, namespace@);
            assert(global_docs_unchanged_except(mid, post, namespace@)) by {
                assert forall|n: Seq<char>| n != namespace@ implies ((
                #[trigger] post.has_global_doc(n) <==> mid.has_global_doc(n)) && (
                mid.has_global_doc(n) ==> post.global_doc(n) == mid.global_doc(n))) by {
                    if mid.has_global_doc(n) {
                        let k = mid.global_doc_idx(n);
                        lemma_global_doc_at(mid, k, n);
                        assert(k != i as int);
                        assert(post.global_stats[k] == mid.global_stats[k]);
                        lemma_global_doc_at(post, k, n);
                    }
                    if post.has_global_doc(n) {
                        let k = post.global_doc_idx(n);
                        lemma_global_doc_at(post, k, n);
                        assert(k != i as int);
                        assert(post.global_stats[k] == mid.global_stats[k]);
                        lemma_global_doc_at(mid, k, n);
                    }
                }
            }
            lemma_global_docs_unchanged_trans(pre, mid, post, namespace@);
            assert(post.corrupt_stats.subrange(0, pre.corrupt_stats.len() as int)
                =~= pre.corrupt_stats);
        }
        ok
    }
}

// ---------------------------------------------------------------------------
// Bundle upload
// ---------------------------------------------------------------------------

/// Why an upload bundle was rejected.
#[derive(Clone, Copy, PartialEq, Eq, Structural, Debug)]
pub enum UploadError {
    /// A stat name contains the reserved field-path separator; the bundle
    /// is rejected wholesale before any document is touched.
    ValidationError,
    /// The store refused one of the mutations: the stored shape clashes
    /// with the update's field paths, or a counter overflowed. Updates
    /// before the refused one remain applied.
    StoreRejected,
}

/// Check every name in one update group for the path separator.
fn updates_valid(group: &Vec<StatUpdate>) -> (b: bool)
    ensures
        b == updates_names_valid(group.deep_view()),
{
    let mut t: usize = 0;
    while t < group.len()
        invariant
            0 <= t <= group.len(),
            group.deep_view().len() == group.len(),
            forall|k: int|
                0 <= k < t ==> #[trigger] crate::valid_stat_name(group.deep_view()[k].name),
        decreases group.len() - t,
    {
        if !crate::is_valid_stat_name(group[t].name.as_str()) {
            proof {
                assert(!crate::valid_stat_name(group.deep_view()[t as int].name));
            }
            return false;
        }
        t = t + 1;
    }
    true
}

/// Decide whether every stat name in a bundle is free of the path
/// separator, before any document is touched.
pub fn validate_bundle(bundle: &GameStatsBundle) -> (b: bool)
    ensures
        b == bundle@.names_valid(),
{
    let mut k: usize = 0;
    while k < bundle.stats.players.len()
        invariant
            0 <= k <= bundle.stats.players.len(),
            bundle@.players.len() == bundle.stats.players.len(),
            forall|k0: int|
                0 <= k0 < k ==> #[trigger] updates_names_valid(bundle@.players[k0].stats),
        decreases bundle.stats.players.len() - k,
    {
        if !updates_valid(&bundle.stats.players[k].stats) {
            proof {
                assert(!updates_names_valid(bundle@.players[k as int].stats));
            }
            return false;
        }
        k = k + 1;
    }
    match &bundle.stats.global {
        Some(g) => {
            if !updates_valid(g) {
                return false;
            }
        },
        None => {},
    }
    true
}

/// Every mutation a bundle asks for is one the store accepts, starting
/// from the ensured documents of this store.
pub open spec fn bundle_applies(pre: StatsStoreV, b: GameStatsBundleV) -> bool {
    &&& forall|k: int|
        0 <= k < b.players.len() ==> apply_updates_spec(
            ensured_player_base(pre, (#[trigger] b.players[k]).uuid, b.namespace),
            b.players[k].stats,
        ) is Some
    &&& match b.global {
        Some(g) => apply_updates_spec(ensured_global_base(pre, b.namespace), g) is Some,
        None => true,
    }
}

/// Stores with equal player document collections agree on every player
/// document lookup.
pub proof fn lemma_same_player_docs(x: StatsStoreV, y: StatsStoreV)
    requires
        x.wf(),
        y.wf(),
        x.player_stats == y.player_stats,
    ensures
        forall|u: u128, n: Seq<char>|
            (#[trigger] y.has_player_doc(u, n) <==> x.has_player_doc(u, n)) && (x.has_player_doc(
                u,
                n,
            ) ==> y.player_doc(u, n) == x.player_doc(u, n)),
{
    assert forall|u: u128, n: Seq<char>|
        (#[trigger] y.has_player_doc(u, n) <==> x.has_player_doc(u, n)) && (x.has_player_doc(u, n)
            ==> y.player_doc(u, n) == x.player_doc(u, n)) by {
        if x.has_player_doc(u, n) {
            let k = x.player_doc_idx(u, n);
            lemma_player_doc_at(x, k, u, n);
            assert(y.player_stats[k] == x.player_stats[k]);
            lemma_player_doc_at(y, k, u, n);
        }
        if y.has_player_doc(u, n) {
            let k = y.player_doc_idx(u, n);
            lemma_player_doc_at(y, k, u, n);
            assert(x.player_stats[k] == y.player_stats[k]);
            lemma_player_doc_at(x, k, u, n);
        }
    }
}

/// Stores with equal namespace-wide document collections agree on every
/// namespace lookup.
pub proof fn lemma_same_global_docs(x: StatsStoreV, y: StatsStoreV)
    requires
        x.wf(),
        y.wf(),
        x.global_stats == y.global_stats,
    ensures
        forall|n: Seq<char>|
            (#[trigger] y.has_global_doc(n) <==> x.has_global_doc(n)) && (x.has_global_doc(n)
                ==> y.global_doc(n) == x.global_doc(n)),
{
    assert forall|n: Seq<char>|
        (#[trigger] y.has_global_doc(n) <==> x.has_global_doc(n)) && (x.has_global_doc(n)
            ==> y.global_doc(n) == x.global_doc(n)) by {
        if x.has_global_doc(n) {
            let k = x.global_doc_idx(n);
            lemma_global_doc_at(x, k, n);
            assert(y.global_stats[k] == x.global_stats[k]);
            lemma_global_doc_at(y, k, n);
        }
        if y.has_global_doc(n) {
            let k = y.global_doc_idx(n);
            lemma_global_doc_at(y, k, n);
            assert(x.global_stats[k] == y.global_stats[k]);
            lemma_global_doc_at(x, k, n);
        }
    }
}

/// Stores with equal profile collections agree on every profile lookup.
pub proof fn lemma_same_profiles(x: StatsStoreV, y: StatsStoreV)
    requires
        x.wf(),
        y.wf(),
        x.profiles == y.profiles,
    ensures
        forall|u: u128|
            (#[trigger] y.has_profile(u) <==> x.has_profile(u)) && (x.has_profile(u)
                ==> y.profile_of(u) == x.profile_of(u)),
{
    assert forall|u: u128|
        (#[trigger] y.has_profile(u) <==> x.has_profile(u)) && (x.has_profile(u)
            ==> y.profile_of(u) == x.profile_of(u)) by {
        if x.has_profile(u) {
            let k = x.profile_idx(u);
            lemma_profile_at(x, k, u);
            assert(y.profiles[k] == x.profiles[k]);
            lemma_profile_at(y, k, u);
        }
        if y.has_profile(u) {
            let k = y.profile_idx(u);
            lemma_profile_at(y, k, u);
            assert(x.profiles[k] == y.profiles[k]);
            lemma_profile_at(x, k, u);
        }
    }
}

/// One profile-ensuring step with no supplied username keeps every
/// existing profile as it was and adds at most the ensured player's.
pub proof fn lemma_profiles_step(cur: StatsStoreV, post: StatsStoreV, uuid: u128)
    requires
        cur.wf(),
        post.wf(),
        profiles_unchanged_except(cur, post, uuid),
        post.has_profile(uuid),
        !cur.has_profile(uuid) ==> post.profiles == cur.profiles.push(
            PlayerProfileV { uuid, username: None },
        ),
        cur.has_profile(uuid) ==> post.profiles == cur.profiles,
    ensures
        forall|u: u128|
            #[trigger] cur.has_profile(u) ==> post.has_profile(u) && post.profile_of(u)
                == cur.profile_of(u),
        forall|u: u128| #[trigger] post.has_profile(u) ==> cur.has_profile(u) || u == uuid,
{
    if cur.has_profile(uuid) {
        lemma_same_profiles(cur, post);
    } else {
        assert forall|u: u128| #[trigger] cur.has_profile(u) implies post.has_profile(u)
            && post.profile_of(u) == cur.profile_of(u) by {
            let k = cur.profile_idx(u);
            lemma_profile_at(cur, k, u);
            assert(post.profiles[k] == cur.profiles[k]);
            lemma_profile_at(post, k, u);
        }
        assert forall|u: u128| #[trigger] post.has_profile(u) implies cur.has_profile(u) || u
            == uuid by {
            let k = post.profile_idx(u);
            lemma_profile_at(post, k, u);
            if k < cur.profiles.len() {
                assert(post.profiles[k] == cur.profiles[k]);
                assert(cur.has_profile(u));
            }
        }
    }
}

/// No player among the first `t` groups of the bundle owns this subject.
pub open spec fn subject_untouched(b: GameStatsBundleV, t: int, u: u128, n: Seq<char>) -> bool {
    forall|k: int| 0 <= k < t ==> !(u == (#[trigger] b.players[k]).uuid && n == b.namespace)
}

/// The store after an upload whose first `t` player groups were touched:
/// each touched subject's document holds the fold of the updates that
/// applied (the whole group everywhere the store refused nothing), the
/// touched players are tracked, and every other subject is untouched.
pub open spec fn bundle_partial_state(
    pre: StatsStoreV,
    post: StatsStoreV,
    b: GameStatsBundleV,
    t: int,
) -> bool {
    &&& 0 <= t <= b.players.len()
    &&& forall|k0: int|
        0 <= k0 < t ==> ({
            let pu = #[trigger] b.players[k0];
            &&& post.has_profile(pu.uuid)
            &&& post.has_player_doc(pu.uuid, b.namespace)
            &&& post.player_doc(pu.uuid, b.namespace).stats == apply_prefix_spec(
                ensured_player_base(pre, pu.uuid, b.namespace),
                pu.stats,
                0,
            )
        })
    &&& forall|u: u128, n: Seq<char>|
        subject_untouched(b, t, u, n) ==> ((#[trigger] post.has_player_doc(u, n)
            <==> pre.has_player_doc(u, n)) && (pre.has_player_doc(u, n) ==> post.player_doc(u, n)
            == pre.player_doc(u, n)))
}

impl StatsStore {
    /// Fold one statistics upload into the store. The bundle is rejected
    /// wholesale, before any document is touched, if any stat name
    /// contains the field-path separator. Otherwise each player's group,
    /// and then the namespace-wide group if present, is folded into its
    /// ensured document; the first mutation the store refuses aborts the
    /// upload with the earlier mutations kept, as the per-document
    /// updates are each atomic but the bundle is not.
    #[verifier::rlimit(100)]
    #[verifier::spinoff_prover]
    pub fn upload_stats_bundle(&mut self, bundle: &GameStatsBundle) -> (r: Result<(), UploadError>)
        requires
            old(self)@.wf(),
            bundle@.wf(),
        ensures
            final(self)@.wf(),
            quarantine_extended(old(self)@, final(self)@),
            r == Err::<(), UploadError>(UploadError::ValidationError) <==> !bundle@.names_valid(),
            !bundle@.names_valid() ==> final(self)@ == old(self)@,
            bundle@.names_valid() ==> (r is Ok <==> bundle_applies(old(self)@, bundle@)),
            bundle@.names_valid() ==> exists|t: int|
                (#[trigger] bundle_partial_state(old(self)@, final(self)@, bundle@, t)) && (r is Ok
                    ==> t == bundle@.players.len()),
            bundle@.names_valid() ==> (match bundle@.global {
                Some(g) => r is Ok || final(self)@.global_stats == old(self)@.global_stats || (
                final(self)@.has_global_doc(bundle@.namespace) && final(self)@.global_doc(
                    bundle@.namespace,
                ).stats == apply_prefix_spec(
                    ensured_global_base(old(self)@, bundle@.namespace),
                    g,
                    0,
                )),
                None => final(self)@.global_stats == old(self)@.global_stats,
            }),
            r is Ok ==> ({
                &&& forall|k: int|
                    0 <= k < bundle@.players.len() ==> ({
                        let pu = #[trigger] bundle@.players[k];
                        &&& final(self)@.has_profile(pu.uuid)
                        &&& final(self)@.has_player_doc(pu.uuid, bundle@.namespace)
                        &&& final(self)@.player_doc(pu.uuid, bundle@.namespace).stats
                            == apply_updates_spec(
                            ensured_player_base(old(self)@, pu.uuid, bundle@.namespace),
                            pu.stats,
                        )->Some_0
                    })
                &&& match bundle@.global {
                    Some(g) => final(self)@.has_global_doc(bundle@.namespace)
                        && final(self)@.global_doc(bundle@.namespace).stats
                        == apply_updates_spec(
                        ensured_global_base(old(self)@, bundle@.namespace),
                        g,
                    )->Some_0,
                    None => final(self)@.global_stats == old(self)@.global_stats,
                }
                &&& forall|u: u128, n: Seq<char>|
                    subject_untouched(bundle@, bundle@.players.len() as int, u, n) ==> ((
                    #[trigger] final(self)@.has_player_doc(u, n) <==> old(self)@.has_player_doc(
                        u,
                        n,
                    )) && (old(self)@.has_player_doc(u, n) ==> final(self)@.player_doc(u, n) == old(
                        self,
                    )@.player_doc(u, n)))
                &&& global_docs_unchanged_except(old(self)@, final(self)@, bundle@.namespace)
                &&& forall|u: u128|
                    #[trigger] old(self)@.has_profile(u) ==> final(self)@.has_profile(u)
                        && final(self)@.profile_of(u) == old(self)@.profile_of(u)
                &&& forall|u: u128|
                    #[trigger] final(self)@.has_profile(u) ==> old(self)@.has_profile(u)
                        || exists|k: int|
                        0 <= k < bundle@.players.len() && (#[trigger] bundle@.players[k]).uuid == u
            }),
    {
        let ghost pre = self@;
        proof {
            assert(pre.corrupt_stats.subrange(0, pre.corrupt_stats.len() as int)
                =~= pre.corrupt_stats);
        }
        if !validate_bundle(bundle) {
            return Err(UploadError::ValidationError);
        }
        let mut k: usize = 0;
        while k < bundle.stats.players.len()
            invariant
                pre == old(self)@,
                pre.wf(),
                bundle@.wf(),
                bundle@.names_valid(),
                self@.wf(),
                0 <= k <= bundle@.players.len(),
                bundle@.players.len() == bundle.stats.players.len(),
                quarantine_extended(pre, self@),
                self@.global_stats == pre.global_stats,
                forall|k0: int|
                    0 <= k0 < k ==> ({
                        let pu = #[trigger] bundle@.players[k0];
                        &&& self@.has_profile(pu.uuid)
                        &&& self@.has_player_doc(pu.uuid, bundle@.namespace)
                        &&& apply_updates_spec(
                            ensured_player_base(pre, pu.uuid, bundle@.namespace),
                            pu.stats,
                        ) is Some
                        &&& self@.player_doc(pu.uuid, bundle@.namespace).stats
                            == apply_updates_spec(
                            ensured_player_base(pre, pu.uuid, bundle@.namespace),
                            pu.stats,
                        )->Some_0
                    }),
                forall|u: u128, n: Seq<char>|
                    subject_untouched(bundle@, k as int, u, n) ==> ((
                    #[trigger] self@.has_player_doc(u, n) <==> pre.has_player_doc(u, n)) && (
                    pre.has_player_doc(u, n) ==> self@.player_doc(u, n) == pre.player_doc(u, n))),
                forall|u: u128|
                    #[trigger] pre.has_profile(u) ==> self@.has_profile(u) && self@.profile_of(u)
                        == pre.profile_of(u),
                forall|u: u128|
                    #[trigger] self@.has_profile(u) ==> pre.has_profile(u) || exists|k0: int|
                        0 <= k0 < k && (#[trigger] bundle@.players[k0]).uuid == u,
            decreases bundle.stats.players.len() - k,
        {
            let ghost cur = self@;
            let uuid = bundle.stats.players[k].uuid;
            proof {
                assert(subject_untouched(bundle@, k as int, uuid, bundle@.namespace));
                assert(cur.has_player_doc(uuid, bundle@.namespace) <==> pre.has_player_doc(
                    uuid,
                    bundle@.namespace,
                ));
                if pre.has_player_doc(uuid, bundle@.namespace) {
                    assert(cur.player_doc(uuid, bundle@.namespace) == pre.player_doc(
                        uuid,
                        bundle@.namespace,
                    ));
                }
                assert(ensured_player_base(cur, uuid, bundle@.namespace) == ensured_player_base(
                    pre,
                    uuid,
                    bundle@.namespace,
                ));
            }
            let ok = self.upload_player_group(
                uuid,
                bundle.namespace.as_str(),
                &bundle.stats.players[k].stats,
            );
            proof {
                assert(bundle@.players[k as int].uuid == uuid);
                assert(bundle@.players[k as int].stats == bundle.stats.players[k as int]@.stats);
            }
            if !ok {
                proof {
                    let ghost post = self@;
                    assert(apply_updates_spec(
                        ensured_player_base(pre, bundle@.players[k as int].uuid, bundle@.namespace),
                        bundle@.players[k as int].stats,
                    ) is None);
                    assert(!bundle_applies(pre, bundle@));
                    // the quarantine area still extends the original
                    assert(post.corrupt_stats.subrange(0, cur.corrupt_stats.len() as int)
                        == cur.corrupt_stats.subrange(0, cur.corrupt_stats.len() as int));
                    assert(cur.corrupt_stats.subrange(0, cur.corrupt_stats.len() as int)
                        =~= cur.corrupt_stats);
                    assert(post.corrupt_stats.subrange(0, pre.corrupt_stats.len() as int)
                        =~= pre.corrupt_stats);
                    // what the refused upload leaves behind: the touched
                    // groups keep their applied prefixes, the rest is
                    // untouched
                    lemma_profiles_step(cur, post, uuid);
                    assert forall|k0: int| 0 <= k0 < k + 1 implies ({
                        let pu = #[trigger] bundle@.players[k0];
                        &&& post.has_profile(pu.uuid)
                        &&& post.has_player_doc(pu.uuid, bundle@.namespace)
                        &&& post.player_doc(pu.uuid, bundle@.namespace).stats == apply_prefix_spec(
                            ensured_player_base(pre, pu.uuid, bundle@.namespace),
                            pu.stats,
                            0,
                        )
                    }) by {
                        let pu = bundle@.players[k0];
                        if k0 < k as int {
                            assert(pu.uuid != uuid);
                            assert(cur.has_player_doc(pu.uuid, bundle@.namespace));
                            assert(post.has_player_doc(pu.uuid, bundle@.namespace)
                                <==> cur.has_player_doc(pu.uuid, bundle@.namespace));
                            assert(post.player_doc(pu.uuid, bundle@.namespace) == cur.player_doc(
                                pu.uuid,
                                bundle@.namespace,
                            ));
                            lemma_prefix_of_success(
                                ensured_player_base(pre, pu.uuid, bundle@.namespace),
                                pu.stats,
                                0,
                            );
                            assert(cur.has_profile(pu.uuid));
                        }
                    }
                    assert forall|u: u128, n: Seq<char>|
                        subject_untouched(bundle@, k as int + 1, u, n) implies ((
                    #[trigger] post.has_player_doc(u, n) <==> pre.has_player_doc(u, n)) && (
                    pre.has_player_doc(u, n) ==> post.player_doc(u, n) == pre.player_doc(u, n)))
                        by {
                        assert(!(u == bundle@.players[k as int].uuid && n == bundle@.namespace));
                        assert(subject_untouched(bundle@, k as int, u, n));
                        assert(post.has_player_doc(u, n) <==> cur.has_player_doc(u, n));
                        assert(cur.has_player_doc(u, n) <==> pre.has_player_doc(u, n));
                        if pre.has_player_doc(u, n) {
                            assert(cur.player_doc(u, n) == pre.player_doc(u, n));
                            assert(post.player_doc(u, n) == cur.player_doc(u, n));
                        }
                    }
                    assert(bundle_partial_state(pre, post, bundle@, k as int + 1));
                }
                return Err(UploadError::StoreRejected);
            }
            proof {
                let ghost post = self@;
                assert(post.corrupt_stats.subrange(0, pre.corrupt_stats.len() as int)
                    =~= pre.corrupt_stats);
                // every existing profile is kept; at most this player's is added
                lemma_profiles_step(cur, post, uuid);
                assert forall|u: u128| #[trigger] pre.has_profile(u) implies post.has_profile(u)
                    && post.profile_of(u) == pre.profile_of(u) by {
                    assert(cur.has_profile(u));
                }
                assert forall|u: u128| #[trigger] post.has_profile(u) implies pre.has_profile(u)
                    || exists|k0: int|
                    0 <= k0 < k + 1 && (#[trigger] bundle@.players[k0]).uuid == u by {
                    if !pre.has_profile(u) {
                        if u == uuid {
                            assert(bundle@.players[k as int].uuid == u);
                        } else {
                            assert(cur.has_profile(u));
                            let k0 = choose|k0: int|
                                0 <= k0 < k && (#[trigger] bundle@.players[k0]).uuid == u;
                            assert(bundle@.players[k0].uuid == u);
                        }
                    }
                }
                // earlier players' documents and profiles carried over
                assert forall|k0: int| 0 <= k0 < k + 1 implies ({
                    let pu = #[trigger] bundle@.players[k0];
                    &&& post.has_profile(pu.uuid)
                    &&& post.has_player_doc(pu.uuid, bundle@.namespace)
                    &&& apply_updates_spec(
                        ensured_player_base(pre, pu.uuid, bundle@.namespace),
                        pu.stats,
                    ) is Some
                    &&& post.player_doc(pu.uuid, bundle@.namespace).stats == apply_updates_spec(
                        ensured_player_base(pre, pu.uuid, bundle@.namespace),
                        pu.stats,
                    )->Some_0
                }) by {
                    let pu = bundle@.players[k0];
                    if k0 < k as int {
                        assert(pu.uuid != uuid);
                        assert(post.has_player_doc(pu.uuid, bundle@.namespace)
                            <==> cur.has_player_doc(pu.uuid, bundle@.namespace));
                        assert(post.player_doc(pu.uuid, bundle@.namespace) == cur.player_doc(
                            pu.uuid,
                            bundle@.namespace,
                        ));
                        assert(post.has_profile(pu.uuid) <==> cur.has_profile(pu.uuid));
                    }
                }
                assert forall|u: u128, n: Seq<char>|
                    subject_untouched(bundle@, k as int + 1, u, n) implies ((
                #[trigger] post.has_player_doc(u, n) <==> pre.has_player_doc(u, n)) && (
                pre.has_player_doc(u, n) ==> post.player_doc(u, n) == pre.player_doc(u, n))) by {
                    assert(!(u == bundle@.players[k as int].uuid && n == bundle@.namespace));
                    assert(subject_untouched(bundle@, k as int, u, n));
                    assert(post.has_player_doc(u, n) <==> cur.has_player_doc(u, n));
                    assert(cur.has_player_doc(u, n) <==> pre.has_player_doc(u, n));
                    if pre.has_player_doc(u, n) {
                        assert(cur.player_doc(u, n) == pre.player_doc(u, n));
                        assert(post.player_doc(u, n) == cur.player_doc(u, n));
                    }
                }
            }
            k = k + 1;
        }
        let ghost afterp = self@;
        match &bundle.stats.global {
            Some(g) => {
                proof {
                    lemma_same_global_docs(pre, afterp);
                    assert(ensured_global_base(afterp, bundle@.namespace) == ensured_global_base(
                        pre,
                        bundle@.namespace,
                    ));
                }
                let ok = self.upload_global_group(bundle.namespace.as_str(), g);
                proof {
                    let ghost post = self@;
                    lemma_same_player_docs(afterp, post);
                    lemma_same_profiles(afterp, post);
                    assert forall|u: u128| #[trigger] pre.has_profile(u) implies post.has_profile(
                        u,
                    ) && post.profile_of(u) == pre.profile_of(u) by {
                        assert(afterp.has_profile(u));
                        assert(afterp.profile_of(u) == pre.profile_of(u));
                    }
                    assert forall|u: u128| #[trigger] post.has_profile(u) implies pre.has_profile(
                        u,
                    ) || exists|k0: int|
                        0 <= k0 < bundle@.players.len() && (#[trigger] bundle@.players[k0]).uuid
                            == u by {
                        assert(afterp.has_profile(u));
                    }
                    assert(post.corrupt_stats.subrange(0, pre.corrupt_stats.len() as int)
                        =~= pre.corrupt_stats);
                    assert forall|k0: int| 0 <= k0 < bundle@.players.len() implies ({
                        let pu = #[trigger] bundle@.players[k0];
                        &&& post.has_profile(pu.uuid)
                        &&& post.has_player_doc(pu.uuid, bundle@.namespace)
                        &&& post.player_doc(pu.uuid, bundle@.namespace).stats
                            == apply_updates_spec(
                            ensured_player_base(pre, pu.uuid, bundle@.namespace),
                            pu.stats,
                        )->Some_0
                    }) by {
                        let pu = bundle@.players[k0];
                        assert(afterp.has_player_doc(pu.uuid, bundle@.namespace));
                        assert(post.has_player_doc(pu.uuid, bundle@.namespace)
                            <==> afterp.has_player_doc(pu.uuid, bundle@.namespace));
                        assert(post.player_doc(pu.uuid, bundle@.namespace) == afterp.player_doc(
                            pu.uuid,
                            bundle@.namespace,
                        ));
                    }
                    assert forall|u: u128, n: Seq<char>|
                        subject_untouched(bundle@, bundle@.players.len() as int, u, n) implies ((
                    #[trigger] post.has_player_doc(u, n) <==> pre.has_player_doc(u, n)) && (
                    pre.has_player_doc(u, n) ==> post.player_doc(u, n) == pre.player_doc(u, n)))
                        by {
                        assert(post.has_player_doc(u, n) <==> afterp.has_player_doc(u, n));
                        assert(afterp.has_player_doc(u, n) <==> pre.has_player_doc(u, n));
                        if pre.has_player_doc(u, n) {
                            assert(afterp.player_doc(u, n) == pre.player_doc(u, n));
                            assert(post.player_doc(u, n) == afterp.player_doc(u, n));
                        }
                    }
                    lemma_global_docs_unchanged_trans2(pre, afterp, post, bundle@.namespace);
                    assert forall|k0: int| 0 <= k0 < bundle@.players.len() implies ({
                        let pu = #[trigger] bundle@.players[k0];
                        post.player_doc(pu.uuid, bundle@.namespace).stats == apply_prefix_spec(
                            ensured_player_base(pre, pu.uuid, bundle@.namespace),
                            pu.stats,
                            0,
                        )
                    }) by {
                        let pu = bundle@.players[k0];
                        lemma_prefix_of_success(
                            ensured_player_base(pre, pu.uuid, bundle@.namespace),
                            pu.stats,
                            0,
                        );
                    }
                    assert(bundle_partial_state(pre, post, bundle@, bundle@.players.len() as int));
                    assert(bundle@.global == Some(g.deep_view()));
                    assert(post.global_doc(bundle@.namespace).stats == apply_prefix_spec(
                        ensured_global_base(pre, bundle@.namespace),
                        g.deep_view(),
                        0,
                    ));
                }
                if !ok {
                    proof {
                        assert(!bundle_applies(pre, bundle@));
                    }
                    return Err(UploadError::StoreRejected);
                }
                Ok(())
            },
            None => {
                proof {
                    let ghost post = self@;
                    assert(post.global_stats == pre.global_stats);
                    assert forall|k0: int| 0 <= k0 < bundle@.players.len() implies ({
                        let pu = #[trigger] bundle@.players[k0];
                        post.player_doc(pu.uuid, bundle@.namespace).stats == apply_prefix_spec(
                            ensured_player_base(pre, pu.uuid, bundle@.namespace),
                            pu.stats,
                            0,
                        )
                    }) by {
                        let pu = bundle@.players[k0];
                        lemma_prefix_of_success(
                            ensured_player_base(pre, pu.uuid, bundle@.namespace),
                            pu.stats,
                            0,
                        );
                    }
                    assert(bundle_partial_state(pre, post, bundle@, bundle@.players.len() as int));
                }
                Ok(())
            },
        }
    }
}

/// A store whose namespace-wide documents are untouched satisfies the
/// unchanged-except predicate for any namespace, and chains with a
/// further step.
pub proof fn lemma_global_docs_unchanged_trans2(
    a: StatsStoreV,
    b: StatsStoreV,
    c: StatsStoreV,
    ns: Seq<char>,
)
    requires
        a.wf(),
        b.wf(),
        a.global_stats == b.global_stats,
        global_docs_unchanged_except(b, c, ns),
    ensures
        global_docs_unchanged_except(a, c, ns),
{
    lemma_same_global_docs(a, b);
    assert forall|n: Seq<char>| n != ns implies ((#[trigger] c.has_global_doc(n)
        <==> a.has_global_doc(n)) && (a.has_global_doc(n) ==> c.global_doc(n) == a.global_doc(n)))
        by {
        assert(c.has_global_doc(n) <==> b.has_global_doc(n));
        assert(b.has_global_doc(n) <==> a.has_global_doc(n));
        if a.has_global_doc(n) {
            assert(b.global_doc(n) == a.global_doc(n));
            assert(c.global_doc(n) == b.global_doc(n));
        }
    }
}

// ---------------------------------------------------------------------------
// Laws
// ---------------------------------------------------------------------------

/// Law: guaranteeing a subject's stats document is idempotent. After one
/// call has ensured the document, a second call for the same subject
/// leaves the store exactly as it was — it never creates a second
/// document, and under well-formedness the subject's document is unique.
pub proof fn lemma_ensure_player_idempotent(
    s0: StatsStoreV,
    s1: StatsStoreV,
    s2: StatsStoreV,
    uuid: u128,
    ns: Seq<char>,
)
    requires
        s0.wf(),
        ensure_player_post(s0, s1, uuid, ns),
        ensure_player_post(s1, s2, uuid, ns),
    ensures
        s2 == s1,
        forall|i: int, j: int|
            0 <= i < j < s1.player_stats.len() ==> !(s1.player_stats[i].uuid == uuid
                && s1.player_stats[i].namespace == ns && s1.player_stats[j].uuid == uuid
                && s1.player_stats[j].namespace == ns),
{
    assert(s1.has_player_doc(uuid, ns));
    assert(stats_decode_ok(s1.player_doc(uuid, ns).stats));
    assert(s2.player_stats == s1.player_stats);
    assert(s2.corrupt_stats == s1.corrupt_stats);
    assert(s2.global_stats == s1.global_stats);
    assert(s1.has_profile(uuid));
    assert(s2.profiles == s1.profiles);
    assert(s2 =~= s1);
}

/// Law: the namespace-wide counterpart of
/// [`lemma_ensure_player_idempotent`].
pub proof fn lemma_ensure_global_idempotent(
    s0: StatsStoreV,
    s1: StatsStoreV,
    s2: StatsStoreV,
    ns: Seq<char>,
)
    requires
        s0.wf(),
        ensure_global_post(s0, s1, ns),
        ensure_global_post(s1, s2, ns),
    ensures
        s2 == s1,
        forall|i: int, j: int|
            0 <= i < j < s1.global_stats.len() ==> !(s1.global_stats[i].namespace == ns
                && s1.global_stats[j].namespace == ns),
{
    assert(s1.has_global_doc(ns));
    assert(stats_decode_ok(s1.global_doc(ns).stats));
    assert(s2 == s1);
}

/// Law: a stored document that fails to decode is quarantined and
/// replaced in one guarantee step: afterwards the subject has exactly one
/// document and it holds no stats, and where the quarantine area started
/// empty it now holds exactly one record carrying the original raw
/// content and the subject's identity.
pub proof fn lemma_quarantine_recovery(
    s0: StatsStoreV,
    s1: StatsStoreV,
    uuid: u128,
    ns: Seq<char>,
)
    requires
        s0.wf(),
        ensure_player_post(s0, s1, uuid, ns),
        s0.has_player_doc(uuid, ns),
        !stats_decode_ok(s0.player_doc(uuid, ns).stats),
        s0.corrupt_stats.len() == 0,
    ensures
        s1.has_player_doc(uuid, ns),
        s1.player_doc(uuid, ns).stats.len() == 0,
        stats_decode_ok(s1.player_doc(uuid, ns).stats),
        forall|i: int, j: int|
            0 <= i < j < s1.player_stats.len() ==> !(s1.player_stats[i].uuid == uuid
                && s1.player_stats[i].namespace == ns && s1.player_stats[j].uuid == uuid
                && s1.player_stats[j].namespace == ns),
        s1.corrupt_stats.len() == 1,
        s1.corrupt_stats[0].stats == s0.player_doc(uuid, ns).stats,
        s1.corrupt_stats[0].namespace == ns,
        s1.corrupt_stats[0].player == Some(uuid),
        !s1.corrupt_stats[0].global,
        exists|i: int|
            0 <= i < s1.corrupt_stats[0].stats.len() && crate::stats::decode_stat_spec(
                (#[trigger] s1.corrupt_stats[0].stats[i]).stat,
            ) == Err::<crate::stats::GameStatV, DecodeError>(s1.corrupt_stats[0].error),
{
    assert(s1.corrupt_stats[0] == s1.corrupt_stats.last());
}

/// Law: supplying a username to a profile stored without one writes it:
/// a player first seen through a stats upload is nameless, and the next
/// profile update with a name must name them.
pub proof fn lemma_profile_names_unnamed(
    s0: StatsStoreV,
    s1: StatsStoreV,
    uuid: u128,
    name: Seq<char>,
    p1: PlayerProfileV,
)
    requires
        s0.wf(),
        s0.has_profile(uuid),
        s0.profile_of(uuid).username is None,
        update_profile_post(s0, s1, uuid, Some(name), p1),
    ensures
        s1.profile_of(uuid).username == Some(name),
        p1.username == Some(name),
{
    let k = s0.profile_idx(uuid);
    lemma_profile_at(s0, k, uuid);
    assert(s1.profiles == s0.profiles.update(k, PlayerProfileV { uuid, username: Some(name) }));
    assert(s1.profiles[k].uuid == uuid);
    lemma_profile_at(s1, k, uuid);
}

/// Law: the profile round trip. Creating a profile with a username
/// stores that username and lookups return it; repeating the same
/// username produces no stored mutation at all; supplying a different
/// username replaces the stored one.
pub proof fn lemma_profile_round_trip(
    s0: StatsStoreV,
    s1: StatsStoreV,
    s2: StatsStoreV,
    s3: StatsStoreV,
    uuid: u128,
    first: Seq<char>,
    second: Seq<char>,
    p1: PlayerProfileV,
    p2: PlayerProfileV,
    p3: PlayerProfileV,
)
    requires
        s0.wf(),
        !s0.has_profile(uuid),
        first != second,
        update_profile_post(s0, s1, uuid, Some(first), p1),
        update_profile_post(s1, s2, uuid, Some(first), p2),
        update_profile_post(s2, s3, uuid, Some(second), p3),
    ensures
        s1.profile_of(uuid).username == Some(first),
        p1.username == Some(first),
        s2 == s1,
        p2 == p1,
        s3.profile_of(uuid).username == Some(second),
        p3.username == Some(second),
{
    lemma_profile_at(s1, s0.profiles.len() as int, uuid);
    assert(s1.profile_of(uuid) == PlayerProfileV { uuid, username: Some(first) });
    assert(s2 == s1);
    let k = s2.profile_idx(uuid);
    lemma_profile_at(s2, k, uuid);
    assert(s3.profiles == s2.profiles.update(k, PlayerProfileV { uuid, username: Some(second) }));
    assert(s3.profiles[k].uuid == uuid);
    lemma_profile_at(s3, k, uuid);
}

} // verus!
