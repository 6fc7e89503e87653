//! The persisted entities: player profiles, per-player and global stats
//! documents, upload bundles, and the decoded query responses.

use vstd::prelude::*;

use crate::stats::{GameStat, RawStat, RawStatV, UploadStat};

verus! {

// ---------------------------------------------------------------------------
// Helpers
// ---------------------------------------------------------------------------

/// Copy a string.
pub fn copy_string(s: &String) -> (r: String)
    ensures
        r@ == s@,
{
    s.as_str().to_owned()
}

/// Copy an optional string.
pub fn copy_opt_string(s: &Option<String>) -> (r: Option<String>)
    ensures
        r.deep_view() == s.deep_view(),
{
    match s {
        Some(v) => Some(copy_string(v)),
        None => None,
    }
}

// ---------------------------------------------------------------------------
// Profiles
// ---------------------------------------------------------------------------

/// A player's profile: a globally unique identifier and an optional
/// display name. Created lazily on first contact; one profile per
/// identifier, never merged or split.
#[derive(Debug)]
pub struct PlayerProfile {
    pub uuid: u128,
    pub username: Option<String>,
}

/// Ghost mirror of [`PlayerProfile`].
#[verifier::ext_equal]
pub struct PlayerProfileV {
    pub uuid: u128,
    pub username: Option<Seq<char>>,
}

impl View for PlayerProfile {
    type V = PlayerProfileV;

    open spec fn view(&self) -> PlayerProfileV {
        PlayerProfileV { uuid: self.uuid, username: self.username.deep_view() }
    }
}

impl DeepView for PlayerProfile {
    type V = PlayerProfileV;

    open spec fn deep_view(&self) -> PlayerProfileV {
        self@
    }
}

impl PlayerProfile {
    /// Copy a profile.
    pub fn duplicate(&self) -> (r: PlayerProfile)
        ensures
            r@ == self@,
    {
        PlayerProfile { uuid: self.uuid, username: copy_opt_string(&self.username) }
    }
}

/// The profile shape handed back to the query edge.
#[derive(Debug)]
pub struct PlayerProfileResponse {
    pub uuid: u128,
    pub username: Option<String>,
}

impl From<PlayerProfile> for PlayerProfileResponse {
    fn from(p: PlayerProfile) -> (r: Self) {
        PlayerProfileResponse { uuid: p.uuid, username: p.username }
    }
}

impl vstd::std_specs::convert::FromSpecImpl<PlayerProfile> for PlayerProfileResponse {
    open spec fn obeys_from_spec() -> bool {
        true
    }

    open spec fn from_spec(p: PlayerProfile) -> Self {
        PlayerProfileResponse { uuid: p.uuid, username: p.username }
    }
}

// ---------------------------------------------------------------------------
// Stats documents
// ---------------------------------------------------------------------------

/// One named stored stat inside a document.
#[derive(Debug)]
pub struct StatEntry {
    pub name: String,
    pub stat: RawStat,
}

/// Ghost mirror of [`StatEntry`].
#[verifier::ext_equal]
pub struct StatEntryV {
    pub name: Seq<char>,
    pub stat: RawStatV,
}

impl View for StatEntry {
    type V = StatEntryV;

    open spec fn view(&self) -> StatEntryV {
        StatEntryV { name: self.name@, stat: self.stat@ }
    }
}

impl DeepView for StatEntry {
    type V = StatEntryV;

    open spec fn deep_view(&self) -> StatEntryV {
        self@
    }
}

impl StatEntry {
    /// Copy a stats entry.
    pub fn duplicate(&self) -> (r: StatEntry)
        ensures
            r@ == self@,
    {
        StatEntry { name: copy_string(&self.name), stat: self.stat.duplicate() }
    }
}

/// Stat names within one document are unique.
pub open spec fn stats_wf(s: Seq<StatEntryV>) -> bool {
    forall|i: int, j: int| 0 <= i < j < s.len() ==> s[i].name != s[j].name
}

/// The document holds a stat under this name.
pub open spec fn has_stat(s: Seq<StatEntryV>, name: Seq<char>) -> bool {
    exists|i: int| 0 <= i < s.len() && s[i].name == name
}

/// The position of the stat under this name.
pub open spec fn stat_idx(s: Seq<StatEntryV>, name: Seq<char>) -> int {
    choose|i: int| 0 <= i < s.len() && s[i].name == name
}

/// The stored stat under this name.
pub open spec fn stat_named(s: Seq<StatEntryV>, name: Seq<char>) -> RawStatV {
    s[stat_idx(s, name)].stat
}

/// Every stat in the document decodes cleanly against its tag.
pub open spec fn stats_decode_ok(s: Seq<StatEntryV>) -> bool {
    forall|i: int|
        0 <= i < s.len() ==> #[trigger] crate::stats::decode_stat_spec(s[i].stat) is Ok
}

/// Every stat in the document keeps a positive count where it has one.
pub open spec fn stats_counts_positive(s: Seq<StatEntryV>) -> bool {
    forall|i: int| 0 <= i < s.len() ==> #[trigger] crate::stats::count_positive(s[i].stat)
}

/// The stats document of one player under one namespace.
#[derive(Debug)]
pub struct PlayerGameStats {
    pub uuid: u128,
    pub namespace: String,
    pub stats: Vec<StatEntry>,
}

/// Ghost mirror of [`PlayerGameStats`].
#[verifier::ext_equal]
pub struct PlayerGameStatsV {
    pub uuid: u128,
    pub namespace: Seq<char>,
    pub stats: Seq<StatEntryV>,
}

impl View for PlayerGameStats {
    type V = PlayerGameStatsV;

    open spec fn view(&self) -> PlayerGameStatsV {
        PlayerGameStatsV {
            uuid: self.uuid,
            namespace: self.namespace@,
            stats: self.stats.deep_view(),
        }
    }
}

impl DeepView for PlayerGameStats {
    type V = PlayerGameStatsV;

    open spec fn deep_view(&self) -> PlayerGameStatsV {
        self@
    }
}

/// The namespace-wide stats document aggregating across all players.
#[derive(Debug)]
pub struct GlobalGameStats {
    pub namespace: String,
    pub stats: Vec<StatEntry>,
}

/// Ghost mirror of [`GlobalGameStats`].
#[verifier::ext_equal]
pub struct GlobalGameStatsV {
    pub namespace: Seq<char>,
    pub stats: Seq<StatEntryV>,
}

impl View for GlobalGameStats {
    type V = GlobalGameStatsV;

    open spec fn view(&self) -> GlobalGameStatsV {
        GlobalGameStatsV { namespace: self.namespace@, stats: self.stats.deep_view() }
    }
}

impl DeepView for GlobalGameStats {
    type V = GlobalGameStatsV;

    open spec fn deep_view(&self) -> GlobalGameStatsV {
        self@
    }
}

// ---------------------------------------------------------------------------
// Upload bundles
// ---------------------------------------------------------------------------

/// One named incremental update inside a bundle.
#[derive(Debug)]
pub struct StatUpdate {
    pub name: String,
    pub stat: UploadStat,
}

/// Ghost mirror of [`StatUpdate`].
#[verifier::ext_equal]
pub struct StatUpdateV {
    pub name: Seq<char>,
    pub stat: UploadStat,
}

impl View for StatUpdate {
    type V = StatUpdateV;

    open spec fn view(&self) -> StatUpdateV {
        StatUpdateV { name: self.name@, stat: self.stat }
    }
}

impl DeepView for StatUpdate {
    type V = StatUpdateV;

    open spec fn deep_view(&self) -> StatUpdateV {
        self@
    }
}

/// The updates one bundle carries for one player.
#[derive(Debug)]
pub struct PlayerUpload {
    pub uuid: u128,
    pub stats: Vec<StatUpdate>,
}

/// Ghost mirror of [`PlayerUpload`].
#[verifier::ext_equal]
pub struct PlayerUploadV {
    pub uuid: u128,
    pub stats: Seq<StatUpdateV>,
}

impl View for PlayerUpload {
    type V = PlayerUploadV;

    open spec fn view(&self) -> PlayerUploadV {
        PlayerUploadV { uuid: self.uuid, stats: self.stats.deep_view() }
    }
}

impl DeepView for PlayerUpload {
    type V = PlayerUploadV;

    open spec fn deep_view(&self) -> PlayerUploadV {
        self@
    }
}

/// The per-player groups of updates in one bundle.
pub type PlayerStatsBundle = Vec<PlayerUpload>;

/// The named updates of one bundle: per-player groups, and optionally a
/// namespace-wide group folded into the global document.
#[derive(Debug)]
pub struct StatsBundle {
    pub global: Option<Vec<StatUpdate>>,
    pub players: PlayerStatsBundle,
}

/// A namespace-wide group of updates on its own.
#[derive(Debug)]
pub struct GlobalStatsBundle {
    pub namespace: String,
    pub stats: Vec<StatUpdate>,
}

/// One statistics upload from a game server: who sent it, which namespace
/// it belongs to, and the updates themselves.
#[derive(Debug)]
pub struct GameStatsBundle {
    pub server_name: String,
    pub namespace: String,
    pub stats: StatsBundle,
}

/// Ghost mirror of [`GameStatsBundle`].
#[verifier::ext_equal]
pub struct GameStatsBundleV {
    pub server_name: Seq<char>,
    pub namespace: Seq<char>,
    pub global: Option<Seq<StatUpdateV>>,
    pub players: Seq<PlayerUploadV>,
}

impl View for GameStatsBundle {
    type V = GameStatsBundleV;

    open spec fn view(&self) -> GameStatsBundleV {
        GameStatsBundleV {
            server_name: self.server_name@,
            namespace: self.namespace@,
            global: self.stats.global.deep_view(),
            players: self.stats.players.deep_view(),
        }
    }
}

impl GameStatsBundleV {
    /// Bundles decoded from the wire have unique player identifiers and,
    /// per group, unique stat names, since each group arrives as a map.
    pub open spec fn wf(self) -> bool {
        &&& forall|i: int, j: int|
            0 <= i < j < self.players.len() ==> self.players[i].uuid != self.players[j].uuid
        &&& forall|k: int|
            0 <= k < self.players.len() ==> #[trigger] updates_wf(self.players[k].stats)
        &&& match self.global {
            Some(g) => updates_wf(g),
            None => true,
        }
    }

    /// Every stat name in the bundle is free of the path separator.
    pub open spec fn names_valid(self) -> bool {
        &&& forall|k: int|
            0 <= k < self.players.len() ==> #[trigger] updates_names_valid(self.players[k].stats)
        &&& match self.global {
            Some(g) => updates_names_valid(g),
            None => true,
        }
    }
}

/// Stat names within one update group are unique.
pub open spec fn updates_wf(s: Seq<StatUpdateV>) -> bool {
    forall|i: int, j: int| 0 <= i < j < s.len() ==> s[i].name != s[j].name
}

/// Every name in one update group is free of the path separator.
pub open spec fn updates_names_valid(s: Seq<StatUpdateV>) -> bool {
    forall|i: int| 0 <= i < s.len() ==> #[trigger] crate::valid_stat_name(s[i].name)
}

// ---------------------------------------------------------------------------
// Query responses
// ---------------------------------------------------------------------------

/// One decoded stat in a query response.
#[derive(Debug)]
pub struct NamedGameStat {
    pub name: String,
    pub value: GameStat,
}

/// Ghost mirror of [`NamedGameStat`].
#[verifier::ext_equal]
pub struct NamedGameStatV {
    pub name: Seq<char>,
    pub value: crate::stats::GameStatV,
}

impl View for NamedGameStat {
    type V = NamedGameStatV;

    open spec fn view(&self) -> NamedGameStatV {
        NamedGameStatV { name: self.name@, value: self.value@ }
    }
}

impl DeepView for NamedGameStat {
    type V = NamedGameStatV;

    open spec fn deep_view(&self) -> NamedGameStatV {
        self@
    }
}

/// The decoded stats of one namespace in a query response.
#[derive(Debug)]
pub struct NamespaceStats {
    pub namespace: String,
    pub stats: Vec<NamedGameStat>,
}

/// Ghost mirror of [`NamespaceStats`].
#[verifier::ext_equal]
pub struct NamespaceStatsV {
    pub namespace: Seq<char>,
    pub stats: Seq<NamedGameStatV>,
}

impl View for NamespaceStats {
    type V = NamespaceStatsV;

    open spec fn view(&self) -> NamespaceStatsV {
        NamespaceStatsV { namespace: self.namespace@, stats: self.stats.deep_view() }
    }
}

impl DeepView for NamespaceStats {
    type V = NamespaceStatsV;

    open spec fn deep_view(&self) -> NamespaceStatsV {
        self@
    }
}

/// A player's stats query response: per namespace, the decoded stats.
pub type PlayerStatsResponse = Vec<NamespaceStats>;

/// A flat map from stat names to integer values, as the query edge
/// publishes for clients that only consume integer totals.
#[derive(Debug)]
pub struct PlayerStats(pub Vec<(String, i64)>);

} // verus!
