use player_stats::model::{GameStatsBundle, PlayerUpload, StatUpdate, StatsBundle};
use player_stats::stats::{GameStat, Sample, UploadStat};
use player_stats::store::{StatsStore, UploadError};

const P: u128 = 0x1234_5678_9abc_def0_1122_3344_5566_7788;
const Q: u128 = 0x0fed_cba9_8765_4321_8877_6655_4433_2211;

fn one_player_bundle(player: u128, namespace: &str, name: &str, stat: UploadStat) -> GameStatsBundle {
    GameStatsBundle {
        server_name: String::from("lobby-1"),
        namespace: String::from(namespace),
        stats: StatsBundle {
            global: None,
            players: vec![PlayerUpload {
                uuid: player,
                stats: vec![StatUpdate { name: String::from(name), stat }],
            }],
        },
    }
}

fn decoded_value(store: &StatsStore, player: u128, namespace: &str, name: &str) -> f64 {
    let resp = store
        .get_player_stats(player, &Some(String::from(namespace)))
        .expect("the document must decode")
        .expect("the player must be known");
    for ns in &resp {
        if ns.namespace == namespace {
            for entry in &ns.stats {
                if entry.name == name {
                    return match &entry.value {
                        GameStat::IntTotal(v) => *v as f64,
                        GameStat::IntAverage { total, count } => *total as f64 / *count as f64,
                        GameStat::FloatTotal(samples) => samples
                            .iter()
                            .map(|s| match s {
                                Sample::Int(v) => *v as f64,
                                Sample::Float(b) => f64::from_bits(*b),
                            })
                            .sum(),
                        GameStat::FloatAverage { total, count } => {
                            let sum: f64 = total
                                .iter()
                                .map(|s| match s {
                                    Sample::Int(v) => *v as f64,
                                    Sample::Float(b) => f64::from_bits(*b),
                                })
                                .sum();
                            sum / *count as f64
                        },
                    };
                }
            }
        }
    }
    panic!("stat {} not found in namespace {}", name, namespace);
}

#[test]
fn upload_then_query_accumulates_int_totals() {
    let mut store = StatsStore::new();
    store
        .upload_stats_bundle(&one_player_bundle(P, "ffa", "kills", UploadStat::IntTotal(3)))
        .unwrap();
    store
        .upload_stats_bundle(&one_player_bundle(P, "ffa", "kills", UploadStat::IntTotal(2)))
        .unwrap();
    assert_eq!(decoded_value(&store, P, "ffa", "kills"), 5.0);
}

#[test]
fn same_sample_twice_makes_count_two_and_mean() {
    let mut store = StatsStore::new();
    let s = UploadStat::IntRollingAverage(7);
    store.upload_stats_bundle(&one_player_bundle(P, "ffa", "score", s)).unwrap();
    store.upload_stats_bundle(&one_player_bundle(P, "ffa", "score", s)).unwrap();
    assert_eq!(decoded_value(&store, P, "ffa", "score"), 7.0);

    let f = UploadStat::FloatRollingAverage(2.5f64.to_bits());
    store.upload_stats_bundle(&one_player_bundle(P, "ffa", "speed", f)).unwrap();
    store.upload_stats_bundle(&one_player_bundle(P, "ffa", "speed", f)).unwrap();
    assert_eq!(decoded_value(&store, P, "ffa", "speed"), 2.5);

    let t = UploadStat::FloatTotal(1.25f64.to_bits());
    store.upload_stats_bundle(&one_player_bundle(P, "ffa", "distance", t)).unwrap();
    store.upload_stats_bundle(&one_player_bundle(P, "ffa", "distance", t)).unwrap();
    assert_eq!(decoded_value(&store, P, "ffa", "distance"), 2.5);
}

#[test]
fn ensure_stats_document_is_idempotent() {
    let mut store = StatsStore::new();
    store.ensure_player_stats_document(P, "ffa");
    assert_eq!(store.player_stats.len(), 1);
    store.ensure_player_stats_document(P, "ffa");
    assert_eq!(store.player_stats.len(), 1);
    assert_eq!(store.profiles.len(), 1);
    assert_eq!(store.corrupt_stats.len(), 0);

    store.ensure_global_stats_document("ffa");
    assert_eq!(store.global_stats.len(), 1);
    store.ensure_global_stats_document("ffa");
    assert_eq!(store.global_stats.len(), 1);
}

#[test]
fn corrupt_document_is_quarantined_and_replaced() {
    let mut store = StatsStore::new();
    // a float upload followed by an int upload under the same name leaves
    // a float payload under an int tag: undecodable
    store
        .upload_stats_bundle(&one_player_bundle(P, "ffa", "x", UploadStat::FloatTotal(1.5f64.to_bits())))
        .unwrap();
    store
        .upload_stats_bundle(&one_player_bundle(P, "ffa", "x", UploadStat::IntTotal(2)))
        .unwrap();
    assert!(store.get_player_stats(P, &Some(String::from("ffa"))).is_err());

    store.ensure_player_stats_document(P, "ffa");
    assert_eq!(store.player_stats.len(), 1, "exactly one document for the subject");
    assert_eq!(store.player_stats[0].stats.len(), 0, "the fresh document has empty stats");
    assert_eq!(store.corrupt_stats.len(), 1, "exactly one quarantine record");
    assert_eq!(store.corrupt_stats[0].stats.len(), 1, "the record holds the raw content");
    assert_eq!(store.corrupt_stats[0].namespace, "ffa");
    assert_eq!(store.corrupt_stats[0].player, Some(P));
    assert!(!store.corrupt_stats[0].global);

    // a later ensure changes nothing further
    store.ensure_player_stats_document(P, "ffa");
    assert_eq!(store.player_stats.len(), 1);
    assert_eq!(store.corrupt_stats.len(), 1);
}

#[test]
fn profile_round_trip() {
    let mut store = StatsStore::new();
    store.update_player_profile(P, Some(String::from("alice")));
    let p = store.get_player_profile(P).expect("profile must exist");
    assert_eq!(p.username.as_deref(), Some("alice"));

    store.update_player_profile(P, Some(String::from("alice")));
    assert_eq!(store.profiles.len(), 1);
    let p = store.get_player_profile(P).unwrap();
    assert_eq!(p.username.as_deref(), Some("alice"));

    store.update_player_profile(P, Some(String::from("bob")));
    assert_eq!(store.profiles.len(), 1);
    let p = store.get_player_profile(P).unwrap();
    assert_eq!(p.username.as_deref(), Some("bob"));
}

#[test]
fn nameless_profile_gets_named() {
    let mut store = StatsStore::new();
    // a first stats upload tracks the player without a username
    store.ensure_player_stats_document(Q, "ffa");
    let p = store.get_player_profile(Q).expect("profile must exist");
    assert_eq!(p.username, None);

    // the next profile update with a name must name them
    store.update_player_profile(Q, Some(String::from("carol")));
    assert_eq!(store.profiles.len(), 1);
    let p = store.get_player_profile(Q).unwrap();
    assert_eq!(p.username.as_deref(), Some("carol"));
}

#[test]
fn bundle_with_separator_name_is_rejected_wholesale() {
    let mut store = StatsStore::new();
    let bundle = GameStatsBundle {
        server_name: String::from("lobby-1"),
        namespace: String::from("ffa"),
        stats: StatsBundle {
            global: Some(vec![StatUpdate {
                name: String::from("games"),
                stat: UploadStat::IntTotal(1),
            }]),
            players: vec![PlayerUpload {
                uuid: P,
                stats: vec![
                    StatUpdate { name: String::from("deaths"), stat: UploadStat::IntTotal(1) },
                    StatUpdate { name: String::from("kills.count"), stat: UploadStat::IntTotal(1) },
                ],
            }],
        },
    };
    match store.upload_stats_bundle(&bundle) {
        Err(UploadError::ValidationError) => {},
        _ => panic!("a bundle with a separator in a stat name must be rejected"),
    }
    assert_eq!(store.profiles.len(), 0, "no document may be touched");
    assert_eq!(store.player_stats.len(), 0);
    assert_eq!(store.global_stats.len(), 0);
}

#[test]
fn shape_clash_is_rejected_by_the_store() {
    let mut store = StatsStore::new();
    store
        .upload_stats_bundle(&one_player_bundle(P, "ffa", "y", UploadStat::IntTotal(1)))
        .unwrap();
    match store.upload_stats_bundle(&one_player_bundle(P, "ffa", "y", UploadStat::IntRollingAverage(1))) {
        Err(UploadError::StoreRejected) => {},
        _ => panic!("incrementing a scalar's subfields must be refused"),
    }
}

#[test]
fn unknown_player_is_not_found_but_empty_namespace_is_not() {
    let mut store = StatsStore::new();
    assert!(store.get_player_stats(P, &Some(String::from("ffa"))).unwrap().is_none());

    store.update_player_profile(Q, None);
    let resp = store.get_player_stats(Q, &Some(String::from("ffa"))).unwrap();
    let resp = resp.expect("a known player is found");
    assert_eq!(resp.len(), 1, "the requested namespace appears in the response");
    assert_eq!(resp[0].namespace, "ffa");
    assert!(resp[0].stats.is_empty(), "no stats in the namespace yields an empty mapping");
}

#[test]
fn global_stats_accumulate_across_uploads() {
    let mut store = StatsStore::new();
    let bundle = GameStatsBundle {
        server_name: String::from("lobby-1"),
        namespace: String::from("ffa"),
        stats: StatsBundle {
            global: Some(vec![StatUpdate {
                name: String::from("games_played"),
                stat: UploadStat::IntTotal(4),
            }]),
            players: vec![],
        },
    };
    store.upload_stats_bundle(&bundle).unwrap();
    store.upload_stats_bundle(&bundle).unwrap();
    assert_eq!(store.global_stats.len(), 1);
    assert_eq!(store.global_stats[0].namespace, "ffa");
    assert_eq!(store.global_stats[0].stats.len(), 1);
}

#[test]
fn uploads_touch_only_their_subjects() {
    let mut store = StatsStore::new();
    store
        .upload_stats_bundle(&one_player_bundle(P, "ffa", "kills", UploadStat::IntTotal(3)))
        .unwrap();
    store
        .upload_stats_bundle(&one_player_bundle(Q, "ffa", "kills", UploadStat::IntTotal(9)))
        .unwrap();
    assert_eq!(decoded_value(&store, P, "ffa", "kills"), 3.0);
    assert_eq!(decoded_value(&store, Q, "ffa", "kills"), 9.0);
    assert_eq!(store.player_stats.len(), 2);
}

#[test]
fn default_config_has_a_fresh_token() {
    let c = player_stats::config::Config::default();
    assert_eq!(c.database_url, "mongodb://localhost/");
    assert_eq!(c.database_name, "nucleoid_players");
    assert_eq!(c.api_port, 3030);
    assert_eq!(c.server_tokens.len(), 1);
    assert_eq!(c.server_tokens[0].len(), 64);
    assert!(c.server_tokens[0].chars().all(|ch| ch.is_ascii_alphanumeric()));
    let d = player_stats::config::Config::default();
    assert_ne!(c.server_tokens[0], d.server_tokens[0], "tokens are drawn at random");
}
