use podsync::auth::BasicAuth;
use podsync::device::{DeviceType, DeviceUpdate};
use podsync::episode::{EpisodeActionKind, EpisodeActionUpload, QueryEpisodes};
use podsync::error::Error;
use podsync::podsync::PodSync;
use podsync::subscription::SubscriptionChanges;

fn logged_in(user: &str, pass: &str) -> (PodSync, podsync::auth::Authed) {
    let mut s = PodSync::new();
    s.add_user(String::from(user), pass, 11).unwrap();
    let auth = BasicAuth::new(String::from(user), String::from(pass));
    let token = s.login(&auth, None).unwrap();
    (s, token)
}

fn changes(add: &[&str], remove: &[&str]) -> SubscriptionChanges {
    SubscriptionChanges {
        add: add.iter().map(|u| String::from(*u)).collect(),
        remove: remove.iter().map(|u| String::from(*u)).collect(),
    }
}

fn play_upload(podcast: &str, episode: &str, ts: u64) -> EpisodeActionUpload {
    EpisodeActionUpload {
        podcast: String::from(podcast),
        episode: String::from(episode),
        action: EpisodeActionKind::Play { started: 0, position: 71, total: 300 },
        timestamp: ts,
        guid: None,
    }
}

#[test]
fn device_upsert_creates_then_partially_updates() {
    let (mut s, token) = logged_in("bob", "abc");
    assert!(s.devices(&token).is_empty());

    let up = DeviceUpdate { caption: Some(String::from("Phone")), dtype: None };
    s.update_device(&token, "phone", up).unwrap();
    let devs = s.devices(&token);
    assert_eq!(devs.len(), 1);
    assert_eq!(devs[0].id.as_str(), "phone");
    assert_eq!(devs[0].caption.as_str(), "Phone");
    assert_eq!(devs[0].dtype, DeviceType::Unknown);
    assert_eq!(devs[0].subscriptions, 0);

    // a partial update touches only the supplied field
    let up = DeviceUpdate { caption: None, dtype: Some(DeviceType::Mobile) };
    s.update_device(&token, "phone", up).unwrap();
    let devs = s.devices(&token);
    assert_eq!(devs.len(), 1);
    assert_eq!(devs[0].caption.as_str(), "Phone");
    assert_eq!(devs[0].dtype, DeviceType::Mobile);
}

#[test]
fn device_upsert_is_safe_under_identical_requests() {
    let (mut s, token) = logged_in("bob", "abc");
    let up = DeviceUpdate { caption: Some(String::from("Phone")), dtype: None };
    s.update_device(&token, "phone", up).unwrap();
    let up = DeviceUpdate { caption: Some(String::from("Phone")), dtype: None };
    s.update_device(&token, "phone", up).unwrap();
    assert_eq!(s.devices(&token).len(), 1);
}

#[test]
fn devices_count_active_subscriptions() {
    let (mut s, token) = logged_in("bob", "abc");
    s.update_device(&token, "phone", DeviceUpdate { caption: None, dtype: None }).unwrap();
    s.update_subscriptions(&token, "phone", changes(&["a", "b"], &[])).unwrap();
    s.update_subscriptions(&token, "phone", changes(&[], &["b"])).unwrap();
    let devs = s.devices(&token);
    assert_eq!(devs[0].subscriptions, 1);
}

#[test]
fn add_then_remove_reports_removed_only() {
    let (mut s, token) = logged_in("bob", "abc");
    let before = s.subscriptions(&token, "dev", 0).timestamp;
    s.update_subscriptions(&token, "dev", changes(&["x"], &[])).unwrap();
    s.update_subscriptions(&token, "dev", changes(&[], &["x"])).unwrap();
    let delta = s.subscriptions(&token, "dev", before);
    assert_eq!(delta.remove, vec![String::from("x")]);
    assert!(delta.add.is_empty());
}

#[test]
fn adding_twice_is_a_no_op() {
    let (mut s, token) = logged_in("bob", "abc");
    let r1 = s.update_subscriptions(&token, "dev", changes(&["x"], &[])).unwrap();
    let r2 = s.update_subscriptions(&token, "dev", changes(&["x"], &[])).unwrap();
    assert!(r2.timestamp > r1.timestamp);
    let delta = s.subscriptions(&token, "dev", 0);
    assert_eq!(delta.add, vec![String::from("x")]);
    assert!(delta.remove.is_empty());
    // the second add did not even move the change cursor: reading after the
    // first write sees nothing new
    let delta = s.subscriptions(&token, "dev", r1.timestamp);
    assert!(delta.add.is_empty() && delta.remove.is_empty());
}

#[test]
fn removing_an_absent_url_is_a_no_op() {
    let (mut s, token) = logged_in("bob", "abc");
    let r = s.update_subscriptions(&token, "dev", changes(&[], &["nothere"]));
    assert!(r.is_ok());
    let delta = s.subscriptions(&token, "dev", 0);
    assert!(delta.add.is_empty() && delta.remove.is_empty());
}

#[test]
fn url_on_both_sides_ends_up_added() {
    let (mut s, token) = logged_in("bob", "abc");
    s.update_subscriptions(&token, "dev", changes(&["x"], &["x"])).unwrap();
    let delta = s.subscriptions(&token, "dev", 0);
    assert_eq!(delta.add, vec![String::from("x")]);
    assert!(delta.remove.is_empty());
}

#[test]
fn remove_then_readd_nets_as_added() {
    let (mut s, token) = logged_in("bob", "abc");
    let before = s.subscriptions(&token, "dev", 0).timestamp;
    s.update_subscriptions(&token, "dev", changes(&["x"], &[])).unwrap();
    s.update_subscriptions(&token, "dev", changes(&[], &["x"])).unwrap();
    s.update_subscriptions(&token, "dev", changes(&["x"], &[])).unwrap();
    let delta = s.subscriptions(&token, "dev", before);
    assert_eq!(delta.add, vec![String::from("x")]);
    assert!(delta.remove.is_empty());
}

#[test]
fn deltas_are_scoped_to_the_device() {
    let (mut s, token) = logged_in("bob", "abc");
    s.update_subscriptions(&token, "phone", changes(&["x"], &[])).unwrap();
    let delta = s.subscriptions(&token, "laptop", 0);
    assert!(delta.add.is_empty() && delta.remove.is_empty());
}

#[test]
fn replayed_episode_batch_inserts_once() {
    let (mut s, token) = logged_in("bob", "abc");
    let batch = vec![play_upload("pod", "ep1", 1000)];
    s.update_episodes(&token, "dev", &batch).unwrap();
    let batch = vec![play_upload("pod", "ep1", 1000)];
    s.update_episodes(&token, "dev", &batch).unwrap();
    let delta = s.episodes(&token, QueryEpisodes { since: 0, podcast: None });
    assert_eq!(delta.actions.len(), 1);
    assert_eq!(delta.actions[0].episode.as_str(), "ep1");
    assert_eq!(
        delta.actions[0].action,
        EpisodeActionKind::Play { started: 0, position: 71, total: 300 }
    );
}

#[test]
fn duplicate_inside_one_batch_inserts_once() {
    let (mut s, token) = logged_in("bob", "abc");
    let batch = vec![play_upload("pod", "ep1", 1000), play_upload("pod", "ep1", 1000)];
    s.update_episodes(&token, "dev", &batch).unwrap();
    let delta = s.episodes(&token, QueryEpisodes { since: 0, podcast: None });
    assert_eq!(delta.actions.len(), 1);
}

#[test]
fn episode_delta_filters_by_podcast_and_cursor() {
    let (mut s, token) = logged_in("bob", "abc");
    let r1 = s
        .update_episodes(&token, "dev", &vec![play_upload("podA", "a1", 10)])
        .unwrap();
    s.update_episodes(&token, "dev", &vec![play_upload("podB", "b1", 5)]).unwrap();
    let all = s.episodes(&token, QueryEpisodes { since: 0, podcast: None });
    assert_eq!(all.actions.len(), 2);
    assert!(all.actions[0].created <= all.actions[1].created);
    let only_b = s.episodes(
        &token,
        QueryEpisodes { since: 0, podcast: Some(String::from("podB")) },
    );
    assert_eq!(only_b.actions.len(), 1);
    assert_eq!(only_b.actions[0].podcast.as_str(), "podB");
    let late = s.episodes(&token, QueryEpisodes { since: r1.timestamp, podcast: None });
    assert_eq!(late.actions.len(), 1);
    assert_eq!(late.actions[0].podcast.as_str(), "podB");
}

#[test]
fn cursors_never_decrease_whatever_the_client_clock_says() {
    let (mut s, token) = logged_in("bob", "abc");
    let r1 = s
        .update_episodes(&token, "dev", &vec![play_upload("pod", "e1", 9_999_999)])
        .unwrap();
    let r2 = s
        .update_episodes(&token, "dev", &vec![play_upload("pod", "e2", 3)])
        .unwrap();
    let r3 = s.update_subscriptions(&token, "dev", changes(&["x"], &[])).unwrap();
    assert!(r1.timestamp < r2.timestamp);
    assert!(r2.timestamp < r3.timestamp);
}

#[test]
fn non_play_actions_carry_no_progress() {
    let (mut s, token) = logged_in("bob", "abc");
    let up = EpisodeActionUpload {
        podcast: String::from("pod"),
        episode: String::from("e1"),
        action: EpisodeActionKind::Download,
        timestamp: 1,
        guid: Some(String::from("g-1")),
    };
    s.update_episodes(&token, "dev", &vec![up]).unwrap();
    let delta = s.episodes(&token, QueryEpisodes { since: 0, podcast: None });
    assert_eq!(delta.actions[0].action, EpisodeActionKind::Download);
    assert_eq!(delta.actions[0].guid, Some(String::from("g-1")));
}

#[test]
fn end_to_end_scenario() {
    // login as bob/abc; devices is empty; upsert phone with caption Phone;
    // devices lists it; logout; the stale cookie is refused.
    let mut s = PodSync::new();
    s.add_user(String::from("bob"), "abc", 3).unwrap();
    let auth = BasicAuth::new(String::from("bob"), String::from("abc"));
    let auth = auth.with_path_username("bob").unwrap();
    let token = s.login(&auth, None).unwrap();
    let sid = token.session_id();

    let token = s.authenticate(sid).unwrap().with_user("bob").unwrap();
    assert!(s.devices(&token).is_empty());

    let up = DeviceUpdate { caption: Some(String::from("Phone")), dtype: None };
    s.update_device(&token, "phone", up).unwrap();

    let devs = s.devices(&token);
    assert_eq!(devs.len(), 1);
    assert_eq!(devs[0].caption.as_str(), "Phone");

    s.logout(token).unwrap();
    assert!(matches!(s.authenticate(sid), Err(Error::Unauthorized)));
}

#[test]
fn query_since_carries_the_cursor() {
    let q = podsync::QuerySince { since: 41 };
    assert_eq!(q.since, 41);
}
