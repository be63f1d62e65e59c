use socket_server::outbound::Outbound;
use socket_server::registry::{Registry, RegistryError, DEFAULT_TOPIC};
use socket_server::Client;

fn channel() -> Outbound {
    tokio::sync::mpsc::unbounded_channel().0
}

fn ids(registry: &Registry) -> Vec<String> {
    let mut ids: Vec<String> = registry.snapshot().into_iter().map(|s| s.id).collect();
    ids.sort();
    ids
}

#[test]
fn new_registry_is_empty() {
    let registry = Registry::new();
    assert!(registry.snapshot().is_empty());
    assert!(!registry.contains("a"));
    assert!(registry.get("a").is_none());
}

#[test]
fn register_inserts_the_default_record() {
    let mut registry = Registry::new();
    assert_eq!(registry.register("a".to_string(), 7), Ok(()));
    assert!(registry.contains("a"));
    let client: &Client = registry.get("a").unwrap();
    assert_eq!(client.user_id, 7);
    assert_eq!(client.topics, vec!["cats".to_string()]);
    assert!(client.sender.is_none());
}

#[test]
fn register_refuses_a_taken_id_and_keeps_the_record() {
    let mut registry = Registry::new();
    assert_eq!(registry.register("a".to_string(), 1), Ok(()));
    assert_eq!(registry.update_topics("a", vec!["news".to_string()]), Ok(()));
    assert_eq!(registry.register("a".to_string(), 2), Err(RegistryError::DuplicateId));
    let client = registry.get("a").unwrap();
    assert_eq!(client.user_id, 1);
    assert_eq!(client.topics, vec!["news".to_string()]);
    assert_eq!(ids(&registry), vec!["a".to_string()]);
}

#[test]
fn ids_are_compared_by_their_whole_text() {
    let mut registry = Registry::new();
    assert_eq!(registry.register("ab".to_string(), 1), Ok(()));
    assert!(!registry.contains("a"));
    assert!(!registry.contains("abc"));
    assert!(!registry.contains("AB"));
    assert!(!registry.contains(""));
    assert_eq!(registry.register("a".to_string(), 2), Ok(()));
    assert_eq!(registry.register("".to_string(), 3), Ok(()));
    assert_eq!(registry.register("\u{e9}".to_string(), 4), Ok(()));
    assert!(!registry.contains("e"));
    assert_eq!(registry.get("\u{e9}").unwrap().user_id, 4);
    assert_eq!(registry.get("").unwrap().user_id, 3);
}

#[test]
fn attach_marks_the_record_connected() {
    let mut registry = Registry::new();
    registry.register("a".to_string(), 1).unwrap();
    registry.register("b".to_string(), 2).unwrap();
    assert_eq!(registry.attach("a", channel()), Ok(()));
    assert!(registry.get("a").unwrap().sender.is_some());
    assert!(registry.get("b").unwrap().sender.is_none());
    assert_eq!(registry.get("a").unwrap().user_id, 1);
    assert_eq!(registry.get("a").unwrap().topics, vec!["cats".to_string()]);
}

#[test]
fn attach_to_an_unknown_id_is_not_found() {
    let mut registry = Registry::new();
    registry.register("a".to_string(), 1).unwrap();
    assert_eq!(registry.attach("zz", channel()), Err(RegistryError::NotFound));
    assert_eq!(ids(&registry), vec!["a".to_string()]);
    assert!(registry.get("a").unwrap().sender.is_none());
}

#[test]
fn update_topics_replaces_and_does_not_merge() {
    let mut registry = Registry::new();
    registry.register("a".to_string(), 1).unwrap();
    assert_eq!(
        registry.update_topics("a", vec!["x".to_string(), "y".to_string()]),
        Ok(())
    );
    assert_eq!(registry.get("a").unwrap().topics, vec!["x".to_string(), "y".to_string()]);
    assert_eq!(registry.update_topics("a", vec!["z".to_string()]), Ok(()));
    assert_eq!(registry.get("a").unwrap().topics, vec!["z".to_string()]);
    assert_eq!(registry.update_topics("a", vec![]), Ok(()));
    assert!(registry.get("a").unwrap().topics.is_empty());
}

#[test]
fn update_topics_keeps_the_handle_and_the_user() {
    let mut registry = Registry::new();
    registry.register("a".to_string(), 5).unwrap();
    registry.attach("a", channel()).unwrap();
    registry.update_topics("a", vec!["x".to_string()]).unwrap();
    let client = registry.get("a").unwrap();
    assert_eq!(client.user_id, 5);
    assert!(client.sender.is_some());
}

#[test]
fn update_topics_of_an_unknown_id_is_not_found() {
    let mut registry = Registry::new();
    registry.register("a".to_string(), 1).unwrap();
    assert_eq!(
        registry.update_topics("b", vec!["x".to_string()]),
        Err(RegistryError::NotFound)
    );
    assert_eq!(registry.get("a").unwrap().topics, vec!["cats".to_string()]);
}

#[test]
fn remove_hands_back_the_record_once() {
    let mut registry = Registry::new();
    registry.register("a".to_string(), 1).unwrap();
    registry.register("b".to_string(), 2).unwrap();
    registry.register("c".to_string(), 3).unwrap();
    registry.update_topics("b", vec!["news".to_string()]).unwrap();
    let removed = registry.remove("b").unwrap();
    assert_eq!(removed.user_id, 2);
    assert_eq!(removed.topics, vec!["news".to_string()]);
    assert!(removed.sender.is_none());
    assert!(registry.remove("b").is_none());
    assert_eq!(ids(&registry), vec!["a".to_string(), "c".to_string()]);
    assert_eq!(registry.get("a").unwrap().user_id, 1);
    assert_eq!(registry.get("c").unwrap().user_id, 3);
}

#[test]
fn remove_of_an_unknown_id_changes_nothing() {
    let mut registry = Registry::new();
    registry.register("a".to_string(), 1).unwrap();
    assert!(registry.remove("nope").is_none());
    assert_eq!(ids(&registry), vec!["a".to_string()]);
}

#[test]
fn a_removed_id_can_be_registered_again() {
    let mut registry = Registry::new();
    registry.register("a".to_string(), 1).unwrap();
    registry.attach("a", channel()).unwrap();
    registry.update_topics("a", vec!["x".to_string()]).unwrap();
    registry.remove("a").unwrap();
    assert_eq!(registry.register("a".to_string(), 9), Ok(()));
    let client = registry.get("a").unwrap();
    assert_eq!(client.user_id, 9);
    assert_eq!(client.topics, vec!["cats".to_string()]);
    assert!(client.sender.is_none());
}

#[test]
fn snapshot_lists_each_record_once() {
    let mut registry = Registry::new();
    registry.register("a".to_string(), 1).unwrap();
    registry.register("b".to_string(), 2).unwrap();
    registry.attach("b", channel()).unwrap();
    registry.update_topics("b", vec!["x".to_string(), "y".to_string()]).unwrap();
    let mut listing = registry.snapshot();
    listing.sort_by(|l, r| l.id.cmp(&r.id));
    assert_eq!(listing.len(), 2);
    assert_eq!(listing[0].id, "a");
    assert_eq!(listing[0].user_id, 1);
    assert_eq!(listing[0].topics, vec!["cats".to_string()]);
    assert!(!listing[0].connected);
    assert_eq!(listing[1].id, "b");
    assert_eq!(listing[1].user_id, 2);
    assert_eq!(listing[1].topics, vec!["x".to_string(), "y".to_string()]);
    assert!(listing[1].connected);
}

#[test]
fn snapshot_is_a_copy() {
    let mut registry = Registry::new();
    registry.register("a".to_string(), 1).unwrap();
    let before = registry.snapshot();
    registry.update_topics("a", vec!["x".to_string()]).unwrap();
    registry.remove("a").unwrap();
    assert_eq!(before.len(), 1);
    assert_eq!(before[0].topics, vec!["cats".to_string()]);
}

#[test]
fn entry_exists_exactly_between_register_and_removal() {
    let mut registry = Registry::new();
    assert!(!registry.contains("a"));
    registry.register("a".to_string(), 1).unwrap();
    assert!(registry.contains("a"));
    registry.attach("a", channel()).unwrap();
    assert!(registry.contains("a"));
    registry.update_topics("a", vec!["t".to_string()]).unwrap();
    assert!(registry.contains("a"));
    let _ = registry.publish("t", None, "m");
    assert!(registry.contains("a"));
    registry.remove("a");
    assert!(!registry.contains("a"));
    let _ = registry.publish("t", None, "m");
    assert!(!registry.contains("a"));
    assert_eq!(registry.update_topics("a", vec![]), Err(RegistryError::NotFound));
    assert!(!registry.contains("a"));
}

#[test]
fn default_registry_is_empty() {
    let mut registry = Registry::default();
    assert!(registry.snapshot().is_empty());
    assert_eq!(registry.register("a".to_string(), 1), Ok(()));
    assert!(registry.contains("a"));
}

#[test]
fn default_topic_is_cats() {
    assert_eq!(DEFAULT_TOPIC, "cats");
    let mut registry = Registry::new();
    registry.register("a".to_string(), 1).unwrap();
    assert_eq!(registry.get("a").unwrap().topics, vec![DEFAULT_TOPIC.to_string()]);
}

#[test]
fn a_cloned_record_shares_the_channel() {
    let (tx, mut rx) = tokio::sync::mpsc::unbounded_channel();
    let mut registry = Registry::new();
    registry.register("a".to_string(), 1).unwrap();
    registry.attach("a", tx).unwrap();
    let copy: Client = registry.get("a").unwrap().clone();
    assert_eq!(copy.user_id, 1);
    assert_eq!(copy.topics, vec!["cats".to_string()]);
    registry.remove("a");
    // The copy still holds a producer half, so the channel stays open.
    assert!(matches!(rx.try_recv(), Err(tokio::sync::mpsc::error::TryRecvError::Empty)));
    drop(copy);
    assert!(matches!(rx.try_recv(), Err(tokio::sync::mpsc::error::TryRecvError::Disconnected)));
}
