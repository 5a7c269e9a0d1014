use siggy::autocomplete::ConversationRow;
use siggy::join::{join_decision, JoinDecision};

fn conv(id: &str, name: &str, is_group: bool) -> ConversationRow {
    ConversationRow { id: id.to_string(), name: name.to_string(), is_group }
}

fn decide(target: &str) -> JoinDecision {
    let usernames = vec![("alice.01".to_string(), "uuid-a".to_string())];
    let convs = vec![conv("+1", "Bob Smith", false), conv("g1", "Book Club", true), conv("x", "@carol", false)];
    let keys = vec!["uuid-d".to_string(), "g2".to_string()];
    let groups = vec!["g1".to_string(), "g2".to_string()];
    join_decision(target, &usernames, &convs, &keys, &groups)
}

#[test]
fn join_known_username_opens_contact() {
    match decide("@Alice.01") {
        JoinDecision::OpenContact { key, fallback_name } => {
            assert_eq!(key, "uuid-a");
            assert_eq!(fallback_name, "@Alice.01");
        }
        _ => panic!("expected contact"),
    }
    assert!(matches!(decide("u:alice.01"), JoinDecision::OpenContact { .. }));
}

#[test]
fn join_handle_named_conversation_ignoring_case() {
    assert!(matches!(decide("@CAROL"), JoinDecision::Activate { ref id } if id == "x"));
}

#[test]
fn join_unknown_handles() {
    match decide("@Dave.42") {
        JoinDecision::ResolveUsername { username, status } => {
            assert_eq!(username, "dave.42");
            assert_eq!(status, "Resolving @dave.42...");
        }
        _ => panic!("expected lookup"),
    }
    match decide("@dave") {
        JoinDecision::Report { status } => {
            assert_eq!(status, "Unknown username @dave - use the full handle (name.123)")
        }
        _ => panic!("expected report"),
    }
}

#[test]
fn join_by_id_name_key_or_number() {
    assert!(matches!(decide("g1"), JoinDecision::Activate { ref id } if id == "g1"));
    assert!(matches!(decide("book"), JoinDecision::Activate { ref id } if id == "g1"));
    assert!(matches!(decide("SMITH"), JoinDecision::Activate { ref id } if id == "+1"));
    assert!(matches!(decide("uuid-d"), JoinDecision::OpenContact { ref key, .. } if key == "uuid-d"));
    // A group id in the contact names is not resurrected as a 1:1 chat.
    assert!(matches!(decide("g2"), JoinDecision::Report { .. }));
    assert!(matches!(decide("+15550001111"), JoinDecision::CreateDirect { ref number } if number == "+15550001111"));
    match decide("nobody") {
        JoinDecision::Report { status } => assert_eq!(status, "Conversation not found: nobody"),
        _ => panic!("expected report"),
    }
}
