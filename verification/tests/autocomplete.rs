use siggy::autocomplete::{
    autocomplete, contains_chars, Completion, CommandName, ContactRow, ConversationRow, GroupRow,
    JoinCandidate, MentionRow,
};

fn cmd(name: &str, alias: &str) -> CommandName {
    CommandName { name: name.to_string(), alias: alias.to_string() }
}

fn table() -> Vec<CommandName> {
    vec![cmd("/join", "/j"), cmd("/part", "/p"), cmd("/quit", "/q"), cmd("/help", "")]
}

fn contact(key: &str, name: &str) -> ContactRow {
    ContactRow { key: key.to_string(), name: name.to_string(), username: None }
}

fn run(buffer: &str, contacts: &Vec<ContactRow>, groups: &Vec<GroupRow>) -> (Completion, usize) {
    autocomplete(buffer, buffer.len(), &table(), contacts, groups, &vec![], &None, 0)
}

fn joins(c: &Completion) -> Vec<(String, String)> {
    match c {
        Completion::Join { candidates } => {
            candidates.iter().map(|j: &JoinCandidate| (j.display.clone(), j.value.clone())).collect()
        }
        _ => panic!("expected join completion"),
    }
}

#[test]
fn autocomplete_commands_by_name_or_alias_prefix() {
    let (c, _) = run("/", &vec![], &vec![]);
    assert!(matches!(c, Completion::Command { ref candidates } if candidates == &vec![0, 1, 2, 3]));
    let (c, _) = run("/jo", &vec![], &vec![]);
    assert!(matches!(c, Completion::Command { ref candidates } if candidates == &vec![0]));
    // The alias matches too, and the typed text is lower-cased first.
    let (c, _) = run("/P", &vec![], &vec![]);
    assert!(matches!(c, Completion::Command { ref candidates } if candidates == &vec![1]));
    assert!(matches!(run("/zzz", &vec![], &vec![]).0, Completion::Closed));
    assert!(matches!(run("hello", &vec![], &vec![]).0, Completion::Closed));
}

#[test]
fn autocomplete_index_is_kept_in_range() {
    let (c, idx) = autocomplete("/", 1, &table(), &vec![], &vec![], &vec![], &None, 9);
    assert!(matches!(c, Completion::Command { .. }));
    assert_eq!(idx, 0);
    let (_, kept) = autocomplete("/", 1, &table(), &vec![], &vec![], &vec![], &None, 2);
    assert_eq!(kept, 2);
    let (_, closed) = autocomplete("zzz", 3, &table(), &vec![], &vec![], &vec![], &None, 2);
    assert_eq!(closed, 0);
}

#[test]
fn autocomplete_join_shows_contacts_and_groups_sorted() {
    let contacts = vec![contact("+2", "bob"), contact("+1", "Alice")];
    let groups = vec![GroupRow { id: "g1".to_string(), name: "Family".to_string() }];
    let (c, _) = run("/join ", &contacts, &groups);
    assert_eq!(
        joins(&c),
        vec![
            ("#Family".to_string(), "g1".to_string()),
            ("Alice (+1)".to_string(), "+1".to_string()),
            ("bob (+2)".to_string(), "+2".to_string()),
        ]
    );
    // `/j ` works the same.
    assert_eq!(joins(&run("/j ", &contacts, &vec![]).0).len(), 2);
}

#[test]
fn autocomplete_join_filters_by_name_or_number() {
    let contacts = vec![contact("+1234", "Alice"), contact("+5678", "Bob")];
    assert_eq!(joins(&run("/join al", &contacts, &vec![]).0), vec![("Alice (+1234)".to_string(), "+1234".to_string())]);
    assert_eq!(joins(&run("/join +123", &contacts, &vec![]).0)[0].1, "+1234");
    assert!(matches!(run("/join zzz", &contacts, &vec![]).0, Completion::Closed));
}

#[test]
fn autocomplete_join_offers_usernames_and_skips_bare_ids() {
    let contacts = vec![
        ContactRow { key: "uuid-1".to_string(), name: "Carol".to_string(), username: Some("carol.01".to_string()) },
        contact("uuid-2", "Dave"),
    ];
    assert_eq!(
        joins(&run("/join ", &contacts, &vec![]).0),
        vec![("Carol (@carol.01)".to_string(), "@carol.01".to_string())]
    );
}

#[test]
fn autocomplete_join_adds_unlisted_conversations() {
    let contacts = vec![contact("+1", "Alice")];
    let convs = vec![
        ConversationRow { id: "+1".to_string(), name: "Alice".to_string(), is_group: false },
        ConversationRow { id: "+9".to_string(), name: "Zed".to_string(), is_group: false },
        ConversationRow { id: "g7".to_string(), name: "Book club".to_string(), is_group: true },
    ];
    let (c, _) = autocomplete("/join ", 6, &table(), &contacts, &vec![], &convs, &None, 0);
    assert_eq!(
        joins(&c),
        vec![
            ("#Book club".to_string(), "g7".to_string()),
            ("Alice (+1)".to_string(), "+1".to_string()),
            ("Zed (+9)".to_string(), "+9".to_string()),
        ]
    );
}

fn row(phone: &str, name: &str) -> MentionRow {
    MentionRow { phone: phone.to_string(), name: name.to_string(), uuid: None }
}

#[test]
fn autocomplete_mention_in_direct_chat() {
    let rows = Some(vec![row("+1", "Alice")]);
    let (c, _) = autocomplete("@Al", 3, &table(), &vec![], &vec![], &vec![], &rows, 0);
    match c {
        Completion::Mention { candidates, trigger_pos } => {
            assert_eq!(candidates.len(), 1);
            assert_eq!(candidates[0].name, "Alice");
            assert_eq!(trigger_pos, 0);
        }
        _ => panic!("expected mention completion"),
    }
}

#[test]
fn autocomplete_mention_in_group_filters_and_sorts() {
    let rows = Some(vec![row("+2", "bob"), row("+1", "Alice"), row("+3", "Albert")]);
    let (c, _) = autocomplete("hi @Al", 6, &table(), &vec![], &vec![], &vec![], &rows, 0);
    match c {
        Completion::Mention { candidates, trigger_pos } => {
            let names: Vec<&str> = candidates.iter().map(|r| r.name.as_str()).collect();
            assert_eq!(names, vec!["Albert", "Alice"]);
            assert_eq!(trigger_pos, 3);
        }
        _ => panic!("expected mention completion"),
    }
    // Every member when nothing follows the `@`; by number too.
    let (all, _) = autocomplete("@", 1, &table(), &vec![], &vec![], &vec![], &rows, 0);
    assert!(matches!(all, Completion::Mention { ref candidates, .. } if candidates.len() == 3));
    let (by_phone, _) = autocomplete("@+2", 3, &table(), &vec![], &vec![], &vec![], &rows, 0);
    assert!(matches!(by_phone, Completion::Mention { ref candidates, .. } if candidates[0].name == "bob"));
    // No open conversation, or an `@` glued to a word: nothing.
    assert!(matches!(autocomplete("@Al", 3, &table(), &vec![], &vec![], &vec![], &None, 0).0, Completion::Closed));
    assert!(matches!(autocomplete("me@Al", 5, &table(), &vec![], &vec![], &vec![], &rows, 0).0, Completion::Closed));
}

#[test]
fn autocomplete_substring_search() {
    let hay: Vec<char> = "alice".chars().collect();
    assert!(contains_chars(&hay, &"lic".chars().collect()));
    assert!(contains_chars(&hay, &vec![]));
    assert!(!contains_chars(&hay, &"ce!".chars().collect()));
}

#[test]
fn autocomplete_sort_is_stable_for_equal_keys() {
    // "alice" and "Alice" share a lower-cased key: they keep their input order.
    let rows = Some(vec![row("+1", "alice"), row("+2", "Bob"), row("+3", "Alice")]);
    let (c, _) = autocomplete("@", 1, &table(), &vec![], &vec![], &vec![], &rows, 0);
    match c {
        Completion::Mention { candidates, .. } => {
            let phones: Vec<&str> = candidates.iter().map(|r| r.phone.as_str()).collect();
            assert_eq!(phones, vec!["+1", "+3", "+2"]);
        }
        _ => panic!("expected mention completion"),
    }
}
