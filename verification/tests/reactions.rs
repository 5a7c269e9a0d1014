use siggy::reactions::{reaction_plan, reaction_target_author, reaction_target_index, ReactionRow};

fn row(emoji: &str, sender: &str, from_me: bool) -> ReactionRow {
    ReactionRow { emoji: emoji.to_string(), sender: sender.to_string(), from_me }
}

fn view(rs: &[ReactionRow]) -> Vec<(String, String, bool)> {
    rs.iter().map(|r| (r.emoji.clone(), r.sender.clone(), r.from_me)).collect()
}

#[test]
fn reaction_same_emoji_toggles_off() {
    let rs = vec![row("👍", "Alice", false), row("👍", "you", true)];
    let (remove, after) = reaction_plan(&rs, "👍");
    assert!(remove);
    assert_eq!(view(&after), vec![("👍".to_string(), "Alice".to_string(), false)]);
}

#[test]
fn reaction_replaces_own_other_emoji() {
    let rs = vec![row("👍", "Alice", false), row("❤️", "you", true)];
    let (remove, after) = reaction_plan(&rs, "😂");
    assert!(!remove);
    assert_eq!(
        view(&after),
        vec![("👍".to_string(), "Alice".to_string(), false), ("😂".to_string(), "you".to_string(), true)]
    );
}

#[test]
fn reaction_first_own_is_added_as_you() {
    let rs = vec![row("👍", "Alice", false)];
    let (remove, after) = reaction_plan(&rs, "👍");
    assert!(!remove);
    assert_eq!(after.len(), 2);
    assert_eq!(view(&after)[1], ("👍".to_string(), "you".to_string(), true));
}

#[test]
fn reaction_target_defaults_to_newest() {
    assert_eq!(reaction_target_index(None, 3), Some(2));
    assert_eq!(reaction_target_index(Some(1), 3), Some(1));
    assert_eq!(reaction_target_index(Some(3), 3), None);
    assert_eq!(reaction_target_index(None, 0), None);
}

#[test]
fn reaction_target_author_resolution() {
    let contacts = vec![("+1".to_string(), "Alice".to_string()), ("+2".to_string(), "Bob".to_string())];
    let me = "+9".to_string();
    assert_eq!(reaction_target_author(true, &me, &"Alice".to_string(), &contacts), "+9");
    assert_eq!(reaction_target_author(false, &me, &"Bob".to_string(), &contacts), "+2");
    assert_eq!(reaction_target_author(false, &me, &"+7".to_string(), &contacts), "+7");
}
