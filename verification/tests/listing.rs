use game_runtime::listing::{list_characters, CharacterName};

fn named(id: &str, name: &str) -> CharacterName {
    CharacterName { id: id.to_string(), name: name.to_string() }
}

#[test]
fn characters_are_listed_by_name_then_id() {
    let disk = vec![named("c3", "悟空"), named("c1", "八戒"), named("c2", "八戒")];
    let stored = vec![named("c1", "八戒"), named("c9", "沙僧"), named("c0", "八戒")];
    let listed = list_characters(&disk, &stored);
    let shown: Vec<(&str, &str, bool)> = listed
        .iter()
        .map(|c| (c.name.as_str(), c.id.as_str(), c.model_file_exists))
        .collect();
    assert_eq!(
        shown,
        vec![
            ("八戒", "c0", false),
            ("八戒", "c1", true),
            ("八戒", "c2", true),
            ("悟空", "c3", true),
            ("沙僧", "c9", false),
        ]
    );
    assert!(list_characters(&Vec::new(), &Vec::new()).is_empty());
}
