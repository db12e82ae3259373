use game_runtime::ai_config::{
    check_provider_models, first_unknown_model, unknown_model_message, DeclaredModel,
};

fn model(id: &str, provider: &str, model_id: &str) -> DeclaredModel {
    DeclaredModel {
        id: id.to_string(),
        provider_code: provider.to_string(),
        model_id: model_id.to_string(),
    }
}

fn strings(list: &[&str]) -> Vec<String> {
    list.iter().map(|s| s.to_string()).collect()
}

#[test]
fn a_provider_declares_each_of_its_models_once() {
    let good = vec![model("m1", "openai", "gpt-a"), model("m2", "openai", "gpt-b")];
    assert_eq!(check_provider_models("openai", &good), Ok(()));
    let foreign = vec![model("m1", "openai", "gpt-a"), model("m2", "other", "gpt-b")];
    assert_eq!(
        check_provider_models("openai", &foreign),
        Err("invalid or duplicate model gpt-b for provider openai".to_string())
    );
    let same_id = vec![model("m1", "openai", "gpt-a"), model("m1", "openai", "gpt-b")];
    assert_eq!(
        check_provider_models("openai", &same_id),
        Err("invalid or duplicate model gpt-b for provider openai".to_string())
    );
    let same_name = vec![model("m1", "openai", "gpt-a"), model("m2", "openai", "gpt-a")];
    assert_eq!(
        check_provider_models("openai", &same_name),
        Err("invalid or duplicate model gpt-a for provider openai".to_string())
    );
    assert_eq!(check_provider_models("openai", &[]), Ok(()));
}

#[test]
fn agents_are_bound_only_to_known_models() {
    let known = strings(&["m1", "m2"]);
    assert_eq!(first_unknown_model(&known, &strings(&["m2", "m1"])), None);
    assert_eq!(first_unknown_model(&known, &strings(&["m1", "m9", "m8"])), Some(1));
    assert_eq!(unknown_model_message("m9"), "AI model m9");
}
