use agent::models::{image_response, message_from_reply, ChatError, ChatModel, GenImgModel};
use agent::message::{Message, MessageRole};

fn provider(key: &str) -> String {
    format!("provider:{key}")
}

#[test]
fn chat_model_test_model_provider_mapping() {
    let ds_provider = provider("dummy_key");
    let or_provider = provider("dummy_key");

    let mut model = ChatModel::new();

    model.add_models_for_provider(&["deepseek-chat", "deepseek-reasoner"], ds_provider);
    model.add_model_provider("google/gemini-3-pro-preview", or_provider);

    assert!(model.has_model("deepseek-chat"));
    assert!(model.has_model("deepseek-reasoner"));
    assert!(model.has_model("google/gemini-3-pro-preview"));
    assert_eq!(model.model_count(), 3);
}

#[test]
fn chat_model_test_set_active_model() {
    let mut model = ChatModel::new();
    model.add_model_provider("deepseek-chat", provider("dummy_key"));

    let result = model.set_active_model("deepseek-chat");
    assert!(result.is_ok());
    assert_eq!(model.active_model(), Some("deepseek-chat"));

    let result = model.set_active_model("non-existent-model");
    assert!(result.is_err());
    assert!(matches!(result, Err(ChatError::ModelNotFound(_))));
}

#[test]
fn test_set_reasoning_options() {
    let mut model: ChatModel<String> = ChatModel::new();

    model.set_reasoning_effort("high");
    model.set_thinking_enabled(true);

    assert_eq!(model.reasoning_effort(), Some("high"));
    assert_eq!(model.thinking_enabled(), Some(true));
}

#[test]
fn gen_img_model_test_model_provider_mapping() {
    let or_provider = provider("dummy_key");

    let mut model = GenImgModel::new();

    model.add_models_for_provider(&["black-forest-labs/flux.2-klein-4b", "black-forest-labs/flux.1-pro"], or_provider);

    assert!(model.has_model("black-forest-labs/flux.2-klein-4b"));
    assert!(model.has_model("black-forest-labs/flux.1-pro"));
    assert_eq!(model.model_count(), 2);
}

#[test]
fn gen_img_model_test_set_active_model() {
    let mut model = GenImgModel::new();
    model.add_model_provider("black-forest-labs/flux.2-klein-4b", provider("dummy_key"));

    let result = model.set_active_model("black-forest-labs/flux.2-klein-4b");
    assert!(result.is_ok());
    assert_eq!(model.active_model(), Some("black-forest-labs/flux.2-klein-4b"));

    let result = model.set_active_model("non-existent-model");
    assert!(result.is_err());
    assert!(matches!(result, Err(ChatError::ModelNotFound(_))));
}

#[test]
fn test_builder_methods() {
    let model: GenImgModel<String> =
        GenImgModel::new().with_aspect_ratio("16:9".to_string()).with_image_size("2K".to_string());

    assert_eq!(model.aspect_ratio(), "16:9");
    assert_eq!(model.image_size(), "2K");
}

#[test]
fn first_provider_of_a_name_wins() {
    let mut model = ChatModel::new();
    model.add_model_provider("m", "first".to_string());
    model.add_model_provider("m", "second".to_string());
    assert_eq!(model.model_count(), 1);
    assert_eq!(model.get_provider("m").unwrap(), "first");
    match model.get_provider("x") {
        Err(ChatError::ModelNotFound(n)) => assert_eq!(n, "x"),
        _ => panic!("expected ModelNotFound"),
    }
}

#[test]
fn no_active_model_is_an_error() {
    let model: ChatModel<String> = ChatModel::new();
    match model.active_provider() {
        Err(e) => assert_eq!(e.to_text(), "Model not found: No active model set"),
        Ok(_) => panic!("expected an error"),
    }
}

#[test]
fn replies_become_messages_by_role() {
    let m = message_from_reply(MessageRole::Tool, None, None, None, Some("id-1".to_string()));
    assert!(matches!(m, Message::Tool { ref tool_call_id, ref content } if tool_call_id == "id-1" && content.is_empty()));
    let m = message_from_reply(MessageRole::Assistant, Some("hi".to_string()), Some("r".to_string()), None, None);
    assert_eq!(m.content(), "hi");
    assert_eq!(m.reasoning_content(), Some("r"));
}

#[test]
fn image_reply_without_images_is_no_response() {
    assert!(matches!(image_response(vec![]), Err(ChatError::NoResponse)));
    let r = image_response(vec!["http://x/1.png".to_string()]).unwrap();
    assert_eq!(r.image_urls, vec!["http://x/1.png".to_string()]);
}
