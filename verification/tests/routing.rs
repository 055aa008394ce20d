use codechat_core::action_for_model;
use codechat_core::build_messages;
use codechat_core::compose_prompt;
use codechat_core::greet;
use codechat_core::select_model;

#[test]
fn auto_prefers_loaded_local_model_for_short_prompts() {
    assert_eq!(select_model("auto", true, 20), "local_phi2");
    assert_eq!(select_model("auto", true, 149), "local_phi2");
    assert_eq!(select_model("auto", true, 150), "cloud_deepseek");
    assert_eq!(select_model("auto", false, 20), "cloud_deepseek");
}

#[test]
fn explicit_model_is_kept() {
    assert_eq!(select_model("chatgpt", true, 20), "chatgpt");
    assert_eq!(select_model("openai_api", false, 2000), "openai_api");
}

#[test]
fn models_map_to_worker_actions() {
    assert_eq!(action_for_model("chatgpt"), "chat_chatgpt");
    assert_eq!(action_for_model("cloud_glm"), "chat_glm");
    assert_eq!(action_for_model("cloud_kimi"), "chat_kimi");
    assert_eq!(action_for_model("cloud_deepseek"), "chat_deepseek");
    assert_eq!(action_for_model("anything_else"), "chat_deepseek");
}

#[test]
fn prompt_composition_without_system_prompt() {
    assert_eq!(compose_prompt(None, "", "hola"), "hola");
    assert_eq!(compose_prompt(None, "ctx\n\n", "hola"), "ctx\n\nhola");
}

#[test]
fn prompt_composition_with_system_prompt() {
    assert_eq!(
        compose_prompt(Some("be brief"), "ctx ", "hola"),
        "Instrucciones del Sistema:\nbe brief\n\nUsuario:\nctx hola"
    );
}

#[test]
fn numbers_print_in_decimal() {
    assert_eq!(codechat_core::u64_to_string(0), "0");
    assert_eq!(codechat_core::u64_to_string(7), "7");
    assert_eq!(codechat_core::u64_to_string(10), "10");
    assert_eq!(codechat_core::u64_to_string(105), "105");
    assert_eq!(codechat_core::u64_to_string(u64::MAX), "18446744073709551615");
}

#[test]
fn context_block_is_exact() {
    let chunks = vec![
        codechat_core::DocumentChunk {
            id: 1,
            collection: String::from("default"),
            filename: String::from("notes.md"),
            content: String::from("alpha"),
        },
        codechat_core::DocumentChunk {
            id: 2,
            collection: String::from("default"),
            filename: String::from("guide.md"),
            content: String::from("beta"),
        },
    ];
    assert_eq!(
        codechat_core::format_context(&chunks),
        "\n\nContexto Recuperado (RAG):\n[1] (from notes.md): alpha\n[2] (from guide.md): beta\n\n\n"
    );
}

#[test]
fn empty_retrieval_adds_no_context() {
    assert_eq!(codechat_core::format_context(&Vec::new()), "");
}

#[test]
fn greeting_is_exact() {
    assert_eq!(greet("Ada"), "Hello, Ada! You've been greeted from Rust!");
}

#[test]
fn message_list_shapes() {
    let with_system = build_messages(Some("sys"), "question");
    assert_eq!(with_system.len(), 2);
    assert_eq!(with_system[0].role, "system");
    assert_eq!(with_system[0].content, "sys");
    assert_eq!(with_system[1].role, "user");
    assert_eq!(with_system[1].content, "question");

    let without = build_messages(None, "question");
    assert_eq!(without.len(), 1);
    assert_eq!(without[0].role, "user");
    assert_eq!(without[0].content, "question");
}
