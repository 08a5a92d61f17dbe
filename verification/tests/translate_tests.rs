use backend_proxy::json::Json;
use backend_proxy::translate::translate_openai_responses_to_codex;
use backend_proxy::translate::choose_official_instructions;
use backend_proxy::translate::TranslateError;
use backend_proxy::translate::CODEX_INSTRUCTIONS;
use backend_proxy::translate::DEFAULT_INSTRUCTIONS;
use backend_proxy::translate::IGNORE_PREFIX;

fn s(text: &str) -> String {
    String::from(text)
}

fn obj(entries: Vec<(&str, Json)>) -> Json {
    Json::Obj(entries.into_iter().map(|(k, v)| (s(k), v)).collect())
}

fn get<'a>(j: &'a Json, key: &str) -> Option<&'a Json> {
    j.obj_get(key)
}

fn get_str<'a>(j: &'a Json, key: &str) -> &'a str {
    match get(j, key) {
        Some(Json::Str(v)) => v.as_str(),
        _ => panic!("expected a string under {key}"),
    }
}

fn text_part_text(part: &Json) -> &str {
    assert_eq!(get_str(part, "type"), "input_text");
    get_str(part, "text")
}

#[test]
fn missing_model_fails() {
    let body = obj(vec![("input", Json::Arr(vec![]))]);
    match translate_openai_responses_to_codex(body) {
        Err(TranslateError::MissingModel) => {}
        Ok(_) => panic!("translation must fail without a model"),
    }
}

#[test]
fn non_string_model_fails() {
    let body = obj(vec![("model", Json::Num(s("5")))]);
    match translate_openai_responses_to_codex(body) {
        Err(TranslateError::MissingModel) => {}
        Ok(_) => panic!("translation must fail on a non-string model"),
    }
}

#[test]
fn custom_instructions_become_guarded_user_message() {
    let body = obj(vec![
        ("model", Json::Str(s("gpt-5"))),
        ("instructions", Json::Str(s("custom"))),
        ("input", Json::Arr(vec![])),
    ]);
    let r = translate_openai_responses_to_codex(body).unwrap();
    assert_eq!(get_str(&r.body, "instructions"), DEFAULT_INSTRUCTIONS);
    match get(&r.body, "input") {
        Some(Json::Arr(elems)) => {
            assert_eq!(elems.len(), 1);
            let msg = &elems[0];
            assert_eq!(get_str(msg, "type"), "message");
            assert_eq!(get_str(msg, "role"), "user");
            match get(msg, "content") {
                Some(Json::Arr(parts)) => {
                    assert_eq!(parts.len(), 2);
                    assert_eq!(text_part_text(&parts[0]), IGNORE_PREFIX);
                    assert_eq!(text_part_text(&parts[1]), "custom");
                }
                _ => panic!("guard message must carry a content array"),
            }
        }
        _ => panic!("input must be an array"),
    }
    match get(&r.body, "store") {
        Some(Json::Bool(false)) => {}
        _ => panic!("store must be filled in as false"),
    }
    match get(&r.body, "include") {
        Some(Json::Arr(xs)) => {
            assert_eq!(xs.len(), 1);
            match &xs[0] {
                Json::Str(v) => assert_eq!(v, "reasoning.encrypted_content"),
                _ => panic!("include entry must be a string"),
            }
        }
        _ => panic!("include must be filled in"),
    }
    assert!(r.modified);
    assert!(!r.is_stream);
}

#[test]
fn codex_family_prefix_is_case_insensitive() {
    assert_eq!(choose_official_instructions("gpt-5-codex-mini"), CODEX_INSTRUCTIONS);
    assert_eq!(choose_official_instructions("GPT-5-Codex"), CODEX_INSTRUCTIONS);
    assert_eq!(choose_official_instructions("gpt-5"), DEFAULT_INSTRUCTIONS);
    assert_eq!(choose_official_instructions("o3"), DEFAULT_INSTRUCTIONS);
}

#[test]
fn translation_is_idempotent_on_instructions_and_store() {
    let body = obj(vec![
        ("model", Json::Str(s("gpt-5"))),
        ("instructions", Json::Str(s("custom"))),
        ("input", Json::Arr(vec![])),
    ]);
    let once = translate_openai_responses_to_codex(body).unwrap();
    let first_instructions = s(get_str(&once.body, "instructions"));
    let twice = translate_openai_responses_to_codex(once.body).unwrap();
    assert_eq!(get_str(&twice.body, "instructions"), first_instructions.as_str());
    match get(&twice.body, "store") {
        Some(Json::Bool(false)) => {}
        _ => panic!("store must stay false on a second translation"),
    }
}

#[test]
fn explicit_store_and_include_are_kept() {
    let body = obj(vec![
        ("model", Json::Str(s("gpt-5"))),
        ("store", Json::Bool(true)),
        ("include", Json::Arr(vec![Json::Str(s("other"))])),
    ]);
    let r = translate_openai_responses_to_codex(body).unwrap();
    match get(&r.body, "store") {
        Some(Json::Bool(true)) => {}
        _ => panic!("an explicit store value must not be overridden"),
    }
    match get(&r.body, "include") {
        Some(Json::Arr(xs)) => match &xs[0] {
            Json::Str(v) => assert_eq!(v, "other"),
            _ => panic!("include entry must be kept"),
        },
        _ => panic!("include must be kept"),
    }
}

#[test]
fn unsupported_parameters_are_removed_and_others_kept() {
    let body = obj(vec![
        ("model", Json::Str(s("gpt-5"))),
        ("temperature", Json::Num(s("0.2"))),
        ("top_p", Json::Num(s("0.9"))),
        ("max_output_tokens", Json::Num(s("100"))),
        ("max_completion_tokens", Json::Num(s("100"))),
        ("presence_penalty", Json::Num(s("0"))),
        ("frequency_penalty", Json::Num(s("0"))),
        ("service_tier", Json::Str(s("default"))),
        ("metadata", Json::Str(s("kept"))),
    ]);
    let r = translate_openai_responses_to_codex(body).unwrap();
    for key in [
        "temperature",
        "top_p",
        "max_output_tokens",
        "max_completion_tokens",
        "presence_penalty",
        "frequency_penalty",
        "service_tier",
    ] {
        assert!(get(&r.body, key).is_none(), "{key} must be removed");
    }
    assert_eq!(get_str(&r.body, "metadata"), "kept");
    assert_eq!(get_str(&r.body, "model"), "gpt-5");
}

#[test]
fn leading_system_message_moves_behind_guard() {
    let sys_msg = obj(vec![
        ("type", Json::Str(s("message"))),
        ("role", Json::Str(s("system"))),
        (
            "content",
            Json::Arr(vec![
                obj(vec![("type", Json::Str(s("input_text"))), ("text", Json::Str(s("line one")))]),
                obj(vec![("type", Json::Str(s("input_text"))), ("text", Json::Str(s("line two")))]),
            ]),
        ),
    ]);
    let user_msg = obj(vec![
        ("type", Json::Str(s("message"))),
        ("role", Json::Str(s("user"))),
        ("content", Json::Arr(vec![])),
    ]);
    let body = obj(vec![
        ("model", Json::Str(s("gpt-5"))),
        ("input", Json::Arr(vec![sys_msg, user_msg])),
    ]);
    let r = translate_openai_responses_to_codex(body).unwrap();
    match get(&r.body, "input") {
        Some(Json::Arr(elems)) => {
            assert_eq!(elems.len(), 2, "system message is replaced by the guard message");
            let msg = &elems[0];
            assert_eq!(get_str(msg, "role"), "user");
            match get(msg, "content") {
                Some(Json::Arr(parts)) => {
                    assert_eq!(text_part_text(&parts[0]), IGNORE_PREFIX);
                    assert_eq!(text_part_text(&parts[1]), "line one\nline two");
                }
                _ => panic!("guard message must carry a content array"),
            }
            assert_eq!(get_str(&elems[1], "role"), "user");
        }
        _ => panic!("input must stay an array"),
    }
    assert!(r.modified);
}

#[test]
fn instructions_equal_to_official_are_not_guarded() {
    let body = obj(vec![
        ("model", Json::Str(s("gpt-5"))),
        ("instructions", Json::Str(format!("  {DEFAULT_INSTRUCTIONS}  "))),
        ("input", Json::Arr(vec![])),
    ]);
    let r = translate_openai_responses_to_codex(body).unwrap();
    match get(&r.body, "input") {
        Some(Json::Arr(elems)) => assert_eq!(elems.len(), 0),
        _ => panic!("input must stay an array"),
    }
    assert!(!r.modified);
}

#[test]
fn trimming_covers_unicode_whitespace() {
    let body = obj(vec![
        ("model", Json::Str(s("gpt-5"))),
        ("instructions", Json::Str(format!("\u{a0}{DEFAULT_INSTRUCTIONS}\u{2002}"))),
        ("input", Json::Arr(vec![])),
    ]);
    let r = translate_openai_responses_to_codex(body).unwrap();
    match get(&r.body, "input") {
        Some(Json::Arr(elems)) => assert_eq!(
            elems.len(),
            0,
            "instructions that differ only by Unicode whitespace are the official text"
        ),
        _ => panic!("input must stay an array"),
    }
    assert!(!r.modified);
}

#[test]
fn system_field_is_used_when_instructions_do_not_differ() {
    let body = obj(vec![
        ("model", Json::Str(s("gpt-5"))),
        ("system", Json::Str(s("from system field"))),
    ]);
    let r = translate_openai_responses_to_codex(body).unwrap();
    match get(&r.body, "input") {
        Some(Json::Arr(elems)) => {
            assert_eq!(elems.len(), 1);
            match get(&elems[0], "content") {
                Some(Json::Arr(parts)) => {
                    assert_eq!(text_part_text(&parts[1]), "from system field");
                }
                _ => panic!("guard message must carry a content array"),
            }
        }
        _ => panic!("missing input must be filled with the guard message"),
    }
}

#[test]
fn stream_flag_is_read_out() {
    let body = obj(vec![("model", Json::Str(s("gpt-5"))), ("stream", Json::Bool(true))]);
    let r = translate_openai_responses_to_codex(body).unwrap();
    assert!(r.is_stream);
    let body2 = obj(vec![("model", Json::Str(s("gpt-5")))]);
    let r2 = translate_openai_responses_to_codex(body2).unwrap();
    assert!(!r2.is_stream);
    let body3 = obj(vec![("model", Json::Str(s("gpt-5"))), ("stream", Json::Str(s("true")))]);
    let r3 = translate_openai_responses_to_codex(body3).unwrap();
    assert!(!r3.is_stream, "a non-boolean stream value does not count");
}

#[test]
fn non_text_parts_do_not_join_and_empty_system_text_is_ignored() {
    let sys_msg = obj(vec![
        ("role", Json::Str(s("system"))),
        (
            "content",
            Json::Arr(vec![
                obj(vec![("type", Json::Str(s("input_image"))), ("text", Json::Str(s("pic")))]),
                obj(vec![("type", Json::Str(s("input_text"))), ("text", Json::Str(s("   ")))]),
            ]),
        ),
    ]);
    let body = obj(vec![
        ("model", Json::Str(s("gpt-5"))),
        ("input", Json::Arr(vec![sys_msg])),
    ]);
    let r = translate_openai_responses_to_codex(body).unwrap();
    assert!(!r.modified, "whitespace-only joined text supplies no system text");
    match get(&r.body, "input") {
        Some(Json::Arr(elems)) => {
            assert_eq!(elems.len(), 1, "the system message stays when nothing was taken from it")
        }
        _ => panic!("input must stay an array"),
    }
}

#[test]
fn non_array_input_is_replaced_by_guard_alone() {
    let body = obj(vec![
        ("model", Json::Str(s("gpt-5"))),
        ("instructions", Json::Str(s("custom"))),
        ("input", Json::Str(s("not an array"))),
    ]);
    let r = translate_openai_responses_to_codex(body).unwrap();
    match get(&r.body, "input") {
        Some(Json::Arr(elems)) => assert_eq!(elems.len(), 1),
        _ => panic!("non-array input must be replaced by an array"),
    }
    assert!(r.modified);
}
