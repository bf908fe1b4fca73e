use lyryc::benchmark::{
    answer_limit, answer_lines, appears_truncated, clean_markdown_formatting, create_test_prompt,
    estimate_input_tokens, exceeds_budget, find_price, grade_answers, is_chat_model,
    is_object_line, is_successful, names_match_loosely, normalize_title, plain, pricing_keys,
    quality, request_model_id, score, title_is_usable, titles_match, AnswerLine, Grade,
    ModelInfo, Quality, Score, TestConfiguration, TestMetadata,
};

fn model(id: &str, original: Option<&str>, publisher: Option<&str>) -> ModelInfo {
    ModelInfo {
        id: id.to_string(),
        name: Some("Short Name".to_string()),
        original_name: original.map(|s| s.to_string()),
        friendly_name: None,
        task: Some("chat-completion".to_string()),
        publisher: publisher.map(|s| s.to_string()),
    }
}

fn names(list: &[&str]) -> Vec<String> {
    list.iter().map(|s| s.to_string()).collect()
}

#[test]
fn records_hold_their_fields() {
    let m = TestMetadata { test_date: "d".to_string(), test_data_size: 3, test_type: "t".to_string() };
    assert_eq!(m.clone().test_data_size, 3);
    let c = TestConfiguration {
        models_tested: names(&["a"]),
        test_data_source: "LyricCleanData.csv".to_string(),
        prompt_template: "TrackNameCleaner.prompt.yml".to_string(),
        pricing_data_source: "model_prices_and_context_window.json".to_string(),
        model_data_source: "available-models.json".to_string(),
    };
    assert_eq!(c.models_tested, vec!["a"]);
}

#[test]
fn chat_models_are_told_by_their_task() {
    let mut m = model("id", None, None);
    assert!(is_chat_model(&m));
    m.task = Some("embeddings".to_string());
    assert!(!is_chat_model(&m));
    m.task = None;
    assert!(!is_chat_model(&m));
}

#[test]
fn served_name_prefers_publisher_and_original_name() {
    assert_eq!(request_model_id(&model("id", Some("GPT-X"), Some("OpenAI"))), "openai/GPT-X");
    assert_eq!(request_model_id(&model("id", Some("GPT-X"), None)), "GPT-X");
    assert_eq!(request_model_id(&model("id", None, Some("OpenAI"))), "id");
}

#[test]
fn four_names_for_the_price_list() {
    assert_eq!(
        pricing_keys(&model("id", Some("GPT-X"), Some("OpenAI"))),
        vec!["id", "GPT-X", "Short Name", "openai/GPT-X"]
    );
    let mut m = model("id", None, None);
    m.name = None;
    assert_eq!(pricing_keys(&m), vec!["id", "", "", "/"]);
}

#[test]
fn price_is_found_by_name_then_by_likeness() {
    let list = names(&["other", "gpt-x-large", "Short-Name", "GPT X"]);
    // held under the name itself: the second name comes before the third
    assert_eq!(find_price(&names(&["nope", "GPT X", "Short-Name"]), &list), Some(3));
    // blanks to hyphens
    assert_eq!(find_price(&names(&["", "Short Name"]), &list), Some(2));
    // hyphens to blanks
    assert_eq!(find_price(&names(&["GPT-X"]), &list), Some(3));
    // loosely: without regard to case, one in the other
    assert_eq!(find_price(&names(&["X-LARGE"]), &list), Some(1));
    assert_eq!(find_price(&names(&["the other one"]), &list), Some(0));
    // too short to match loosely
    assert_eq!(find_price(&names(&["gpt"]), &list), None);
    assert_eq!(find_price(&names(&["", ""]), &list), None);
    assert_eq!(find_price(&names(&["a"]), &Vec::new()), None);
    assert!(names_match_loosely("Model", "big-model-v2"));
    assert!(!names_match_loosely("abc", "abcd"));
    assert!(names_match_loosely("abcd-long", "ABCD"));
}

#[test]
fn prompt_budget() {
    assert_eq!(estimate_input_tokens(10, 9), 4);
    assert!(!exceeds_budget(700, 1000));
    assert!(exceeds_budget(701, 1000));
    assert!(!exceeds_budget(0, 0));
    assert!(exceeds_budget(1, 1));
    assert_eq!(answer_limit(4096), 2048);
    assert_eq!(answer_limit(100_000), 3000);
    assert_eq!(answer_limit(6000), 3000);
}

#[test]
fn truncated_answers_are_noticed() {
    assert!(appears_truncated("{\"a\":1}\n{\"b\"", 3));
    assert!(!appears_truncated("{\"a\":1}\n{\"b\":2} ", 3));
    assert!(!appears_truncated("x\ny\nz", 3));
}

#[test]
fn markup_is_removed() {
    assert_eq!(
        clean_markdown_formatting("Here is the output:\n```json\n  {\"a\": 1}  \n\n`{\"b\": 2}`\n```\n"),
        "{\"a\": 1}\n{\"b\": 2}"
    );
    assert_eq!(clean_markdown_formatting("**Output:** x\n**Response:**\nResponse: y```JSON"), "x\ny");
    assert_eq!(clean_markdown_formatting(""), "");
    assert_eq!(answer_lines(" ```\n{\"a\":1}\n\n{\"b\":2}\n``` "), vec!["{\"a\":1}", "{\"b\":2}"]);
    assert_eq!(answer_lines(""), vec![""]);
}

#[test]
fn titles_are_normalised() {
    assert_eq!(normalize_title("  \"Song\" – Part… — End  "), "Song - Part... - End");
    assert_eq!(plain("  Hello,   WORLD!! ça-va 42 "), "hello world çava 42");
    assert_eq!(plain("?!"), "");
}

#[test]
fn titles_match_up_to_case_and_punctuation() {
    assert!(titles_match("Song Title", "Song Title"));
    assert!(titles_match("\"Song Title\"", "Song Title "));
    assert!(titles_match("song  title!", "Song Title"));
    assert!(titles_match("Song – Title", "Song - Title"));
    assert!(!titles_match("Song Title", "Song Titles"));
    assert!(!titles_match("SongTitle", "Song Title"));
}

fn answer(title: Option<&str>, confidence: bool, kept: bool, removed: bool) -> Option<AnswerLine> {
    Some(AnswerLine {
        cleaned_title: title.map(|s| s.to_string()),
        confidence_in_range: confidence,
        has_kept_markers: kept,
        has_removed_context: removed,
    })
}

#[test]
fn lines_are_marked_against_the_expected_titles() {
    let lines = vec![
        answer(Some(" Song One "), true, true, true),  // valid, right
        None,                                           // not read
        answer(Some("wrong"), true, true, true),        // valid, wrong
        answer(Some("Song Four"), false, true, true),   // confidence out of range
        answer(Some("Song Five"), true, false, true),   // no kept markers
        answer(Some("Song Six"), true, true, false),    // no removed context
        answer(None, true, true, true),                 // no title
        answer(Some("ERROR: x"), true, true, true),     // unusable
        answer(Some("song nine!"), true, true, true),   // valid, right up to punctuation
        answer(Some("extra"), true, true, true),        // valid, beyond the expected titles
    ];
    let expected = names(&["Song One", "Song Two", "Song Three", "Song Four", "Song Five", "Song Six", "Song Seven", "Song Eight", "Song Nine"]);
    assert_eq!(grade_answers(&lines, &expected), Grade { valid: 4, correct: 2 });
    assert_eq!(grade_answers(&Vec::new(), &expected), Grade { valid: 0, correct: 0 });
}

#[test]
fn usable_titles_and_object_lines() {
    assert!(title_is_usable(" x "));
    assert!(!title_is_usable("   "));
    assert!(!title_is_usable("bad \u{FFFD} bytes"));
    assert!(!title_is_usable("FAILED"));
    assert!(title_is_usable("An ERROR"));
    assert!(is_object_line("  {\"a\": 1}  "));
    assert!(!is_object_line("{\"a\": 1},"));
    assert!(!is_object_line("[1]"));
    assert!(is_object_line("{}"));
    assert!(!is_object_line("{"));
}

#[test]
fn score_follows_its_formula() {
    assert_eq!(score(0, 0, 0), Score { numerator: 0, denominator: 1 });
    assert_eq!(score(10, 0, 10), Score { numerator: 0, denominator: 1 });
    // complete, and nine in ten right: the share of right lines
    assert_eq!(score(10, 9, 10), Score { numerator: 9, denominator: 10 });
    assert_eq!(score(60, 54, 60), Score { numerator: 54, denominator: 60 });
    // complete, fewer than nine in ten: 0.6 * 8/10 * 10/10
    assert_eq!(score(10, 8, 10), Score { numerator: 480, denominator: 1000 });
    // incomplete: 0.6 * 9/10 * 9/10
    assert_eq!(score(9, 9, 10), Score { numerator: 486, denominator: 1000 });
    // more valid lines than titles could lift the product over one
    assert_eq!(score(40, 10, 10), Score { numerator: 1, denominator: 1 });
}

#[test]
fn quality_has_five_words() {
    assert_eq!(quality(20, 19, 20), Quality::Excellent);
    assert_eq!(quality(10, 9, 10), Quality::Good);
    assert_eq!(quality(40, 10, 10), Quality::Excellent);
    assert_eq!(quality(10, 8, 10), Quality::Poor);
    assert_eq!(quality(11, 10, 10), Quality::Fair);
    assert_eq!(quality(10, 4, 10), Quality::VeryPoor);
    assert_eq!(quality(0, 0, 0), Quality::VeryPoor);
    assert_eq!(
        [Quality::Excellent.name(), Quality::Good.name(), Quality::Fair.name(), Quality::Poor.name(), Quality::VeryPoor.name()],
        ["excellent", "good", "fair", "poor", "very_poor"]
    );
}

#[test]
fn success_needs_score_and_right_titles() {
    assert!(is_successful(false, 10, 9, 10));
    assert!(!is_successful(true, 10, 9, 10));
    assert!(!is_successful(false, 10, 8, 10));
    assert!(is_successful(false, 60, 54, 60));
    assert!(!is_successful(false, 0, 0, 0));
}

#[test]
fn prompt_lists_the_titles() {
    let p = create_test_prompt(&names(&["First", "Second"]));
    assert!(p.starts_with("**Task**: Clean the following track titles"));
    assert!(p.contains("**Items (one per line):**\n\n```\nFirst\nSecond\n```\n\n**Output Format - CRITICAL**:"));
    assert!(p.ends_with("Do not use markdown, code blocks, or any formatting."));
    assert!(p.contains("- NO markdown formatting (no ```json blocks)  \n"));
}
