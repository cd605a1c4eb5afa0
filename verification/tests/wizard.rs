use aili::wizard::{
    check_api_key, check_line, choose_model, choose_user_name, key_fingerprint, key_question,
    model_question, setup_summary,
};

#[test]
fn key_is_trimmed_and_needed() {
    assert_eq!(check_api_key("  sk-1 \n").unwrap(), "sk-1");
    assert_eq!(
        check_api_key(" \n").unwrap_err(),
        "no API key provided; rerun the wizard or set DEEPSEEK_API_KEY manually"
    );
}

#[test]
fn model_is_chosen_by_number() {
    assert_eq!(choose_model("\n").unwrap().id, "deepseek-v4-flash");
    assert_eq!(choose_model(" 1\n").unwrap().id, "deepseek-v4-flash");
    assert_eq!(choose_model("2").unwrap().id, "deepseek-v4-pro");
    assert!(choose_model("3").is_none());
    assert!(choose_model("12").is_none());
}

#[test]
fn name_has_a_default_and_a_limit() {
    assert_eq!(choose_user_name("\n").as_deref(), Some("you"));
    assert_eq!(choose_user_name(" Rose \n").as_deref(), Some("Rose"));
    assert!(choose_user_name(&"x".repeat(64)).is_some());
    assert!(choose_user_name(&"x".repeat(65)).is_none());
    assert!(choose_user_name(&"你".repeat(21)).is_some());
    assert!(choose_user_name(&"你".repeat(22)).is_none());
}

#[test]
fn nothing_read_aborts() {
    assert_eq!(check_line("\n".into()).unwrap(), "\n");
    assert_eq!(check_line(String::new()).unwrap_err(), "aborted (eof)");
}

#[test]
fn fingerprint_shows_both_ends() {
    assert_eq!(key_fingerprint("sk-12345678"), "sk-1…5678  (length 11)");
    assert_eq!(key_fingerprint("abc"), "abc…abc  (length 3)");
}

#[test]
fn questions_and_summary_are_exact() {
    assert_eq!(
        key_question("/s.toml"),
        "\n[1/3] Paste your DeepSeek API key.\n      Stored in /s.toml (chmod 600).\n      \
         Or press Enter to skip and set the DEEPSEEK_API_KEY env var manually later."
    );
    assert_eq!(
        model_question(),
        "\n[2/3] Choose default model:\n  1) deepseek-v4-flash  V4 Flash  (recommended)\n  \
         2) deepseek-v4-pro  V4 Pro"
    );
    assert_eq!(
        setup_summary("/c", "/s", "abcdefgh"),
        "\n✓ wrote /c\n✓ wrote /s (chmod 600)\n  key fingerprint: abcd…efgh  (length 8)\n\n\
         Starting Aili...\n"
    );
}
