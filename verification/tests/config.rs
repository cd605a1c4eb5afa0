use aili::chat::{ChatRequest, Message};
use aili::config::{
    config_dir_from_env, config_path, is_initialized, load, resolve, resolve_api_key, secrets_path,
    temporary_name, write_template, write_wizard_result, AltScreenMode, ConfigError, CoreSection,
    LoadResult, Persona, PersonaSection, RawConfig, ResolvedConfig, SamplingSection, TuiConfig,
    TuiSection, TEMPLATE,
};

fn path() -> &'static str {
    "/tmp/aili/secrets.toml"
}

#[test]
fn config_dir_defaults_to_home_dot_config() {
    let dir = config_dir_from_env(None, Some("/tmp/aili-home".to_string())).unwrap();
    assert_eq!(dir, "/tmp/aili-home/.config/aili");
}

#[test]
fn config_dir_override_uses_exact_dir() {
    let dir = config_dir_from_env(
        Some("/tmp/custom-aili-config".to_string()),
        Some("/tmp/aili-home".to_string()),
    )
    .unwrap();
    assert_eq!(dir, "/tmp/custom-aili-config");
}

#[test]
fn config_dir_needs_a_home() {
    let e = config_dir_from_env(None, None).unwrap_err();
    assert_eq!(e.message(), "could not determine HOME; cannot locate ~/.config/aili");
    let e = config_dir_from_env(Some(String::new()), Some(String::new())).unwrap_err();
    assert!(matches!(e, ConfigError::NoHome));
}

#[test]
fn paths_join_like_those_of_std() {
    for base in ["/a/b", "/a/b/", "/", "", "rel"] {
        let std_path = std::path::Path::new(base).join("config.toml");
        assert_eq!(config_path(base), std_path.to_str().unwrap());
        let std_path = std::path::Path::new(base).join("secrets.toml");
        assert_eq!(secrets_path(base), std_path.to_str().unwrap());
    }
    assert_eq!(temporary_name("config.toml"), ".config.toml.tmp");
}

#[test]
fn legacy_schema_resolves() {
    let raw: RawConfig<f32> =
        RawConfig { api_key_env: Some("AILI_TEST_LEGACY_KEY".into()), ..Default::default() };
    assert_eq!(aili::config::api_key_name(&raw), "AILI_TEST_LEGACY_KEY");
    let r = resolve(raw, Some("sk-test-legacy".into()), None, path()).unwrap();
    assert_eq!(r.model, "deepseek-v4-flash");
    assert_eq!(r.api_key, "sk-test-legacy");
    assert_eq!(r.persona.user_name, "you");
    assert_eq!(r.persona.assistant_name, "Aili");
    assert_eq!(r.tui.alternate_screen, AltScreenMode::Auto);
}

#[test]
fn new_schema_with_persona() {
    let raw: RawConfig<f32> = RawConfig {
        core: Some(CoreSection {
            model: Some("deepseek-v4-pro".into()),
            api_key_env: Some("AILI_TEST_NEW_KEY".into()),
            initialized: true,
            ..Default::default()
        }),
        persona: Some(PersonaSection {
            user_name: Some("rose".into()),
            assistant_name: Some("Aili".into()),
            description: "concise".into(),
        }),
        ..Default::default()
    };
    assert_eq!(aili::config::api_key_name(&raw), "AILI_TEST_NEW_KEY");
    let r = resolve(raw, Some("sk-test-new".into()), None, path()).unwrap();
    assert_eq!(r.api_key, "sk-test-new");
    assert_eq!(r.model, "deepseek-v4-pro");
    assert_eq!(r.persona.user_name, "rose");
    assert_eq!(r.persona.description, "concise");
    assert_eq!(r.tui.alternate_screen, AltScreenMode::Auto);
}

#[test]
fn tui_alternate_screen_resolves() {
    let raw: RawConfig<f32> = RawConfig {
        core: Some(CoreSection {
            api_key_env: Some("AILI_TEST_TUI_KEY".into()),
            initialized: true,
            ..Default::default()
        }),
        tui: Some(TuiSection { alternate_screen: Some(AltScreenMode::Never) }),
        ..Default::default()
    };
    let r = resolve(raw, Some("sk-test-tui".into()), None, path()).unwrap();
    assert_eq!(r.tui.alternate_screen, AltScreenMode::Never);
}

#[test]
fn missing_env_errors_for_remote() {
    let raw: RawConfig<f32> = RawConfig {
        core: Some(CoreSection {
            api_key_env: Some("AILI_TEST_NO_SUCH_VAR".into()),
            initialized: true,
            ..Default::default()
        }),
        ..Default::default()
    };
    let e = resolve(raw, None, None, path()).unwrap_err();
    assert_eq!(
        e.message(),
        "no DeepSeek API key found. set env `AILI_TEST_NO_SUCH_VAR` or add it to \
         /tmp/aili/secrets.toml"
    );
}

#[test]
fn environment_goes_before_secret() {
    let key = |env: Option<&str>, secret: Option<&str>| {
        resolve_api_key(
            "K".into(),
            env.map(|s| s.to_string()),
            secret.map(|s| s.to_string()),
            path(),
        )
        .ok()
    };
    assert_eq!(key(Some("a"), Some("b")), Some("a".to_string()));
    assert_eq!(key(Some(""), Some("b")), Some("b".to_string()));
    assert_eq!(key(None, Some("b")), Some("b".to_string()));
    assert_eq!(key(Some(""), None), None);
}

#[test]
fn core_section_goes_before_flat_fields() {
    let raw: RawConfig<f32> = RawConfig {
        core: Some(CoreSection { model: Some("m1".into()), ..Default::default() }),
        model: Some("m2".into()),
        base_url: Some("https://example.test".into()),
        ..Default::default()
    };
    let r = resolve(raw, Some("k".into()), None, path()).unwrap();
    assert_eq!(r.model, "m1");
    assert_eq!(r.base_url, "https://api.deepseek.com/v1");
}

#[test]
fn empty_model_in_core_is_the_default() {
    let raw: RawConfig<f32> = RawConfig {
        core: Some(CoreSection { model: Some(String::new()), ..Default::default() }),
        model: Some("m2".into()),
        ..Default::default()
    };
    let r = resolve(raw, Some("k".into()), None, path()).unwrap();
    assert_eq!(r.model, "deepseek-v4-flash");
}

#[test]
fn core_section_makes_flat_fields_void() {
    let core = || {
        Some(CoreSection {
            api_key_env: Some("K".into()),
            initialized: true,
            ..Default::default()
        })
    };
    let raw: RawConfig<f32> = RawConfig {
        core: core(),
        api_key_env: Some("OLD".into()),
        model: Some("deepseek-v4-pro".into()),
        temperature: Some(0.75),
        top_p: Some(0.5),
        max_tokens: Some(9),
        stop: vec!["END".into()],
        ..Default::default()
    };
    assert_eq!(aili::config::api_key_name(&raw), "K");
    let r = resolve(raw, Some("k".into()), None, path()).unwrap();
    assert_eq!(r.model, "deepseek-v4-flash");
    assert_eq!((r.temperature, r.top_p, r.max_tokens), (None, None, None));
    assert!(r.stop.is_empty());
    let raw: RawConfig<f32> = RawConfig {
        core: Some(CoreSection::default()),
        api_key_env: Some("OLD".into()),
        ..Default::default()
    };
    assert_eq!(aili::config::api_key_name(&raw), "DEEPSEEK_API_KEY");
}

#[test]
fn flat_fields_count_without_a_core_section() {
    let raw: RawConfig<f32> = RawConfig {
        api_key_env: Some("OLD".into()),
        model: Some("deepseek-v4-pro".into()),
        max_tokens: Some(9),
        ..Default::default()
    };
    assert_eq!(aili::config::api_key_name(&raw), "OLD");
    let r = resolve(raw, Some("k".into()), None, path()).unwrap();
    assert_eq!(r.model, "deepseek-v4-pro");
    assert_eq!(r.max_tokens, Some(9));
}

#[test]
fn sampling_section_goes_before_flat_fields() {
    let raw: RawConfig<f32> = RawConfig {
        sampling: Some(SamplingSection {
            temperature: Some(0.25),
            top_p: None,
            max_tokens: Some(7),
            stop: vec![],
        }),
        temperature: Some(0.75),
        top_p: Some(0.5),
        max_tokens: Some(9),
        stop: vec!["END".into()],
        ..Default::default()
    };
    let r = resolve(raw, Some("k".into()), None, path()).unwrap();
    assert_eq!(r.temperature, Some(0.25));
    assert_eq!(r.top_p, Some(0.5));
    assert_eq!(r.max_tokens, Some(7));
    assert_eq!(r.stop, vec!["END".to_string()]);
}

#[test]
fn load_asks_for_setup() {
    let r = load::<f32>(None, Some("k".into()), None, path()).unwrap();
    assert!(matches!(r, LoadResult::NeedsInit));
    let raw: RawConfig<f32> = RawConfig::default();
    assert!(!is_initialized(&raw));
    let r = load(Some(raw), Some("k".into()), None, path()).unwrap();
    assert!(matches!(r, LoadResult::NeedsInit));
    let raw: RawConfig<f32> = RawConfig {
        core: Some(CoreSection { initialized: true, ..Default::default() }),
        ..Default::default()
    };
    assert!(matches!(
        load(Some(raw), None, None, path()),
        Err(ConfigError::NoApiKey { .. })
    ));
}

#[test]
fn template_is_not_written_over_a_file() {
    assert_eq!(write_template("/c.toml", false).unwrap(), TEMPLATE);
    assert_eq!(
        write_template("/c.toml", true).unwrap_err().message(),
        "/c.toml already exists; remove it first if you want to regenerate"
    );
    let parsed: toml::Value = toml::from_str(TEMPLATE).unwrap();
    assert_eq!(parsed["core"]["initialized"].as_bool(), Some(false));
    assert_eq!(parsed["core"]["model"].as_str(), Some("deepseek-v4-flash"));
    assert_eq!(parsed["tui"]["alternate_screen"].as_str(), Some("auto"));
}

#[test]
fn wizard_result_writes_config_and_secret_then_loads() {
    let files =
        write_wizard_result("deepseek-v4-flash", "Rose", Some("sk-test-wizard"), Vec::new());
    let cfg_raw = files.config;
    assert!(cfg_raw.contains("model        = \"deepseek-v4-flash\""));
    assert!(cfg_raw.contains("api_key_env  = \"DEEPSEEK_API_KEY\""));
    assert!(cfg_raw.contains("initialized  = true"));
    assert!(cfg_raw.contains("user_name      = \"Rose\""));
    let secret_raw = files.secrets.unwrap();
    assert!(secret_raw.contains("DEEPSEEK_API_KEY = \"sk-test-wizard\""));
    assert_eq!(aili::secrets::SECRETS_MODE, 0o600);

    let file: toml::Value = toml::from_str(&cfg_raw).unwrap();
    let text = |section: &str, key: &str| file[section][key].as_str().map(|s| s.to_string());
    let raw: RawConfig<f32> = RawConfig {
        core: Some(CoreSection {
            model: text("core", "model"),
            api_key_env: text("core", "api_key_env"),
            initialized: file["core"]["initialized"].as_bool().unwrap(),
            ..Default::default()
        }),
        persona: Some(PersonaSection {
            user_name: text("persona", "user_name"),
            assistant_name: text("persona", "assistant_name"),
            description: text("persona", "description").unwrap(),
        }),
        ..Default::default()
    };
    let secrets: toml::Value = toml::from_str(&secret_raw).unwrap();
    let name = aili::config::api_key_name(&raw);
    let secret = secrets["keys"][name.as_str()].as_str().map(|s| s.to_string());
    match load(Some(raw), None, secret, path()).unwrap() {
        LoadResult::Loaded(c) => {
            assert_eq!(c.model, "deepseek-v4-flash");
            assert_eq!(c.api_key, "sk-test-wizard");
            assert_eq!(c.persona.user_name, "Rose");
        }
        LoadResult::NeedsInit => panic!("wizard result should be initialized"),
    }
}

#[test]
fn setup_quotes_what_the_user_gives() {
    let files = write_wizard_result("a\"b", "c\\d\"e", None, Vec::new());
    assert!(files.secrets.is_none());
    assert!(files.config.starts_with("[core]\nmodel        = \"a\\\"b\"\napi_key_env"));
    assert!(files.config.contains("\nuser_name      = \"c\\\\d\\\"e\"\nassistant_name"));
    let file: toml::Value = toml::from_str(&files.config).unwrap();
    assert_eq!(file["core"]["model"].as_str(), Some("a\"b"));
    assert_eq!(file["persona"]["user_name"].as_str(), Some("c\\d\"e"));
}

fn cfg() -> ResolvedConfig<f64> {
    ResolvedConfig {
        base_url: "https://api.deepseek.com/v1".into(),
        api_key: "sk-x".into(),
        model: "deepseek-v4-flash".into(),
        temperature: Some(0.5),
        top_p: None,
        max_tokens: Some(128),
        stop: vec![],
        persona: Persona::default(),
        tui: TuiConfig::default(),
    }
}

#[test]
fn request_serializes_messages_and_stream() {
    let msgs = vec![Message::user("hi")];
    let c = cfg();
    let req = ChatRequest::build(&c, &msgs);
    assert_eq!(req.model, "deepseek-v4-flash");
    assert!(req.stream);
    assert_eq!(req.messages[0].role, "user");
    assert_eq!(req.messages[0].content, "hi");
    assert_eq!(req.temperature, Some(0.5));
    assert_eq!(req.max_tokens, Some(128));
    assert!(req.top_p.is_none());
    assert!(req.stop.is_empty());
    assert_eq!(c.persona.user_name, "you");
    assert_eq!(c.persona.assistant_name, "Aili");
    assert_eq!(c.tui.alternate_screen, AltScreenMode::Auto);
}
