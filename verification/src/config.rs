//! Configuration: what the files say, and what the program goes by.
//!
//! The sampling parameters are numbers that nothing here computes with. Their type
//! is the parameter `F`.
use vstd::prelude::*;

use crate::provider::{default_model, API_KEY_ENV, BASE_URL};
use crate::secrets::{distinct, entry_views, file_says, holds, merged, sorted, updated, EntryView};
use crate::secrets::{law_merge_reads_back, law_quoted_reads_back, lemma_file_says_one};
use crate::secrets::{escaped, quotable, quoted, read_quoted, writable};
use crate::secrets::{escape_toml_string, merge_secret};
use crate::text::views;

verus! {

// ───────────────────────────── on-disk schema ─────────────────────────────
/// The configuration file.
#[derive(Debug, Clone, Default)]
pub struct RawConfig<F> {
    pub core: Option<CoreSection>,
    pub persona: Option<PersonaSection>,
    pub sampling: Option<SamplingSection<F>>,
    pub tui: Option<TuiSection>,
    // Flat fields of old files (v0.1, v0.2). Ignored where a core section is present.
    pub provider: Option<String>,
    pub base_url: Option<String>,
    pub api_key_env: Option<String>,
    pub model: Option<String>,
    pub temperature: Option<F>,
    pub top_p: Option<F>,
    pub max_tokens: Option<u32>,
    pub stop: Vec<String>,
}

#[derive(Debug, Clone, Default)]
pub struct CoreSection {
    /// Ignored; always DeepSeek.
    pub provider: Option<String>,
    pub model: Option<String>,
    /// Ignored; always that of DeepSeek.
    pub base_url: Option<String>,
    pub api_key_env: Option<String>,
    pub initialized: bool,
}

#[derive(Debug, Clone, Default)]
pub struct PersonaSection {
    pub user_name: Option<String>,
    pub assistant_name: Option<String>,
    pub description: String,
}

#[derive(Debug, Clone, Default)]
pub struct SamplingSection<F> {
    pub temperature: Option<F>,
    pub top_p: Option<F>,
    pub max_tokens: Option<u32>,
    pub stop: Vec<String>,
}

#[derive(Debug, Clone, Default)]
pub struct TuiSection {
    pub alternate_screen: Option<AltScreenMode>,
}

#[derive(Debug, Clone, Copy, PartialEq, Eq, Structural)]
pub enum AltScreenMode {
    Auto,
    Always,
    Never,
}

impl Default for AltScreenMode {
    fn default() -> (r: Self)
        ensures
            r == AltScreenMode::Auto,
    {
        AltScreenMode::Auto
    }
}

// ───────────────────────────── resolved view ─────────────────────────────
/// The configuration that the program goes by.
#[derive(Debug, Clone)]
pub struct ResolvedConfig<F> {
    pub base_url: String,
    pub api_key: String,
    pub model: String,
    pub temperature: Option<F>,
    pub top_p: Option<F>,
    pub max_tokens: Option<u32>,
    pub stop: Vec<String>,
    pub persona: Persona,
    pub tui: TuiConfig,
}

#[derive(Debug, Clone)]
pub struct Persona {
    pub user_name: String,
    pub assistant_name: String,
    pub description: String,
}

#[derive(Debug, Clone)]
pub struct TuiConfig {
    pub alternate_screen: AltScreenMode,
}

impl Default for TuiConfig {
    fn default() -> (r: Self)
        ensures
            r.alternate_screen == AltScreenMode::Auto,
    {
        TuiConfig { alternate_screen: AltScreenMode::Auto }
    }
}

impl Default for Persona {
    fn default() -> (r: Self)
        ensures
            r@ == (PersonaView { user_name: "you"@, assistant_name: "Aili"@, description: seq![] }),
    {
        Persona {
            user_name: "you".to_owned(),
            assistant_name: "Aili".to_owned(),
            description: String::new(),
        }
    }
}

/// What a persona holds.
pub struct PersonaView {
    pub user_name: Seq<char>,
    pub assistant_name: Seq<char>,
    pub description: Seq<char>,
}

impl View for Persona {
    type V = PersonaView;

    open spec fn view(&self) -> PersonaView {
        PersonaView {
            user_name: self.user_name@,
            assistant_name: self.assistant_name@,
            description: self.description@,
        }
    }
}

/// What a configuration holds.
#[verifier::ext_equal]
pub struct ConfigView<F> {
    pub base_url: Seq<char>,
    pub api_key: Seq<char>,
    pub model: Seq<char>,
    pub temperature: Option<F>,
    pub top_p: Option<F>,
    pub max_tokens: Option<u32>,
    pub stop: Seq<Seq<char>>,
    pub persona: PersonaView,
    pub alternate_screen: AltScreenMode,
}

impl<F> View for ResolvedConfig<F> {
    type V = ConfigView<F>;

    open spec fn view(&self) -> ConfigView<F> {
        ConfigView {
            base_url: self.base_url@,
            api_key: self.api_key@,
            model: self.model@,
            temperature: self.temperature,
            top_p: self.top_p,
            max_tokens: self.max_tokens,
            stop: views(self.stop@),
            persona: self.persona@,
            alternate_screen: self.tui.alternate_screen,
        }
    }
}

/// What can be wrong with the configuration.
#[derive(Debug)]
pub enum ConfigError {
    /// There is no home directory to look in.
    NoHome,
    /// Neither the environment nor the secrets file has the key.
    NoApiKey { name: String, secrets_path: String },
    /// The template would replace a file.
    AlreadyExists { path: String },
}

impl ConfigError {
    /// The text of an error.
    pub open spec fn text(self) -> Seq<char> {
        match self {
            ConfigError::NoHome => "could not determine HOME; cannot locate ~/.config/aili"@,
            ConfigError::NoApiKey { name, secrets_path } =>
                "no DeepSeek API key found. set env `"@ + name@ + "` or add it to "@ + secrets_path@,
            ConfigError::AlreadyExists { path } => path@
                + " already exists; remove it first if you want to regenerate"@,
        }
    }

    /// The text of an error, for the user.
    pub fn message(&self) -> (r: String)
        ensures
            r@ == self.text(),
    {
        match self {
            ConfigError::NoHome => "could not determine HOME; cannot locate ~/.config/aili".to_owned(),
            ConfigError::NoApiKey { name, secrets_path } => {
                let mut s = "no DeepSeek API key found. set env `".to_owned();
                s.append(name.as_str());
                s.append("` or add it to ");
                s.append(secrets_path.as_str());
                s
            },
            ConfigError::AlreadyExists { path } => {
                let mut s = path.clone();
                s.append(" already exists; remove it first if you want to regenerate");
                s
            },
        }
    }
}

// ───────────────────────────── paths ─────────────────────────────
/// `name` inside the directory `base`.
pub open spec fn path_in(base: Seq<char>, name: Seq<char>) -> Seq<char> {
    if base.len() == 0 || base.last() == '/' {
        base + name
    } else {
        base + seq!['/'] + name
    }
}

/// The characters of a string that may be missing.
pub open spec fn opt_view(s: Option<String>) -> Option<Seq<char>> {
    match s {
        Some(s) => Some(s@),
        None => None,
    }
}

/// The value unless it is empty.
pub open spec fn non_empty(s: Option<Seq<char>>) -> Option<Seq<char>> {
    match s {
        Some(s) => if s.len() == 0 {
            None
        } else {
            Some(s)
        },
        None => None,
    }
}

/// The first of two values that is there.
pub open spec fn first_of<T>(a: Option<T>, b: Option<T>) -> Option<T> {
    match a {
        Some(x) => Some(x),
        None => b,
    }
}

fn or_else<T>(a: Option<T>, b: Option<T>) -> (r: Option<T>)
    ensures
        r == first_of(a, b),
{
    match a {
        Some(x) => Some(x),
        None => b,
    }
}

fn keep_non_empty(s: Option<String>) -> (r: Option<String>)
    ensures
        opt_view(r) == non_empty(opt_view(s)),
{
    match s {
        Some(s) => if s.as_str().is_empty() {
            None
        } else {
            Some(s)
        },
        None => None,
    }
}

fn join_path(base: &str, name: &str) -> (r: String)
    ensures
        r@ == path_in(base@, name@),
{
    let n = crate::text::chars_of(base);
    let mut s = base.to_owned();
    if n.len() > 0 && n[n.len() - 1] != '/' {
        s.push('/');
        assert(s@ == base@ + seq!['/']);
    }
    s.append(name);
    s
}

/// The directory of the configuration: the override where there is one, else
/// `.config/aili` under the home directory. An empty value counts as none.
pub fn config_dir_from_env(override_dir: Option<String>, home: Option<String>) -> (r: Result<
    String,
    ConfigError,
>)
    ensures
        match (non_empty(opt_view(override_dir)), non_empty(opt_view(home))) {
            (Some(dir), _) => r matches Ok(d) && d@ == dir,
            (None, Some(h)) => r matches Ok(d) && d@ == path_in(
                path_in(h, ".config"@),
                "aili"@,
            ),
            (None, None) => r == Err::<String, ConfigError>(ConfigError::NoHome),
        },
{
    match keep_non_empty(override_dir) {
        Some(dir) => Ok(dir),
        None => match keep_non_empty(home) {
            Some(h) => {
                let base = join_path(h.as_str(), ".config");
                Ok(join_path(base.as_str(), "aili"))
            },
            None => Err(ConfigError::NoHome),
        },
    }
}

/// The configuration file in the directory `dir`.
pub fn config_path(dir: &str) -> (r: String)
    ensures
        r@ == path_in(dir@, "config.toml"@),
{
    join_path(dir, "config.toml")
}

/// The secrets file in the directory `dir`.
pub fn secrets_path(dir: &str) -> (r: String)
    ensures
        r@ == path_in(dir@, "secrets.toml"@),
{
    join_path(dir, "secrets.toml")
}

/// The file that is written before it replaces `file_name`.
pub fn temporary_name(file_name: &str) -> (r: String)
    ensures
        r@ == "."@ + file_name@ + ".tmp"@,
{
    let mut s = ".".to_owned();
    s.append(file_name);
    s.append(".tmp");
    s
}

// ───────────────────────────── loading ─────────────────────────────
/// What loading comes to.
#[derive(Debug)]
pub enum LoadResult<F> {
    Loaded(ResolvedConfig<F>),
    NeedsInit,
}

impl<F> RawConfig<F> {
    /// A flat field as far as it counts: a core section makes it void.
    pub open spec fn flat<T>(self, value: Option<T>) -> Option<T> {
        if self.core is Some {
            None
        } else {
            value
        }
    }

    /// The name of the environment variable, or of the secret, that has the API key:
    /// the core section's, or without one the flat one, and the provider's where that
    /// is missing or empty.
    pub open spec fn key_name(self) -> Seq<char> {
        let own = match self.core {
            Some(c) => opt_view(c.api_key_env),
            None => None,
        };
        match non_empty(first_of(own, self.flat(opt_view(self.api_key_env)))) {
            Some(name) => name,
            None => API_KEY_ENV@,
        }
    }

    /// The model: the core section's, or without one the flat one, and the default
    /// where that is missing or empty.
    pub open spec fn chosen_model(self) -> Seq<char> {
        let own = match self.core {
            Some(c) => opt_view(c.model),
            None => None,
        };
        match non_empty(first_of(own, self.flat(opt_view(self.model)))) {
            Some(model) => model,
            None => "deepseek-v4-flash"@,
        }
    }

    /// The core section says that setup was done.
    pub open spec fn initialized(self) -> bool {
        self.core matches Some(c) && c.initialized
    }

    /// The persona with the defaults for what its section leaves out.
    pub open spec fn chosen_persona(self) -> PersonaView {
        let section = match self.persona {
            Some(p) => (opt_view(p.user_name), opt_view(p.assistant_name), p.description@),
            None => (None, None, seq![]),
        };
        PersonaView {
            user_name: match section.0 {
                Some(n) => n,
                None => "you"@,
            },
            assistant_name: match section.1 {
                Some(n) => n,
                None => "Aili"@,
            },
            description: section.2,
        }
    }

    /// The configuration that the file stands for, given the API key.
    pub open spec fn resolved(self, api_key: Seq<char>) -> ConfigView<F> {
        let sampling = match self.sampling {
            Some(s) => (s.temperature, s.top_p, s.max_tokens, views(s.stop@)),
            None => (None, None, None, seq![]),
        };
        ConfigView {
            base_url: BASE_URL@,
            api_key,
            model: self.chosen_model(),
            temperature: first_of(sampling.0, self.flat(self.temperature)),
            top_p: first_of(sampling.1, self.flat(self.top_p)),
            max_tokens: first_of(sampling.2, self.flat(self.max_tokens)),
            stop: if sampling.3.len() > 0 || self.core is Some {
                sampling.3
            } else {
                views(self.stop@)
            },
            persona: self.chosen_persona(),
            alternate_screen: match self.tui {
                Some(t) => match t.alternate_screen {
                    Some(m) => m,
                    None => AltScreenMode::Auto,
                },
                None => AltScreenMode::Auto,
            },
        }
    }
}

/// The API key: the environment's unless that is missing or empty, else the secret.
pub open spec fn api_key_from(env_value: Option<Seq<char>>, secret: Option<Seq<char>>) -> Option<
    Seq<char>,
> {
    first_of(non_empty(env_value), secret)
}

fn non_empty_or(value: Option<String>, default: &str) -> (r: String)
    ensures
        r@ == match non_empty(opt_view(value)) {
            Some(s) => s,
            None => default@,
        },
{
    match keep_non_empty(value) {
        Some(s) => s,
        None => default.to_owned(),
    }
}

fn clone_opt(s: &Option<String>) -> (r: Option<String>)
    ensures
        opt_view(r) == opt_view(*s),
{
    match s {
        Some(s) => Some(s.clone()),
        None => None,
    }
}

/// The name under which the API key is looked up.
pub fn api_key_name<F>(raw: &RawConfig<F>) -> (r: String)
    ensures
        r@ == raw.key_name(),
{
    let name = match &raw.core {
        Some(c) => clone_opt(&c.api_key_env),
        None => clone_opt(&raw.api_key_env),
    };
    non_empty_or(name, API_KEY_ENV)
}

/// Whether setup was done.
pub fn is_initialized<F>(raw: &RawConfig<F>) -> (r: bool)
    ensures
        r == raw.initialized(),
{
    match &raw.core {
        Some(c) => c.initialized,
        None => false,
    }
}

/// The API key, given the values that the environment and the secrets file have
/// under `name`.
pub fn resolve_api_key(
    name: String,
    env_value: Option<String>,
    secret: Option<String>,
    secrets_path: &str,
) -> (r: Result<String, ConfigError>)
    ensures
        match api_key_from(opt_view(env_value), opt_view(secret)) {
            Some(key) => r matches Ok(k) && k@ == key,
            None => r matches Err(ConfigError::NoApiKey { name: n, secrets_path: p }) && n@ == name@
                && p@ == secrets_path@,
        },
{
    match or_else(keep_non_empty(env_value), secret) {
        Some(key) => Ok(key),
        None => Err(ConfigError::NoApiKey { name, secrets_path: secrets_path.to_owned() }),
    }
}

/// The configuration that a file stands for, given the values that the environment
/// and the secrets file have under the name of the API key.
pub fn resolve<F>(
    raw: RawConfig<F>,
    env_value: Option<String>,
    secret: Option<String>,
    secrets_path: &str,
) -> (r: Result<ResolvedConfig<F>, ConfigError>)
    ensures
        match api_key_from(opt_view(env_value), opt_view(secret)) {
            Some(key) => r matches Ok(cfg) && cfg@ == raw.resolved(key),
            None => r matches Err(ConfigError::NoApiKey { name, secrets_path: p }) && name@
                == raw.key_name() && p@ == secrets_path@,
        },
{
    let name = api_key_name(&raw);
    let api_key = match resolve_api_key(name, env_value, secret, secrets_path) {
        Ok(key) => key,
        Err(e) => return Err(e),
    };
    let old_file = raw.core.is_none();
    let chosen = match raw.core {
        Some(c) => c.model,
        None => raw.model,
    };
    let model = non_empty_or(chosen, default_model().id);
    let sampling = match raw.sampling {
        Some(s) => s,
        None => SamplingSection { temperature: None, top_p: None, max_tokens: None, stop: Vec::new() },
    };
    let stop = if sampling.stop.len() > 0 || !old_file {
        sampling.stop
    } else {
        raw.stop
    };
    let flat = if old_file {
        (raw.temperature, raw.top_p, raw.max_tokens)
    } else {
        (None, None, None)
    };
    let persona_section = match raw.persona {
        Some(p) => p,
        None => PersonaSection { user_name: None, assistant_name: None, description: String::new() },
    };
    let persona = Persona {
        user_name: match persona_section.user_name {
            Some(n) => n,
            None => "you".to_owned(),
        },
        assistant_name: match persona_section.assistant_name {
            Some(n) => n,
            None => "Aili".to_owned(),
        },
        description: persona_section.description,
    };
    let alternate_screen = match raw.tui {
        Some(t) => match t.alternate_screen {
            Some(m) => m,
            None => AltScreenMode::default(),
        },
        None => AltScreenMode::default(),
    };
    let cfg = ResolvedConfig {
        base_url: BASE_URL.to_owned(),
        api_key,
        model,
        temperature: or_else(sampling.temperature, flat.0),
        top_p: or_else(sampling.top_p, flat.1),
        max_tokens: or_else(sampling.max_tokens, flat.2),
        stop,
        persona,
        tui: TuiConfig { alternate_screen },
    };
    assert(cfg@ == raw.resolved(api_key@));
    Ok(cfg)
}

/// The outcome of loading: without a file, or with one whose setup was not done,
/// setup comes first.
pub fn load<F>(
    raw: Option<RawConfig<F>>,
    env_value: Option<String>,
    secret: Option<String>,
    secrets_path: &str,
) -> (r: Result<LoadResult<F>, ConfigError>)
    ensures
        match raw {
            Some(file) => if !file.initialized() {
                r matches Ok(LoadResult::NeedsInit)
            } else {
                match api_key_from(opt_view(env_value), opt_view(secret)) {
                    Some(key) => r matches Ok(LoadResult::Loaded(cfg)) && cfg@ == file.resolved(key),
                    None => r matches Err(ConfigError::NoApiKey { name, secrets_path: p }) && name@
                        == file.key_name() && p@ == secrets_path@,
                }
            },
            None => r matches Ok(LoadResult::NeedsInit),
        },
{
    match raw {
        Some(file) => {
            if !is_initialized(&file) {
                return Ok(LoadResult::NeedsInit);
            }
            match resolve(file, env_value, secret, secrets_path) {
                Ok(cfg) => Ok(LoadResult::Loaded(cfg)),
                Err(e) => Err(e),
            }
        },
        None => Ok(LoadResult::NeedsInit),
    }
}

// ───────────────────────────── writing ─────────────────────────────
/// A configuration to edit by hand.
pub const TEMPLATE: &'static str =
    "# Aili config\n# Edit by hand or rerun the wizard with `aili init`.\n\n[core]\nmodel        = \"deepseek-v4-flash\"\napi_key_env  = \"DEEPSEEK_API_KEY\"\ninitialized  = false              # wizard sets this to true\n\n[persona]\nuser_name      = \"you\"\nassistant_name = \"Aili\"\ndescription    = \"\"\n\n[sampling]\n# temperature = 0.7\n# top_p       = 1.0\n# max_tokens  = 4096\n\n[tui]\n# Aili's main chat uses inline terminal scrollback by default.\nalternate_screen = \"auto\"\n";

/// What stands before the model in the file that setup writes.
pub const SETUP_HEAD: &'static str = "[core]\nmodel        = \"";

/// What stands between the model and the user's name.
pub const SETUP_MIDDLE: &'static str =
    "\napi_key_env  = \"DEEPSEEK_API_KEY\"\ninitialized  = true\n\n[persona]\nuser_name      = \"";

/// What stands after the user's name.
pub const SETUP_TAIL: &'static str =
    "\nassistant_name = \"Aili\"\ndescription    = \"\"\n\n[sampling]\n# temperature = 0.7\n# top_p       = 1.0\n# max_tokens  = 4096\n\n[tui]\nalternate_screen = \"auto\"\n";

/// The template, unless there is a file already.
pub fn write_template(path: &str, present: bool) -> (r: Result<&'static str, ConfigError>)
    ensures
        present ==> (r matches Err(ConfigError::AlreadyExists { path: p }) && p@ == path@),
        !present ==> (r matches Ok(body) && body@ == TEMPLATE@),
{
    if present {
        return Err(ConfigError::AlreadyExists { path: path.to_owned() });
    }
    Ok(TEMPLATE)
}

/// The files that setup writes.
#[derive(Debug)]
pub struct SetupFiles {
    pub config: String,
    pub secrets: Option<String>,
}

/// The configuration file that setup writes.
pub open spec fn setup_config(model: Seq<char>, user_name: Seq<char>) -> Seq<char> {
    SETUP_HEAD@ + quoted(model) + SETUP_MIDDLE@ + quoted(user_name) + SETUP_TAIL@
}

/// The files that setup writes, given what the secrets file holds: that file is
/// left alone where there is no key.
pub fn write_wizard_result(
    model: &str,
    user_name: &str,
    api_key: Option<&str>,
    current: Vec<(String, String)>,
) -> (r: SetupFiles)
    requires
        distinct(entry_views(current@)),
    ensures
        r.config@ == setup_config(model@, user_name@),
        match api_key {
            Some(key) => r.secrets matches Some(body) && merged(
                entry_views(current@),
                key@,
                body@,
            ),
            None => r.secrets is None,
        },
{
    let mut config = SETUP_HEAD.to_owned();
    config.append(escape_toml_string(model).as_str());
    config.push('"');
    config.append(SETUP_MIDDLE);
    config.append(escape_toml_string(user_name).as_str());
    config.push('"');
    config.append(SETUP_TAIL);
    let secrets = match api_key {
        Some(key) => Some(merge_secret(current, key)),
        None => None,
    };
    SetupFiles { config, secrets }
}

/// The model and the user's name that a file of setup says.
pub open spec fn setup_answers(file: Seq<char>) -> Option<(Seq<char>, Seq<char>)> {
    if SETUP_HEAD@.is_prefix_of(file) {
        match read_quoted(file.skip(SETUP_HEAD@.len() as int)) {
            Some((model, rest)) => if SETUP_MIDDLE@.is_prefix_of(rest) {
                match read_quoted(rest.skip(SETUP_MIDDLE@.len() as int)) {
                    Some((user_name, tail)) => if tail == SETUP_TAIL@ {
                        Some((model, user_name))
                    } else {
                        None
                    },
                    None => None,
                }
            } else {
                None
            },
            None => None,
        }
    } else {
        None
    }
}

/// What setup wrote is what is read: the file says the model and the user's name that
/// were given, whatever quotes and backslashes are in them.
pub proof fn law_setup_reads_back(model: Seq<char>, user_name: Seq<char>)
    requires
        quotable(model),
        quotable(user_name),
    ensures
        setup_answers(setup_config(model, user_name)) == Some((model, user_name)),
{
    let file = setup_config(model, user_name);
    let name = quoted(user_name) + SETUP_TAIL@;
    let rest = SETUP_MIDDLE@ + name;
    law_quoted_reads_back(model, rest);
    law_quoted_reads_back(user_name, SETUP_TAIL@);
    assert(file.skip(SETUP_HEAD@.len() as int) == quoted(model) + rest);
    assert(rest.skip(SETUP_MIDDLE@.len() as int) == name);
}

/// `raw` is what the configuration file of setup says, for that model and user.
pub open spec fn says_setup<F>(raw: RawConfig<F>, model: Seq<char>, user_name: Seq<char>) -> bool {
    &&& raw.core matches Some(c) && opt_view(c.model) == Some(model) && opt_view(c.api_key_env)
        == Some(API_KEY_ENV@) && c.initialized
    &&& raw.persona matches Some(p) && opt_view(p.user_name) == Some(user_name) && opt_view(
        p.assistant_name,
    ) == Some("Aili"@) && p.description@.len() == 0
}

/// What setup wrote is what is loaded. The two files say the answers and the key, and
/// from a configuration with those answers and entries with that key, where the
/// environment has none, loading comes to a configuration with the model, the user's
/// name and the key that were given. (A model without a name would load as the default.)
pub proof fn law_setup_loads<F>(
    model: Seq<char>,
    user_name: Seq<char>,
    key: Seq<char>,
    current: Seq<EntryView>,
    config_file: Seq<char>,
    secrets_body: Seq<char>,
    raw: RawConfig<F>,
    entries: Seq<EntryView>,
    secret: Seq<char>,
)
    requires
        quotable(model) && model.len() > 0,
        quotable(user_name),
        quotable(key),
        writable(current),
        config_file == setup_config(model, user_name),
        merged(current, key, secrets_body),
        setup_answers(config_file) matches Some(a) ==> says_setup(raw, a.0, a.1),
        file_says(secrets_body, entries),
        holds(entries, raw.key_name(), secret),
    ensures
        raw.initialized(),
        api_key_from(None, Some(secret)) == Some(key),
        ({
            let cfg = raw.resolved(secret);
            &&& cfg.api_key == key
            &&& cfg.model == model
            &&& cfg.persona.user_name == user_name
            &&& cfg.persona.assistant_name == "Aili"@
        }),
{
    reveal_strlit("DEEPSEEK_API_KEY");
    law_setup_reads_back(model, user_name);
    law_merge_reads_back(current, key, secrets_body);
    let written = choose|es: Seq<EntryView>| #[trigger]
        file_says(secrets_body, es) && sorted(es) && updated(current, API_KEY_ENV@, key, es);
    lemma_file_says_one(secrets_body, written, entries);
    assert(holds(written, API_KEY_ENV@, secret));
}

/// Where a core section is present, the flat fields of old files do not count: two
/// files with the same sections stand for the same, whatever their flat fields.
pub proof fn law_core_makes_flat_fields_void<F>(
    raw: RawConfig<F>,
    other: RawConfig<F>,
    key: Seq<char>,
)
    requires
        raw.core is Some,
        other.core == raw.core,
        other.persona == raw.persona,
        other.sampling == raw.sampling,
        other.tui == raw.tui,
    ensures
        raw.initialized() == other.initialized(),
        raw.key_name() == other.key_name(),
        raw.resolved(key) == other.resolved(key),
{
}

/// The server is DeepSeek's whatever the file says.
pub proof fn law_base_url_is_fixed<F>(raw: RawConfig<F>, key: Seq<char>)
    ensures
        raw.resolved(key).base_url == BASE_URL@,
{
}

/// What the sampling section sets is what is used, with or without a core section and
/// whatever the flat fields say; an empty list of stops sets none.
pub proof fn law_sampling_section_is_used<F>(raw: RawConfig<F>, s: SamplingSection<F>, key: Seq<char>)
    requires
        raw.sampling == Some(s),
    ensures
        s.temperature is Some ==> raw.resolved(key).temperature == s.temperature,
        s.top_p is Some ==> raw.resolved(key).top_p == s.top_p,
        s.max_tokens is Some ==> raw.resolved(key).max_tokens == s.max_tokens,
        s.stop@.len() > 0 ==> raw.resolved(key).stop == s.stop@.map_values(|t: String| t@),
{
}

/// What the sampling section leaves open is the flat field without a core section, and
/// nothing with one.
pub proof fn law_sampling_left_open<F>(raw: RawConfig<F>, key: Seq<char>)
    ensures
        ({
            let cfg = raw.resolved(key);
            let old = raw.core is None;
            let open = raw.sampling is None;
            let s = raw.sampling->0;
            &&& open || s.temperature is None ==> cfg.temperature == if old {
                raw.temperature
            } else {
                None
            }
            &&& open || s.top_p is None ==> cfg.top_p == if old {
                raw.top_p
            } else {
                None
            }
            &&& open || s.max_tokens is None ==> cfg.max_tokens == if old {
                raw.max_tokens
            } else {
                None
            }
            &&& open || s.stop@.len() == 0 ==> if old {
                cfg.stop == raw.stop@.map_values(|t: String| t@)
            } else {
                cfg.stop.len() == 0
            }
        }),
{
}

/// The model and the name of the key are those of the core section, and without one
/// those of the flat fields; what is missing or empty there is the default.
pub proof fn law_model_and_key_name<F>(raw: RawConfig<F>, key: Seq<char>)
    ensures
        ({
            let model = if raw.core is Some {
                raw.core->0.model
            } else {
                raw.model
            };
            let name = if raw.core is Some {
                raw.core->0.api_key_env
            } else {
                raw.api_key_env
            };
            &&& raw.resolved(key).model == if model is Some && model->0@.len() > 0 {
                model->0@
            } else {
                "deepseek-v4-flash"@
            }
            &&& raw.key_name() == if name is Some && name->0@.len() > 0 {
                name->0@
            } else {
                "DEEPSEEK_API_KEY"@
            }
            &&& raw.initialized() <==> raw.core is Some && raw.core->0.initialized
        }),
{
}

/// The persona and the screen are those of their sections, with `you`, `Aili`, no
/// description and the automatic choice for what is left out; the key is the one that
/// was found, and the server is always the same.
pub proof fn law_persona_screen_and_key<F>(raw: RawConfig<F>, key: Seq<char>)
    ensures
        ({
            let cfg = raw.resolved(key);
            let p = raw.persona;
            &&& cfg.api_key == key
            &&& cfg.base_url == "https://api.deepseek.com/v1"@
            &&& cfg.persona.user_name == if p is Some && p->0.user_name is Some {
                p->0.user_name->0@
            } else {
                "you"@
            }
            &&& cfg.persona.assistant_name == if p is Some && p->0.assistant_name is Some {
                p->0.assistant_name->0@
            } else {
                "Aili"@
            }
            &&& p is Some ==> cfg.persona.description == p->0.description@
            &&& p is None ==> cfg.persona.description.len() == 0
            &&& cfg.alternate_screen == if raw.tui is Some && raw.tui->0.alternate_screen is Some {
                raw.tui->0.alternate_screen->0
            } else {
                AltScreenMode::Auto
            }
        }),
{
}

/// The key of the environment goes before that of the secrets file; an empty one in
/// the environment counts as none. Only where neither has one there is no key.
pub proof fn law_environment_goes_first(env_value: Option<Seq<char>>, secret: Option<Seq<char>>)
    ensures
        env_value is Some && env_value->0.len() > 0 ==> api_key_from(env_value, secret) == env_value,
        env_value is None || env_value->0.len() == 0 ==> api_key_from(env_value, secret) == secret,
{
}

/// A file in a directory: the directory, one separator, and the name; a directory that
/// ends in a separator gets no second one.
pub proof fn law_path_in(base: Seq<char>, name: Seq<char>)
    requires
        base.len() > 0,
    ensures
        base.last() != '/' ==> path_in(base, name) == base.push('/') + name,
        base.last() == '/' ==> path_in(base, name) == base + name,
{
    assert(base.push('/') == base + seq!['/']);
}

/// The text of the files is as it is, whatever it is written for: the file that setup
/// writes has the sections `core` and `persona` with the model and the user's name as
/// quoted strings, and says that setup was done.
pub proof fn law_setup_config(model: Seq<char>, user_name: Seq<char>)
    ensures
        setup_config(model, user_name)
            == "[core]\nmodel        = \""@ + escaped(model) + "\"\napi_key_env  = \"DEEPSEEK_API_KEY\"\ninitialized  = true\n\n[persona]\nuser_name      = \""@
            + escaped(user_name) + "\"\nassistant_name = \"Aili\"\ndescription    = \"\"\n\n[sampling]\n# temperature = 0.7\n# top_p       = 1.0\n# max_tokens  = 4096\n\n[tui]\nalternate_screen = \"auto\"\n"@,
{
    reveal_strlit(
        "\"\napi_key_env  = \"DEEPSEEK_API_KEY\"\ninitialized  = true\n\n[persona]\nuser_name      = \"",
    );
    reveal_strlit(
        "\napi_key_env  = \"DEEPSEEK_API_KEY\"\ninitialized  = true\n\n[persona]\nuser_name      = \"",
    );
    reveal_strlit(
        "\"\nassistant_name = \"Aili\"\ndescription    = \"\"\n\n[sampling]\n# temperature = 0.7\n# top_p       = 1.0\n# max_tokens  = 4096\n\n[tui]\nalternate_screen = \"auto\"\n",
    );
    reveal_strlit(
        "\nassistant_name = \"Aili\"\ndescription    = \"\"\n\n[sampling]\n# temperature = 0.7\n# top_p       = 1.0\n# max_tokens  = 4096\n\n[tui]\nalternate_screen = \"auto\"\n",
    );
    assert("\"\napi_key_env  = \"DEEPSEEK_API_KEY\"\ninitialized  = true\n\n[persona]\nuser_name      = \""@
        == seq!['"'] + SETUP_MIDDLE@);
    assert("\"\nassistant_name = \"Aili\"\ndescription    = \"\"\n\n[sampling]\n# temperature = 0.7\n# top_p       = 1.0\n# max_tokens  = 4096\n\n[tui]\nalternate_screen = \"auto\"\n"@
        == seq!['"'] + SETUP_TAIL@);
    assert(quoted(model) == escaped(model) + seq!['"']);
    assert(quoted(user_name) == escaped(user_name) + seq!['"']);
    let start = SETUP_HEAD@ + escaped(model);
    assert(SETUP_HEAD@ + quoted(model) + SETUP_MIDDLE@ == start + (seq!['"'] + SETUP_MIDDLE@));
    let middle = SETUP_HEAD@ + quoted(model) + SETUP_MIDDLE@;
    assert(middle + quoted(user_name) + SETUP_TAIL@ == middle + escaped(user_name) + (seq!['"']
        + SETUP_TAIL@));
}

/// What the user is told where the configuration cannot be had.
pub proof fn law_errors_tell(name: String, secrets_path: String, path: String)
    ensures
        (ConfigError::NoApiKey { name, secrets_path }).text() == "no DeepSeek API key found. set env `"@
            + name@ + "` or add it to "@ + secrets_path@,
        (ConfigError::AlreadyExists { path }).text() == path@
            + " already exists; remove it first if you want to regenerate"@,
        ConfigError::NoHome.text() == "could not determine HOME; cannot locate ~/.config/aili"@,
{
}

} // verus!
