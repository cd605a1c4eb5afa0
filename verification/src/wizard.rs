//! The first-time setup: what is asked, and what the answers mean.
use vstd::prelude::*;

use crate::config::opt_view;
use crate::provider::{is_flash, is_pro, v4_flash, v4_pro, DeepSeekModel, API_KEY_ENV};
use crate::text::{chars_of, decimal, same, string_between, to_decimal, trim, trimmed};

verus! {

pub const HEADER: &'static str =
    "\nWelcome to Aili. Let's get you set up. (Ctrl-C anytime to abort)\n";

/// What is said to an answer to the choice of a model that is none.
pub const MODEL_HINT: &'static str = "  enter 1 or 2";

/// What is said to a name that is too long.
pub const NAME_HINT: &'static str = "  please keep it under 64 characters.";

/// The bytes that a name may have.
pub const MAX_NAME_LEN: usize = 64;

/// The question for the key.
pub fn key_question(secrets_path: &str) -> (r: String)
    ensures
        r@ == "\n[1/3] Paste your DeepSeek API key.\n      Stored in "@ + secrets_path@
            + " (chmod 600).\n      Or press Enter to skip and set the "@ + API_KEY_ENV@
            + " env var manually later."@,
{
    let mut s = "\n[1/3] Paste your DeepSeek API key.\n      Stored in ".to_owned();
    s.append(secrets_path);
    s.append(" (chmod 600).\n      Or press Enter to skip and set the ");
    s.append(API_KEY_ENV);
    s.append(" env var manually later.");
    s
}

/// The question for the model.
pub fn model_question() -> (r: String)
    ensures
        r@ == "\n[2/3] Choose default model:\n  1) "@ + "deepseek-v4-flash"@
            + "  V4 Flash  (recommended)\n  2) "@ + "deepseek-v4-pro"@ + "  V4 Pro"@,
{
    let mut s = "\n[2/3] Choose default model:\n  1) ".to_owned();
    s.append(v4_flash().id);
    s.append("  V4 Flash  (recommended)\n  2) ");
    s.append(v4_pro().id);
    s.append("  V4 Pro");
    s
}

/// The question for the name.
pub const NAME_QUESTION: &'static str = "\n[3/3] What should Aili call you?";

/// The key that was typed, without white space around it. Without one there is no
/// going on.
pub fn check_api_key(typed: &str) -> (r: Result<String, String>)
    ensures
        match r {
            Ok(key) => trimmed(typed@).len() > 0 && key@ == trimmed(typed@),
            Err(e) => trimmed(typed@).len() == 0 && e@
                == "no API key provided; rerun the wizard or set "@ + API_KEY_ENV@ + " manually"@,
        },
{
    let key = trim(typed);
    if key.as_str().is_empty() {
        let mut e = "no API key provided; rerun the wizard or set ".to_owned();
        e.append(API_KEY_ENV);
        e.append(" manually");
        return Err(e);
    }
    Ok(key)
}

/// The model that an answer chooses: the first also without an answer; `None` where
/// it has to be asked again.
pub fn choose_model(typed: &str) -> (r: Option<&'static DeepSeekModel>)
    ensures
        match r {
            Some(m) => if trimmed(typed@) == "2"@ {
                is_pro(*m)
            } else {
                (trimmed(typed@).len() == 0 || trimmed(typed@) == "1"@) && is_flash(*m)
            },
            None => trimmed(typed@).len() > 0 && trimmed(typed@) != "1"@ && trimmed(typed@) != "2"@,
        },
{
    let t = trim(typed);
    if t.as_str().is_empty() {
        proof {
            reveal_strlit("2");
        }
        return Some(v4_flash());
    }
    if same(t.as_str(), "1") {
        proof {
            reveal_strlit("1");
            reveal_strlit("2");
            assert("1"@[0] != "2"@[0]);
        }
        return Some(v4_flash());
    }
    if same(t.as_str(), "2") {
        return Some(v4_pro());
    }
    None
}

/// A name that is short enough.
pub open spec fn name_fits(name: Seq<char>) -> bool {
    vstd::utf8::encode_utf8(name).len() <= MAX_NAME_LEN
}

/// The name that an answer gives, `you` without one; `None` where it has to be asked
/// again.
pub fn choose_user_name(typed: &str) -> (r: Option<String>)
    ensures
        opt_view(r) == if trimmed(typed@).len() == 0 {
            Some("you"@)
        } else if name_fits(trimmed(typed@)) {
            Some(trimmed(typed@))
        } else {
            None
        },
{
    let t = trim(typed);
    if t.as_str().is_empty() {
        return Some("you".to_owned());
    }
    if t.as_str().as_bytes().len() > MAX_NAME_LEN {
        return None;
    }
    Some(t)
}

/// A line that was read; nothing at all means that there is no more to read.
pub fn check_line(read: String) -> (r: Result<String, String>)
    ensures
        match r {
            Ok(line) => read@.len() > 0 && line@ == read@,
            Err(e) => read@.len() == 0 && e@ == "aborted (eof)"@,
        },
{
    if read.as_str().is_empty() {
        return Err("aborted (eof)".to_owned());
    }
    Ok(read)
}

/// The first four characters of a key, or all of fewer.
pub open spec fn key_head(key: Seq<char>) -> Seq<char> {
    if key.len() <= 4 {
        key
    } else {
        key.take(4)
    }
}

/// The last four characters of a key, or all of fewer.
pub open spec fn key_tail(key: Seq<char>) -> Seq<char> {
    if key.len() <= 4 {
        key
    } else {
        key.skip(key.len() - 4)
    }
}

/// What is shown of a key: both ends and the length.
pub fn key_fingerprint(key: &str) -> (r: String)
    ensures
        r@ == key_head(key@) + "…"@ + key_tail(key@) + "  (length "@ + decimal(key@.len()) + ")"@,
{
    let cs = chars_of(key);
    let n = cs.len();
    let (head, tail) = if n <= 4 {
        (n, 0)
    } else {
        (4, n - 4)
    };
    let mut s = string_between(cs.as_slice(), 0, head);
    s.append("…");
    s.append(string_between(cs.as_slice(), tail, n).as_str());
    s.append("  (length ");
    s.append(to_decimal(n as u64).as_str());
    s.append(")");
    assert(cs@.subrange(0, head as int) == key_head(key@));
    assert(cs@.subrange(tail as int, n as int) == key_tail(key@));
    s
}

/// What is said at the end.
pub fn setup_summary(config_path: &str, secrets_path: &str, key: &str) -> (r: String)
    ensures
        r@ == "\n✓ wrote "@ + config_path@ + "\n✓ wrote "@ + secrets_path@
            + " (chmod 600)\n  key fingerprint: "@ + (key_head(key@) + "…"@ + key_tail(key@)
            + "  (length "@ + decimal(key@.len()) + ")"@) + "\n\nStarting Aili...\n"@,
{
    let mut s = "\n✓ wrote ".to_owned();
    s.append(config_path);
    s.append("\n✓ wrote ");
    s.append(secrets_path);
    s.append(" (chmod 600)\n  key fingerprint: ");
    s.append(key_fingerprint(key).as_str());
    s.append("\n\nStarting Aili...\n");
    s
}

/// However long, a key shows no more than eight of its characters.
pub proof fn law_fingerprint_hides_key(key: Seq<char>)
    ensures
        key_head(key).len() <= 4,
        key_tail(key).len() <= 4,
        key_head(key).is_prefix_of(key),
{
}

/// What a key shows is its first four and its last four characters, in order, or all of
/// a shorter one.
pub proof fn law_fingerprint_shows_ends(key: Seq<char>)
    ensures
        key.len() >= 4 ==> key_head(key) == key.subrange(0, 4) && key_tail(key) == key.subrange(
            key.len() - 4,
            key.len() as int,
        ),
        key.len() < 4 ==> key_head(key) == key && key_tail(key) == key,
{
}

/// A name may take sixty-four bytes.
pub proof fn law_name_fits(name: Seq<char>)
    ensures
        name_fits(name) <==> vstd::utf8::encode_utf8(name).len() <= 64,
{
}

} // verus!
