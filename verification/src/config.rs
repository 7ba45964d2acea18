//! Startup configuration: defaults, overrides taken from a list of
//! key/value pairs (the process environment, as the caller captured it),
//! and the comma-separated seed-domain list.

use vstd::prelude::*;
use vstd::string::StrSliceExecFns;
use vstd::string::StringExecFns;

use crate::text::find_char;
use crate::text::find_from;
use crate::text::parse_u64;
use crate::text::parse_u64_spec;
use crate::text::str_eq;
use crate::text::trim;
use crate::text::trim_spec;

verus! {

/// The value bound to `key` in `env`, taking the first binding when a key
/// repeats.
pub open spec fn env_lookup(env: Seq<(String, String)>, key: Seq<char>) -> Option<Seq<char>>
    decreases env.len(),
{
    if env.len() == 0 {
        None
    } else if env[0].0@ == key {
        Some(env[0].1@)
    } else {
        env_lookup(env.drop_first(), key)
    }
}

/// The value bound to `key`, or `default` when `key` is unbound.
pub open spec fn env_str(env: Seq<(String, String)>, key: Seq<char>, default: Seq<char>) -> Seq<
    char,
> {
    match env_lookup(env, key) {
        Some(v) => v,
        None => default,
    }
}

/// The value bound to `key` read as a decimal, or `default` when `key` is
/// unbound or its value does not parse.
pub open spec fn env_u64(env: Seq<(String, String)>, key: Seq<char>, default: u64) -> u64 {
    match env_lookup(env, key) {
        Some(v) => match parse_u64_spec(v) {
            Some(n) => n,
            None => default,
        },
        None => default,
    }
}

/// As [`env_u64`], for values that must fit in 16 bits.
pub open spec fn env_u16(env: Seq<(String, String)>, key: Seq<char>, default: u16) -> u16 {
    match env_lookup(env, key) {
        Some(v) => match parse_u64_spec(v) {
            Some(n) => if n <= u16::MAX as u64 {
                n as u16
            } else {
                default
            },
            None => default,
        },
        None => default,
    }
}

/// Looks `key` up in `env`, falling back to `default`.
pub fn env_or(env: &Vec<(String, String)>, key: &str, default: &str) -> (r: String)
    ensures
        r@ == env_str(env@, key@, default@),
{
    let mut i: usize = 0;
    proof {
        assert(env@.skip(0) =~= env@);
    }
    while i < env.len()
        invariant
            0 <= i <= env@.len(),
            env_lookup(env@, key@) == env_lookup(env@.skip(i as int), key@),
        decreases env@.len() - i,
    {
        let pair = &env[i];
        proof {
            assert(env@.skip(i as int)[0] == env@[i as int]);
            assert(env@.skip(i as int).drop_first() =~= env@.skip(i as int + 1));
        }
        if str_eq(pair.0.as_str(), key) {
            return pair.1.clone();
        }
        i = i + 1;
    }
    String::from_str(default)
}

/// Looks `key` up and parses it as a decimal, falling back to `default`.
pub fn env_parse_u64(env: &Vec<(String, String)>, key: &str, default: u64) -> (r: u64)
    ensures
        r == env_u64(env@, key@, default),
{
    let mut i: usize = 0;
    proof {
        assert(env@.skip(0) =~= env@);
    }
    while i < env.len()
        invariant
            0 <= i <= env@.len(),
            env_lookup(env@, key@) == env_lookup(env@.skip(i as int), key@),
        decreases env@.len() - i,
    {
        let pair = &env[i];
        proof {
            assert(env@.skip(i as int)[0] == env@[i as int]);
            assert(env@.skip(i as int).drop_first() =~= env@.skip(i as int + 1));
        }
        if str_eq(pair.0.as_str(), key) {
            return match parse_u64(pair.1.as_str()) {
                Some(n) => n,
                None => default,
            };
        }
        i = i + 1;
    }
    default
}

/// As [`env_parse_u64`], rejecting values above `u16::MAX`.
pub fn env_parse_u16(env: &Vec<(String, String)>, key: &str, default: u16) -> (r: u16)
    ensures
        r == env_u16(env@, key@, default),
{
    let wide = env_parse_u64(env, key, default as u64);
    if wide <= u16::MAX as u64 {
        proof {
            if env_lookup(env@, key@) is None {
                assert(env_u16(env@, key@, default) == default);
            }
        }
        wide as u16
    } else {
        default
    }
}

/// The comma-separated entries of `s`, each trimmed of surrounding
/// whitespace; empty entries are kept, as splitting leaves them.
pub open spec fn split_trim(s: Seq<char>) -> Seq<Seq<char>>
    decreases s.len(),
    via split_trim_decreases
{
    match find_from(s, ',', 0) {
        None => seq![trim_spec(s)],
        Some(k) => seq![trim_spec(s.subrange(0, k))] + split_trim(
            s.subrange(k + 1, s.len() as int),
        ),
    }
}

#[via_fn]
proof fn split_trim_decreases(s: Seq<char>) {
    crate::text::lemma_find_props(s, ',', 0);
}

proof fn lemma_find_shift(s: Seq<char>, c: char, base: int, i: int)
    requires
        0 <= base <= i,
        base <= s.len(),
    ensures
        find_from(s, c, i) == match find_from(s.skip(base), c, i - base) {
            None => None::<int>,
            Some(j) => Some(j + base),
        },
    decreases s.len() - i,
{
    assert(s.skip(base).len() == s.len() - base);
    if i < s.len() {
        assert(s.skip(base)[i - base] == s[i]);
        if s[i] != c {
            lemma_find_shift(s, c, base, i + 1);
            assert(find_from(s.skip(base), c, i - base) == find_from(s.skip(base), c, i - base + 1));
        } else {
            assert(find_from(s.skip(base), c, i - base) == Some(i - base));
        }
    } else {
        assert(find_from(s.skip(base), c, i - base) is None);
    }
}

/// Splits `s` at commas and trims each entry.
pub fn split_commas(s: &str) -> (r: Vec<String>)
    ensures
        r.deep_view() == split_trim(s@),
{
    let len = s.unicode_len();
    let mut out: Vec<String> = Vec::new();
    let mut start: usize = 0;
    proof {
        assert(s@.skip(0) =~= s@);
    }
    loop
        invariant
            0 <= start <= len,
            len == s@.len(),
            split_trim(s@) == out.deep_view() + split_trim(s@.skip(start as int)),
        decreases len - start,
    {
        let ghost rest = s@.skip(start as int);
        match find_char(s, ',', start) {
            Some(k) => {
                proof {
                    lemma_find_shift(s@, ',', start as int, start as int);
                    assert(find_from(rest, ',', 0) == Some(k - start));
                    assert(rest.subrange(0, k - start) =~= s@.subrange(start as int, k as int));
                    assert(rest.subrange(k - start + 1, rest.len() as int) =~= s@.skip(k + 1));
                }
                let piece = s.substring_char(start, k);
                let entry = trim(piece);
                let ghost old_out = out.deep_view();
                out.push(entry);
                proof {
                    assert(out.deep_view() =~= old_out.push(entry@));
                    assert(split_trim(s@) =~= out.deep_view() + split_trim(s@.skip(k + 1)));
                }
                start = k + 1;
            },
            None => {
                proof {
                    lemma_find_shift(s@, ',', start as int, start as int);
                    assert(find_from(rest, ',', 0) is None);
                    assert(rest =~= s@.subrange(start as int, len as int));
                }
                let piece = s.substring_char(start, len);
                let entry = trim(piece);
                let ghost old_out = out.deep_view();
                out.push(entry);
                proof {
                    assert(out.deep_view() =~= old_out.push(entry@));
                    assert(split_trim(s@) =~= out.deep_view());
                }
                return out;
            },
        }
    }
}

/// Everything the relay is configured with at startup.
#[derive(Debug)]
pub struct Config {
    pub smtp_host: String,
    pub smtp_port: u16,
    pub server_host: String,
    pub server_port: u16,
    pub queue_poll_seconds: u64,
    pub archive_max_rows: u64,
    pub archive_cull_interval_seconds: u64,
    pub db_path: String,
    pub seed_domains: Vec<String>,
}

/// The seed-domain entries named by the `MAYL_DOMAINS` value `raw`: none
/// at all when the variable is empty, else the comma-separated entries.
pub open spec fn seed_list(raw: Seq<char>) -> Seq<Seq<char>> {
    if raw.len() == 0 {
        Seq::empty()
    } else {
        split_trim(raw)
    }
}

impl Config {
    /// Reads the configuration out of the captured environment, falling
    /// back to the built-in defaults.
    pub fn load(env: &Vec<(String, String)>) -> (r: Config)
        ensures
            r.smtp_host@ == env_str(env@, "MAYL_SMTP_HOST"@, "localhost"@),
            r.smtp_port == env_u16(env@, "MAYL_SMTP_PORT"@, 1025),
            r.server_host@ == env_str(env@, "MAYL_SERVER_HOST"@, "0.0.0.0"@),
            r.server_port == env_u16(env@, "MAYL_SERVER_PORT"@, 8080),
            r.queue_poll_seconds == env_u64(env@, "MAYL_QUEUE_POLL_SECONDS"@, 5),
            r.archive_max_rows == env_u64(env@, "MAYL_ARCHIVE_MAX_ROWS"@, 100000),
            r.archive_cull_interval_seconds == env_u64(
                env@,
                "MAYL_ARCHIVE_CULL_INTERVAL_SECONDS"@,
                600,
            ),
            r.db_path@ == env_str(env@, "MAYL_DB_PATH"@, "mayl.db"@),
            r.seed_domains.deep_view() == seed_list(env_str(env@, "MAYL_DOMAINS"@, ""@)),
    {
        let domains_str = env_or(env, "MAYL_DOMAINS", "");
        let seed_domains = if domains_str.as_str().unicode_len() == 0 {
            Vec::new()
        } else {
            split_commas(domains_str.as_str())
        };
        proof {
            if env_str(env@, "MAYL_DOMAINS"@, ""@).len() == 0 {
                assert(seed_domains.deep_view() =~= Seq::<Seq<char>>::empty());
            }
        }
        Config {
            smtp_host: env_or(env, "MAYL_SMTP_HOST", "localhost"),
            smtp_port: env_parse_u16(env, "MAYL_SMTP_PORT", 1025),
            server_host: env_or(env, "MAYL_SERVER_HOST", "0.0.0.0"),
            server_port: env_parse_u16(env, "MAYL_SERVER_PORT", 8080),
            queue_poll_seconds: env_parse_u64(env, "MAYL_QUEUE_POLL_SECONDS", 5),
            archive_max_rows: env_parse_u64(env, "MAYL_ARCHIVE_MAX_ROWS", 100000),
            archive_cull_interval_seconds: env_parse_u64(
                env,
                "MAYL_ARCHIVE_CULL_INTERVAL_SECONDS",
                600,
            ),
            db_path: env_or(env, "MAYL_DB_PATH", "mayl.db"),
            seed_domains,
        }
    }
}

} // verus!
