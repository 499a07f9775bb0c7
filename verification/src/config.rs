use vstd::prelude::*;

use crate::text::{is_digit, parse_u32, parse_unsigned, parse_usize, unsigned_body};
use crate::urls::{parse_url, url_parse, InvalidUrl};

verus! {

/// The most verbose kind of message that is logged.
#[derive(Debug, Clone, Copy, PartialEq, Eq, Structural)]
pub enum LogLevel {
    Error,
    Warn,
    Info,
    Debug,
    Trace,
}

/// A character with an ASCII capital letter made lower case.
pub open spec fn ascii_lower(c: char) -> char {
    if 'A' <= c && c <= 'Z' {
        ((c as nat) + 32) as char
    } else {
        c
    }
}

/// Whether two texts are equal when ASCII letters are compared without regard to case.
pub open spec fn eq_ignore_ascii_case(a: Seq<char>, b: Seq<char>) -> bool {
    a.len() == b.len() && forall|i: int| 0 <= i < a.len() ==> #[trigger] ascii_lower(a[i])
        == ascii_lower(b[i])
}

/// The level that a number from 1 to 5 stands for.
pub open spec fn level_numbered(n: nat) -> Option<LogLevel> {
    if n == 1 {
        Some(LogLevel::Error)
    } else if n == 2 {
        Some(LogLevel::Warn)
    } else if n == 3 {
        Some(LogLevel::Info)
    } else if n == 4 {
        Some(LogLevel::Debug)
    } else if n == 5 {
        Some(LogLevel::Trace)
    } else {
        None
    }
}

/// The level that a text names, as `tracing::Level` reads it: a `usize` from 1 (`error`) to 5
/// (`trace`), or one of `error`, `warn`, `info`, `debug`, `trace` in any letter case.
pub open spec fn log_level_named(s: Seq<char>) -> Option<LogLevel> {
    let by_number = match parse_unsigned(s, usize::MAX as nat) {
        Some(n) => level_numbered(n),
        None => None,
    };
    if by_number is Some {
        by_number
    } else if eq_ignore_ascii_case(s, seq!['e', 'r', 'r', 'o', 'r']) {
        Some(LogLevel::Error)
    } else if eq_ignore_ascii_case(s, seq!['w', 'a', 'r', 'n']) {
        Some(LogLevel::Warn)
    } else if eq_ignore_ascii_case(s, seq!['i', 'n', 'f', 'o']) {
        Some(LogLevel::Info)
    } else if eq_ignore_ascii_case(s, seq!['d', 'e', 'b', 'u', 'g']) {
        Some(LogLevel::Debug)
    } else if eq_ignore_ascii_case(s, seq!['t', 'r', 'a', 'c', 'e']) {
        Some(LogLevel::Trace)
    } else {
        None
    }
}

fn ascii_lower_char(c: char) -> (r: char)
    ensures
        r == ascii_lower(c),
{
    if 'A' <= c && c <= 'Z' {
        let b: u8 = (c as u32) as u8;
        (b + 32) as char
    } else {
        c
    }
}

/// Whether two strings are equal when ASCII letters are compared without regard to case.
pub fn str_eq_ignore_ascii_case(a: &str, b: &str) -> (r: bool)
    ensures
        r == eq_ignore_ascii_case(a@, b@),
{
    let n = a.unicode_len();
    if n != b.unicode_len() {
        return false;
    }
    let mut i: usize = 0;
    while i < n
        invariant
            n == a@.len() == b@.len(),
            i <= n,
            forall|j: int| 0 <= j < i ==> #[trigger] ascii_lower(a@[j]) == ascii_lower(b@[j]),
        decreases n - i,
    {
        if ascii_lower_char(a.get_char(i)) != ascii_lower_char(b.get_char(i)) {
            return false;
        }
        i = i + 1;
    }
    true
}

/// Whether `s` spells the lower-case word `lower` with each letter in either case.
pub open spec fn spelled_in_any_case(s: Seq<char>, lower: Seq<char>) -> bool {
    s.len() == lower.len() && forall|i: int|
        0 <= i < s.len() ==> #[trigger] s[i] == lower[i] || s[i] == ((lower[i] as nat) - 32) as char
}

proof fn lemma_any_case_word(s: Seq<char>, lower: Seq<char>)
    requires
        spelled_in_any_case(s, lower),
        lower.len() > 0,
        forall|i: int| 0 <= i < lower.len() ==> 'a' <= #[trigger] lower[i] && lower[i] <= 'z',
    ensures
        eq_ignore_ascii_case(s, lower),
        parse_unsigned(s, usize::MAX as nat) is None,
{
    assert forall|i: int| 0 <= i < s.len() implies #[trigger] ascii_lower(s[i]) == ascii_lower(
        lower[i],
    ) by {
        assert('a' <= lower[i] && lower[i] <= 'z');
        if s[i] != lower[i] {
            assert(s[i] == ((lower[i] as nat) - 32) as char);
            assert((s[i] as nat) == (lower[i] as nat) - 32);
        }
    }
    assert('a' <= lower[0] && lower[0] <= 'z');
    if s[0] != lower[0] {
        assert((s[0] as nat) == (lower[0] as nat) - 32);
    }
    assert(!is_digit(s[0]));
    assert(s[0] != '+');
    assert(unsigned_body(s) == s);
}

/// Level names are read without regard to letter case: a text that spells `error`, `warn`,
/// `info`, `debug` or `trace` with each letter in either case names that level.
pub proof fn lemma_level_names_in_any_case(s: Seq<char>)
    ensures
        spelled_in_any_case(s, seq!['e', 'r', 'r', 'o', 'r']) ==> log_level_named(s) == Some(
            LogLevel::Error,
        ),
        spelled_in_any_case(s, seq!['w', 'a', 'r', 'n']) ==> log_level_named(s) == Some(
            LogLevel::Warn,
        ),
        spelled_in_any_case(s, seq!['i', 'n', 'f', 'o']) ==> log_level_named(s) == Some(
            LogLevel::Info,
        ),
        spelled_in_any_case(s, seq!['d', 'e', 'b', 'u', 'g']) ==> log_level_named(s) == Some(
            LogLevel::Debug,
        ),
        spelled_in_any_case(s, seq!['t', 'r', 'a', 'c', 'e']) ==> log_level_named(s) == Some(
            LogLevel::Trace,
        ),
{
    let words = seq![
        seq!['e', 'r', 'r', 'o', 'r'],
        seq!['w', 'a', 'r', 'n'],
        seq!['i', 'n', 'f', 'o'],
        seq!['d', 'e', 'b', 'u', 'g'],
        seq!['t', 'r', 'a', 'c', 'e'],
    ];
    assert forall|w: int| 0 <= w < 5 && spelled_in_any_case(s, #[trigger] words[w]) implies (
    eq_ignore_ascii_case(s, words[w]) && parse_unsigned(s, usize::MAX as nat) is None) by {
        lemma_any_case_word(s, words[w]);
    }
    assert(words[0] == seq!['e', 'r', 'r', 'o', 'r']);
    assert(words[1] == seq!['w', 'a', 'r', 'n']);
    assert(words[2] == seq!['i', 'n', 'f', 'o']);
    assert(words[3] == seq!['d', 'e', 'b', 'u', 'g']);
    assert(words[4] == seq!['t', 'r', 'a', 'c', 'e']);
    // No text is a case variant of two different names.
    assert forall|w: int, v: int|
        0 <= w < 5 && 0 <= v < 5 && w != v && spelled_in_any_case(s, #[trigger] words[w])
            implies !eq_ignore_ascii_case(s, #[trigger] words[v]) by {
        if eq_ignore_ascii_case(s, words[v]) {
            let k: int = if words[w].len() != words[v].len() { 0 } else if words[w][0] != words[v][0] { 0 } else { 1 };
            assert(ascii_lower(s[k]) == ascii_lower(words[v][k]));
            assert(ascii_lower(s[k]) == words[w][k]);
        }
    }
}

/// Reads a log level as `tracing::Level` does: a `usize` from 1 (`error`) to 5 (`trace`), or
/// one of `error`, `warn`, `info`, `debug`, `trace` in any letter case.
pub fn parse_log_level(s: &str) -> (r: Option<LogLevel>)
    ensures
        r == log_level_named(s@),
{
    match parse_usize(s) {
        Some(1) => {
            return Some(LogLevel::Error);
        },
        Some(2) => {
            return Some(LogLevel::Warn);
        },
        Some(3) => {
            return Some(LogLevel::Info);
        },
        Some(4) => {
            return Some(LogLevel::Debug);
        },
        Some(5) => {
            return Some(LogLevel::Trace);
        },
        _ => {},
    }
    proof {
        reveal_strlit("error");
        reveal_strlit("warn");
        reveal_strlit("info");
        reveal_strlit("debug");
        reveal_strlit("trace");
    }
    if str_eq_ignore_ascii_case(s, "error") {
        Some(LogLevel::Error)
    } else if str_eq_ignore_ascii_case(s, "warn") {
        Some(LogLevel::Warn)
    } else if str_eq_ignore_ascii_case(s, "info") {
        Some(LogLevel::Info)
    } else if str_eq_ignore_ascii_case(s, "debug") {
        Some(LogLevel::Debug)
    } else if str_eq_ignore_ascii_case(s, "trace") {
        Some(LogLevel::Trace)
    } else {
        None
    }
}

/// The server's settings.
pub struct Config {
    /// The address the server listens on.
    pub address: String,
    /// The serialization of the server's public URL.
    pub url: String,
    /// Where the database lives.
    pub db_url: String,
    /// The most verbose level that is logged.
    pub log_level: LogLevel,
    /// How many leading zeros the hash text of a challenge must have.
    pub difficulty: u32,
}

impl Default for Config {
    /// Listens on `127.0.0.1:8080`, is reached at `http://localhost:8080/`, keeps its database
    /// in `./interlinked.sqlite`, logs at `Info` and asks for one leading zero.
    fn default() -> (r: Self)
        ensures
            r.address@ == "127.0.0.1:8080"@,
            r.url@ == "http://localhost:8080/"@,
            r.db_url@ == "./interlinked.sqlite"@,
            r.log_level == LogLevel::Info,
            r.difficulty == 1,
    {
        Config {
            address: "127.0.0.1:8080".to_owned(),
            url: "http://localhost:8080/".to_owned(),
            db_url: "./interlinked.sqlite".to_owned(),
            log_level: LogLevel::Info,
            difficulty: 1,
        }
    }
}

/// Settings given from outside, each of which replaces the corresponding default.
pub struct ConfigOverrides {
    pub address: Option<String>,
    pub url: Option<String>,
    pub db_url: Option<String>,
    pub log_level: Option<String>,
    pub difficulty: Option<String>,
}

/// A setting that could not be read.
pub enum ConfigError {
    /// The URL is not a URL.
    InvalidUrl(InvalidUrl),
    /// The log level does not name a level.
    InvalidLogLevel,
    /// The difficulty is not a `u32`.
    InvalidDifficulty,
}

/// Whether the overrides hold a URL that is not a URL.
pub open spec fn bad_url(o: ConfigOverrides) -> bool {
    o.url matches Some(u) && url_parse(u@) is None
}

/// Whether the overrides hold a log level that does not name a level.
pub open spec fn bad_log_level(o: ConfigOverrides) -> bool {
    o.log_level matches Some(l) && log_level_named(l@) is None
}

/// Whether the overrides hold a difficulty that is not a `u32`.
pub open spec fn bad_difficulty(o: ConfigOverrides) -> bool {
    o.difficulty matches Some(d) && parse_unsigned(d@, u32::MAX as nat) is None
}

impl Config {
    /// Applies the overrides: each given setting replaces the current one, the URL by its
    /// serialization, the log level by the level it names and the difficulty by its value. A URL
    /// that is not a URL is refused first, then a log level that names no level, then a
    /// difficulty that is not a `u32`.
    pub fn with_overrides(self, o: ConfigOverrides) -> (r: Result<Config, ConfigError>)
        ensures
            r matches Err(ConfigError::InvalidUrl(_)) <==> bad_url(o),
            r matches Err(ConfigError::InvalidLogLevel) <==> !bad_url(o) && bad_log_level(o),
            r matches Err(ConfigError::InvalidDifficulty) <==> !bad_url(o) && !bad_log_level(o)
                && bad_difficulty(o),
            r matches Ok(c) ==> {
                &&& c.address@ == (match o.address {
                    Some(a) => a@,
                    None => self.address@,
                })
                &&& c.url@ == (match o.url {
                    Some(u) => url_parse(u@)->0,
                    None => self.url@,
                })
                &&& c.db_url@ == (match o.db_url {
                    Some(d) => d@,
                    None => self.db_url@,
                })
                &&& c.log_level == (match o.log_level {
                    Some(l) => log_level_named(l@)->0,
                    None => self.log_level,
                })
                &&& c.difficulty as nat == (match o.difficulty {
                    Some(d) => parse_unsigned(d@, u32::MAX as nat)->0,
                    None => self.difficulty as nat,
                })
            },
    {
        let ConfigOverrides { address, url, db_url, log_level, difficulty } = o;
        let mut config = self;
        match address {
            Some(a) => {
                config.address = a;
            },
            None => {},
        }
        match url {
            Some(u) => match parse_url(u.as_str()) {
                Ok(s) => {
                    config.url = s;
                },
                Err(e) => {
                    return Err(ConfigError::InvalidUrl(e));
                },
            },
            None => {},
        }
        match db_url {
            Some(d) => {
                config.db_url = d;
            },
            None => {},
        }
        match log_level {
            Some(l) => match parse_log_level(l.as_str()) {
                Some(level) => {
                    config.log_level = level;
                },
                None => {
                    return Err(ConfigError::InvalidLogLevel);
                },
            },
            None => {},
        }
        match difficulty {
            Some(d) => match parse_u32(d.as_str()) {
                Some(v) => {
                    config.difficulty = v;
                },
                None => {
                    return Err(ConfigError::InvalidDifficulty);
                },
            },
            None => {},
        }
        Ok(config)
    }
}

} // verus!
