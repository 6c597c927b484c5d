//! Settings of the chain: database location, generation service address and
//! the model identifiers, each with its default when not configured.
use vstd::prelude::*;

verus! {

/// Where the database lives.
#[derive(Debug)]
pub struct DbConfig {
    pub url: String,
}

/// Where the generation service listens.
#[derive(Debug)]
pub struct OllamaConfig {
    pub url: String,
    pub port: u16,
}

/// A configured setting that cannot be used.
#[derive(Debug)]
pub enum ConfigError {
    /// The port setting is not a decimal number from 0 to 65535.
    InvalidPort { value: String },
    /// The SQL model and the answer model are the same identifier.
    SameModels { model: String },
}

/// The models the chain can address.
#[derive(Clone, Copy, Debug, PartialEq, Eq, Structural)]
pub enum ModelSelect {
    /// The model that writes SQL.
    SqlOperate,
    /// The model that writes natural-language answers.
    NplOperate,
    /// A small general model.
    TinyLlma,
}

/// A setting's value, or the empty string when it is not set.
pub open spec fn or_empty(v: Option<String>) -> Seq<char> {
    match v {
        Some(s) => s@,
        None => Seq::empty(),
    }
}

pub open spec fn is_digit(c: char) -> bool {
    '0' <= c && c <= '9'
}

/// The number that a string of decimal digits writes.
pub open spec fn digits_value(s: Seq<char>) -> int
    decreases s.len(),
{
    if s.len() == 0 {
        0
    } else {
        digits_value(s.drop_last()) * 10 + ((s.last() as u32) - ('0' as u32))
    }
}

/// The digits of a port setting: without one leading `+`.
pub open spec fn port_digits(s: Seq<char>) -> Seq<char> {
    if s.len() > 0 && s[0] == '+' {
        s.drop_first()
    } else {
        s
    }
}

/// The port a setting writes: one or more decimal digits, after an optional
/// `+`, whose value fits in 16 bits.
pub open spec fn port_value(s: Seq<char>) -> Option<int> {
    let d = port_digits(s);
    if d.len() > 0 && (forall|i: int| 0 <= i < d.len() ==> is_digit(#[trigger] d[i]))
        && digits_value(d) <= 65535 {
        Some(digits_value(d))
    } else {
        None
    }
}

proof fn lemma_digits_prefix(s: Seq<char>, j: int)
    requires
        0 <= j <= s.len(),
        forall|i: int| 0 <= i < s.len() ==> is_digit(#[trigger] s[i]),
    ensures
        0 <= digits_value(s.subrange(0, j)) <= digits_value(s),
    decreases s.len() - j,
{
    if j < s.len() {
        lemma_digits_prefix(s, j + 1);
        let p = s.subrange(0, j + 1);
        assert(p.drop_last() =~= s.subrange(0, j));
        assert(is_digit(s[j]));
    } else {
        assert(s.subrange(0, j) =~= s);
        lemma_digits_nonneg(s);
    }
}

proof fn lemma_digits_nonneg(s: Seq<char>)
    requires
        forall|i: int| 0 <= i < s.len() ==> is_digit(#[trigger] s[i]),
    ensures
        0 <= digits_value(s),
    decreases s.len(),
{
    if s.len() > 0 {
        lemma_digits_nonneg(s.drop_last());
        assert(is_digit(s[s.len() - 1]));
    }
}

/// Reads a port setting; `None` unless it is a decimal number that fits.
pub fn parse_port(s: &str) -> (r: Option<u16>)
    ensures
        match r {
            Some(x) => port_value(s@) == Some(x as int),
            None => port_value(s@) is None,
        },
{
    let n = s.unicode_len();
    let mut i: usize = 0;
    if n > 0 && s.get_char(0) == '+' {
        i = 1;
    }
    let ghost d = port_digits(s@);
    assert(d =~= s@.subrange(i as int, n as int));
    if i == n {
        assert(d.len() == 0);
        return None;
    }
    let start = i;
    let mut j: usize = i;
    while j < n
        invariant
            n == s@.len(),
            start <= j <= n,
            d =~= s@.subrange(start as int, n as int),
            d == port_digits(s@),
            forall|k: int| 0 <= k < j - start ==> is_digit(#[trigger] d[k]),
        decreases n - j,
    {
        let c = s.get_char(j);
        if !('0' <= c && c <= '9') {
            assert(!is_digit(d[j - start]));
            return None;
        }
        j = j + 1;
    }
    let mut acc: u32 = 0;
    while i < n
        invariant
            n == s@.len(),
            start <= i <= n,
            d =~= s@.subrange(start as int, n as int),
            d == port_digits(s@),
            forall|k: int| 0 <= k < d.len() ==> is_digit(#[trigger] d[k]),
            acc <= 65535,
            acc == digits_value(d.subrange(0, i - start)),
        decreases n - i,
    {
        let c = s.get_char(i);
        assert(is_digit(d[i - start]));
        assert(d.subrange(0, i + 1 - start).drop_last() =~= d.subrange(0, i - start));
        let next = acc * 10 + ((c as u32) - ('0' as u32));
        assert(d.subrange(0, i + 1 - start).last() == c);
        assert(next == digits_value(d.subrange(0, i + 1 - start)));
        if next > 65535 {
            proof {
                lemma_digits_prefix(d, i + 1 - start);
            }
            return None;
        }
        acc = next;
        i = i + 1;
    }
    assert(d.subrange(0, i - start) =~= d);
    Some(acc as u16)
}

impl DbConfig {
    /// The database setting; the empty string when it is not set.
    pub fn from_setting(url: Option<String>) -> (r: DbConfig)
        ensures
            r.url@ == or_empty(url),
    {
        match url {
            Some(u) => DbConfig { url: u },
            None => DbConfig { url: String::new() },
        }
    }
}

impl OllamaConfig {
    /// The service settings; the empty address and port 0 when not set, an
    /// error when the port is set but is no port number.
    pub fn from_settings(url: Option<String>, port: Option<String>) -> (r: Result<
        OllamaConfig,
        ConfigError,
    >)
        ensures
            match port {
                Some(p) => match port_value(p@) {
                    Some(v) => r matches Ok(c) && c.url@ == or_empty(url) && c.port == v,
                    None => r matches Err(ConfigError::InvalidPort { value }) && value@ == p@,
                },
                None => r matches Ok(c) && c.url@ == or_empty(url) && c.port == 0,
            },
    {
        let port_num: u16 = match port {
            Some(p) => match parse_port(p.as_str()) {
                Some(v) => v,
                None => {
                    return Err(ConfigError::InvalidPort { value: p });
                },
            },
            None => 0,
        };
        let u = match url {
            Some(u) => u,
            None => String::new(),
        };
        Ok(OllamaConfig { url: u, port: port_num })
    }
}

impl ModelSelect {
    /// The identifier used when none is configured.
    pub open spec fn default_id(self) -> Seq<char> {
        match self {
            ModelSelect::SqlOperate => "sqlcoder:7b"@,
            ModelSelect::NplOperate => "llama3"@,
            ModelSelect::TinyLlma => "timyllama:latest"@,
        }
    }

    /// The name of the setting that configures this model.
    pub fn setting_name(&self) -> (r: &'static str)
        ensures
            r@ == match *self {
                ModelSelect::SqlOperate => "SQL_OPERATE"@,
                ModelSelect::NplOperate => "NPL_OPERATE"@,
                ModelSelect::TinyLlma => "TINY_LLAMA"@,
            },
    {
        match self {
            ModelSelect::SqlOperate => "SQL_OPERATE",
            ModelSelect::NplOperate => "NPL_OPERATE",
            ModelSelect::TinyLlma => "TINY_LLAMA",
        }
    }

    /// The model identifier: the configured one, else the default.
    pub fn as_str(&self, configured: Option<String>) -> (r: String)
        ensures
            r@ == match configured {
                Some(s) => s@,
                None => self.default_id(),
            },
    {
        match configured {
            Some(s) => s,
            None => match self {
                ModelSelect::SqlOperate => String::from_str("sqlcoder:7b"),
                ModelSelect::NplOperate => String::from_str("llama3"),
                ModelSelect::TinyLlma => String::from_str("timyllama:latest"),
            },
        }
    }
}

} // verus!
