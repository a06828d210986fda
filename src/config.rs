//! Connection and service settings, and their validation.
//!
//! The settings come from environment variables; this module takes the
//! values read and decides what they make.
use vstd::prelude::*;
use vstd::utf8::encode_utf8;

use crate::provider::common::{prefixed, push_char};

verus! {

/// Why the settings are unusable.
#[derive(Debug, Clone)]
pub enum ConfigError {
    Missing(String),
    Invalid(String),
}

impl ConfigError {
    /// The human-readable text of the error.
    pub open spec fn spec_message(&self) -> Seq<char> {
        match self {
            ConfigError::Missing(v) => "Required environment variable "@ + v@ + " is not set"@,
            ConfigError::Invalid(m) => "Invalid configuration: "@ + m@,
        }
    }

    /// Renders the error as text.
    pub fn message(&self) -> (r: String)
        ensures
            r@ == self.spec_message(),
    {
        match self {
            ConfigError::Missing(v) => {
                let mut s = prefixed("Required environment variable ", v);
                s.append(" is not set");
                s
            },
            ConfigError::Invalid(m) => prefixed("Invalid configuration: ", m),
        }
    }
}

/// Where a database lives and how to log in.
#[derive(Debug, Clone)]
pub struct DatabaseConfig {
    pub db_name: String,
    pub username: String,
    pub password: String,
    pub address: String,
}

/// The address used when none is configured.
pub open spec fn default_address() -> Seq<char> {
    "localhost:5432"@
}

/// A database configuration from the values of its four variables, the
/// first three of which are required; the error names the first missing
/// one.
pub fn database_config_from_values(
    db_name_var: &str,
    user_var: &str,
    pass_var: &str,
    db_name: Option<String>,
    username: Option<String>,
    password: Option<String>,
    address: Option<String>,
) -> (r: Result<DatabaseConfig, ConfigError>)
    ensures
        db_name is None ==> (r matches Err(ConfigError::Missing(v)) && v@ == db_name_var@),
        db_name is Some && username is None ==> (r matches Err(ConfigError::Missing(v)) && v@
            == user_var@),
        db_name is Some && username is Some && password is None ==> (r matches Err(
            ConfigError::Missing(v),
        ) && v@ == pass_var@),
        db_name is Some && username is Some && password is Some ==> (r matches Ok(c) && c.db_name
            == db_name->Some_0 && c.username == username->Some_0 && c.password == password->Some_0
            && (address matches Some(a) ==> c.address == a) && (address is None ==> c.address@
            == default_address())),
{
    let db_name = match db_name {
        Some(v) => v,
        None => return Err(ConfigError::Missing(String::from_str(db_name_var))),
    };
    let username = match username {
        Some(v) => v,
        None => return Err(ConfigError::Missing(String::from_str(user_var))),
    };
    let password = match password {
        Some(v) => v,
        None => return Err(ConfigError::Missing(String::from_str(pass_var))),
    };
    let address = match address {
        Some(v) => v,
        None => String::from_str("localhost:5432"),
    };
    Ok(DatabaseConfig { db_name, username, password, address })
}

impl DatabaseConfig {
    /// The Homebrew database settings from the values of `HOMEBREW_PG_DBNAME`,
    /// `HOMEBREW_PG_USER`, `HOMEBREW_PG_PASS` and `HOMEBREW_PG_ADDRESS`.
    pub fn homebrew_from_values(
        db_name: Option<String>,
        username: Option<String>,
        password: Option<String>,
        address: Option<String>,
    ) -> (r: Result<Self, ConfigError>)
        ensures
            db_name is None ==> (r matches Err(ConfigError::Missing(v)) && v@
                == "HOMEBREW_PG_DBNAME"@),
            db_name is Some && username is Some && password is Some ==> r is Ok,
            r is Ok ==> db_name is Some && username is Some && password is Some,
    {
        database_config_from_values(
            "HOMEBREW_PG_DBNAME",
            "HOMEBREW_PG_USER",
            "HOMEBREW_PG_PASS",
            db_name,
            username,
            password,
            address,
        )
    }

    /// The Combo database settings from the values of `COMBO_PG_DBNAME`,
    /// `COMBO_PG_USER`, `COMBO_PG_PASS` and `COMBO_PG_ADDRESS`.
    pub fn combo_from_values(
        db_name: Option<String>,
        username: Option<String>,
        password: Option<String>,
        address: Option<String>,
    ) -> (r: Result<Self, ConfigError>)
        ensures
            db_name is None ==> (r matches Err(ConfigError::Missing(v)) && v@
                == "COMBO_PG_DBNAME"@),
            db_name is Some && username is Some && password is Some ==> r is Ok,
            r is Ok ==> db_name is Some && username is Some && password is Some,
    {
        database_config_from_values(
            "COMBO_PG_DBNAME",
            "COMBO_PG_USER",
            "COMBO_PG_PASS",
            db_name,
            username,
            password,
            address,
        )
    }
}

/// The weather service settings.
#[derive(Debug, Clone)]
pub struct WeatherConfig {
    pub accu_key: String,
    pub zip_code: String,
}

impl WeatherConfig {
    /// The settings from the values of `ACCUWEATHERKEY` and `ZIP_CODE`,
    /// both required.
    pub fn from_values(accu_key: Option<String>, zip_code: Option<String>) -> (r: Result<
        Self,
        ConfigError,
    >)
        ensures
            accu_key is None ==> (r matches Err(ConfigError::Missing(v)) && v@ == "ACCUWEATHERKEY"@),
            accu_key is Some && zip_code is None ==> (r matches Err(ConfigError::Missing(v)) && v@
                == "ZIP_CODE"@),
            accu_key is Some && zip_code is Some ==> (r matches Ok(c) && c.accu_key
                == accu_key->Some_0 && c.zip_code == zip_code->Some_0),
    {
        let accu_key = match accu_key {
            Some(v) => v,
            None => return Err(ConfigError::Missing(String::from_str("ACCUWEATHERKEY"))),
        };
        let zip_code = match zip_code {
            Some(v) => v,
            None => return Err(ConfigError::Missing(String::from_str("ZIP_CODE"))),
        };
        Ok(WeatherConfig { accu_key, zip_code })
    }
}

/// Whether `char::is_numeric` holds of a character.
pub uninterp spec fn is_numeric_char(c: char) -> bool;

/// Relies on `char::is_numeric`: whether the character is Unicode numeric.
#[verifier::external_body]
fn char_is_numeric(c: char) -> (r: bool)
    ensures
        r == is_numeric_char(c),
{
    c.is_numeric()
}

/// A ZIP code is five bytes long and all numeric.
pub open spec fn zip_ok(zip: Seq<char>) -> bool {
    &&& (encode_utf8(zip).len() as usize) == 5
    &&& forall|i: int| 0 <= i < zip.len() ==> is_numeric_char(#[trigger] zip[i])
}

/// All settings of the service.
#[derive(Debug, Clone)]
pub struct Config {
    pub homebrew_database: Option<DatabaseConfig>,
    pub combo_database: Option<DatabaseConfig>,
    pub weather: WeatherConfig,
}

impl Config {
    /// Checks, in this order: a present Homebrew database has an address, a
    /// present Combo database has an address, the ZIP code is valid, the
    /// API key is not empty.
    pub fn validate(&self) -> (r: Result<(), ConfigError>)
        ensures
            ({
                let home_ok = (self.homebrew_database matches Some(d) ==> d.address@.len() > 0);
                let combo_ok = (self.combo_database matches Some(d) ==> d.address@.len() > 0);
                let zip = zip_ok(self.weather.zip_code@);
                let key_ok = self.weather.accu_key@.len() > 0;
                &&& !home_ok ==> (r matches Err(ConfigError::Invalid(m)) && m@
                    == "Homebrew database address cannot be empty"@)
                &&& home_ok && !combo_ok ==> (r matches Err(ConfigError::Invalid(m)) && m@
                    == "Combo database address cannot be empty"@)
                &&& home_ok && combo_ok && !zip ==> (r matches Err(ConfigError::Invalid(m)) && m@
                    == "ZIP_CODE must be a 5-digit US ZIP code"@)
                &&& home_ok && combo_ok && zip && !key_ok ==> (r matches Err(ConfigError::Invalid(m))
                    && m@ == "ACCUWEATHERKEY cannot be empty"@)
                &&& home_ok && combo_ok && zip && key_ok ==> r is Ok
            }),
    {
        if let Some(db) = &self.homebrew_database {
            if db.address.as_str().is_empty() {
                return Err(ConfigError::Invalid(String::from_str("Homebrew database address cannot be empty")));
            }
        }
        if let Some(db) = &self.combo_database {
            if db.address.as_str().is_empty() {
                return Err(ConfigError::Invalid(String::from_str("Combo database address cannot be empty")));
            }
        }
        let zip = self.weather.zip_code.as_str();
        let mut numeric = true;
        let n = zip.unicode_len();
        let mut i: usize = 0;
        while i < n
            invariant
                n == zip@.len(),
                i <= n,
                numeric == forall|j: int| 0 <= j < i ==> is_numeric_char(#[trigger] zip@[j]),
            decreases n - i,
        {
            if !char_is_numeric(zip.get_char(i)) {
                numeric = false;
            }
            i += 1;
        }
        if zip.len() != 5 || !numeric {
            return Err(ConfigError::Invalid(String::from_str("ZIP_CODE must be a 5-digit US ZIP code")));
        }
        if self.weather.accu_key.as_str().is_empty() {
            return Err(ConfigError::Invalid(String::from_str("ACCUWEATHERKEY cannot be empty")));
        }
        Ok(())
    }
}


/// Whether `char::is_whitespace` holds of a character.
pub uninterp spec fn is_space(c: char) -> bool;

/// Relies on `char::is_whitespace`: whether the character is Unicode white
/// space.
#[verifier::external_body]
fn char_is_whitespace(c: char) -> (r: bool)
    ensures
        r == is_space(c),
{
    c.is_whitespace()
}

/// What a trim removes from the ends of a text.
#[derive(Debug, Clone, Copy, PartialEq, Eq, Structural)]
pub enum Trim {
    /// White space, as `str::trim` removes it.
    Space,
    /// One character, as `str::trim_matches` removes it.
    Char(char),
}

/// Whether a trim removes the character.
pub open spec fn trims(t: Trim, c: char) -> bool {
    match t {
        Trim::Space => is_space(c),
        Trim::Char(x) => c == x,
    }
}

fn trims_char(t: Trim, c: char) -> (r: bool)
    ensures
        r == trims(t, c),
{
    match t {
        Trim::Space => char_is_whitespace(c),
        Trim::Char(x) => c == x,
    }
}

/// The text without the characters the trim removes at its start.
pub open spec fn trim_start(s: Seq<char>, t: Trim) -> Seq<char>
    decreases s.len(),
{
    if s.len() > 0 && trims(t, s[0]) {
        trim_start(s.drop_first(), t)
    } else {
        s
    }
}

/// The text without the characters the trim removes at its end.
pub open spec fn trim_end(s: Seq<char>, t: Trim) -> Seq<char>
    decreases s.len(),
{
    if s.len() > 0 && trims(t, s.last()) {
        trim_end(s.drop_last(), t)
    } else {
        s
    }
}

/// The text without the characters the trim removes at both ends.
pub open spec fn trimmed(s: Seq<char>, t: Trim) -> Seq<char> {
    trim_end(trim_start(s, t), t)
}

/// The position of the first `c` in `s`.
pub open spec fn first_index(s: Seq<char>, c: char) -> Option<int>
    decreases s.len(),
{
    if s.len() == 0 {
        None
    } else if s[0] == c {
        Some(0)
    } else {
        match first_index(s.drop_first(), c) {
            Some(i) => Some(i + 1),
            None => None,
        }
    }
}

/// Where the trimmed part of `chars[lo..hi]` starts.
fn trim_start_at(chars: &Vec<char>, lo: usize, hi: usize, t: Trim) -> (r: usize)
    requires
        lo <= hi <= chars@.len(),
    ensures
        lo <= r <= hi,
        trim_start(chars@.subrange(lo as int, hi as int), t) == chars@.subrange(r as int, hi as int),
{
    let mut i = lo;
    while i < hi && trims_char(t, chars[i])
        invariant
            lo <= i <= hi <= chars@.len(),
            trim_start(chars@.subrange(lo as int, hi as int), t) == trim_start(
                chars@.subrange(i as int, hi as int),
                t,
            ),
        decreases hi - i,
    {
        proof {
            assert(chars@.subrange(i as int, hi as int).drop_first() =~= chars@.subrange(
                i + 1,
                hi as int,
            ));
        }
        i += 1;
    }
    i
}

/// Where the trimmed part of `chars[lo..hi]` ends.
fn trim_end_at(chars: &Vec<char>, lo: usize, hi: usize, t: Trim) -> (r: usize)
    requires
        lo <= hi <= chars@.len(),
    ensures
        lo <= r <= hi,
        trim_end(chars@.subrange(lo as int, hi as int), t) == chars@.subrange(lo as int, r as int),
{
    let mut j = hi;
    while j > lo && trims_char(t, chars[j - 1])
        invariant
            lo <= j <= hi <= chars@.len(),
            trim_end(chars@.subrange(lo as int, hi as int), t) == trim_end(
                chars@.subrange(lo as int, j as int),
                t,
            ),
        decreases j - lo,
    {
        proof {
            assert(chars@.subrange(lo as int, j as int).drop_last() =~= chars@.subrange(
                lo as int,
                j - 1,
            ));
        }
        j -= 1;
    }
    j
}

/// The characters `chars[lo..hi]` as a string.
fn text_of(chars: &Vec<char>, lo: usize, hi: usize) -> (r: String)
    requires
        lo <= hi <= chars@.len(),
    ensures
        r@ == chars@.subrange(lo as int, hi as int),
{
    let mut out = String::new();
    let mut i = lo;
    while i < hi
        invariant
            lo <= i <= hi <= chars@.len(),
            out@ == chars@.subrange(lo as int, i as int),
        decreases hi - i,
    {
        push_char(&mut out, chars[i]);
        proof {
            assert(out@ =~= chars@.subrange(lo as int, i + 1));
        }
        i += 1;
    }
    out
}

/// The key and value of one line of a `.env` file.
///
/// Blank lines and lines starting with `#` hold none, nor do lines without
/// `=`.  Otherwise the key is what precedes the first `=`, trimmed of white
/// space; the value is what follows it, trimmed of white space, then of
/// double quotes, then of single quotes.
pub fn parse_env_line(line: &str) -> (r: Option<(String, String)>)
    ensures
        line@.len() == 0 || line@[0] == '#' ==> r is None,
        line@.len() > 0 && line@[0] != '#' ==> match first_index(line@, '=') {
            None => r is None,
            Some(i) => r matches Some((k, v)) && k@ == trimmed(line@.take(i), Trim::Space) && v@
                == trimmed(
                trimmed(trimmed(line@.skip(i + 1), Trim::Space), Trim::Char('"')),
                Trim::Char('\''),
            ),
        },
{
    let n = line.unicode_len();
    let mut chars: Vec<char> = Vec::new();
    let mut i: usize = 0;
    while i < n
        invariant
            n == line@.len(),
            i <= n,
            chars@ == line@.take(i as int),
        decreases n - i,
    {
        chars.push(line.get_char(i));
        proof {
            assert(chars@ =~= line@.take(i + 1));
        }
        i += 1;
    }
    proof {
        assert(chars@ =~= line@);
    }
    if n == 0 || chars[0] == '#' {
        return None;
    }
    let mut eq: usize = 0;
    while eq < n && chars[eq] != '='
        invariant
            n == chars@.len(),
            eq <= n,
            first_index(chars@, '=') == match first_index(chars@.skip(eq as int), '=') {
                Some(k) => Some(k + eq),
                None => None,
            },
        decreases n - eq,
    {
        proof {
            assert(chars@.skip(eq as int).drop_first() =~= chars@.skip(eq + 1));
        }
        eq += 1;
    }
    if eq == n {
        proof {
            assert(chars@.skip(n as int) =~= Seq::<char>::empty());
        }
        return None;
    }
    proof {
        assert(chars@.skip(eq as int)[0] == '=');
        assert(chars@.take(eq as int) =~= chars@.subrange(0, eq as int));
        assert(chars@.skip(eq + 1) =~= chars@.subrange(eq + 1, n as int));
    }
    let k0 = trim_start_at(&chars, 0, eq, Trim::Space);
    let k1 = trim_end_at(&chars, k0, eq, Trim::Space);
    let v0 = trim_start_at(&chars, eq + 1, n, Trim::Space);
    let v1 = trim_end_at(&chars, v0, n, Trim::Space);
    let v2 = trim_start_at(&chars, v0, v1, Trim::Char('"'));
    let v3 = trim_end_at(&chars, v2, v1, Trim::Char('"'));
    let v4 = trim_start_at(&chars, v2, v3, Trim::Char('\''));
    let v5 = trim_end_at(&chars, v4, v3, Trim::Char('\''));
    Some((text_of(&chars, k0, k1), text_of(&chars, v4, v5)))
}

} // verus!
