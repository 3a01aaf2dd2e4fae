//! Configuration: the settings the client starts with, and the reading of
//! the configuration file's text. The file itself is found, created and
//! read outside the library; the parsing of its text is done here.

use vstd::prelude::*;

use crate::session::{find_id, lemma_find_id_pin};
use crate::snapshot::{lemma_newline_at_pin, newline_at};
use crate::text::{chars_of, chars_range, skip_spaces, str_eq, string_from_chars, ws_from};

verus! {

/// A failure of the configuration manager.
#[derive(Debug)]
pub enum ConfigManagerError {
    /// No project directory could be located for the configuration file.
    ProjectDirs,
    /// Reading or writing the configuration file failed, with its detail.
    Io(String),
    /// The configuration file's text could not be parsed.
    Parse,
}

impl ConfigManagerError {
    /// A user-readable description of this failure.
    pub fn message(&self) -> (text: String)
        ensures
            text@ == match *self {
                ConfigManagerError::ProjectDirs => "Failed to locate project directories."@,
                ConfigManagerError::Io(detail) => "IO error: "@ + detail@,
                ConfigManagerError::Parse => "Failed to parse configuration."@,
            },
    {
        match self {
            Self::ProjectDirs => String::from_str("Failed to locate project directories."),
            Self::Io(detail) => {
                let mut text = String::from_str("IO error: ");
                text.append(detail.as_str());
                text
            },
            Self::Parse => String::from_str("Failed to parse configuration."),
        }
    }
}

/// The two settings the configuration file must supply.
#[derive(Debug)]
pub struct AppConfig {
    pub default_provider: String,
    pub default_model: String,
}

/// The settings the command interpreter consults when a provider is
/// constructed mid-session: the default Gemini model id, the configured
/// API key, and the key found in the environment at startup.
#[derive(Debug)]
pub struct Config {
    pub gemini_model: Option<String>,
    pub gemini_api_key: Option<String>,
    pub gemini_env_key: Option<String>,
}

/// Whether the character may stand in a configuration key.
pub open spec fn is_key_char(c: char) -> bool {
    ('a' <= c <= 'z') || ('A' <= c <= 'Z') || ('0' <= c <= '9') || c == '_' || c == '-'
}

/// The first index at or after `i` whose character is no key character.
pub open spec fn key_end(s: Seq<char>, i: int) -> int
    decreases s.len() - i,
{
    if i >= s.len() {
        s.len() as int
    } else if i >= 0 && is_key_char(s[i]) {
        key_end(s, i + 1)
    } else {
        i
    }
}

/// The first index at or after `i` holding a double quote, or the length.
pub open spec fn quote_end(s: Seq<char>, i: int) -> int
    decreases s.len() - i,
{
    if i >= s.len() {
        s.len() as int
    } else if i >= 0 && s[i] != '"' {
        quote_end(s, i + 1)
    } else {
        i
    }
}

/// One line of the configuration file: nothing for a blank or comment
/// line, a key and quoted value for an entry, `None` for anything else.
pub open spec fn parse_config_line(line: Seq<char>) -> Option<Option<(Seq<char>, Seq<char>)>> {
    let i = skip_spaces(line, 0);
    if i >= line.len() {
        Some(None)
    } else if line[i] == '#' {
        Some(None)
    } else {
        let j = key_end(line, i);
        if j <= i {
            None
        } else {
            let k = skip_spaces(line, j);
            if !(k < line.len() && line[k] == '=') {
                None
            } else {
                let v = skip_spaces(line, k + 1);
                if !(v < line.len() && line[v] == '"') {
                    None
                } else {
                    let e = quote_end(line, v + 1);
                    if e >= line.len() {
                        None
                    } else {
                        let t = skip_spaces(line, e + 1);
                        if t != line.len() {
                            None
                        } else {
                            Some(Some((line.subrange(i, j), line.subrange(v + 1, e))))
                        }
                    }
                }
            }
        }
    }
}

/// The key and value entries of the configuration text, line by line, or
/// `None` where any line cannot be read.
pub open spec fn config_entries(s: Seq<char>) -> Option<Seq<(Seq<char>, Seq<char>)>>
    decreases s.len(),
{
    let j = newline_at(s, 0);
    if !(0 <= j < s.len()) {
        match parse_config_line(s) {
            None => None,
            Some(None) => Some(Seq::empty()),
            Some(Some(entry)) => Some(seq![entry]),
        }
    } else {
        let line = s.subrange(0, j);
        match parse_config_line(line) {
            None => None,
            Some(parsed) => match config_entries(s.skip(j + 1)) {
                None => None,
                Some(rest) => match parsed {
                    None => Some(rest),
                    Some(entry) => Some(seq![entry] + rest),
                },
            },
        }
    }
}

/// The value of the first entry with the given key, if any.
pub open spec fn entry_value(entries: Seq<(Seq<char>, Seq<char>)>, key: Seq<char>) -> Option<
    Seq<char>,
> {
    let i = find_id(entries, key, 0);
    if i < entries.len() {
        Some(entries[i].1)
    } else {
        None
    }
}

/// The settings the configuration text supplies: the default provider and
/// the default model, both of which must be present.
pub open spec fn parse_config(s: Seq<char>) -> Option<(Seq<char>, Seq<char>)> {
    match config_entries(s) {
        None => None,
        Some(entries) => match (
            entry_value(entries, "default_provider"@),
            entry_value(entries, "default_model"@),
        ) {
            (Some(provider), Some(model)) => Some((provider, model)),
            _ => None,
        },
    }
}

/// Reads one line into its entry, if it holds one.
fn parse_config_line_exec(line: &Vec<char>) -> (parsed: Option<Option<(String, String)>>)
    ensures
        match parsed {
            None => parse_config_line(line@) is None,
            Some(None) => parse_config_line(line@) == Some(None::<(Seq<char>, Seq<char>)>),
            Some(Some(entry)) => parse_config_line(line@) == Some(
                Some((entry.0@, entry.1@)),
            ),
        },
{
    let ghost s = line@;
    let n = line.len();
    let i = ws_from(line, 0);
    if i >= n {
        return Some(None);
    }
    if line[i] == '#' {
        return Some(None);
    }
    let mut j = i;
    while j < n
        invariant
            i <= j <= n,
            n == line@.len(),
            key_end(line@, i as int) == key_end(line@, j as int),
        ensures
            i <= j <= n,
            j as int == key_end(line@, i as int),
        decreases n - j,
    {
        if !is_key_char_exec(line[j]) {
            proof {
                assert(key_end(line@, j as int) == j);
            }
            break ;
        }
        j = j + 1;
    }
    if j <= i {
        return None;
    }
    let k = ws_from(line, j);
    if !(k < n && line[k] == '=') {
        return None;
    }
    let v = ws_from(line, k + 1);
    if !(v < n && line[v] == '"') {
        return None;
    }
    let mut e = v + 1;
    while e < n
        invariant
            v + 1 <= e <= n,
            n == line@.len(),
            quote_end(line@, v + 1) == quote_end(line@, e as int),
        ensures
            v + 1 <= e <= n,
            e as int == quote_end(line@, v + 1),
        decreases n - e,
    {
        if line[e] == '"' {
            proof {
                assert(quote_end(line@, e as int) == e);
            }
            break ;
        }
        e = e + 1;
    }
    if e >= n {
        return None;
    }
    let t = ws_from(line, e + 1);
    if t != n {
        return None;
    }
    let key_chars = chars_range(line, i, j);
    let value_chars = chars_range(line, v + 1, e);
    Some(Some((string_from_chars(&key_chars), string_from_chars(&value_chars))))
}

/// Whether the character may stand in a configuration key.
fn is_key_char_exec(c: char) -> (key: bool)
    ensures
        key == is_key_char(c),
{
    ('a' <= c && c <= 'z') || ('A' <= c && c <= 'Z') || ('0' <= c && c <= '9') || c == '_' || c
        == '-'
}

/// Reads the configuration text into its entries.
fn config_entries_exec(text: &str) -> (parsed: Option<Vec<(String, String)>>)
    ensures
        match parsed {
            Some(entries) => config_entries(text@) == Some(entries.deep_view()),
            None => config_entries(text@) is None,
        },
{
    let chars = chars_of(text);
    let n = chars.len();
    let mut entries: Vec<(String, String)> = Vec::new();
    let mut pos: usize = 0;
    proof {
        assert(text@.skip(0) =~= text@);
        if let Some(tail) = config_entries(text@) {
            assert(entries.deep_view() + tail =~= tail);
        }
    }
    while pos < n
        invariant
            pos <= n,
            n == chars@.len(),
            chars@ == text@,
            match config_entries(text@.skip(pos as int)) {
                Some(tail) => config_entries(text@) == Some(entries.deep_view() + tail),
                None => config_entries(text@) is None,
            },
        ensures
            pos <= n,
            n == chars@.len(),
            forall|j: int| pos <= j < n ==> text@[j] != '\n',
            match config_entries(text@.skip(pos as int)) {
                Some(tail) => config_entries(text@) == Some(entries.deep_view() + tail),
                None => config_entries(text@) is None,
            },
        decreases n - pos,
    {
        let ghost suffix = text@.skip(pos as int);
        let mut q: usize = pos;
        while q < n
            invariant
                pos <= q <= n,
                n == chars@.len(),
                chars@ == text@,
                forall|j: int| pos <= j < q ==> text@[j] != '\n',
            ensures
                pos <= q <= n,
                forall|j: int| pos <= j < q ==> text@[j] != '\n',
                q < n ==> text@[q as int] == '\n',
            decreases n - q,
        {
            if chars[q] == '\n' {
                break ;
            }
            q = q + 1;
        }
        proof {
            assert(forall|j: int| 0 <= j < q - pos ==> suffix[j] != '\n');
            if q < n {
                assert(suffix[q - pos] == '\n');
            }
            lemma_newline_at_pin(suffix, q - pos);
        }
        if q == n {
            break ;
        }
        let line = chars_range(&chars, pos, q);
        proof {
            assert(line@ =~= suffix.subrange(0, q - pos));
            assert(suffix.skip(q - pos + 1) =~= text@.skip(q + 1));
        }
        match parse_config_line_exec(&line) {
            None => {
                return None;
            },
            Some(None) => {},
            Some(Some(entry)) => {
                let ghost prior = entries.deep_view();
                let ghost entry_view = (entry.0@, entry.1@);
                entries.push(entry);
                proof {
                    assert(entries.deep_view() =~= prior.push(entry_view));
                    if let Some(tail) = config_entries(text@.skip(q + 1)) {
                        assert(prior.push(entry_view) + tail =~= prior + (seq![entry_view] + tail));
                    }
                }
            },
        }
        pos = q + 1;
    }
    let ghost suffix = text@.skip(pos as int);
    proof {
        assert(newline_at(suffix, 0) == suffix.len()) by {
            lemma_newline_at_pin(suffix, suffix.len() as int);
        }
    }
    if pos == n {
        proof {
            assert(suffix.len() == 0);
            assert(skip_spaces(suffix, 0) == 0);
            assert(parse_config_line(suffix) == Some(None::<(Seq<char>, Seq<char>)>));
            assert(entries.deep_view() + Seq::<(Seq<char>, Seq<char>)>::empty()
                =~= entries.deep_view());
        }
        return Some(entries);
    }
    let line = chars_range(&chars, pos, n);
    proof {
        assert(line@ =~= suffix);
    }
    match parse_config_line_exec(&line) {
        None => None,
        Some(None) => {
            proof {
                assert(entries.deep_view() + Seq::<(Seq<char>, Seq<char>)>::empty()
                    =~= entries.deep_view());
            }
            Some(entries)
        },
        Some(Some(entry)) => {
            let ghost prior = entries.deep_view();
            let ghost entry_view = (entry.0@, entry.1@);
            entries.push(entry);
            proof {
                assert(entries.deep_view() =~= prior.push(entry_view));
                assert(prior + seq![entry_view] =~= prior.push(entry_view));
            }
            Some(entries)
        },
    }
}

/// The value of the first entry with the given key, if any.
fn entry_value_exec(entries: &Vec<(String, String)>, key: &str) -> (value: Option<String>)
    ensures
        match value {
            Some(found) => entry_value(entries.deep_view(), key@) == Some(found@),
            None => entry_value(entries.deep_view(), key@) is None,
        },
{
    let ghost table = entries.deep_view();
    let n = entries.len();
    let mut i: usize = 0;
    while i < n
        invariant
            i <= n,
            n == entries@.len(),
            table == entries.deep_view(),
            table.len() == n,
            forall|j: int| 0 <= j < i ==> table[j].0 != key@,
        decreases n - i,
    {
        proof {
            assert(table[i as int] == entries@[i as int].deep_view());
        }
        if str_eq(entries[i].0.as_str(), key) {
            proof {
                lemma_find_id_pin(table, key@, i as int);
            }
            return Some(entries[i].1.clone());
        }
        i = i + 1;
    }
    proof {
        lemma_find_id_pin(table, key@, n as int);
    }
    None
}

/// The manager of the configuration file: it remembers where the file
/// stands; creating and reading the file happens outside the library.
#[derive(Debug)]
pub struct ConfigManager {
    pub config_path: String,
}

impl ConfigManager {
    /// Reads the configuration file's text into the settings it supplies.
    pub fn load(&self, text: &str) -> (loaded: Result<AppConfig, ConfigManagerError>)
        ensures
            match loaded {
                Ok(config) => parse_config(text@) == Some(
                    (config.default_provider@, config.default_model@),
                ),
                Err(err) => parse_config(text@) is None && err is Parse,
            },
    {
        let entries = match config_entries_exec(text) {
            Some(entries) => entries,
            None => {
                return Err(ConfigManagerError::Parse);
            },
        };
        let provider = match entry_value_exec(&entries, "default_provider") {
            Some(provider) => provider,
            None => {
                return Err(ConfigManagerError::Parse);
            },
        };
        let model = match entry_value_exec(&entries, "default_model") {
            Some(model) => model,
            None => {
                return Err(ConfigManagerError::Parse);
            },
        };
        Ok(AppConfig { default_provider: provider, default_model: model })
    }
}

/// The text a fresh configuration file is created with.
pub fn default_config_text() -> (text: String)
    ensures
        text@ == "default_provider = \"gemini\"\ndefault_model = \"gemini-1.5-pro\""@,
{
    String::from_str("default_provider = \"gemini\"\ndefault_model = \"gemini-1.5-pro\"")
}

} // verus!
