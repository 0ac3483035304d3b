//! Upstream API keys of the free model pool.
//!
//! The keys are configuration: they come from the environment the program
//! was built or started in, and reach the library as a `ProviderKeys` value.
use vstd::prelude::*;

use crate::text::{chars_of, equals_str, starts_with, starts_with_str, string_of, trim, trim_chars};

verus! {

/// The API key configured for each upstream provider; an empty key means
/// that the provider is not configured.
pub struct ProviderKeys {
    pub opencode: String,
    pub openrouter: String,
    pub nvidia: String,
}

/// The raw key configured for a provider name, `None` for an unknown provider.
pub open spec fn raw_key(keys: ProviderKeys, provider: Seq<char>) -> Option<Seq<char>> {
    if provider == "opencode"@ {
        Some(keys.opencode@)
    } else if provider == "openrouter"@ {
        Some(keys.openrouter@)
    } else if provider == "nvidia"@ {
        Some(keys.nvidia@)
    } else {
        None
    }
}

/// The usable key of a provider: known provider and a key that is not blank.
pub open spec fn usable_key(keys: ProviderKeys, provider: Seq<char>) -> Option<Seq<char>> {
    match raw_key(keys, provider) {
        Some(k) => if trim(k).len() == 0 {
            None
        } else {
            Some(k)
        },
        None => None,
    }
}

/// Some provider has a usable key.
pub open spec fn any_usable_key(keys: ProviderKeys) -> bool {
    ||| usable_key(keys, "opencode"@) is Some
    ||| usable_key(keys, "openrouter"@) is Some
    ||| usable_key(keys, "nvidia"@) is Some
}

impl ProviderKeys {
    pub fn new(opencode: &str, openrouter: &str, nvidia: &str) -> (keys: ProviderKeys)
        ensures
            keys.opencode@ == opencode@,
            keys.openrouter@ == openrouter@,
            keys.nvidia@ == nvidia@,
    {
        ProviderKeys {
            opencode: string_of(&chars_of(opencode)),
            openrouter: string_of(&chars_of(openrouter)),
            nvidia: string_of(&chars_of(nvidia)),
        }
    }
}

pub fn opencode_key(keys: &ProviderKeys) -> (k: &str)
    ensures
        k@ == keys.opencode@,
{
    keys.opencode.as_str()
}

pub fn openrouter_key(keys: &ProviderKeys) -> (k: &str)
    ensures
        k@ == keys.openrouter@,
{
    keys.openrouter.as_str()
}

pub fn nvidia_key(keys: &ProviderKeys) -> (k: &str)
    ensures
        k@ == keys.nvidia@,
{
    keys.nvidia.as_str()
}

/// The key to use for `provider`: `None` for an unknown provider or a blank key.
pub fn provider_key<'a>(keys: &'a ProviderKeys, provider: &str) -> (k: Option<&'a str>)
    ensures
        match k {
            Some(key) => usable_key(*keys, provider@) == Some(key@),
            None => usable_key(*keys, provider@) is None,
        },
{
    let p = chars_of(provider);
    let key = if equals_str(&p, "opencode") {
        opencode_key(keys)
    } else if equals_str(&p, "openrouter") {
        openrouter_key(keys)
    } else if equals_str(&p, "nvidia") {
        nvidia_key(keys)
    } else {
        return None;
    };
    let trimmed = trim_chars(&chars_of(key));
    if trimmed.len() == 0 {
        None
    } else {
        Some(key)
    }
}

/// Whether any of the three providers is usable.
pub fn has_any_provider(keys: &ProviderKeys) -> (b: bool)
    ensures
        b == any_usable_key(*keys),
{
    provider_key(keys, "opencode").is_some() || provider_key(keys, "openrouter").is_some()
        || provider_key(keys, "nvidia").is_some()
}

/// The position of the first `c` in `s`.
pub open spec fn index_of(s: Seq<char>, c: char) -> Option<int>
    decreases s.len(),
{
    if s.len() == 0 {
        None
    } else if s[0] == c {
        Some(0)
    } else {
        match index_of(s.drop_first(), c) {
            Some(i) => Some(i + 1),
            None => None,
        }
    }
}

/// `s` without leading occurrences of `c`.
pub open spec fn strip_start(s: Seq<char>, c: char) -> Seq<char>
    decreases s.len(),
{
    if s.len() > 0 && s[0] == c {
        strip_start(s.drop_first(), c)
    } else {
        s
    }
}

/// `s` without trailing occurrences of `c`.
pub open spec fn strip_end(s: Seq<char>, c: char) -> Seq<char>
    decreases s.len(),
{
    if s.len() > 0 && s.last() == c {
        strip_end(s.drop_last(), c)
    } else {
        s
    }
}

/// `s` without leading and trailing occurrences of `c` (`str::trim_matches`).
pub open spec fn strip_char(s: Seq<char>, c: char) -> Seq<char> {
    strip_end(strip_start(s, c), c)
}

/// The name and value of an `export NAME=value` line: the name trimmed, the
/// value trimmed and stripped of surrounding double, then single, quotes.
pub open spec fn export_assignment(line: Seq<char>) -> Option<(Seq<char>, Seq<char>)> {
    if starts_with(line, "export "@) {
        let rest = trim(line.skip(7));
        match index_of(rest, '=') {
            Some(i) => Some(
                (trim(rest.take(i)), strip_char(strip_char(trim(rest.skip(i + 1)), '"'), '\'')),
            ),
            None => None,
        }
    } else {
        None
    }
}

/// The keys after one line of an env file: a blank line, a comment or a line
/// that is no assignment changes nothing; an assignment to a provider's key
/// variable sets that key when it is still empty.
pub open spec fn keys_after_line(keys: (Seq<char>, Seq<char>, Seq<char>), line: Seq<char>) -> (Seq<char>, Seq<char>, Seq<char>) {
    let l = trim(line);
    if l.len() == 0 || l[0] == '#' {
        keys
    } else {
        match export_assignment(l) {
            Some((name, value)) => if name == "OPENCODE_API_KEY"@ && keys.0.len() == 0 {
                (value, keys.1, keys.2)
            } else if name == "OPENROUTER_API_KEY"@ && keys.1.len() == 0 {
                (keys.0, value, keys.2)
            } else if name == "NVIDIA_API_KEY"@ && keys.2.len() == 0 {
                (keys.0, keys.1, value)
            } else {
                keys
            },
            None => keys,
        }
    }
}

/// Reading `text` character by character: the keys after its complete
/// lines, and the line read so far.
pub open spec fn scan_env(keys: (Seq<char>, Seq<char>, Seq<char>), text: Seq<char>) -> ((Seq<char>, Seq<char>, Seq<char>), Seq<char>)
    decreases text.len(),
{
    if text.len() == 0 {
        (keys, Seq::empty())
    } else {
        let (k, line) = scan_env(keys, text.drop_last());
        if text.last() == '\n' {
            (keys_after_line(k, line), Seq::empty())
        } else {
            (k, line.push(text.last()))
        }
    }
}

/// The keys after every line of an env file.
pub open spec fn keys_after_file(keys: (Seq<char>, Seq<char>, Seq<char>), text: Seq<char>) -> (Seq<char>, Seq<char>, Seq<char>) {
    let (k, line) = scan_env(keys, text);
    keys_after_line(k, line)
}

fn index_of_char(s: &Vec<char>, c: char) -> (r: Option<usize>)
    ensures
        match r {
            Some(i) => index_of(s@, c) == Some(i as int),
            None => index_of(s@, c) is None,
        },
{
    let n = s.len();
    let mut i: usize = 0;
    assert(s@.skip(0) == s@);
    while i < n
        invariant
            n == s.len(),
            i <= n,
            index_of(s@, c) == match index_of(s@.skip(i as int), c) {
                Some(k) => Some(k + i),
                None => None,
            },
        decreases n - i,
    {
        if s[i] == c {
            return Some(i);
        }
        assert(s@.skip(i as int).drop_first() == s@.skip(i + 1));
        i = i + 1;
    }
    None
}

fn strip_char_chars(s: &Vec<char>, c: char) -> (r: Vec<char>)
    ensures
        r@ == strip_char(s@, c),
{
    let n = s.len();
    let mut a: usize = 0;
    assert(s@.subrange(0, n as int) == s@);
    while a < n && s[a] == c
        invariant
            n == s.len(),
            a <= n,
            strip_start(s@, c) == strip_start(s@.subrange(a as int, n as int), c),
        decreases n - a,
    {
        assert(s@.subrange(a as int, n as int).drop_first() == s@.subrange(a + 1, n as int));
        a = a + 1;
    }
    let ghost t = s@.subrange(a as int, n as int);
    let mut b: usize = n;
    assert(t.subrange(0, (n - a) as int) == t);
    while b > a && s[b - 1] == c
        invariant
            n == s.len(),
            a <= b <= n,
            t == s@.subrange(a as int, n as int),
            strip_end(t, c) == strip_end(t.subrange(0, (b - a) as int), c),
        decreases b,
    {
        assert(t.subrange(0, (b - a) as int).drop_last() == t.subrange(0, (b - a - 1) as int));
        b = b - 1;
    }
    let mut r: Vec<char> = Vec::new();
    let mut i = a;
    while i < b
        invariant
            n == s.len(),
            a <= i <= b <= n,
            r@ == s@.subrange(a as int, i as int),
        decreases b - i,
    {
        r.push(s[i]);
        assert(s@.subrange(a as int, i + 1) == s@.subrange(a as int, i as int).push(s@[i as int]));
        i = i + 1;
    }
    assert(t.subrange(0, (b - a) as int) == s@.subrange(a as int, b as int));
    r
}

fn slice_chars(s: &Vec<char>, from: usize, to: usize) -> (r: Vec<char>)
    requires
        from <= to <= s.len(),
    ensures
        r@ == s@.subrange(from as int, to as int),
{
    let mut r: Vec<char> = Vec::new();
    let mut i = from;
    while i < to
        invariant
            from <= i <= to <= s.len(),
            r@ == s@.subrange(from as int, i as int),
        decreases to - i,
    {
        r.push(s[i]);
        assert(s@.subrange(from as int, i + 1) == s@.subrange(from as int, i as int).push(s@[i as int]));
        i = i + 1;
    }
    r
}

/// Parses an `export NAME=value` line.
pub fn parse_export_line(line: &Vec<char>) -> (r: Option<(Vec<char>, Vec<char>)>)
    ensures
        match r {
            Some((name, value)) => export_assignment(line@) == Some((name@, value@)),
            None => export_assignment(line@) is None,
        },
{
    if !starts_with_str(line, "export ") {
        return None;
    }
    proof {
        reveal_strlit("export ");
    }
    let rest = trim_chars(&slice_chars(line, 7, line.len()));
    assert(line@.subrange(7, line@.len() as int) == line@.skip(7));
    let i = match index_of_char(&rest, '=') {
        Some(i) => i,
        None => return None,
    };
    proof {
        lemma_index_in_bounds(rest@, '=');
    }
    let name = trim_chars(&slice_chars(&rest, 0, i));
    let value_part = trim_chars(&slice_chars(&rest, i + 1, rest.len()));
    let value = strip_char_chars(&strip_char_chars(&value_part, '"'), '\'');
    assert(rest@.subrange(0, i as int) == rest@.take(i as int));
    assert(rest@.subrange(i + 1, rest@.len() as int) == rest@.skip(i + 1));
    Some((name, value))
}

proof fn lemma_index_in_bounds(s: Seq<char>, c: char)
    ensures
        index_of(s, c) matches Some(i) ==> 0 <= i < s.len() && s[i] == c,
    decreases s.len(),
{
    if s.len() > 0 && s[0] != c {
        lemma_index_in_bounds(s.drop_first(), c);
    }
}

fn apply_line(keys: (Vec<char>, Vec<char>, Vec<char>), line: &Vec<char>) -> (r: (Vec<char>, Vec<char>, Vec<char>))
    ensures
        (r.0@, r.1@, r.2@) == keys_after_line((keys.0@, keys.1@, keys.2@), line@),
{
    let l = trim_chars(line);
    if l.len() == 0 || l[0] == '#' {
        return keys;
    }
    let (o, r, n) = keys;
    match parse_export_line(&l) {
        Some((name, value)) => {
            if equals_str(&name, "OPENCODE_API_KEY") && o.len() == 0 {
                (value, r, n)
            } else if equals_str(&name, "OPENROUTER_API_KEY") && r.len() == 0 {
                (o, value, n)
            } else if equals_str(&name, "NVIDIA_API_KEY") && n.len() == 0 {
                (o, r, value)
            } else {
                (o, r, n)
            }
        },
        None => (o, r, n),
    }
}

impl ProviderKeys {
    /// The configured keys: each key from its environment variable, and any
    /// key still empty from the `export NAME=value` lines of the env file.
    pub fn from_sources(opencode: &str, openrouter: &str, nvidia: &str, env_file: Option<&str>) -> (keys: ProviderKeys)
        ensures
            env_file is None ==> keys.opencode@ == opencode@ && keys.openrouter@ == openrouter@
                && keys.nvidia@ == nvidia@,
            env_file matches Some(text) ==> (keys.opencode@, keys.openrouter@, keys.nvidia@)
                == keys_after_file((opencode@, openrouter@, nvidia@), text@),
    {
        let mut k = (chars_of(opencode), chars_of(openrouter), chars_of(nvidia));
        if let Some(text) = env_file {
            let t = chars_of(text);
            let ghost k0 = (opencode@, openrouter@, nvidia@);
            let mut line: Vec<char> = Vec::new();
            let n = t.len();
            for i in 0..n
                invariant
                    n == t.len(),
                    k0 == (opencode@, openrouter@, nvidia@),
                    scan_env(k0, t@.take(i as int)) == ((k.0@, k.1@, k.2@), line@),
            {
                assert(t@.take(i + 1).drop_last() == t@.take(i as int));
                if t[i] == '\n' {
                    k = apply_line(k, &line);
                    line = Vec::new();
                } else {
                    line.push(t[i]);
                }
            }
            assert(t@.take(n as int) == t@);
            k = apply_line(k, &line);
        }
        ProviderKeys { opencode: string_of(&k.0), openrouter: string_of(&k.1), nvidia: string_of(&k.2) }
    }
}

/// A line of the env file never replaces a key that is already set.
proof fn lemma_line_keeps_set_keys(keys: (Seq<char>, Seq<char>, Seq<char>), line: Seq<char>)
    ensures
        keys.0.len() > 0 ==> keys_after_line(keys, line).0 == keys.0,
        keys.1.len() > 0 ==> keys_after_line(keys, line).1 == keys.1,
        keys.2.len() > 0 ==> keys_after_line(keys, line).2 == keys.2,
{
}

proof fn lemma_scan_keeps_set_keys(keys: (Seq<char>, Seq<char>, Seq<char>), text: Seq<char>)
    ensures
        keys.0.len() > 0 ==> scan_env(keys, text).0.0 == keys.0,
        keys.1.len() > 0 ==> scan_env(keys, text).0.1 == keys.1,
        keys.2.len() > 0 ==> scan_env(keys, text).0.2 == keys.2,
    decreases text.len(),
{
    if text.len() > 0 {
        lemma_scan_keeps_set_keys(keys, text.drop_last());
        let (k, line) = scan_env(keys, text.drop_last());
        lemma_line_keeps_set_keys(k, line);
    }
}

/// A key set in the environment is never overridden by the env file.
pub proof fn lemma_environment_keys_win(keys: (Seq<char>, Seq<char>, Seq<char>), text: Seq<char>)
    ensures
        keys.0.len() > 0 ==> keys_after_file(keys, text).0 == keys.0,
        keys.1.len() > 0 ==> keys_after_file(keys, text).1 == keys.1,
        keys.2.len() > 0 ==> keys_after_file(keys, text).2 == keys.2,
{
    lemma_scan_keeps_set_keys(keys, text);
    let (k, line) = scan_env(keys, text);
    lemma_line_keeps_set_keys(k, line);
}

} // verus!
