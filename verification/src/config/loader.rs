//! Where a configuration file is looked for, what is done to its text before it
//! is parsed, and what is done to the configuration afterwards.

use vstd::prelude::*;
use vstd::string::*;

use crate::config::compile::{rules_compiled, sources_compiled};
use crate::config::error::{ConfigError, ValidationResult};
use crate::config::laws::law_valid_configuration_compiles;
use crate::config::schema::Config;
use crate::config::validate::{
    validate, validation_error, validation_warnings, ErrorView, Version,
};
use crate::text::{
    blank, chars_of, contains_text, is_blank, opt_text, replace_text, replaced, substring_of, texts,
};
use crate::text_map::TextMap;

verus! {

/// The search paths, in order of priority: the path that the environment names,
/// if there is one, the system's and the local one.
pub open spec fn search_paths(env_path: Option<Seq<char>>) -> Seq<Seq<char>> {
    let fixed = seq!["/etc/thoughtgate/config.yaml"@, "./config.yaml"@];
    match env_path {
        Some(p) => seq![p] + fixed,
        None => fixed,
    }
}

/// Configuration file search paths, in order of priority. `env_path` is the
/// value of the environment variable `THOUGHTGATE_CONFIG`, if it is set.
pub fn default_config_paths(env_path: Option<&str>) -> (r: Vec<String>)
    ensures
        texts(r@) == search_paths(
            match env_path {
                Some(p) => Some(p@),
                None => None,
            },
        ),
{
    let mut paths: Vec<String> = Vec::new();
    if let Some(p) = env_path {
        paths.push(p.to_owned());
    }
    paths.push("/etc/thoughtgate/config.yaml".to_owned());
    paths.push("./config.yaml".to_owned());
    assert(texts(paths@) =~= search_paths(
        match env_path {
            Some(p) => Some(p@),
            None => None,
        },
    ));
    paths
}

/// The first path of a sequence, from position `i` on, that exists.
pub open spec fn first_existing(
    paths: Seq<Seq<char>>,
    existing: Seq<Seq<char>>,
    i: int,
) -> Option<Seq<char>>
    decreases paths.len() - i,
{
    if i < 0 || i >= paths.len() {
        None
    } else if existing.contains(paths[i]) {
        Some(paths[i])
    } else {
        first_existing(paths, existing, i + 1)
    }
}

/// The configuration file to load: the explicit path alone, if one is given,
/// else the first search path that exists.
pub open spec fn config_file(
    explicit_path: Option<Seq<char>>,
    env_path: Option<Seq<char>>,
    existing: Seq<Seq<char>>,
) -> Result<Seq<char>, ErrorView> {
    match explicit_path {
        Some(p) => if existing.contains(p) {
            Ok(p)
        } else {
            Err(ConfigError::ConfigFileNotFound { searched: seq![p] })
        },
        None => match first_existing(search_paths(env_path), existing, 0) {
            Some(p) => Ok(p),
            None => Err(ConfigError::ConfigFileNotFound { searched: search_paths(env_path) }),
        },
    }
}

/// The text of an optional string slice.
pub open spec fn opt_str(s: Option<&str>) -> Option<Seq<char>> {
    match s {
        Some(t) => Some(t@),
        None => None,
    }
}

/// Find the configuration file. `existing` holds those of the paths in question
/// that exist; `env_path` is the value of `THOUGHTGATE_CONFIG`, if it is set.
pub fn find_config_file(
    explicit_path: Option<&str>,
    env_path: Option<&str>,
    existing: &Vec<String>,
) -> (r: Result<String, ConfigError>)
    ensures
        match r {
            Ok(p) => config_file(opt_str(explicit_path), opt_str(env_path), texts(existing@)) == Ok::<
                Seq<char>,
                ErrorView,
            >(p@),
            Err(e) => config_file(opt_str(explicit_path), opt_str(env_path), texts(existing@))
                == Err::<Seq<char>, ErrorView>(e@),
        },
{
    if let Some(path) = explicit_path {
        if contains_text(existing, path) {
            return Ok(path.to_owned());
        }
        let mut searched: Vec<String> = Vec::new();
        searched.push(path.to_owned());
        assert(texts(searched@) =~= seq![path@]);
        return Err(ConfigError::ConfigFileNotFound { searched });
    }
    let paths = default_config_paths(env_path);
    let ghost all = search_paths(opt_str(env_path));
    let mut i: usize = 0;
    while i < paths.len()
        invariant
            explicit_path is None,
            texts(paths@) == all,
            all == search_paths(opt_str(env_path)),
            i <= paths@.len(),
            first_existing(all, texts(existing@), 0) == first_existing(
                all,
                texts(existing@),
                i as int,
            ),
        decreases paths@.len() - i,
    {
        assert(all[i as int] == paths@[i as int]@);
        if contains_text(existing, paths[i].as_str()) {
            return Ok(paths[i].clone());
        }
        i = i + 1;
    }
    assert(all.len() == paths@.len());
    Err(ConfigError::ConfigFileNotFound { searched: paths })
}

/// A reference to an environment variable: `${NAME}` or `${NAME:-default}`.
/// `T` holds a text.
#[derive(Debug)]
pub struct EnvRef<T = String> {
    /// The reference as it stands in the text.
    pub full: T,
    /// The variable's name.
    pub name: T,
    /// The text to use where the variable is not set.
    pub default: Option<T>,
}

impl EnvRef {
    /// The reference with its strings taken as character sequences.
    pub open spec fn view(self) -> EnvRef<Seq<char>> {
        EnvRef { full: self.full@, name: self.name@, default: opt_text(self.default) }
    }
}

/// The characters with which a variable name begins.
pub open spec fn is_name_start(c: char) -> bool {
    'a' <= c <= 'z' || 'A' <= c <= 'Z' || c == '_'
}

/// The characters of which a variable name is made.
pub open spec fn is_name_char(c: char) -> bool {
    is_name_start(c) || '0' <= c <= '9'
}

/// The first position from `i` on that holds no name character.
pub open spec fn name_end(s: Seq<char>, i: int) -> int
    decreases s.len() - i,
{
    if 0 <= i < s.len() && is_name_char(s[i]) {
        name_end(s, i + 1)
    } else {
        i
    }
}

/// The first position from `i` on that holds a closing brace, or the end.
pub open spec fn brace_end(s: Seq<char>, i: int) -> int
    decreases s.len() - i,
{
    if 0 <= i < s.len() && s[i] != '}' {
        brace_end(s, i + 1)
    } else {
        i
    }
}

/// The position behind the reference that begins at `i`, if one does: a dollar
/// sign and an opening brace, a name, perhaps `:-` and a default, and a closing
/// brace.
pub open spec fn reference_end(s: Seq<char>, i: int) -> Option<int> {
    let n = name_end(s, i + 2);
    if !(0 <= i && i + 2 < s.len() && s[i] == '$' && s[i + 1] == '{' && is_name_start(s[i + 2])) {
        None
    } else if n < s.len() && s[n] == '}' {
        Some(n + 1)
    } else if n + 1 < s.len() && s[n] == ':' && s[n + 1] == '-' && brace_end(s, n + 2) < s.len() {
        Some(brace_end(s, n + 2) + 1)
    } else {
        None
    }
}

/// The reference that begins at `i`.
pub open spec fn reference_at(s: Seq<char>, i: int) -> EnvRef<Seq<char>> {
    let n = name_end(s, i + 2);
    let end = reference_end(s, i)->0;
    EnvRef {
        full: s.subrange(i, end),
        name: s.subrange(i + 2, n),
        default: if s[n] == '}' {
            None
        } else {
            Some(s.subrange(n + 2, end - 1))
        },
    }
}

/// `name_end` goes forward and stays within the text.
pub proof fn lemma_name_end(s: Seq<char>, i: int)
    requires
        0 <= i <= s.len(),
    ensures
        i <= name_end(s, i) <= s.len(),
        forall|j: int| i <= j < name_end(s, i) ==> is_name_char(#[trigger] s[j]),
        name_end(s, i) < s.len() ==> !is_name_char(s[name_end(s, i)]),
    decreases s.len() - i,
{
    if i < s.len() && is_name_char(s[i]) {
        lemma_name_end(s, i + 1);
    }
}

/// `brace_end` goes forward and stays within the text.
pub proof fn lemma_brace_end(s: Seq<char>, i: int)
    requires
        0 <= i <= s.len(),
    ensures
        i <= brace_end(s, i) <= s.len(),
        forall|j: int| i <= j < brace_end(s, i) ==> #[trigger] s[j] != '}',
        brace_end(s, i) < s.len() ==> s[brace_end(s, i)] == '}',
    decreases s.len() - i,
{
    if i < s.len() && s[i] != '}' {
        lemma_brace_end(s, i + 1);
    }
}

/// A reference has at least the length of `${A}`.
pub proof fn lemma_reference_end(s: Seq<char>, i: int)
    requires
        reference_end(s, i) is Some,
    ensures
        0 <= i,
        i + 4 <= reference_end(s, i)->0 <= s.len(),
{
    lemma_name_end(s, i + 2);
    assert(is_name_char(s[i + 2]));
    assert(name_end(s, i + 2) == name_end(s, i + 3));
    lemma_name_end(s, i + 3);
    let n = name_end(s, i + 2);
    if n + 2 <= s.len() {
        lemma_brace_end(s, n + 2);
    }
}

/// The references in a text from position `i` on, from the left and without
/// overlaps.
pub open spec fn references(s: Seq<char>, i: int) -> Seq<EnvRef<Seq<char>>>
    decreases s.len() - i,
    via references_decreases
{
    if i < 0 || i >= s.len() {
        Seq::empty()
    } else if reference_end(s, i) is Some {
        seq![reference_at(s, i)] + references(s, reference_end(s, i)->0)
    } else {
        references(s, i + 1)
    }
}

#[via_fn]
proof fn references_decreases(s: Seq<char>, i: int) {
    if 0 <= i < s.len() && reference_end(s, i) is Some {
        lemma_reference_end(s, i);
    }
}

/// Scans a name.
fn scan_name(chars: &Vec<char>, from: usize) -> (r: usize)
    requires
        from <= chars@.len(),
    ensures
        r == name_end(chars@, from as int),
        from <= r <= chars@.len(),
{
    proof {
        lemma_name_end(chars@, from as int);
    }
    let mut i: usize = from;
    while i < chars.len() && is_name_character(chars[i])
        invariant
            from <= i <= chars@.len(),
            name_end(chars@, from as int) == name_end(chars@, i as int),
        decreases chars@.len() - i,
    {
        i = i + 1;
    }
    i
}

fn is_name_character(c: char) -> (r: bool)
    ensures
        r == is_name_char(c),
{
    ('a' <= c && c <= 'z') || ('A' <= c && c <= 'Z') || c == '_' || ('0' <= c && c <= '9')
}

/// Scans up to a closing brace.
fn scan_brace(chars: &Vec<char>, from: usize) -> (r: usize)
    requires
        from <= chars@.len(),
    ensures
        r == brace_end(chars@, from as int),
        from <= r <= chars@.len(),
{
    proof {
        lemma_brace_end(chars@, from as int);
    }
    let mut i: usize = from;
    while i < chars.len() && chars[i] != '}'
        invariant
            from <= i <= chars@.len(),
            brace_end(chars@, from as int) == brace_end(chars@, i as int),
        decreases chars@.len() - i,
    {
        i = i + 1;
    }
    i
}

/// Scans the reference that begins at a position, if one does, and returns it
/// with the position behind it.
fn scan_reference(chars: &Vec<char>, i: usize) -> (r: Option<(EnvRef, usize)>)
    requires
        i < chars@.len(),
    ensures
        match r {
            Some((e, end)) => {
                &&& reference_end(chars@, i as int) == Some(end as int)
                &&& e@ == reference_at(chars@, i as int)
                &&& i + 4 <= end <= chars@.len()
            },
            None => reference_end(chars@, i as int) is None,
        },
{
    if chars.len() - i < 3 || chars[i] != '$' || chars[i + 1] != '{' {
        return None;
    }
    let c = chars[i + 2];
    if !(('a' <= c && c <= 'z') || ('A' <= c && c <= 'Z') || c == '_') {
        return None;
    }
    let n: usize = scan_name(chars, i + 2);
    if n >= chars.len() {
        return None;
    }
    if chars[n] == '}' {
        proof {
            lemma_reference_end(chars@, i as int);
        }
        let e = EnvRef {
            full: substring_of(chars, i, n + 1),
            name: substring_of(chars, i + 2, n),
            default: None,
        };
        return Some((e, n + 1));
    }
    if chars[n] != ':' || chars.len() - n < 2 || chars[n + 1] != '-' {
        return None;
    }
    let k: usize = scan_brace(chars, n + 2);
    if k >= chars.len() {
        return None;
    }
    proof {
        lemma_reference_end(chars@, i as int);
    }
    let e = EnvRef {
        full: substring_of(chars, i, k + 1),
        name: substring_of(chars, i + 2, n),
        default: Some(substring_of(chars, n + 2, k)),
    };
    Some((e, k + 1))
}

/// The views of a sequence of references.
pub open spec fn reference_views(refs: Seq<EnvRef>) -> Seq<EnvRef<Seq<char>>> {
    Seq::new(refs.len(), |i: int| refs[i]@)
}

/// The references to environment variables in a text.
pub fn env_references(content: &str) -> (r: Vec<EnvRef>)
    ensures
        reference_views(r@) == references(content@, 0),
{
    let chars = chars_of(content);
    let mut out: Vec<EnvRef> = Vec::new();
    let mut i: usize = 0;
    assert(reference_views(out@) + references(content@, 0) =~= references(content@, 0));
    while i < chars.len()
        invariant
            chars@ == content@,
            i <= chars@.len(),
            reference_views(out@) + references(content@, i as int) == references(content@, 0),
        decreases chars@.len() - i,
    {
        let ghost before = out@;
        match scan_reference(&chars, i) {
            Some((e, end)) => {
                out.push(e);
                proof {
                    assert(reference_views(out@) == reference_views(before).push(e@));
                    assert(reference_views(out@) + references(content@, end as int)
                        == reference_views(before) + (seq![e@] + references(content@, end as int)));
                }
                i = end;
            },
            None => {
                i = i + 1;
            },
        }
    }
    assert(reference_views(out@) + references(content@, i as int) =~= reference_views(out@));
    out
}

/// The text that takes a reference's place: the variable's value where it is
/// set, else the default.
pub open spec fn replacement(
    r: EnvRef<Seq<char>>,
    env: Map<Seq<char>, String>,
) -> Option<Seq<char>> {
    if env.contains_key(r.name) {
        Some(env[r.name]@)
    } else {
        r.default
    }
}

/// A text with the references of a sequence replaced one after the other, each
/// wherever it stands; a reference that has no replacement stays.
pub open spec fn substituted(
    text: Seq<char>,
    refs: Seq<EnvRef<Seq<char>>>,
    env: Map<Seq<char>, String>,
) -> Seq<char>
    decreases refs.len(),
{
    if refs.len() == 0 {
        text
    } else {
        let next = match replacement(refs[0], env) {
            Some(value) => replaced(text, refs[0].full, value),
            None => text,
        };
        substituted(next, refs.skip(1), env)
    }
}

/// The name in the first reference of a sequence that has no replacement.
pub open spec fn first_missing(
    refs: Seq<EnvRef<Seq<char>>>,
    env: Map<Seq<char>, String>,
) -> Option<Seq<char>>
    decreases refs.len(),
{
    if refs.len() == 0 {
        None
    } else if replacement(refs[0], env) is None {
        Some(refs[0].name)
    } else {
        first_missing(refs.skip(1), env)
    }
}

/// What substitution makes of a text.
pub open spec fn substitution(content: Seq<char>, env: Map<Seq<char>, String>) -> Result<
    Seq<char>,
    ErrorView,
> {
    let refs = references(content, 0);
    match first_missing(refs, env) {
        Some(var) => Err(ConfigError::MissingEnvVar { var, field: "configuration"@ }),
        None => Ok(substituted(content, refs, env)),
    }
}

/// Every reference in a text has at least four characters.
proof fn lemma_references_full(s: Seq<char>, i: int)
    ensures
        forall|j: int|
            0 <= j < references(s, i).len() ==> (#[trigger] references(s, i)[j]).full.len() >= 4,
    decreases s.len() - i,
{
    if 0 <= i < s.len() {
        if reference_end(s, i) is Some {
            lemma_reference_end(s, i);
            let end = reference_end(s, i)->0;
            lemma_references_full(s, end);
            assert forall|j: int| 0 <= j < references(s, i).len() implies (#[trigger] references(
                s,
                i,
            )[j]).full.len() >= 4 by {
                if j > 0 {
                    assert(references(s, i)[j] == references(s, end)[j - 1]);
                }
            }
        } else {
            lemma_references_full(s, i + 1);
        }
    }
}

/// Substitute environment variables in a text: `${VAR}` takes the variable's
/// value and fails where it is not set, `${VAR:-default}` falls back to the
/// default. `env` holds the variables that are set.
pub fn substitute_env_vars(content: &str, env: &TextMap<String>) -> (r: Result<
    String,
    ConfigError,
>)
    ensures
        match r {
            Ok(t) => substitution(content@, env@) == Ok::<Seq<char>, ErrorView>(t@),
            Err(e) => substitution(content@, env@) == Err::<Seq<char>, ErrorView>(e@),
        },
{
    let refs = env_references(content);
    let ghost all = references(content@, 0);
    proof {
        lemma_references_full(content@, 0);
    }
    let mut result = content.to_owned();
    let mut missing: Option<String> = None;
    let mut i: usize = 0;
    assert(all.skip(0) == all);
    while i < refs.len()
        invariant
            all == references(content@, 0),
            reference_views(refs@) == all,
            forall|j: int| 0 <= j < all.len() ==> (#[trigger] all[j]).full.len() >= 4,
            i <= refs@.len(),
            substituted(content@, all, env@) == substituted(result@, all.skip(i as int), env@),
            match missing {
                Some(m) => first_missing(all, env@) == Some(m@),
                None => first_missing(all, env@) == first_missing(all.skip(i as int), env@),
            },
        decreases refs@.len() - i,
    {
        let entry = &refs[i];
        assert(entry@ == all[i as int]);
        assert(all.skip(i as int)[0] == all[i as int]);
        assert(all.skip(i as int).skip(1) == all.skip(i as int + 1));
        match env.get(entry.name.as_str()) {
            Some(value) => {
                result = replace_text(result.as_str(), entry.full.as_str(), value.as_str());
            },
            None => match &entry.default {
                Some(value) => {
                    result = replace_text(result.as_str(), entry.full.as_str(), value.as_str());
                },
                None => {
                    if missing.is_none() {
                        missing = Some(entry.name.clone());
                    }
                },
            },
        }
        i = i + 1;
    }
    assert(all.skip(i as int).len() == 0);
    match missing {
        Some(var) => Err(ConfigError::MissingEnvVar { var, field: "configuration".to_owned() }),
        None => Ok(result),
    }
}

/// What stands between reading a configuration file and parsing it: an empty
/// file is refused, and environment variables are substituted.
pub fn prepare_contents(contents: &str, env: &TextMap<String>) -> (r: Result<String, ConfigError>)
    ensures
        match r {
            Ok(t) => !is_blank(contents@) && substitution(contents@, env@) == Ok::<
                Seq<char>,
                ErrorView,
            >(t@),
            Err(e) => if is_blank(contents@) {
                e@ == ConfigError::<Seq<char>, Seq<Seq<char>>>::EmptyConfigFile
            } else {
                substitution(contents@, env@) == Err::<Seq<char>, ErrorView>(e@)
            },
        },
{
    if blank(contents) {
        return Err(ConfigError::EmptyConfigFile);
    }
    substitute_env_vars(contents, env)
}

/// What is done to a parsed configuration before it is used: it is validated,
/// and its patterns are compiled.
pub fn load_and_validate(config: Config, version: Version, existing: &Vec<String>) -> (r: Result<
    (Config, ValidationResult),
    ConfigError,
>)
    ensures
        match r {
            Ok((c, v)) => {
                &&& validation_error(config, version, texts(existing@)) is None
                &&& v@ == validation_warnings(config)
                &&& c.schema == config.schema
                &&& c.approval == config.approval
                &&& c.cedar == config.cedar
                &&& c.telemetry == config.telemetry
                &&& c.governance.defaults == config.governance.defaults
                &&& rules_compiled(
                    config.governance.rules@,
                    c.governance.rules@,
                    config.governance.rules@.len() as int,
                )
                &&& sources_compiled(
                    config.sources@,
                    c.sources@,
                    config.sources@.len() as int,
                )
            },
            Err(e) => validation_error(config, version, texts(existing@)) == Some(e@),
        },
{
    let mut config = config;
    let result = match validate(&config, version, existing) {
        Ok(v) => v,
        Err(e) => {
            return Err(e);
        },
    };
    proof {
        law_valid_configuration_compiles(config, version, texts(existing@));
    }
    match config.compile_patterns() {
        Ok(_) => Ok((config, result)),
        Err(e) => Err(e),
    }
}

} // verus!
