//! Provider endpoints and server settings, and the rules a configuration must
//! satisfy before anything is built from it.

use vstd::prelude::*;

use crate::error::{ErrorView, HiveError};
use crate::secrets::{valid_var_name, var_name_error, SecretRef};
use crate::text::{chars_of, contains, str_contains, str_starts_with, starts_with, string_from, decimal, decimal_string};
use crate::model::{str_eq, utf8_len};

verus! {

/// How many provider entries one instance accepts. Each cloud entry is a
/// separate credential, so this is the ceiling on how many distinct accounts
/// can meet in a single room.
pub const MAX_PROVIDERS: usize = 16;

#[derive(Debug, Clone, Copy, PartialEq, Eq, Structural)]
pub enum ProviderKind {
    /// Local Ollama daemon, no credential required.
    Ollama,
    /// Anthropic Messages API.
    Anthropic,
    /// Any endpoint speaking the OpenAI chat completions dialect, which covers
    /// LM Studio, vLLM, llama.cpp, Groq, Together and OpenAI itself.
    OpenAi,
}

pub open spec fn default_url(kind: ProviderKind) -> Seq<char> {
    match kind {
        ProviderKind::Ollama => "http://127.0.0.1:11434"@,
        ProviderKind::Anthropic => "https://api.anthropic.com"@,
        ProviderKind::OpenAi => "https://api.openai.com/v1"@,
    }
}

impl ProviderKind {
    pub fn default_base_url(self) -> (s: &'static str)
        ensures
            s@ == default_url(self),
    {
        match self {
            ProviderKind::Ollama => "http://127.0.0.1:11434",
            ProviderKind::Anthropic => "https://api.anthropic.com",
            ProviderKind::OpenAi => "https://api.openai.com/v1",
        }
    }

    pub fn requires_credential(self) -> (b: bool)
        ensures
            b == (self != ProviderKind::Ollama),
    {
        !matches!(self, ProviderKind::Ollama)
    }
}

pub const DEFAULT_TIMEOUT_SECS: u64 = 120;

/// One configured endpoint. Note that `api_key_env` holds a variable *name*,
/// never a key, and that the whole struct is safe to show to the web UI.
#[derive(Debug)]
pub struct ProviderConfig {
    pub id: String,
    pub label: String,
    pub kind: ProviderKind,
    pub base_url: Option<String>,
    pub api_key_env: Option<String>,
    pub timeout_secs: u64,
}

impl Clone for ProviderConfig {
    fn clone(&self) -> (r: Self)
        ensures
            r == *self,
    {
        ProviderConfig {
            id: self.id.clone(),
            label: self.label.clone(),
            kind: self.kind,
            base_url: crate::model::clone_opt_string(&self.base_url),
            api_key_env: crate::model::clone_opt_string(&self.api_key_env),
            timeout_secs: self.timeout_secs,
        }
    }
}

/// A URL without its trailing slashes, as `trim_end_matches('/')` leaves it.
pub open spec fn without_trailing_slashes(s: Seq<char>) -> Seq<char>
    decreases s.len(),
{
    if s.len() > 0 && s.last() == '/' {
        without_trailing_slashes(s.drop_last())
    } else {
        s
    }
}

/// The base URL requests go to.
pub open spec fn resolved_url(p: ProviderConfig) -> Seq<char> {
    match p.base_url {
        Some(u) => without_trailing_slashes(u@),
        None => without_trailing_slashes(default_url(p.kind)),
    }
}

pub open spec fn is_id_char(c: char) -> bool {
    ('a' <= c && c <= 'z') || ('0' <= c && c <= '9') || c == '-' || c == '_'
}

pub open spec fn valid_provider_id(id: Seq<char>) -> bool {
    &&& id.len() > 0
    &&& utf8_len(id) <= 48
    &&& forall|i: int| 0 <= i < id.len() ==> is_id_char(#[trigger] id[i])
}

/// The first rule a provider entry breaks, if any.
pub open spec fn provider_problem(p: ProviderConfig) -> Option<ErrorView> {
    if !valid_provider_id(p.id@) {
        Some(
            ErrorView::Config(
                "provider id '"@ + p.id@ + "' must be lowercase letters, digits, hyphen or underscore"@,
            ),
        )
    } else if !starts_with(resolved_url(p), "http://"@) && !starts_with(
        resolved_url(p),
        "https://"@,
    ) {
        Some(
            ErrorView::Config(
                "provider '"@ + p.id@ + "' has base_url '"@ + resolved_url(p)
                    + "', expected an http:// or https:// address"@,
            ),
        )
    } else if p.kind != ProviderKind::Ollama && p.api_key_env is None {
        Some(
            ErrorView::Config(
                "provider '"@ + p.id@
                    + "' needs an api_key_env entry naming the environment variable that holds its key"@,
            ),
        )
    } else {
        match p.api_key_env {
            Some(n) => if valid_var_name(n@) {
                None
            } else {
                Some(var_name_error(n@))
            },
            None => None,
        }
    }
}

pub open spec fn outcome(problem: Option<ErrorView>, r: Result<(), HiveError>) -> bool {
    match problem {
        None => r is Ok,
        Some(v) => r matches Err(e) && e@ == v,
    }
}

pub fn strip_trailing_slashes(s: &str) -> (r: String)
    ensures
        r@ == without_trailing_slashes(s@),
{
    let v = chars_of(s);
    let mut end = v.len();
    assert(v@.take(v@.len() as int) =~= v@);
    while end > 0 && v[end - 1] == '/'
        invariant
            end <= v@.len(),
            without_trailing_slashes(v@) == without_trailing_slashes(v@.take(end as int)),
        decreases end,
    {
        assert(v@.take(end as int).drop_last() =~= v@.take(end - 1));
        assert(v@.take(end as int).last() == v@[end - 1]);
        end = end - 1;
    }
    proof {
        assert(v@.take(v@.len() as int) =~= v@);
        let t = v@.take(end as int);
        if t.len() > 0 {
            assert(t.last() == v@[end - 1]);
        }
    }
    let kept = crate::text::vec_slice(v.as_slice(), 0, end);
    assert(kept@ =~= v@.take(end as int));
    string_from(kept.as_slice())
}

impl ProviderConfig {
    pub fn new(id: &str, kind: ProviderKind) -> (p: ProviderConfig)
        ensures
            p.id@ == id@,
            p.label@ == Seq::<char>::empty(),
            p.kind == kind,
            p.base_url is None,
            p.api_key_env is None,
            p.timeout_secs == DEFAULT_TIMEOUT_SECS,
    {
        ProviderConfig {
            id: id.to_owned(),
            label: String::new(),
            kind,
            base_url: None,
            api_key_env: None,
            timeout_secs: DEFAULT_TIMEOUT_SECS,
        }
    }

    pub fn with_key_env(self, var_name: &str) -> (p: ProviderConfig)
        ensures
            p.api_key_env matches Some(n) && n@ == var_name@,
            p == (ProviderConfig { api_key_env: p.api_key_env, ..self }),
    {
        ProviderConfig { api_key_env: Some(var_name.to_owned()), ..self }
    }

    pub fn with_base_url(self, url: &str) -> (p: ProviderConfig)
        ensures
            p.base_url matches Some(u) && u@ == url@,
            p == (ProviderConfig { base_url: p.base_url, ..self }),
    {
        ProviderConfig { base_url: Some(url.to_owned()), ..self }
    }

    /// The configured base URL, or the dialect's default, without trailing slashes.
    pub fn resolved_base_url(&self) -> (s: String)
        ensures
            s@ == resolved_url(*self),
    {
        match &self.base_url {
            Some(u) => strip_trailing_slashes(u.as_str()),
            None => strip_trailing_slashes(self.kind.default_base_url()),
        }
    }

    /// The credential reference this entry names, if it names one.
    pub fn secret_ref(&self) -> (r: Result<Option<SecretRef>, HiveError>)
        ensures
            match self.api_key_env {
                None => r matches Ok(None),
                Some(n) => if valid_var_name(n@) {
                    r matches Ok(Some(s)) && s@ == n@
                } else {
                    r matches Err(e) && e@ == var_name_error(n@)
                },
            },
    {
        match &self.api_key_env {
            Some(name) => match SecretRef::new(name.as_str()) {
                Ok(s) => Ok(Some(s)),
                Err(e) => Err(e),
            },
            None => Ok(None),
        }
    }

    /// True when the endpoint is reachable without a key leaving the machine.
    pub fn is_local(&self) -> (b: bool)
        ensures
            b == local_url(resolved_url(*self)),
    {
        let url = self.resolved_base_url();
        str_contains(url.as_str(), "127.0.0.1") || str_contains(url.as_str(), "localhost")
            || str_contains(url.as_str(), "::1")
    }

    pub fn validate(&self) -> (r: Result<(), HiveError>)
        ensures
            outcome(provider_problem(*self), r),
    {
        self.validate_id()?;
        self.validate_base_url()?;
        if self.kind.requires_credential() && self.api_key_env.is_none() {
            let mut m = "provider '".to_owned();
            m.append(self.id.as_str());
            m.append(
                "' needs an api_key_env entry naming the environment variable that holds its key",
            );
            return Err(HiveError::Config(m));
        }
        match self.secret_ref() {
            Ok(_) => Ok(()),
            Err(e) => Err(e),
        }
    }

    fn validate_id(&self) -> (r: Result<(), HiveError>)
        ensures
            valid_provider_id(self.id@) ==> r is Ok,
            !valid_provider_id(self.id@) ==> (r matches Err(e) && e@ == ErrorView::Config(
                "provider id '"@ + self.id@
                    + "' must be lowercase letters, digits, hyphen or underscore"@,
            )),
    {
        let v = chars_of(self.id.as_str());
        let bytes = crate::model::utf8_len_of(v.as_slice());
        let mut ok = v.len() > 0 && bytes <= 48;
        let mut i: usize = 0;
        while i < v.len()
            invariant
                i <= v@.len(),
                ok ==> forall|k: int| 0 <= k < i ==> is_id_char(#[trigger] v@[k]),
                ok ==> v@.len() > 0 && utf8_len(v@) <= 48,
                !ok ==> !valid_provider_id(v@),
            decreases v@.len() - i,
        {
            let c = v[i];
            if !(('a' <= c && c <= 'z') || ('0' <= c && c <= '9') || c == '-' || c == '_') {
                ok = false;
            }
            i = i + 1;
        }
        if ok {
            return Ok(());
        }
        let mut m = "provider id '".to_owned();
        m.append(self.id.as_str());
        m.append("' must be lowercase letters, digits, hyphen or underscore");
        Err(HiveError::Config(m))
    }

    /// Only http and https are accepted, which keeps `file://` and other
    /// schemes out of a URL that is later used to build outbound requests.
    fn validate_base_url(&self) -> (r: Result<(), HiveError>)
        ensures
            starts_with(resolved_url(*self), "http://"@) || starts_with(
                resolved_url(*self),
                "https://"@,
            ) ==> r is Ok,
            !starts_with(resolved_url(*self), "http://"@) && !starts_with(
                resolved_url(*self),
                "https://"@,
            ) ==> (r matches Err(e) && e@ == ErrorView::Config(
                "provider '"@ + self.id@ + "' has base_url '"@ + resolved_url(*self)
                    + "', expected an http:// or https:// address"@,
            )),
    {
        let url = self.resolved_base_url();
        if str_starts_with(url.as_str(), "http://") || str_starts_with(url.as_str(), "https://") {
            return Ok(());
        }
        let mut m = "provider '".to_owned();
        m.append(self.id.as_str());
        m.append("' has base_url '");
        m.append(url.as_str());
        m.append("', expected an http:// or https:// address");
        Err(HiveError::Config(m))
    }
}

#[derive(Debug)]
pub struct ServerConfig {
    pub bind: String,
    pub database: String,
    /// Extra origins allowed to call the API. Empty means same-origin only,
    /// which is the right default when the server also ships the web UI.
    pub allowed_origins: Vec<String>,
}

/// The request timeout of a provider entry that names none.
pub fn default_timeout_secs() -> (t: u64)
    ensures
        t == DEFAULT_TIMEOUT_SECS,
{
    DEFAULT_TIMEOUT_SECS
}

pub fn default_bind() -> (s: String)
    ensures
        s@ == "127.0.0.1:8750"@,
{
    "127.0.0.1:8750".to_owned()
}

pub fn default_db_path() -> (s: String)
    ensures
        s@ == "hivemind.db"@,
{
    "hivemind.db".to_owned()
}

impl Default for ServerConfig {
    fn default() -> (c: Self)
        ensures
            c.bind@ == "127.0.0.1:8750"@,
            c.database@ == "hivemind.db"@,
            c.allowed_origins@.len() == 0,
    {
        ServerConfig { bind: default_bind(), database: default_db_path(), allowed_origins: Vec::new() }
    }
}

#[derive(Debug)]
pub struct HiveConfig {
    pub server: ServerConfig,
    pub providers: Vec<ProviderConfig>,
}

/// The index of the first entry whose id already occurred earlier.
pub open spec fn first_duplicate(ps: Seq<ProviderConfig>) -> Option<int> {
    if exists|j: int| 0 <= j < ps.len() && repeats_earlier(ps, j) {
        Some(choose|j: int| 0 <= j < ps.len() && repeats_earlier(ps, j) && forall|k: int| 0 <= k < j ==> !repeats_earlier(ps, k))
    } else {
        None
    }
}

pub open spec fn repeats_earlier(ps: Seq<ProviderConfig>, j: int) -> bool {
    exists|i: int| 0 <= i < j && ps[i].id@ == (#[trigger] ps[j]).id@
}

/// The first entry, in order, that breaks a rule.
pub open spec fn providers_problem(ps: Seq<ProviderConfig>) -> Option<ErrorView>
    decreases ps.len(),
{
    if ps.len() == 0 {
        None
    } else if provider_problem(ps[0]) is Some {
        provider_problem(ps[0])
    } else {
        providers_problem(ps.drop_first())
    }
}

/// The first problem a configuration has, if any.
pub open spec fn config_problem(c: HiveConfig) -> Option<ErrorView> {
    let ps = c.providers@;
    if ps.len() > MAX_PROVIDERS {
        Some(
            ErrorView::Config(
                "at most 16 providers are supported, found "@ + decimal(ps.len()),
            ),
        )
    } else if providers_problem(ps) is Some {
        providers_problem(ps)
    } else {
        match first_duplicate(ps) {
            Some(j) => Some(ErrorView::Config("duplicate provider id '"@ + ps[j].id@ + "'"@)),
            None => None,
        }
    }
}


/// Whether an endpoint address points at this machine: it names the IPv4 or
/// IPv6 loopback address or `localhost`.
pub open spec fn local_url(url: Seq<char>) -> bool {
    contains(url, "127.0.0.1"@) || contains(url, "localhost"@) || contains(url, "::1"@)
}

/// The local-only configuration: the default server settings and a single
/// Ollama provider called `local`.
pub open spec fn is_local_default(c: HiveConfig) -> bool {
    &&& c.server.bind@ == "127.0.0.1:8750"@
    &&& c.server.database@ == "hivemind.db"@
    &&& c.server.allowed_origins@.len() == 0
    &&& c.providers@.len() == 1
    &&& c.providers@[0].id@ == "local"@
    &&& c.providers@[0].label@ == "Ollama (local)"@
    &&& c.providers@[0].kind == ProviderKind::Ollama
    &&& c.providers@[0].base_url is None
    &&& c.providers@[0].api_key_env is None
    &&& c.providers@[0].timeout_secs == DEFAULT_TIMEOUT_SECS
}

impl HiveConfig {
    /// A config that works on a fresh machine: local Ollama, nothing else.
    pub fn local_default() -> (c: HiveConfig)
        ensures
            is_local_default(c),
    {
        let mut ollama = ProviderConfig::new("local", ProviderKind::Ollama);
        ollama.label = "Ollama (local)".to_owned();
        let mut providers = Vec::new();
        providers.push(ollama);
        HiveConfig { server: ServerConfig::default(), providers }
    }

    /// The configuration to run with: what was read from the file, checked,
    /// or the local-only default when no file exists yet (`None`). A malformed
    /// file is still an error: silently replacing it would hide a typo in a
    /// provider entry.
    pub fn load_or_default(loaded: Option<HiveConfig>) -> (r: Result<HiveConfig, HiveError>)
        ensures
            match loaded {
                Some(c) => match config_problem(c) {
                    None => r matches Ok(d) && d.providers@ == c.providers@ && d.server == c.server,
                    Some(v) => r matches Err(e) && e@ == v,
                },
                None => r matches Ok(d) && is_local_default(d),
            },
    {
        match loaded {
            Some(c) => {
                c.validate()?;
                Ok(c)
            },
            None => Ok(HiveConfig::local_default()),
        }
    }

    /// The provider entry with the given id.
    pub fn provider(&self, id: &str) -> (r: Result<&ProviderConfig, HiveError>)
        ensures
            match r {
                Ok(p) => exists|i: int|
                    0 <= i < self.providers@.len() && self.providers@[i] == *p && p.id@ == id@
                        && forall|j: int| 0 <= j < i ==> (#[trigger] self.providers@[j]).id@ != id@,
                Err(e) => (forall|j: int|
                    0 <= j < self.providers@.len() ==> (#[trigger] self.providers@[j]).id@ != id@)
                    && e@ == ErrorView::UnknownProvider(id@),
            },
    {
        let mut i: usize = 0;
        while i < self.providers.len()
            invariant
                i <= self.providers@.len(),
                forall|j: int| 0 <= j < i ==> (#[trigger] self.providers@[j]).id@ != id@,
            decreases self.providers@.len() - i,
        {
            if str_eq(self.providers[i].id.as_str(), id) {
                return Ok(&self.providers[i]);
            }
            i = i + 1;
        }
        Err(HiveError::UnknownProvider(id.to_owned()))
    }

    pub fn validate(&self) -> (r: Result<(), HiveError>)
        ensures
            outcome(config_problem(*self), r),
    {
        if self.providers.len() > MAX_PROVIDERS {
            let mut m = "at most 16 providers are supported, found ".to_owned();
            let n = decimal_string(self.providers.len() as u64);
            m.append(n.as_str());
            return Err(HiveError::Config(m));
        }
        let mut i: usize = 0;
        assert(self.providers@.skip(0) =~= self.providers@);
        while i < self.providers.len()
            invariant
                i <= self.providers@.len(),
                self.providers@.len() <= MAX_PROVIDERS,
                providers_problem(self.providers@) == providers_problem(
                    self.providers@.skip(i as int),
                ),
            decreases self.providers@.len() - i,
        {
            assert(self.providers@.skip(i as int)[0] == self.providers@[i as int]);
            assert(self.providers@.skip(i as int).drop_first() =~= self.providers@.skip(i + 1));
            self.providers[i].validate()?;
            i = i + 1;
        }
        assert(self.providers@.skip(i as int).len() == 0);
        self.validate_unique_ids()
    }

    fn validate_unique_ids(&self) -> (r: Result<(), HiveError>)
        ensures
            match first_duplicate(self.providers@) {
                Some(j) => r matches Err(e) && e@ == ErrorView::Config(
                    "duplicate provider id '"@ + self.providers@[j].id@ + "'"@,
                ),
                None => r is Ok,
            },
    {
        let ghost ps = self.providers@;
        let mut j: usize = 0;
        while j < self.providers.len()
            invariant
                ps == self.providers@,
                j <= ps.len(),
                forall|k: int| 0 <= k < j ==> !repeats_earlier(ps, k),
            decreases ps.len() - j,
        {
            if earlier_match(&self.providers, j) {
                proof {
                    lemma_first_duplicate_is(ps, j as int);
                }
                let mut m = "duplicate provider id '".to_owned();
                m.append(self.providers[j].id.as_str());
                m.append("'");
                return Err(HiveError::Config(m));
            }
            j = j + 1;
        }
        Ok(())
    }
}

proof fn lemma_first_duplicate_is(ps: Seq<ProviderConfig>, j: int)
    requires
        0 <= j < ps.len(),
        repeats_earlier(ps, j),
        forall|k: int| 0 <= k < j ==> !repeats_earlier(ps, k),
    ensures
        first_duplicate(ps) == Some(j),
{
    assert(exists|x: int| 0 <= x < ps.len() && repeats_earlier(ps, x));
    let w = choose|x: int|
        0 <= x < ps.len() && repeats_earlier(ps, x) && forall|k: int|
            0 <= k < x ==> !repeats_earlier(ps, k);
    assert(w == j) by {
        if w < j {
        } else if w > j {
            assert(!repeats_earlier(ps, j));
        }
    }
}

fn earlier_match(ps: &Vec<ProviderConfig>, j: usize) -> (b: bool)
    requires
        j < ps@.len(),
    ensures
        b == repeats_earlier(ps@, j as int),
{
    let mut i: usize = 0;
    while i < j
        invariant
            i <= j < ps@.len(),
            forall|k: int| 0 <= k < i ==> ps@[k].id@ != ps@[j as int].id@,
        decreases j - i,
    {
        if same(&ps[i].id, &ps[j].id) {
            return true;
        }
        i = i + 1;
    }
    false
}

fn same(a: &String, b: &String) -> (r: bool)
    ensures
        r == (a@ == b@),
{
    str_eq(a.as_str(), b.as_str())
}

} // verus!
