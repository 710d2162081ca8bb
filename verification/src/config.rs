//! Runtime settings: collection from a snapshot of the environment, the
//! paired-optional rules for the AI services, and the bucket list.

use vstd::prelude::*;
use crate::text::{parse_u16, u16_parse_spec, trim_str, trim_spec, split_commas,
    clone_opt_string};

verus! {

/// Bank API credentials.
pub struct InvestecConfig {
    pub x_api_key: String,
    pub client_id: String,
    pub client_secret: String,
}

/// Web-search credentials; both set or neither.
pub struct GoogleSearchConfig {
    pub api_key: Option<String>,
    pub engine_id: Option<String>,
}

/// First language-model provider; both set or neither.
pub struct GeminiConfig {
    pub api_key: Option<String>,
    pub model: Option<String>,
}

/// Second language-model provider; host and port fall back to defaults.
pub struct OllamaConfig {
    pub model: Option<String>,
    pub host: Option<String>,
    pub port: Option<u16>,
}

/// Persistence connection string.
pub struct DatabaseConfig {
    pub url: String,
}

/// The ordered spending-bucket names.
pub struct BucketsConfig {
    pub categories: Vec<String>,
}

/// Immutable runtime settings, collected once at startup.
pub struct Config {
    pub investec: InvestecConfig,
    pub google_search: GoogleSearchConfig,
    pub gemini: GeminiConfig,
    pub ollama: OllamaConfig,
    pub database: DatabaseConfig,
    pub buckets: BucketsConfig,
    pub city: Option<String>,
}

/// A configuration fault, fatal at startup.
#[derive(Debug)]
pub enum ConfigError {
    MissingRequiredVar(String),
}

impl ConfigError {
    /// The single-line diagnostic carried by this error.
    pub fn message(&self) -> (r: String)
        ensures
            match self {
                ConfigError::MissingRequiredVar(m) => r@ == m@,
            },
    {
        match self {
            ConfigError::MissingRequiredVar(m) => m.clone(),
        }
    }
}

/// A snapshot of the environment variables the library reads: each field
/// holds the variable's value, or nothing where it is unset.
pub struct EnvValues {
    pub investec_x_api_key: Option<String>,
    pub investec_client_id: Option<String>,
    pub investec_client_secret: Option<String>,
    pub google_search_api_key: Option<String>,
    pub google_search_engine_id: Option<String>,
    pub gemini_api_key: Option<String>,
    pub gemini_model: Option<String>,
    pub ollama_model: Option<String>,
    pub ollama_host: Option<String>,
    pub ollama_port: Option<String>,
    pub database_url: Option<String>,
    pub buckets: Option<String>,
    pub city: Option<String>,
}

/// The bucket list used when the environment names none.
pub const DEFAULT_BUCKETS: &'static str
    = "Food,Transportation,Entertainment,Bills & Utilities,Healthcare,Income,Transfers,Other";

/// The bucket names drawn from a raw comma-separated list: the pieces between
/// commas, each with surrounding whitespace removed.
pub open spec fn spec_bucket_list(s: Seq<char>) -> Seq<Seq<char>> {
    split_commas(s).map_values(|p: Seq<char>| trim_spec(p))
}

/// The port that an optional raw port string yields: parsed when set and
/// well-formed, absent otherwise.
pub open spec fn spec_port(raw: Option<String>) -> Option<u16> {
    match raw {
        Some(s) => u16_parse_spec(s@),
        None => None,
    }
}

/// Splits a comma-separated list and trims each piece.
fn bucket_list(s: &str) -> (v: Vec<String>)
    ensures
        v@.map_values(|p: String| p@) == spec_bucket_list(s@),
{
    let pieces = crate::text::split_commas_exec(s);
    let mut v: Vec<String> = Vec::new();
    let mut i: usize = 0;
    while i < pieces.len()
        invariant
            i <= pieces.len(),
            pieces@.map_values(|p: String| p@) == split_commas(s@),
            v@.map_values(|p: String| p@) =~= split_commas(s@).take(i as int).map_values(
                |p: Seq<char>| trim_spec(p),
            ),
        decreases pieces.len() - i,
    {
        let ghost old_v = v@;
        let t = trim_str(pieces[i].as_str());
        proof {
            assert(pieces@.map_values(|p: String| p@)[i as int] == pieces@[i as int]@);
        }
        v.push(t);
        proof {
            old_v.lemma_push_map_commute(|p: String| p@, t);
            split_commas(s@).lemma_map_take_succ(|p: Seq<char>| trim_spec(p), i as int);
            assert(v@.map_values(|p: String| p@) =~= split_commas(s@).take(i + 1).map_values(
                |p: Seq<char>| trim_spec(p),
            ));
        }
        i = i + 1;
    }
    proof {
        assert(split_commas(s@).take(split_commas(s@).len() as int) =~= split_commas(s@));
    }
    v
}

impl Config {
    /// Builds the configuration from an environment snapshot. Fails exactly
    /// when one of the four required variables is unset; every optional value
    /// is carried over as it stands, the port is parsed, and the bucket list
    /// is split from the named list or from the default.
    pub fn from_env(env: &EnvValues) -> (r: Result<Config, ConfigError>)
        ensures
            r is Ok <==> (env.investec_x_api_key is Some && env.investec_client_id is Some
                && env.investec_client_secret is Some && env.database_url is Some),
            r matches Ok(c) ==> {
                &&& c.investec.x_api_key == env.investec_x_api_key->0
                &&& c.investec.client_id == env.investec_client_id->0
                &&& c.investec.client_secret == env.investec_client_secret->0
                &&& c.google_search.api_key == env.google_search_api_key
                &&& c.google_search.engine_id == env.google_search_engine_id
                &&& c.gemini.api_key == env.gemini_api_key
                &&& c.gemini.model == env.gemini_model
                &&& c.ollama.model == env.ollama_model
                &&& c.ollama.host == env.ollama_host
                &&& c.ollama.port == spec_port(env.ollama_port)
                &&& c.database.url == env.database_url->0
                &&& c.city == env.city
                &&& c.buckets.categories@.map_values(|p: String| p@) == spec_bucket_list(
                    match env.buckets {
                        Some(b) => b@,
                        None => DEFAULT_BUCKETS@,
                    },
                )
            },
    {
        let x_api_key = match &env.investec_x_api_key {
            Some(s) => s.clone(),
            None => {
                return Err(ConfigError::MissingRequiredVar(String::from_str(
                    "INVESTEC_X_API_KEY",
                )));
            },
        };
        let client_id = match &env.investec_client_id {
            Some(s) => s.clone(),
            None => {
                return Err(ConfigError::MissingRequiredVar(String::from_str(
                    "INVESTEC_CLIENT_ID",
                )));
            },
        };
        let client_secret = match &env.investec_client_secret {
            Some(s) => s.clone(),
            None => {
                return Err(ConfigError::MissingRequiredVar(String::from_str(
                    "INVESTEC_CLIENT_SECRET",
                )));
            },
        };
        let database_url = match &env.database_url {
            Some(s) => s.clone(),
            None => {
                return Err(ConfigError::MissingRequiredVar(String::from_str("DATABASE_URL")));
            },
        };
        let port = match &env.ollama_port {
            Some(s) => parse_u16(s.as_str()),
            None => None,
        };
        let categories = match &env.buckets {
            Some(b) => bucket_list(b.as_str()),
            None => bucket_list(DEFAULT_BUCKETS),
        };
        Ok(
            Config {
                investec: InvestecConfig { x_api_key, client_id, client_secret },
                google_search: GoogleSearchConfig {
                    api_key: clone_opt_string(&env.google_search_api_key),
                    engine_id: clone_opt_string(&env.google_search_engine_id),
                },
                gemini: GeminiConfig {
                    api_key: clone_opt_string(&env.gemini_api_key),
                    model: clone_opt_string(&env.gemini_model),
                },
                ollama: OllamaConfig {
                    model: clone_opt_string(&env.ollama_model),
                    host: clone_opt_string(&env.ollama_host),
                    port,
                },
                database: DatabaseConfig { url: database_url },
                buckets: BucketsConfig { categories },
                city: clone_opt_string(&env.city),
            },
        )
    }

    /// Enforces the paired-optional rules and that some language model is
    /// configured: the first provider's two variables stand together, the
    /// search credentials stand together, and at least one provider is set.
    pub fn validate_ai_services(&self) -> (r: Result<(), ConfigError>)
        ensures
            r is Ok <==> ((self.gemini.api_key is Some <==> self.gemini.model is Some) && (
            self.google_search.api_key is Some <==> self.google_search.engine_id is Some) && (
            self.gemini.api_key is Some || self.ollama.model is Some)),
    {
        if self.gemini.api_key.is_some() != self.gemini.model.is_some() {
            return Err(ConfigError::MissingRequiredVar(String::from_str(
                "Both GEMINI_API_KEY and GEMINI_MODEL must be set together, or neither",
            )));
        }
        if self.google_search.api_key.is_some() != self.google_search.engine_id.is_some() {
            return Err(ConfigError::MissingRequiredVar(String::from_str(
                "Both GOOGLE_SEARCH_API_KEY and GOOGLE_SEARCH_ENGINE_ID must be set together, or neither",
            )));
        }
        let has_gemini = self.gemini.api_key.is_some();
        let has_ollama = self.ollama.model.is_some();
        if !has_gemini && !has_ollama {
            return Err(ConfigError::MissingRequiredVar(String::from_str(
                "Either GEMINI_API_KEY+GEMINI_MODEL or OLLAMA_MODEL must be set",
            )));
        }
        Ok(())
    }

    /// The second provider is configured.
    pub fn is_ollama_available(&self) -> (r: bool)
        ensures
            r == (self.ollama.model is Some),
    {
        self.ollama.model.is_some()
    }

    /// The first provider is configured.
    pub fn is_gemini_available(&self) -> (r: bool)
        ensures
            r == (self.gemini.api_key is Some),
    {
        self.gemini.api_key.is_some()
    }

    /// Web search is configured.
    pub fn is_google_search_available(&self) -> (r: bool)
        ensures
            r == (self.google_search.api_key is Some),
    {
        self.google_search.api_key.is_some()
    }
}

/// The second provider's endpoint: the configured host and port, with the
/// host falling back to `http://localhost` and the port to 11434.
pub fn ollama_endpoint(host: &Option<String>, port: &Option<u16>) -> (r: (String, u16))
    ensures
        match host {
            Some(h) => r.0 == h,
            None => r.0@ == "http://localhost"@,
        },
        match port {
            Some(p) => r.1 == p,
            None => r.1 == 11434,
        },
{
    let h = match host {
        Some(h) => h.clone(),
        None => String::from_str("http://localhost"),
    };
    let p = match port {
        Some(p) => *p,
        None => 11434,
    };
    (h, p)
}

} // verus!
