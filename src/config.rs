use vstd::prelude::*;

use crate::error::ConfigError;

verus! {

/// The settings of one storage backend: where its storage lives.
pub struct BackendConfig {
    pub url: String,
}

impl BackendConfig {
    pub fn new(url: String) -> (r: Self)
        ensures
            r.url@ == url@,
    {
        BackendConfig { url }
    }
}

/// The abstract value of the backend table: each backend name with its url.
pub open spec fn backends_view(b: Seq<(String, BackendConfig)>) -> Seq<(Seq<char>, Seq<char>)> {
    b.map_values(|e: (String, BackendConfig)| (e.0@, e.1.url@))
}

/// `i` is the index of the first entry for the backend `name`.
pub open spec fn is_first_entry(b: Seq<(Seq<char>, Seq<char>)>, name: Seq<char>, i: int) -> bool {
    &&& 0 <= i < b.len()
    &&& b[i].0 == name
    &&& forall|j: int| 0 <= j < i ==> (#[trigger] b[j]).0 != name
}

/// Some entry is for the backend `name`.
pub open spec fn has_entry(b: Seq<(Seq<char>, Seq<char>)>, name: Seq<char>) -> bool {
    exists|i: int| 0 <= i < b.len() && (#[trigger] b[i]).0 == name
}

/// The process configuration: the name of the active backend and the
/// settings of each backend.
pub struct Config {
    pub backend: String,
    pub backends: Vec<(String, BackendConfig)>,
}

impl Default for Config {
    fn default() -> (r: Self)
        ensures
            r.backend@ == "sqlite"@,
            backends_view(r.backends@) == seq![("sqlite"@, "./serval.sqlite"@)],
    {
        Config { backend: String::from_str("sqlite"), backends: Config::default_backend_configs() }
    }
}

impl Config {
    /// The settings that a configuration without a backend table starts from.
    pub fn default_backend_configs() -> (r: Vec<(String, BackendConfig)>)
        ensures
            backends_view(r@) == seq![("sqlite"@, "./serval.sqlite"@)],
    {
        let mut configs: Vec<(String, BackendConfig)> = Vec::new();
        configs.push((String::from_str("sqlite"), BackendConfig::new(String::from_str("./serval.sqlite"))));
        assert(backends_view(configs@) =~= seq![("sqlite"@, "./serval.sqlite"@)]);
        configs
    }

    /// The settings of the active backend: those of the first entry under its
    /// name. A configuration without such an entry cannot be loaded.
    pub fn backend_config(&self) -> (r: Result<BackendConfig, ConfigError>)
        ensures
            r is Ok <==> has_entry(backends_view(self.backends@), self.backend@),
            r matches Ok(c) ==> exists|i: int|
                #[trigger] is_first_entry(backends_view(self.backends@), self.backend@, i)
                    && backends_view(self.backends@)[i].1 == c.url@,
            r matches Err(e) ==> e == ConfigError::Load,
    {
        let ghost b = backends_view(self.backends@);
        let mut i: usize = 0;
        while i < self.backends.len()
            invariant
                i <= self.backends.len(),
                b == backends_view(self.backends@),
                b.len() == self.backends.len(),
                forall|j: int| 0 <= j < i ==> (#[trigger] b[j]).0 != self.backend@,
            decreases self.backends.len() - i,
        {
            if self.backends[i].0 == self.backend {
                let c = BackendConfig::new(self.backends[i].1.url.clone());
                assert(is_first_entry(b, self.backend@, i as int));
                assert(b[i as int].1 == c.url@);
                return Ok(c);
            }
            i = i + 1;
        }
        Err(ConfigError::Load)
    }
}

} // verus!
