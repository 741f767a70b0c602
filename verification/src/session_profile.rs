//! Session profiles: every parameter needed to open a session, with
//! builders, completeness checking and usage tracking. Identifiers are
//! caller-supplied strings and durations integral milliseconds.

use crate::metadata::now_millis;
use vstd::prelude::*;

verus! {

/// A port forward specification.
#[derive(Debug, Clone)]
pub enum PortForward {
    /// Forward a local port to a remote destination
    Local {
        /// The local port to bind
        local_port: u16,
        /// The remote destination host
        remote_host: String,
        /// The remote destination port
        remote_port: u16,
    },
    /// Forward a remote port to a local destination
    Remote {
        /// The remote port to bind
        remote_port: u16,
        /// The local destination host
        local_host: String,
        /// The local destination port
        local_port: u16,
    },
    /// Dynamic (SOCKS) forwarding on a local port
    Dynamic {
        /// The local port to bind
        local_port: u16,
    },
}

/// Authentication configuration, as stored in a profile.
#[derive(Debug, Clone)]
pub enum AuthConfig {
    /// Password authentication; None means prompt at connect time
    Password {
        /// The stored password, if any (storing one is discouraged)
        password: Option<String>,
    },
    /// Public key authentication
    PublicKey {
        /// Path to the private key
        key_path: String,
        /// Whether the key is encrypted
        encrypted: bool,
    },
    /// SSH agent authentication
    Agent,
}

impl AuthConfig {
    /// A password config that prompts at runtime (no stored password).
    pub fn password_prompt() -> (r: Self)
        ensures
            r matches AuthConfig::Password { password } && password is None,
    {
        AuthConfig::Password { password: None }
    }

    /// A public key config.
    pub fn public_key(key_path: String, encrypted: bool) -> (r: Self)
        ensures
            r matches AuthConfig::PublicKey { key_path: k, encrypted: e } && k@ == key_path@
                && e == encrypted,
    {
        AuthConfig::PublicKey { key_path, encrypted }
    }

    /// An SSH agent config.
    pub fn agent() -> (r: Self)
        ensures
            r is Agent,
    {
        AuthConfig::Agent
    }

    /// Whether this config stores sensitive data.
    pub fn stores_sensitive_data(&self) -> (r: bool)
        ensures
            r == (self matches AuthConfig::Password { password } && password is Some),
    {
        matches!(self, AuthConfig::Password { password: Some(_) })
    }

    /// Convert to a connection authentication method, supplying the
    /// prompted password or passphrase where one is needed; None when a
    /// password is needed but neither stored nor prompted.
    pub fn to_auth_method(&self, password_prompt: Option<&str>) -> (r: Option<
        crate::config::AuthMethod,
    >)
        ensures
            match self {
                AuthConfig::Password { password } => match r {
                    Some(m) => m is Password && (password is Some || password_prompt is Some),
                    None => password is None && password_prompt is None,
                },
                AuthConfig::PublicKey { .. } => r matches Some(m) && m is PublicKey,
                AuthConfig::Agent => r matches Some(m) && m is Agent,
            },
    {
        match self {
            AuthConfig::Password { password } => match password {
                Some(p) => Some(crate::config::AuthMethod::Password(p.clone())),
                None => match password_prompt {
                    Some(p) => Some(crate::config::AuthMethod::Password(p.to_owned())),
                    None => None,
                },
            },
            AuthConfig::PublicKey { key_path, encrypted } => {
                let passphrase = if *encrypted {
                    match password_prompt {
                        Some(p) => Some(p.to_owned()),
                        None => None,
                    }
                } else {
                    None
                };
                Some(
                    crate::config::AuthMethod::PublicKey { key_path: key_path.clone(), passphrase },
                )
            },
            AuthConfig::Agent => Some(crate::config::AuthMethod::Agent),
        }
    }
}

/// A session profile with all connection parameters.
#[derive(Debug, Clone)]
pub struct SessionProfile {
    /// Unique profile identifier
    pub id: String,
    /// Human-readable name
    pub name: String,
    /// Description
    pub description: Option<String>,
    /// Remote host address
    pub host: String,
    /// Remote port
    pub port: u16,
    /// Username
    pub username: String,
    /// Authentication configuration
    pub auth: AuthConfig,
    /// Connection timeout in milliseconds
    pub timeout_ms: u64,
    /// Keep-alive interval in milliseconds, if any
    pub keepalive_interval_ms: Option<u64>,
    /// Port forwards to establish
    pub port_forwards: Vec<PortForward>,
    /// Environment variables to set
    pub environment: Vec<(String, String)>,
    /// Startup command to run
    pub startup_command: Option<String>,
    /// Working directory on the remote
    pub working_directory: Option<String>,
    /// Tags for organization
    pub tags: Vec<String>,
    /// Creation time, milliseconds since the epoch
    pub created_at: u64,
    /// Last use, milliseconds since the epoch, if ever used
    pub last_used: Option<u64>,
    /// How many times the profile was used
    pub use_count: u64,
}

impl SessionProfile {
    /// Create a new profile with the given id: port 22, agent
    /// authentication, a 30 s timeout, a 60 s keepalive, never used.
    pub fn new(id: String, name: String, host: String, username: String) -> (r: Self)
        ensures
            r.id@ == id@,
            r.name@ == name@,
            r.host@ == host@,
            r.username@ == username@,
            r.port == 22,
            r.auth is Agent,
            r.timeout_ms == 30_000,
            r.keepalive_interval_ms == Some(60_000u64),
            r.port_forwards@.len() == 0,
            r.environment@.len() == 0,
            r.startup_command is None,
            r.working_directory is None,
            r.tags@.len() == 0,
            r.last_used is None,
            r.use_count == 0,
    {
        Self {
            id,
            name,
            description: None,
            host,
            port: 22,
            username,
            auth: AuthConfig::Agent,
            timeout_ms: 30_000,
            keepalive_interval_ms: Some(60_000),
            port_forwards: Vec::new(),
            environment: Vec::new(),
            startup_command: None,
            working_directory: None,
            tags: Vec::new(),
            created_at: now_millis(),
            last_used: None,
            use_count: 0,
        }
    }

    /// Set the description.
    pub fn with_description(self, description: String) -> (r: Self)
        ensures
            r == (Self { description: Some(description), ..self }),
    {
        Self { description: Some(description), ..self }
    }

    /// Set the port.
    pub fn with_port(self, port: u16) -> (r: Self)
        ensures
            r == (Self { port, ..self }),
    {
        Self { port, ..self }
    }

    /// Set the authentication.
    pub fn with_auth(self, auth: AuthConfig) -> (r: Self)
        ensures
            r == (Self { auth, ..self }),
    {
        Self { auth, ..self }
    }

    /// Set the timeout.
    pub fn with_timeout(self, timeout_ms: u64) -> (r: Self)
        ensures
            r == (Self { timeout_ms, ..self }),
    {
        Self { timeout_ms, ..self }
    }

    /// Add a port forward.
    pub fn with_port_forward(self, forward: PortForward) -> (r: Self)
        ensures
            r.port_forwards@.len() == self.port_forwards@.len() + 1,
            r.id@ == self.id@,
            r.name@ == self.name@,
    {
        let mut s = self;
        s.port_forwards.push(forward);
        s
    }

    /// Add an environment variable.
    pub fn with_env(self, key: String, value: String) -> (r: Self)
        ensures
            r.environment@.len() == self.environment@.len() + 1,
            r.id@ == self.id@,
    {
        let mut s = self;
        s.environment.push((key, value));
        s
    }

    /// Set the startup command.
    pub fn with_startup_command(self, command: String) -> (r: Self)
        ensures
            r == (Self { startup_command: Some(command), ..self }),
    {
        Self { startup_command: Some(command), ..self }
    }

    /// Add a tag.
    pub fn with_tag(self, tag: String) -> (r: Self)
        ensures
            r.tags@.len() == self.tags@.len() + 1,
            r.tags@.last()@ == tag@,
            r.id@ == self.id@,
            r.name@ == self.name@,
    {
        let mut s = self;
        s.tags.push(tag);
        s
    }

    /// Record a use: the counter ticks (saturating) and the last-used
    /// time becomes now.
    pub fn record_use(&mut self)
        ensures
            old(self).use_count < u64::MAX ==> final(self).use_count == old(self).use_count
                + 1,
            final(self).last_used is Some,
            final(self).id@ == old(self).id@,
            final(self).name@ == old(self).name@,
    {
        self.last_used = Some(now_millis());
        self.use_count = if self.use_count < u64::MAX {
            self.use_count + 1
        } else {
            u64::MAX
        };
    }

    /// Whether the profile carries every required parameter: a name, a
    /// host, a username and a non-zero port.
    pub fn is_complete(&self) -> (r: bool)
        ensures
            r == (self.name@.len() > 0 && self.host@.len() > 0 && self.username@.len() > 0
                && self.port > 0),
    {
        !self.name.as_str().is_empty() && !self.host.as_str().is_empty()
            && !self.username.as_str().is_empty() && self.port > 0
    }
}

/// Whether the catalog holds a profile with the given name.
pub open spec fn has_profile(s: Seq<SessionProfile>, name: Seq<char>) -> bool {
    exists|i: int| 0 <= i < s.len() && (#[trigger] s[i]).name@ == name
}

/// All profile names in the catalog are distinct.
pub open spec fn profile_names_unique(s: Seq<SessionProfile>) -> bool {
    forall|i: int, j: int| 0 <= i < j < s.len() ==> s[i].name@ != s[j].name@
}

/// A catalog of session profiles with unique names: adding an existing
/// name is rejected, removal and lookup go by name.
pub struct ProfileCatalog {
    profiles: Vec<SessionProfile>,
}

impl ProfileCatalog {
    /// The held profiles, for contracts.
    pub closed spec fn spec_profiles(&self) -> Seq<SessionProfile> {
        self.profiles@
    }

    /// Structural invariant: unique profile names.
    pub open spec fn wf(&self) -> bool {
        profile_names_unique(self.spec_profiles())
    }

    /// An empty catalog.
    pub fn new() -> (r: Self)
        ensures
            r.wf(),
            r.spec_profiles().len() == 0,
    {
        Self { profiles: Vec::new() }
    }

    /// Build a catalog from a list, rejecting any duplicate name.
    pub fn from_profiles(profiles: Vec<SessionProfile>) -> (r: Result<Self, crate::errors::SessionError>)
        ensures
            r matches Ok(c) ==> c.wf() && c.spec_profiles() == profiles@,
            r matches Err(e) ==> e is ProfileExists && !profile_names_unique(profiles@),
    {
        let mut i: usize = 0;
        while i < profiles.len()
            invariant
                i <= profiles@.len(),
                forall|a: int, b: int| 0 <= a < b < i ==> profiles@[a].name@ != profiles@[b].name@,
            decreases profiles@.len() - i,
        {
            let mut j: usize = 0;
            while j < i
                invariant
                    i < profiles@.len(),
                    j <= i,
                    forall|a: int, b: int|
                        0 <= a < b < i ==> profiles@[a].name@ != profiles@[b].name@,
                    forall|a: int| 0 <= a < j ==> profiles@[a].name@ != profiles@[i as int].name@,
                decreases i - j,
            {
                if crate::textutil::str_eq(
                    profiles[j].name.as_str(),
                    profiles[i].name.as_str(),
                ) {
                    return Err(
                        crate::errors::SessionError::ProfileExists(profiles[i].name.clone()),
                    );
                }
                j = j + 1;
            }
            i = i + 1;
        }
        Ok(Self { profiles })
    }

    /// How many profiles are held.
    pub fn len(&self) -> (r: usize)
        ensures
            r == self.spec_profiles().len(),
    {
        self.profiles.len()
    }

    /// The held profiles, in insertion order.
    pub fn list(&self) -> (r: &Vec<SessionProfile>)
        ensures
            r@ == self.spec_profiles(),
    {
        &self.profiles
    }

    /// Find the index of the profile with the given name.
    fn find_index(&self, name: &str) -> (r: Option<usize>)
        ensures
            match r {
                Some(i) => i < self.spec_profiles().len() && self.spec_profiles()[
                    i as int
                ].name@ == name@,
                None => !has_profile(self.spec_profiles(), name@),
            },
    {
        let mut i: usize = 0;
        while i < self.profiles.len()
            invariant
                i <= self.spec_profiles().len(),
                forall|k: int|
                    0 <= k < i ==> (#[trigger] self.spec_profiles()[k]).name@ != name@,
            decreases self.spec_profiles().len() - i,
        {
            if crate::textutil::str_eq(self.profiles[i].name.as_str(), name) {
                return Some(i);
            }
            i = i + 1;
        }
        None
    }

    /// Look up a profile by name.
    pub fn find(&self, name: &str) -> (r: Option<&SessionProfile>)
        ensures
            match r {
                Some(p) => has_profile(self.spec_profiles(), name@) && p.name@ == name@,
                None => !has_profile(self.spec_profiles(), name@),
            },
    {
        match self.find_index(name) {
            Some(i) => {
                proof {
                    assert(self.spec_profiles()[i as int].name@ == name@);
                }
                Some(&self.profiles[i])
            },
            None => None,
        }
    }

    /// Add a profile. A name already in the catalog is rejected with a
    /// profile-exists error and leaves the catalog unchanged.
    pub fn add(&mut self, profile: SessionProfile) -> (r: Result<(), crate::errors::SessionError>)
        requires
            old(self).wf(),
        ensures
            final(self).wf(),
            match r {
                Ok(()) => {
                    &&& !has_profile(old(self).spec_profiles(), profile.name@)
                    &&& final(self).spec_profiles() == old(self).spec_profiles().push(profile)
                },
                Err(e) => {
                    &&& e is ProfileExists
                    &&& has_profile(old(self).spec_profiles(), profile.name@)
                    &&& final(self).spec_profiles() == old(self).spec_profiles()
                },
            },
    {
        match self.find_index(profile.name.as_str()) {
            Some(i) => {
                proof {
                    assert(self.spec_profiles()[i as int].name@ == profile.name@);
                }
                Err(crate::errors::SessionError::ProfileExists(profile.name))
            },
            None => {
                let ghost prev = self.profiles@;
                self.profiles.push(profile);
                proof {
                    assert forall|a: int, b: int|
                        0 <= a < b < self.profiles@.len() implies self.profiles@[a].name@
                        != self.profiles@[b].name@ by {
                        if b == prev.len() as int {
                            assert(self.profiles@[a] == prev[a]);
                        } else {
                            assert(self.profiles@[a] == prev[a]);
                            assert(self.profiles@[b] == prev[b]);
                        }
                    }
                }
                Ok(())
            },
        }
    }

    /// Remove the profile with the given name. A missing name is
    /// rejected with a profile-not-found error.
    pub fn remove(&mut self, name: &str) -> (r: Result<
        SessionProfile,
        crate::errors::SessionError,
    >)
        requires
            old(self).wf(),
        ensures
            final(self).wf(),
            match r {
                Ok(p) => {
                    &&& has_profile(old(self).spec_profiles(), name@)
                    &&& p.name@ == name@
                    &&& !has_profile(final(self).spec_profiles(), name@)
                    &&& final(self).spec_profiles().len() + 1 == old(
                        self,
                    ).spec_profiles().len()
                },
                Err(e) => {
                    &&& e is ProfileNotFound
                    &&& !has_profile(old(self).spec_profiles(), name@)
                    &&& final(self).spec_profiles() == old(self).spec_profiles()
                },
            },
    {
        match self.find_index(name) {
            Some(i) => {
                let ghost prev = self.profiles@;
                let p = self.profiles.remove(i);
                proof {
                    assert forall|a: int, b: int|
                        0 <= a < b < self.profiles@.len() implies self.profiles@[a].name@
                        != self.profiles@[b].name@ by {
                        let a0 = if a < i { a } else { a + 1 };
                        let b0 = if b < i { b } else { b + 1 };
                        assert(self.profiles@[a] == prev[a0]);
                        assert(self.profiles@[b] == prev[b0]);
                    }
                    assert forall|k: int|
                        0 <= k < self.profiles@.len() implies (#[trigger] self.profiles@[
                        k
                    ]).name@ != name@ by {
                        let k0 = if k < i { k } else { k + 1 };
                        assert(self.profiles@[k] == prev[k0]);
                        if k0 < i {
                            assert(prev[k0].name@ != prev[i as int].name@);
                        } else {
                            assert(prev[i as int].name@ != prev[k0].name@);
                        }
                    }
                }
                Ok(p)
            },
            None => Err(crate::errors::SessionError::ProfileNotFound(name.to_owned())),
        }
    }
}

impl Default for ProfileCatalog {
    /// An empty catalog.
    fn default() -> (r: Self)
        ensures
            r.wf(),
            r.spec_profiles().len() == 0,
    {
        Self::new()
    }
}

} // verus!
