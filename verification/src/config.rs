//! The configured servers and what a transfer needs to know of one.

use vstd::prelude::*;
use vstd::string::StringExecFns;
use crate::text::same_text;

verus! {

/// The port that is used where a server names none.
pub const DEFAULT_PORT: u16 = 22;

/// One configured server.
#[derive(Debug, Clone)]
pub struct ServerConfig {
    pub name: String,
    pub ip: String,
    pub username: String,
    pub password: Option<String>,
    pub port: Option<u16>,
    pub remote_path: Option<String>,
}

/// The defaults of a configuration.
#[derive(Debug, Clone)]
pub struct DefaultConfig {
    /// The key of the server that is used where none is chosen.
    pub server: Option<String>,
}

/// Where and as whom a transfer connects, and below which remote directory
/// it stores the archive.
#[derive(Debug, Clone)]
pub struct Endpoint {
    pub host: String,
    pub port: u16,
    pub username: String,
    /// The password. It is sensitive: it is handed on, never recorded.
    pub secret: String,
    pub remote_base_path: String,
}

/// Everything one transfer works on. The local path is the archive in the
/// working directory; the remote path lies below the remote base directory.
#[derive(Debug, Clone)]
pub struct TransferTarget {
    pub host: String,
    pub port: u16,
    pub username: String,
    pub secret: String,
    pub local_path: String,
    pub remote_path: String,
}

/// The home directory of a user on the remote host.
pub open spec fn spec_home_of(username: Seq<char>) -> Seq<char> {
    "/home/"@ + username
}

/// The home directory of a user on the remote host.
pub fn home_of(username: &str) -> (home: String)
    ensures
        home@ == spec_home_of(username@),
{
    let mut home: String = "/home/".to_owned();
    home.append(username);
    home
}

/// The remote path of an archive file below a remote base directory.
pub open spec fn spec_remote_file_path(remote_base_path: Seq<char>, file_name: Seq<char>) -> Seq<
    char,
> {
    remote_base_path + "/"@ + file_name
}

/// The remote path of an archive file below a remote base directory.
pub fn remote_file_path(remote_base_path: &str, file_name: &str) -> (path: String)
    ensures
        path@ == spec_remote_file_path(remote_base_path@, file_name@),
{
    let mut path: String = remote_base_path.to_owned();
    path.append("/");
    path.append(file_name);
    path
}

impl ServerConfig {
    /// The port of the server: the configured one, or the default.
    pub open spec fn spec_port(&self) -> u16 {
        match self.port {
            Some(port) => port,
            None => DEFAULT_PORT,
        }
    }

    /// The password of the server: the configured one, or none at all.
    pub open spec fn spec_secret(&self) -> Seq<char> {
        match self.password {
            Some(password) => password@,
            None => Seq::empty(),
        }
    }

    /// The remote base directory of the server: the configured one, or the
    /// home directory of the user.
    pub open spec fn spec_remote_base_path(&self) -> Seq<char> {
        match self.remote_path {
            Some(path) => path@,
            None => spec_home_of(self.username@),
        }
    }

    /// What a transfer to this server needs to know, with the defaults
    /// filled in.
    pub fn endpoint(&self) -> (endpoint: Endpoint)
        ensures
            endpoint.host@ == self.ip@,
            endpoint.port == self.spec_port(),
            endpoint.username@ == self.username@,
            endpoint.secret@ == self.spec_secret(),
            endpoint.remote_base_path@ == self.spec_remote_base_path(),
    {
        let port: u16 = match self.port {
            Some(port) => port,
            None => DEFAULT_PORT,
        };
        let secret: String = match &self.password {
            Some(password) => password.clone(),
            None => String::new(),
        };
        let remote_base_path: String = match &self.remote_path {
            Some(path) => path.clone(),
            None => home_of(self.username.as_str()),
        };
        Endpoint {
            host: self.ip.clone(),
            port,
            username: self.username.clone(),
            secret,
            remote_base_path,
        }
    }
}

impl Endpoint {
    /// The endpoint for a host that is not configured: the default port and
    /// the home directory of the user.
    pub fn manual(ip: &str, username: &str, password: &str) -> (endpoint: Endpoint)
        ensures
            endpoint.host@ == ip@,
            endpoint.port == DEFAULT_PORT,
            endpoint.username@ == username@,
            endpoint.secret@ == password@,
            endpoint.remote_base_path@ == spec_home_of(username@),
    {
        Endpoint {
            host: ip.to_owned(),
            port: DEFAULT_PORT,
            username: username.to_owned(),
            secret: password.to_owned(),
            remote_base_path: home_of(username),
        }
    }

    /// Whether a password has still to be asked for.
    pub fn needs_secret(&self) -> (needed: bool)
        ensures
            needed == (self.secret@.len() == 0),
    {
        self.secret.as_str().is_empty()
    }

    /// The target of the transfer of an archive file of the given name.
    pub fn target(&self, archive_name: &str) -> (target: TransferTarget)
        ensures
            target.host@ == self.host@,
            target.port == self.port,
            target.username@ == self.username@,
            target.secret@ == self.secret@,
            target.local_path@ == archive_name@,
            target.remote_path@ == spec_remote_file_path(self.remote_base_path@, archive_name@),
    {
        TransferTarget {
            host: self.host.clone(),
            port: self.port,
            username: self.username.clone(),
            secret: self.secret.clone(),
            local_path: archive_name.to_owned(),
            remote_path: remote_file_path(self.remote_base_path.as_str(), archive_name),
        }
    }
}

/// The name of the configuration file in the working directory.
pub const LOCAL_CONFIG_FILE: &'static str = "flash.toml";

/// The directory of the tool below the configuration directory of the user.
pub const USER_CONFIG_DIR: &'static str = "flash";

/// The name of the configuration file in that directory.
pub const USER_CONFIG_FILE: &'static str = "config.toml";

/// A configuration file that shows what can be configured.
pub const EXAMPLE_CONFIG: &'static str =
    "# Flash configuration file\n# You can define multiple servers and choose between them\n\n[servers.home]\nname = \"Home Server\"\nip = \"192.168.1.100\"\nusername = \"admin\"\npassword = \"123\"\nport = 22\nremote_path = \"/home/admin\"\n\n[servers.work]\nname = \"Work Server\"\nip = \"10.0.0.5\"\nusername = \"deploy\"\nport = 2222\nremote_path = \"/opt/uploads\"\n\n[default]\nserver = \"home\"  # Default server to use\n";

/// Where the configuration file lies.
#[derive(Debug, Clone, Copy, PartialEq, Eq, Structural)]
pub enum ConfigLocation {
    /// In the working directory.
    WorkingDirectory,
    /// Below the configuration directory of the user.
    UserDirectory,
    /// Nowhere: the user has no configuration directory.
    Unknown,
}

/// Where the configuration file lies: a file in the working directory comes
/// first, then the configuration directory of the user, if there is one.
pub open spec fn spec_config_location(local_exists: bool, user_dir_known: bool) -> ConfigLocation {
    if local_exists {
        ConfigLocation::WorkingDirectory
    } else if user_dir_known {
        ConfigLocation::UserDirectory
    } else {
        ConfigLocation::Unknown
    }
}

#[verifier::when_used_as_spec(spec_config_location)]
pub fn config_location(local_exists: bool, user_dir_known: bool) -> (location: ConfigLocation)
    ensures
        location == spec_config_location(local_exists, user_dir_known),
{
    if local_exists {
        ConfigLocation::WorkingDirectory
    } else if user_dir_known {
        ConfigLocation::UserDirectory
    } else {
        ConfigLocation::Unknown
    }
}

/// Whether one of the entries has the key.
pub open spec fn has_key(entries: Seq<(String, ServerConfig)>, key: Seq<char>) -> bool {
    exists|i: int| 0 <= i < entries.len() && (#[trigger] entries[i]).0@ == key
}

/// The place of an entry that has the key.
pub open spec fn key_index(entries: Seq<(String, ServerConfig)>, key: Seq<char>) -> int {
    choose|i: int| 0 <= i < entries.len() && (#[trigger] entries[i]).0@ == key
}

/// Whether no two entries have the same key.
pub open spec fn keys_distinct(entries: Seq<(String, ServerConfig)>) -> bool {
    forall|i: int, j: int|
        0 <= i < j < entries.len() ==> (#[trigger] entries[i]).0@ != (#[trigger] entries[j]).0@
}

/// The map from keys to servers that the entries stand for.
pub open spec fn as_map(entries: Seq<(String, ServerConfig)>) -> Map<Seq<char>, ServerConfig> {
    Map::new(
        |key: Seq<char>| has_key(entries, key),
        |key: Seq<char>| entries[key_index(entries, key)].1,
    )
}

proof fn lemma_key_index(entries: Seq<(String, ServerConfig)>, key: Seq<char>, i: int)
    requires
        keys_distinct(entries),
        0 <= i < entries.len(),
        entries[i].0@ == key,
    ensures
        has_key(entries, key),
        key_index(entries, key) == i,
        as_map(entries).contains_key(key),
        as_map(entries)[key] == entries[i].1,
{
    let j = key_index(entries, key);
    assert(0 <= j < entries.len() && entries[j].0@ == key);
    if j < i {
        assert(entries[j].0@ != entries[i].0@);
    }
    if i < j {
        assert(entries[i].0@ != entries[j].0@);
    }
}

/// Putting a server under a key, in the place of the entry that has the
/// key or behind all entries where none has it, leaves the keys distinct
/// and gives the map with the server under the key.
proof fn lemma_put(
    before: Seq<(String, ServerConfig)>,
    after: Seq<(String, ServerConfig)>,
    key: Seq<char>,
    server: ServerConfig,
    place: int,
)
    requires
        keys_distinct(before),
        0 <= place <= before.len(),
        place < before.len() ==> before[place].0@ == key && after.len() == before.len(),
        place == before.len() ==> !has_key(before, key) && after.len() == before.len() + 1,
        after[place].0@ == key,
        after[place].1 == server,
        forall|j: int| 0 <= j < before.len() && j != place ==> #[trigger] after[j] == before[j],
    ensures
        keys_distinct(after),
        as_map(after) =~= as_map(before).insert(key, server),
        as_map(before).contains_key(key) == (place < before.len()),
{
    assert(keys_distinct(after)) by {
        assert forall|a: int, b: int| 0 <= a < b < after.len() implies (#[trigger] after[a]).0@
            != (#[trigger] after[b]).0@ by {
            if a != place && a < before.len() {
                assert(after[a] == before[a]);
            }
            if b != place && b < before.len() {
                assert(after[b] == before[b]);
            }
            if a < before.len() && b < before.len() {
                assert(before[a].0@ != before[b].0@);
            }
        }
    }
    assert forall|k: Seq<char>| has_key(after, k) == (has_key(before, k) || k == key) by {
        if has_key(before, k) {
            let j = key_index(before, k);
            if j != place {
                assert(after[j] == before[j]);
            }
            assert(after[j].0@ == k);
        }
        if has_key(after, k) && k != key {
            let j = key_index(after, k);
            assert(after[j] == before[j]);
        }
        if k == key {
            assert(after[place].0@ == k);
        }
    }
    assert forall|k: Seq<char>| has_key(after, k) implies as_map(after)[k] == as_map(
        before,
    ).insert(key, server)[k] by {
        let j = key_index(after, k);
        lemma_key_index(after, k, j);
        if k != key {
            assert(after[j] == before[j]);
            lemma_key_index(before, k, j);
        } else {
            lemma_key_index(after, k, place);
        }
    }
    if place < before.len() {
        assert(has_key(before, key));
    }
}

/// Entries without a repeated key stand for a map of as many keys.
pub proof fn lemma_keys_counted(entries: Seq<(String, ServerConfig)>)
    requires
        keys_distinct(entries),
    ensures
        as_map(entries).dom().finite(),
        as_map(entries).dom().len() == entries.len(),
    decreases entries.len(),
{
    if entries.len() == 0 {
        assert(as_map(entries).dom() =~= Set::<Seq<char>>::empty());
    } else {
        let before = entries.drop_last();
        let key = entries.last().0@;
        assert(keys_distinct(before)) by {
            assert forall|i: int, j: int| 0 <= i < j < before.len() implies (
            #[trigger] before[i]).0@ != (#[trigger] before[j]).0@ by {
                assert(before[i] == entries[i]);
                assert(before[j] == entries[j]);
            }
        }
        lemma_keys_counted(before);
        assert(!has_key(before, key)) by {
            if has_key(before, key) {
                let i = key_index(before, key);
                assert(before[i] == entries[i]);
                assert(entries[i].0@ != entries[entries.len() - 1].0@);
            }
        }
        assert(as_map(entries).dom() =~= as_map(before).dom().insert(key)) by {
            assert forall|k: Seq<char>| has_key(entries, k) == (has_key(before, k) || k
                == key) by {
                if has_key(before, k) {
                    let i = key_index(before, k);
                    assert(entries[i] == before[i]);
                }
                if has_key(entries, k) {
                    let i = key_index(entries, k);
                    if i < before.len() {
                        assert(before[i] == entries[i]);
                    }
                }
                if k == key {
                    assert(entries[entries.len() - 1].0@ == k);
                }
            }
        }
    }
}

/// The servers of a configuration, each under its key, and the defaults.
/// No key occurs twice.
#[derive(Debug)]
pub struct Config {
    servers: Vec<(String, ServerConfig)>,
    default: Option<DefaultConfig>,
}

impl View for Config {
    type V = Map<Seq<char>, ServerConfig>;

    /// The servers by their keys.
    closed spec fn view(&self) -> Map<Seq<char>, ServerConfig> {
        as_map(self.servers@)
    }
}

impl Config {
    #[verifier::type_invariant]
    spec fn well_formed(self) -> bool {
        keys_distinct(self.servers@)
    }

    /// The key of the default server, where one is named.
    pub closed spec fn default_key(&self) -> Option<Seq<char>> {
        match self.default {
            Some(DefaultConfig { server: Some(key) }) => Some(key@),
            _ => None,
        }
    }

    /// The number of servers.
    pub closed spec fn count(&self) -> nat {
        self.servers@.len()
    }

    /// The server under a key, if there is one.
    pub open spec fn lookup(&self, key: Seq<char>) -> Option<ServerConfig> {
        if self@.contains_key(key) {
            Some(self@[key])
        } else {
            None
        }
    }

    /// A configuration without servers and without defaults.
    pub fn new() -> (config: Config)
        ensures
            config@ == Map::<Seq<char>, ServerConfig>::empty(),
            config.default_key() is None,
            config.count() == 0,
    {
        let config = Config { servers: Vec::new(), default: None };
        assert(config@ =~= Map::<Seq<char>, ServerConfig>::empty());
        config
    }

    fn find(&self, key: &str) -> (place: Option<usize>)
        ensures
            match place {
                Some(i) => i < self.servers@.len() && self.servers@[i as int].0@ == key@,
                None => !has_key(self.servers@, key@),
            },
    {
        let n: usize = self.servers.len();
        let mut i: usize = 0;
        while i < n
            invariant
                n == self.servers@.len(),
                i <= n,
                forall|j: int| 0 <= j < i ==> (#[trigger] self.servers@[j]).0@ != key@,
            decreases n - i,
        {
            if same_text(self.servers[i].0.as_str(), key) {
                return Some(i);
            }
            i += 1;
        }
        None
    }

    /// Puts a server under a key. A server that stood under the key before
    /// is replaced.
    pub fn insert(&mut self, key: String, server: ServerConfig)
        ensures
            final(self)@ == old(self)@.insert(key@, server),
            final(self).default_key() == old(self).default_key(),
            final(self).count() == if old(self)@.contains_key(key@) {
                old(self).count()
            } else {
                old(self).count() + 1
            },
    {
        proof {
            use_type_invariant(&*self);
        }
        let ghost before = self.servers@;
        let ghost key_view = key@;
        match self.find(key.as_str()) {
            Some(i) => {
                proof {
                    lemma_key_index(before, key_view, i as int);
                }
                let mut servers: Vec<(String, ServerConfig)> = Vec::new();
                std::mem::swap(&mut servers, &mut self.servers);
                servers[i] = (key, server);
                proof {
                    lemma_put(before, servers@, key_view, server, i as int);
                }
                self.servers = servers;
            },
            None => {
                let mut servers: Vec<(String, ServerConfig)> = Vec::new();
                std::mem::swap(&mut servers, &mut self.servers);
                servers.push((key, server));
                proof {
                    lemma_put(before, servers@, key_view, server, before.len() as int);
                }
                self.servers = servers;
            },
        }
    }

    /// Names the defaults of the configuration.
    pub fn set_default(&mut self, default: Option<DefaultConfig>)
        ensures
            final(self)@ == old(self)@,
            final(self).count() == old(self).count(),
            final(self).default_key() == match default {
                Some(DefaultConfig { server: Some(key) }) => Some(key@),
                _ => None,
            },
    {
        proof {
            use_type_invariant(&*self);
        }
        self.default = default;
    }

    /// The defaults of the configuration.
    pub fn default_config(&self) -> (default: &Option<DefaultConfig>)
        ensures
            self.default_key() == match *default {
                Some(DefaultConfig { server: Some(key) }) => Some(key@),
                _ => None,
            },
    {
        &self.default
    }

    /// The number of servers.
    pub fn len(&self) -> (count: usize)
        ensures
            count == self.count(),
            self@.dom().finite(),
            count == self@.dom().len(),
    {
        proof {
            use_type_invariant(self);
            lemma_keys_counted(self.servers@);
        }
        self.servers.len()
    }

    /// The server under a key, if there is one.
    pub fn get_server(&self, name: &str) -> (server: Option<&ServerConfig>)
        ensures
            match server {
                Some(found) => self.lookup(name@) == Some(*found),
                None => self.lookup(name@) is None,
            },
    {
        proof {
            use_type_invariant(self);
        }
        match self.find(name) {
            Some(i) => {
                proof {
                    lemma_key_index(self.servers@, name@, i as int);
                }
                Some(&self.servers[i].1)
            },
            None => None,
        }
    }

    /// The default server: the one under the key that the defaults name, if
    /// they name one and a server stands under it.
    pub fn get_default_server(&self) -> (server: Option<&ServerConfig>)
        ensures
            match server {
                Some(found) => self.default_key() is Some && self.lookup(self.default_key()->0)
                    == Some(*found),
                None => self.default_key() is None || self.lookup(self.default_key()->0) is None,
            },
    {
        match &self.default {
            Some(default) => match &default.server {
                Some(key) => self.get_server(key.as_str()),
                None => None,
            },
            None => None,
        }
    }

    /// All servers with their keys: each key once, with the server that
    /// stands under it.
    pub fn list_servers(&self) -> (list: Vec<(&String, &ServerConfig)>)
        ensures
            list@.len() == self.count(),
            forall|i: int|
                0 <= i < list@.len() ==> self.lookup((#[trigger] list@[i]).0@) == Some(
                    *list@[i].1,
                ),
            forall|i: int, j: int|
                0 <= i < j < list@.len() ==> (#[trigger] list@[i]).0@ != (#[trigger] list@[j]).0@,
            forall|key: Seq<char>|
                self@.contains_key(key) ==> exists|i: int|
                    0 <= i < list@.len() && (#[trigger] list@[i]).0@ == key,
    {
        proof {
            use_type_invariant(self);
        }
        let n: usize = self.servers.len();
        let mut list: Vec<(&String, &ServerConfig)> = Vec::new();
        let mut i: usize = 0;
        while i < n
            invariant
                n == self.servers@.len(),
                i <= n,
                list@.len() == i,
                forall|k: int|
                    0 <= k < i ==> *(#[trigger] list@[k]).0 == self.servers@[k].0 && *list@[k].1
                        == self.servers@[k].1,
            decreases n - i,
        {
            list.push((&self.servers[i].0, &self.servers[i].1));
            i += 1;
        }
        proof {
            assert forall|k: int| 0 <= k < list@.len() implies self.lookup(
                (#[trigger] list@[k]).0@,
            ) == Some(*list@[k].1) by {
                lemma_key_index(self.servers@, self.servers@[k].0@, k);
            }
            assert forall|a: int, b: int| 0 <= a < b < list@.len() implies (#[trigger] list@[a]).0@
                != (#[trigger] list@[b]).0@ by {
                assert(self.servers@[a].0@ != self.servers@[b].0@);
            }
            assert forall|key: Seq<char>| self@.contains_key(key) implies exists|k: int|
                0 <= k < list@.len() && (#[trigger] list@[k]).0@ == key by {
                let j = key_index(self.servers@, key);
                assert(list@[j].0@ == key);
            }
        }
        list
    }
}

} // verus!
