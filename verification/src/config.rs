//! The configuration: contexts, clusters and users gathered from the context files, the
//! general settings, and the client configuration that a context stands for.
use crate::error::ConfigError;
use crate::kafka::{
    client_log_level, client_params, new_client_config, set_client_log_level, set_client_param,
    KafkaLogLevel,
};
use crate::string_map::{
    lemma_map_of_take_succ, map_of, pairs_of, replaced_names, StringMap,
};
use crate::text::{contains, occurs_in, starts_with};
use rdkafka::config::ClientConfig;
use vstd::prelude::*;
use vstd::string::*;

verus! {

/// A context names the cluster to connect to and the user to connect as.
#[derive(Debug)]
pub struct Context {
    pub name: String,
    pub cluster: String,
    pub user: String,
}

impl Clone for Context {
    fn clone(&self) -> (copy: Self)
        ensures
            copy == *self,
    {
        Context { name: self.name.clone(), cluster: self.cluster.clone(), user: self.user.clone() }
    }
}

/// A cluster and its settings, by setting name.
#[derive(Debug, Clone)]
pub struct Cluster {
    pub name: String,
    pub data: StringMap<String>,
}

/// A user and its settings, by setting name.
#[derive(Debug, Clone)]
pub struct User {
    pub name: String,
    pub data: StringMap<String>,
}

/// What one context file holds.
#[derive(Debug, Clone)]
pub struct ContextFile {
    pub contexts: Vec<Context>,
    pub clusters: Vec<Cluster>,
    pub users: Vec<User>,
}

/// The general settings.
#[derive(Debug)]
pub struct Config {
    /// In milliseconds.
    pub refresh_rate: i32,
    pub current_context: Option<String>,
}

impl Clone for Config {
    fn clone(&self) -> (copy: Self)
        ensures
            copy == *self,
    {
        let current_context = match &self.current_context {
            Some(name) => Some(name.clone()),
            None => None,
        };
        Config { refresh_rate: self.refresh_rate, current_context }
    }
}

impl Default for Config {
    fn default() -> (conf: Self)
        ensures
            conf.refresh_rate == 2000,
            conf.current_context is None,
    {
        Config { refresh_rate: 2000, current_context: None }
    }
}

/// Everything that the configuration holds: contexts, clusters and users by name, and the
/// general settings.
#[derive(Debug, Clone)]
pub struct ConfigManager {
    pub contexts: StringMap<Context>,
    pub clusters: StringMap<Cluster>,
    pub users: StringMap<User>,
    pub conf: Config,
}

/// The names that were already present when the entries of a context file were added.
#[derive(Debug)]
pub struct Duplicates {
    pub clusters: Vec<String>,
    pub contexts: Vec<String>,
    pub users: Vec<String>,
}

/// An entry of a context file, known by its name.
pub trait Named: Sized {
    spec fn spec_name(&self) -> Seq<char>;

    fn name_key(&self) -> (key: String)
        ensures
            key@ == self.spec_name(),
    ;
}

impl Named for Context {
    open spec fn spec_name(&self) -> Seq<char> {
        self.name@
    }

    fn name_key(&self) -> (key: String) {
        self.name.clone()
    }
}

impl Named for Cluster {
    open spec fn spec_name(&self) -> Seq<char> {
        self.name@
    }

    fn name_key(&self) -> (key: String) {
        self.name.clone()
    }
}

impl Named for User {
    open spec fn spec_name(&self) -> Seq<char> {
        self.name@
    }

    fn name_key(&self) -> (key: String) {
        self.name.clone()
    }
}

/// Each entry paired with its name.
pub open spec fn by_name<T: Named>(items: Seq<T>) -> Seq<(Seq<char>, T)> {
    items.map_values(|t: T| (t.spec_name(), t))
}

fn keyed<T: Named>(items: Vec<T>) -> (pairs: Vec<(String, T)>)
    ensures
        pairs_of(pairs@) == by_name(items@),
{
    let ghost all = items@;
    let mut pairs: Vec<(String, T)> = Vec::new();
    for item in it: items.into_iter()
        invariant
            all == it.seq(),
            pairs@.len() == it.index(),
            it.index() <= all.len(),
            pairs_of(pairs@) == by_name(all.take(it.index())),
    {
        let ghost done: int = pairs@.len() as int;
        let ghost before = pairs@;
        assert(item == all[done]);
        let key = item.name_key();
        pairs.push((key, item));
        assert(pairs_of(pairs@) =~= pairs_of(before).push((all[done].spec_name(), all[done])));
        assert(by_name(all.take(done + 1)) =~= by_name(all.take(done)).push(
            (all[done].spec_name(), all[done]),
        ));
        assert(pairs_of(pairs@) =~= by_name(all.take(done + 1)));
    }
    assert(all.take(all.len() as int) =~= all);
    pairs
}

/// Every key of `entries` is the name of the entry under it.
pub open spec fn keyed_by_name<T: Named>(entries: Map<Seq<char>, T>) -> bool {
    forall|k: Seq<char>| #[trigger] entries.contains_key(k) ==> entries[k].spec_name() == k
}

/// Entries inserted under their own names are keyed by name.
pub proof fn lemma_by_name_keyed<T: Named>(items: Seq<T>)
    ensures
        keyed_by_name(map_of(by_name(items))),
    decreases items.len(),
{
    if items.len() > 0 {
        assert(by_name(items).drop_last() =~= by_name(items.drop_last()));
        lemma_by_name_keyed(items.drop_last());
    }
}

/// Adding entries keyed by name to a map keyed by name gives a map keyed by name.
pub proof fn lemma_union_keyed<T: Named>(start: Map<Seq<char>, T>, items: Seq<T>)
    requires
        keyed_by_name(start),
    ensures
        keyed_by_name(start.union_prefer_right(map_of(by_name(items)))),
{
    lemma_by_name_keyed(items);
}

/// The leading part of the names of the settings that go to the Kafka client.
pub open spec fn kafka_prefix() -> Seq<char> {
    seq!['k', 'a', 'f', 'k', 'a', '.']
}

/// The Kafka client parameters among `settings`: each setting whose name is `kafka.`
/// followed by a parameter name gives that parameter its value.
pub open spec fn kafka_params_of(settings: Map<Seq<char>, String>) -> Map<Seq<char>, Seq<char>> {
    Map::new(
        |k: Seq<char>| settings.contains_key(kafka_prefix() + k),
        |k: Seq<char>| settings[kafka_prefix() + k]@,
    )
}

/// The Kafka client parameters of a cluster and a user; where both set a parameter, the
/// user's value counts.
pub open spec fn kafka_params_for(cluster: Cluster, user: User) -> Map<Seq<char>, Seq<char>> {
    kafka_params_of(cluster.data@).union_prefer_right(kafka_params_of(user.data@))
}

/// Adding one setting adds at most one parameter.
proof fn lemma_kafka_params_insert(settings: Map<Seq<char>, String>, name: Seq<char>, value: String)
    ensures
        kafka_prefix().len() <= name.len() && name.subrange(0, kafka_prefix().len() as int)
            == kafka_prefix() ==> kafka_params_of(settings.insert(name, value)) == kafka_params_of(
            settings,
        ).insert(name.subrange(kafka_prefix().len() as int, name.len() as int), value@),
        !(kafka_prefix().len() <= name.len() && name.subrange(0, kafka_prefix().len() as int)
            == kafka_prefix()) ==> kafka_params_of(settings.insert(name, value)) == kafka_params_of(
            settings,
        ),
{
    let p = kafka_prefix();
    let before = kafka_params_of(settings);
    let after = kafka_params_of(settings.insert(name, value));
    assert forall|k: Seq<char>| (p + k).subrange(0, p.len() as int) == p by {
        assert((p + k).subrange(0, p.len() as int) =~= p);
    }
    if p.len() <= name.len() && name.subrange(0, p.len() as int) == p {
        let rest = name.subrange(p.len() as int, name.len() as int);
        assert(p + rest =~= name);
        assert forall|k: Seq<char>| p + k == name implies k == rest by {
            assert(k =~= (p + k).subrange(p.len() as int, (p + k).len() as int));
        }
        assert(after =~= before.insert(rest, value@));
    } else {
        assert(after =~= before);
    }
}

/// Sets on `config` the Kafka client parameters among `settings`.
fn apply_kafka_params(config: &mut ClientConfig, settings: &StringMap<String>)
    ensures
        client_params(*final(config)) == client_params(*old(config)).union_prefer_right(
            kafka_params_of(settings@),
        ),
        client_log_level(*final(config)) == client_log_level(*old(config)),
{
    let ghost start = client_params(*config);
    let ghost pairs = settings.pairs();
    proof {
        reveal_strlit("kafka.");
        assert("kafka."@ =~= kafka_prefix());
        assert(map_of(pairs.take(0)) =~= Map::<Seq<char>, String>::empty());
        assert(kafka_params_of(Map::<Seq<char>, String>::empty()) =~= Map::<
            Seq<char>,
            Seq<char>,
        >::empty());
        assert(start.union_prefer_right(Map::<Seq<char>, Seq<char>>::empty()) =~= start);
    }
    let n = settings.len();
    for i in 0..n
        invariant
            n == pairs.len(),
            pairs == settings.pairs(),
            "kafka."@ == kafka_prefix(),
            client_params(*config) == start.union_prefer_right(
                kafka_params_of(map_of(pairs.take(i as int))),
            ),
            client_log_level(*config) == client_log_level(*old(config)),
    {
        proof {
            lemma_map_of_take_succ(pairs, i as int);
            lemma_kafka_params_insert(map_of(pairs.take(i as int)), pairs[i as int].0, pairs[i as int].1);
        }
        let key = settings.key_at(i);
        if starts_with(key.as_str(), "kafka.") {
            let len = key.as_str().unicode_len();
            let param = key.as_str().substring_char(6, len);
            set_client_param(config, param, settings.value_at(i).as_str());
        }
        assert(client_params(*config) =~= start.union_prefer_right(
            kafka_params_of(map_of(pairs.take(i + 1))),
        ));
    }
    assert(pairs.take(n as int) =~= pairs);
}

/// Making a context the current one and then asking for the current context gives that
/// context.
pub proof fn lemma_current_context_after_set(manager: ConfigManager, name: String, context: Context)
    requires
        manager.contexts@.contains_key(name@),
    ensures
        manager.with_current_context(name).has_current_context(),
        manager.with_current_context(name).is_current_context(context) ==> context
            == manager.contexts@[name@],
{
}

/// With no context named, the current context is the first one added; with one named, it
/// is that one.
pub proof fn lemma_current_context_choice(manager: ConfigManager, context: Context)
    requires
        manager.has_current_context(),
        manager.is_current_context(context),
    ensures
        manager.conf.current_context matches Some(name) ==> context == manager.contexts@[name@],
        manager.conf.current_context is None ==> manager.contexts.pairs().len() > 0 && context
            == manager.contexts.pairs()[0].1,
{
}

/// The errors for a context whose cluster or user is missing.
pub proof fn lemma_missing_messages()
    ensures
        missing_cluster_message() == "Cluster specified in Context doesn't exist"@,
        missing_user_message() == "User specified in Context doesn't exist"@,
{
}

/// The current context is determined: two contexts that both are the current one are the
/// same, so asking twice on an unchanged configuration gives the same context.
pub proof fn lemma_current_context_determined(manager: ConfigManager, a: Context, b: Context)
    requires
        manager.is_current_context(a),
        manager.is_current_context(b),
    ensures
        a == b,
{
}

/// Among the Kafka client parameters of a context, a parameter that the user sets has the
/// user's value, and one that only the cluster sets has the cluster's value; only settings
/// named `kafka.` and the parameter give a parameter.
pub proof fn lemma_kafka_params_sources(cluster: Cluster, user: User, param: Seq<char>)
    ensures
        ({
            let name = seq!['k', 'a', 'f', 'k', 'a', '.'] + param;
            &&& kafka_params_for(cluster, user).contains_key(param) <==> (cluster.data@.contains_key(
                name,
            ) || user.data@.contains_key(name))
            &&& user.data@.contains_key(name) ==> kafka_params_for(cluster, user)[param]
                == user.data@[name]@
            &&& !user.data@.contains_key(name) && cluster.data@.contains_key(name)
                ==> kafka_params_for(cluster, user)[param] == cluster.data@[name]@
        }),
{
    assert(kafka_prefix() =~= seq!['k', 'a', 'f', 'k', 'a', '.']);
}

/// The text of the error for a context whose cluster is missing.
pub open spec fn missing_cluster_message() -> Seq<char> {
    "Cluster specified in Context doesn't exist"@
}

/// The text of the error for a context whose user is missing.
pub open spec fn missing_user_message() -> Seq<char> {
    "User specified in Context doesn't exist"@
}

/// Whether the file of this name holds contexts, clusters and users.
pub fn is_context_file_name(file_name: &str) -> (b: bool)
    ensures
        b == occurs_in(file_name@, "config_"@),
{
    contains(file_name, "config_")
}

impl ConfigManager {
    /// A configuration with the given settings and no context, cluster or user.
    pub fn new(conf: Config) -> (manager: Self)
        ensures
            manager.contexts@ == Map::<Seq<char>, Context>::empty(),
            manager.clusters@ == Map::<Seq<char>, Cluster>::empty(),
            manager.users@ == Map::<Seq<char>, User>::empty(),
            manager.conf == conf,
            manager.keyed_by_names(),
    {
        ConfigManager {
            contexts: StringMap::new(),
            clusters: StringMap::new(),
            users: StringMap::new(),
            conf,
        }
    }

    /// Adds the clusters, contexts and users of a context file; an entry replaces one of
    /// the same name. Returns the names that were replaced.
    pub fn add_context_file(&mut self, file: ContextFile) -> (replaced: Duplicates)
        ensures
            final(self).clusters@ == old(self).clusters@.union_prefer_right(
                map_of(by_name(file.clusters@)),
            ),
            final(self).contexts@ == old(self).contexts@.union_prefer_right(
                map_of(by_name(file.contexts@)),
            ),
            final(self).users@ == old(self).users@.union_prefer_right(
                map_of(by_name(file.users@)),
            ),
            final(self).conf == old(self).conf,
            old(self).keyed_by_names() ==> final(self).keyed_by_names(),
            replaced.clusters@.map_values(|n: String| n@) == replaced_names(
                old(self).clusters@,
                by_name(file.clusters@),
            ),
            replaced.contexts@.map_values(|n: String| n@) == replaced_names(
                old(self).contexts@,
                by_name(file.contexts@),
            ),
            replaced.users@.map_values(|n: String| n@) == replaced_names(
                old(self).users@,
                by_name(file.users@),
            ),
    {
        let ContextFile { contexts, clusters, users } = file;
        let ghost all_clusters = clusters@;
        let ghost all_contexts = contexts@;
        let clusters = self.clusters.insert_all(keyed(clusters));
        let contexts = self.contexts.insert_all(keyed(contexts));
        let ghost all_users = users@;
        let users = self.users.insert_all(keyed(users));
        proof {
            if old(self).keyed_by_names() {
                lemma_union_keyed(old(self).clusters@, all_clusters);
                lemma_union_keyed(old(self).contexts@, all_contexts);
                lemma_union_keyed(old(self).users@, all_users);
            }
        }
        Duplicates { clusters, contexts, users }
    }

    /// Every context, cluster and user is kept under its own name.
    pub open spec fn keyed_by_names(&self) -> bool {
        &&& keyed_by_name(self.contexts@)
        &&& keyed_by_name(self.clusters@)
        &&& keyed_by_name(self.users@)
    }

    /// There is a current context: the one the settings name, or any one when they name
    /// none.
    pub open spec fn has_current_context(&self) -> bool {
        match self.conf.current_context {
            Some(name) => self.contexts@.contains_key(name@),
            None => exists|name: Seq<char>| #[trigger] self.contexts@.contains_key(name),
        }
    }

    /// `context` is the current context: the one the settings name, or, when they name
    /// none, the first of the contexts in the order in which they were added.
    pub open spec fn is_current_context(&self, context: Context) -> bool {
        match self.conf.current_context {
            Some(name) => context == self.contexts@[name@],
            None => {
                &&& exists|name: Seq<char>|
                    #[trigger] self.contexts@.contains_key(name) && self.contexts@[name] == context
                &&& self.contexts.pairs().len() > 0
                &&& context == self.contexts.pairs()[0].1
            },
        }
    }

    /// The configuration with the context of this name made the current one.
    pub open spec fn with_current_context(self, name: String) -> ConfigManager {
        ConfigManager { conf: Config { current_context: Some(name), ..self.conf }, ..self }
    }

    /// The current context.
    pub fn get_current_context(&self) -> (context: Context)
        requires
            self.has_current_context(),
        ensures
            self.is_current_context(context),
    {
        let found = match &self.conf.current_context {
            Some(key) => self.contexts.get(key.as_str()),
            None => self.contexts.any_value(),
        };
        found.unwrap().clone()
    }

    /// Makes the context of this name the current one.
    pub fn set_current_context(&mut self, val: String)
        ensures
            *final(self) == old(self).with_current_context(val),
    {
        self.conf.current_context = Some(val);
    }

    /// The Kafka client configuration of the context of this name: the Kafka parameters of
    /// its cluster and of its user, with debug logging.
    pub fn context_to_kafka_config(&self, context_name: &str) -> (result: Result<
        ClientConfig,
        ConfigError,
    >)
        ensures
            !self.contexts@.contains_key(context_name@) ==> (result matches Err(
                ConfigError::ContextNotFound(name),
            ) && name@ == context_name@),
            self.contexts@.contains_key(context_name@) && !self.clusters@.contains_key(
                self.contexts@[context_name@].cluster@,
            ) ==> (result matches Err(ConfigError::Message(text)) && text@
                == missing_cluster_message()),
            self.contexts@.contains_key(context_name@) && self.clusters@.contains_key(
                self.contexts@[context_name@].cluster@,
            ) && !self.users@.contains_key(self.contexts@[context_name@].user@) ==> (result matches Err(
                ConfigError::Message(text),
            ) && text@ == missing_user_message()),
            self.contexts@.contains_key(context_name@) && self.clusters@.contains_key(
                self.contexts@[context_name@].cluster@,
            ) && self.users@.contains_key(self.contexts@[context_name@].user@) ==> (result matches Ok(
                config,
            ) && client_params(config) == kafka_params_for(
                self.clusters@[self.contexts@[context_name@].cluster@],
                self.users@[self.contexts@[context_name@].user@],
            ) && client_log_level(config) == KafkaLogLevel::Debug),
    {
        let context = match self.contexts.get(context_name) {
            Some(context) => context,
            None => {
                return Err(ConfigError::ContextNotFound(context_name.to_owned()));
            },
        };
        let cluster = match self.clusters.get(context.cluster.as_str()) {
            Some(cluster) => cluster,
            None => {
                return Err(
                    ConfigError::Message(
                        String::from_str("Cluster specified in Context doesn't exist"),
                    ),
                );
            },
        };
        let user = match self.users.get(context.user.as_str()) {
            Some(user) => user,
            None => {
                return Err(
                    ConfigError::Message(String::from_str("User specified in Context doesn't exist")),
                );
            },
        };
        let mut kafka_config = new_client_config();
        set_client_log_level(&mut kafka_config, KafkaLogLevel::Debug);
        proof {
            assert(client_params(kafka_config).union_prefer_right(kafka_params_of(cluster.data@))
                =~= kafka_params_of(cluster.data@));
        }
        apply_kafka_params(&mut kafka_config, &cluster.data);
        apply_kafka_params(&mut kafka_config, &user.data);
        Ok(kafka_config)
    }
}

} // verus!
