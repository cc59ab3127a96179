use kaf9s::config::{is_context_file_name, Cluster, Config, ConfigManager, Context, ContextFile, User};
use kaf9s::error::ConfigError;
use kaf9s::string_map::StringMap;

#[test]
fn it_works() {
    assert_eq!(2 + 2, 4);
}

fn text(s: &str) -> String {
    s.to_string()
}

fn settings(entries: &[(&str, &str)]) -> StringMap<String> {
    let mut m = StringMap::new();
    for (k, v) in entries {
        m.insert(text(k), text(v));
    }
    m
}

fn context(name: &str, cluster: &str, user: &str) -> Context {
    Context { name: text(name), cluster: text(cluster), user: text(user) }
}

fn sample_manager() -> ConfigManager {
    let mut cm = ConfigManager::new(Config::default());
    let file = ContextFile {
        contexts: vec![context("dev", "local", "alice"), context("broken", "nowhere", "alice"), context("nouser", "local", "bob")],
        clusters: vec![Cluster {
            name: text("local"),
            data: settings(&[
                ("kafka.bootstrap.servers", "localhost:9092"),
                ("kafka.security.protocol", "PLAINTEXT"),
                ("description", "a cluster on this machine"),
            ]),
        }],
        users: vec![User {
            name: text("alice"),
            data: settings(&[("kafka.security.protocol", "SASL_SSL"), ("kafka.sasl.username", "alice"), ("token", "secret")]),
        }],
    };
    let dups = cm.add_context_file(file);
    assert!(dups.clusters.is_empty() && dups.contexts.is_empty() && dups.users.is_empty());
    cm
}

#[test]
fn config_default_values() {
    let conf = Config::default();
    assert_eq!(conf.refresh_rate, 2000);
    assert_eq!(conf.current_context, None);
}

#[test]
fn new_manager_is_empty() {
    let cm = ConfigManager::new(Config { refresh_rate: 500, current_context: Some(text("x")) });
    assert_eq!(cm.contexts.len(), 0);
    assert_eq!(cm.clusters.len(), 0);
    assert_eq!(cm.users.len(), 0);
    assert_eq!(cm.conf.refresh_rate, 500);
}

#[test]
fn later_file_overrides_and_reports_duplicates() {
    let mut cm = sample_manager();
    let file = ContextFile {
        contexts: vec![context("dev", "other", "alice"), context("staging", "local", "alice")],
        clusters: vec![Cluster { name: text("local"), data: settings(&[("kafka.bootstrap.servers", "remote:9092")]) }],
        users: vec![],
    };
    let dups = cm.add_context_file(file);
    assert_eq!(dups.clusters, vec![text("local")]);
    assert_eq!(dups.contexts, vec![text("dev")]);
    assert!(dups.users.is_empty());
    assert_eq!(cm.contexts.get("dev").unwrap().cluster, "other");
    assert_eq!(cm.contexts.get("staging").unwrap().user, "alice");
    assert_eq!(cm.contexts.get("broken").unwrap().cluster, "nowhere");
    assert_eq!(cm.clusters.get("local").unwrap().data.get("kafka.bootstrap.servers").unwrap(), "remote:9092");
    assert_eq!(cm.contexts.len(), 4);
}

#[test]
fn duplicates_within_one_file() {
    let mut cm = ConfigManager::new(Config::default());
    let file = ContextFile {
        contexts: vec![context("a", "c1", "u1"), context("a", "c2", "u2")],
        clusters: vec![],
        users: vec![],
    };
    let dups = cm.add_context_file(file);
    assert_eq!(dups.contexts, vec![text("a")]);
    assert_eq!(cm.contexts.get("a").unwrap().cluster, "c2");
    assert_eq!(cm.contexts.len(), 1);
}

#[test]
fn current_context_by_name() {
    let mut cm = sample_manager();
    cm.set_current_context(text("nouser"));
    assert_eq!(cm.conf.current_context, Some(text("nouser")));
    let c = cm.get_current_context();
    assert_eq!(c.name, "nouser");
    assert_eq!(c.user, "bob");
}

#[test]
fn current_context_without_name_is_one_of_them() {
    let cm = sample_manager();
    let c = cm.get_current_context();
    assert!(["dev", "broken", "nouser"].contains(&c.name.as_str()));
    let stored = cm.contexts.get(&c.name).unwrap();
    assert_eq!(stored.cluster, c.cluster);
    assert_eq!(stored.user, c.user);
}

#[test]
fn kafka_config_merges_cluster_and_user() {
    let cm = sample_manager();
    let conf = cm.context_to_kafka_config("dev").unwrap();
    assert_eq!(conf.get("bootstrap.servers"), Some("localhost:9092"));
    assert_eq!(conf.get("security.protocol"), Some("SASL_SSL"));
    assert_eq!(conf.get("sasl.username"), Some("alice"));
    assert_eq!(conf.get("description"), None);
    assert_eq!(conf.get("token"), None);
    assert_eq!(conf.config_map().len(), 3);
    assert!(matches!(conf.log_level, rdkafka::config::RDKafkaLogLevel::Debug));
}

#[test]
fn kafka_config_unknown_context() {
    let cm = sample_manager();
    match cm.context_to_kafka_config("prod") {
        Err(ConfigError::ContextNotFound(name)) => assert_eq!(name, "prod"),
        _ => panic!("expected ContextNotFound"),
    }
}

#[test]
fn kafka_config_missing_cluster() {
    let cm = sample_manager();
    match cm.context_to_kafka_config("broken") {
        Err(ConfigError::Message(m)) => assert_eq!(m, "Cluster specified in Context doesn't exist"),
        _ => panic!("expected a message about the cluster"),
    }
}

#[test]
fn kafka_config_missing_user() {
    let cm = sample_manager();
    match cm.context_to_kafka_config("nouser") {
        Err(ConfigError::Message(m)) => assert_eq!(m, "User specified in Context doesn't exist"),
        _ => panic!("expected a message about the user"),
    }
}

#[test]
fn kafka_prefix_only_at_the_start() {
    let mut cm = ConfigManager::new(Config::default());
    let file = ContextFile {
        contexts: vec![context("c", "k", "u")],
        clusters: vec![Cluster {
            name: text("k"),
            data: settings(&[("x.kafka.acks", "all"), ("kafka.", "empty"), ("kafka.kafka.x", "nested"), ("Kafka.acks", "1")]),
        }],
        users: vec![User { name: text("u"), data: settings(&[]) }],
    };
    cm.add_context_file(file);
    let conf = cm.context_to_kafka_config("c").unwrap();
    assert_eq!(conf.get("acks"), None);
    assert_eq!(conf.get(""), Some("empty"));
    assert_eq!(conf.get("kafka.x"), Some("nested"));
    assert_eq!(conf.config_map().len(), 2);
}

#[test]
fn context_file_names() {
    assert!(is_context_file_name("config_prod.yaml"));
    assert!(is_context_file_name("my-config_x"));
    assert!(!is_context_file_name("config.yaml"));
    assert!(!is_context_file_name("config"));
    assert!(!is_context_file_name(""));
    assert!(is_context_file_name("config_"));
}

#[test]
fn error_messages() {
    assert_eq!(ConfigError::ContextNotFound(text("prod")).message(), "context `prod` could not be found");
    assert_eq!(ConfigError::Unknown.message(), "unknown config error");
    assert_eq!(ConfigError::InvalidKafkaSecurityProtocol.message(), "unsupported kafka.security.protocol option");
    assert_eq!(ConfigError::Message(text("bad")).message(), "config error: bad");
    assert_eq!(ConfigError::CustomError(text("io")).message(), "config error: io");
}

#[test]
fn string_map_read_after_write() {
    let mut m: StringMap<u32> = StringMap::new();
    assert_eq!(m.insert(text("a"), 1), None);
    assert_eq!(m.insert(text("b"), 2), None);
    assert_eq!(m.insert(text("a"), 3), Some(1));
    assert_eq!(m.get("a"), Some(&3));
    assert_eq!(m.get("b"), Some(&2));
    assert_eq!(m.get("c"), None);
    assert!(m.contains_key("b"));
    assert!(!m.contains_key("c"));
    assert_eq!(m.len(), 2);
    assert_eq!(m.key_at(0), "a");
    assert_eq!(*m.value_at(0), 3);
    assert_eq!(m.key_at(1), "b");
    assert_eq!(m.any_value(), Some(&3));
    let empty: StringMap<u32> = StringMap::new();
    assert_eq!(empty.any_value(), None);
}

#[test]
fn string_map_insert_all() {
    let mut m: StringMap<u32> = StringMap::new();
    m.insert(text("x"), 0);
    let replaced = m.insert_all(vec![(text("y"), 1), (text("x"), 2), (text("y"), 3)]);
    assert_eq!(replaced, vec![text("x"), text("y")]);
    assert_eq!(m.get("x"), Some(&2));
    assert_eq!(m.get("y"), Some(&3));
    assert_eq!(m.len(), 2);
}

#[test]
fn clones_keep_entries() {
    let cm = sample_manager();
    let copy = cm.clone();
    assert_eq!(copy.contexts.len(), 3);
    assert_eq!(copy.clusters.get("local").unwrap().data.get("kafka.bootstrap.servers").unwrap(), "localhost:9092");
    let mut m: StringMap<u32> = StringMap::new();
    m.insert(text("a"), 1);
    m.insert(text("b"), 2);
    let c = m.clone();
    assert_eq!(c.key_at(1), "b");
    assert_eq!(c.get("a"), Some(&1));
}

#[test]
fn entries_are_kept_under_their_names() {
    let cm = sample_manager();
    for i in 0..cm.contexts.len() {
        assert_eq!(cm.contexts.key_at(i), &cm.contexts.value_at(i).name);
    }
    for i in 0..cm.clusters.len() {
        assert_eq!(cm.clusters.key_at(i), &cm.clusters.value_at(i).name);
    }
    for i in 0..cm.users.len() {
        assert_eq!(cm.users.key_at(i), &cm.users.value_at(i).name);
    }
}

#[test]
fn current_context_without_name_is_the_first_added() {
    let cm = sample_manager();
    let a = cm.get_current_context();
    let b = cm.get_current_context();
    assert_eq!(a.name, "dev");
    assert_eq!(a.name, b.name);
    assert_eq!(a.cluster, b.cluster);
}
