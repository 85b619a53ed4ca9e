use quartz_messenger::error::ClientError;
use quartz_messenger::keystore::{ensure_layout, get_default_key, ConfigDir, Layout};

#[test]
fn stored_key_is_the_default_key() {
    let key = get_default_key(Some("s3cr3t".to_string())).expect("a key");
    assert_eq!(key.expose(), "s3cr3t");
}

#[test]
fn missing_key_is_refused() {
    assert!(matches!(get_default_key(None), Err(ClientError::MissingKey)));
}

#[test]
fn empty_key_is_refused() {
    assert!(matches!(get_default_key(Some(String::new())), Err(ClientError::MissingKey)));
}

#[test]
fn fresh_home_needs_every_directory() {
    let layout = Layout { root: false, namespace: false, keys: false, servers: false };
    assert_eq!(
        ensure_layout(layout),
        vec![ConfigDir::Root, ConfigDir::Namespace, ConfigDir::Keys, ConfigDir::Servers]
    );
}

#[test]
fn complete_layout_needs_nothing() {
    let layout = Layout { root: true, namespace: true, keys: true, servers: true };
    assert_eq!(ensure_layout(layout), Vec::<ConfigDir>::new());
}

#[test]
fn only_the_missing_directories_are_created() {
    let layout = Layout { root: true, namespace: true, keys: true, servers: false };
    assert_eq!(ensure_layout(layout), vec![ConfigDir::Servers]);
    let layout = Layout { root: true, namespace: false, keys: false, servers: false };
    assert_eq!(ensure_layout(layout), vec![ConfigDir::Namespace, ConfigDir::Keys, ConfigDir::Servers]);
    let layout = Layout { root: true, namespace: true, keys: false, servers: true };
    assert_eq!(ensure_layout(layout), vec![ConfigDir::Keys]);
}

#[test]
fn ensuring_twice_creates_nothing_more() {
    for bits in 0u8..16 {
        let mut layout = Layout {
            root: bits & 1 != 0,
            namespace: bits & 2 != 0,
            keys: bits & 4 != 0,
            servers: bits & 8 != 0,
        };
        for dir in ensure_layout(layout) {
            match dir {
                ConfigDir::Root => layout.root = true,
                ConfigDir::Namespace => layout.namespace = true,
                ConfigDir::Keys => layout.keys = true,
                ConfigDir::Servers => layout.servers = true,
            }
        }
        assert!(ensure_layout(layout).is_empty());
    }
}

#[test]
fn directories_lie_below_the_configuration_root() {
    assert_eq!(ConfigDir::Root.segments(), vec![".config"]);
    assert_eq!(ConfigDir::Namespace.segments(), vec![".config", "libquartz"]);
    assert_eq!(ConfigDir::Keys.segments(), vec![".config", "libquartz", "keys"]);
    assert_eq!(ConfigDir::Servers.segments(), vec![".config", "libquartz", "servers"]);
}
