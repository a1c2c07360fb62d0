use viola::config::owned::{
    ConfigArena, ConfigBytes, PluginEntryOwned, ViolaConfigOwned, ARENA_BYTES, ARENA_MAX_ENTRIES,
    CONFIG_MAX_BYTES, MAX_GATES, MAX_PARTIAL_RULES, MAX_PLUGINS, MAX_RULES,
};
use viola::config::schema::ViolaConfig;

type Cfg = ViolaConfigOwned<MAX_PLUGINS, MAX_GATES, MAX_RULES, MAX_PARTIAL_RULES, ARENA_BYTES>;

#[test]
fn arena_intern_then_resolve_round_trips() {
    let mut a: ConfigArena<64> = ConfigArena::new();
    let x = a.arena_intern("plugins/a.dylib");
    let y = a.arena_intern("é");
    assert_eq!(x, 1);
    assert_eq!(y, 2);
    assert_eq!(a.arena_resolve(x), "plugins/a.dylib");
    assert_eq!(a.arena_resolve(y), "é");
    assert_eq!(a.arena_resolve(0), "");
    assert_eq!(a.arena_resolve(3), "");
}

#[test]
fn arena_fails_closed_on_bytes() {
    let mut a: ConfigArena<8> = ConfigArena::new();
    assert_eq!(a.arena_intern("12345"), 1);
    assert_eq!(a.arena_intern("6789"), 0);
    // A smaller string still fits afterwards: the failure changed nothing.
    assert_eq!(a.arena_intern("678"), 2);
    assert_eq!(a.arena_resolve(1), "12345");
    assert_eq!(a.arena_resolve(2), "678");
}

#[test]
fn arena_fails_closed_on_entries() {
    let mut a: ConfigArena<1024> = ConfigArena::new();
    for _ in 0..ARENA_MAX_ENTRIES {
        assert_ne!(a.arena_intern(""), 0);
    }
    assert_eq!(a.arena_intern(""), 0);
}

#[test]
fn populate_interns_utf8_paths_and_skips_others() {
    let bad: &[u8] = &[0xff, 0xfe];
    let mut borrowed = ViolaConfig::<MAX_PLUGINS>::empty();
    borrowed.plugins.push(b"./a.dylib");
    borrowed.plugins.push(bad);
    borrowed.plugins.push(b"jsr:@x/y");
    let mut owned = Cfg::new();
    owned.populate_from_borrowed(&borrowed);
    assert_eq!(owned.plugins_len(), 3);
    assert_eq!(owned.plugin_path(0), Some("./a.dylib"));
    assert_eq!(owned.plugin_path(1), Some(""));
    assert_eq!(owned.plugin_at(1), Some(&PluginEntryOwned { name: 0, path: 0 }));
    assert_eq!(owned.plugin_path(2), Some("jsr:@x/y"));
    assert_eq!(owned.plugin_at(2), Some(&PluginEntryOwned { name: 0, path: 2 }));
    assert_eq!(owned.plugin_path(3), None);
    assert_eq!(owned.plugin_at(3), None);
}

#[test]
fn populate_walks_at_most_the_capacity() {
    let mut borrowed = ViolaConfig::<2>::empty();
    borrowed.plugins.push(b"a");
    borrowed.plugins.push(b"b");
    borrowed.plugins.push(b"c");
    let mut owned: ViolaConfigOwned<2, 1, 1, 1, 16> = ViolaConfigOwned::new();
    owned.populate_from_borrowed(&borrowed);
    assert_eq!(owned.plugins_len(), 2);
    assert_eq!(owned.plugin_path(1), Some("b"));
    assert_eq!(owned.plugin_path(2), None);
}

#[test]
fn fresh_owned_config_is_empty() {
    let owned = Cfg::new();
    assert_eq!(owned.plugins_len(), 0);
    assert_eq!(owned.plugin_path(0), None);
}

#[test]
fn config_bytes_cap() {
    assert!(ConfigBytes::new(vec![0u8; CONFIG_MAX_BYTES]).is_some());
    assert!(ConfigBytes::new(vec![0u8; CONFIG_MAX_BYTES + 1]).is_none());
    assert_eq!(ConfigBytes::new(b"x = 1".to_vec()).unwrap().len(), 5);
}
