use lion::lion_core::config::{Config, ConfigValue};

/// The integer that a value holds, where it is an integer.
fn integer(v: &ConfigValue) -> Option<i64> {
    match v {
        ConfigValue::Integer(i) => Some(*i),
        _ => None,
    }
}

#[test]
fn test_config_value_mutations() {
    // Test array mutations
    let mut array = ConfigValue::Array(vec![
        ConfigValue::Integer(1),
        ConfigValue::Integer(2),
        ConfigValue::Integer(3),
    ]);

    // Push
    assert!(array.push(ConfigValue::Integer(4)));
    assert_eq!(array.len(), Some(4));
    assert_eq!(integer(array.get_index(3).unwrap()), Some(4));

    // Remove
    let removed = array.remove_index(1).unwrap();
    assert_eq!(integer(&removed), Some(2));
    assert_eq!(array.len(), Some(3));
    assert_eq!(integer(array.get_index(1).unwrap()), Some(3));

    // Test map mutations
    let mut map = ConfigValue::Mapping(Vec::new());

    // Set
    assert!(map.set("a", ConfigValue::Integer(1)));
    assert!(map.set("b", ConfigValue::String("hello".to_string())));
    assert_eq!(map.len(), Some(2));

    // Get
    assert_eq!(integer(map.get("a").unwrap()), Some(1));
    assert_eq!(map.get("b").unwrap().as_str(), Some("hello"));

    // Get mut
    if let Some(value) = map.get_mut("a") {
        *value = ConfigValue::Integer(42);
    }
    assert_eq!(integer(map.get("a").unwrap()), Some(42));

    // Remove
    let removed = map.remove("a").unwrap();
    assert_eq!(integer(&removed), Some(42));
    assert_eq!(map.len(), Some(1));
    assert!(map.get("a").is_none());
}

#[test]
fn test_config_value_merge() {
    // Test merging maps
    let mut map1 = ConfigValue::Mapping(Vec::new());
    map1.set("a", 1.into());
    map1.set("b", 2.into());

    let mut map2 = ConfigValue::Mapping(Vec::new());
    map2.set("b", 3.into());
    map2.set("c", 4.into());

    map1.merge(map2);

    assert_eq!(integer(map1.get("a").unwrap()), Some(1));
    assert_eq!(integer(map1.get("b").unwrap()), Some(3)); // Overwritten
    assert_eq!(integer(map1.get("c").unwrap()), Some(4));

    // Test merging arrays
    let mut array1 = ConfigValue::Array(vec![ConfigValue::Integer(1), ConfigValue::Integer(2)]);

    let array2 = ConfigValue::Array(vec![ConfigValue::Integer(3), ConfigValue::Integer(4)]);

    array1.merge(array2);

    assert_eq!(array1.len(), Some(4));
    assert_eq!(integer(array1.get_index(0).unwrap()), Some(1));
    assert_eq!(integer(array1.get_index(1).unwrap()), Some(2));
    assert_eq!(integer(array1.get_index(2).unwrap()), Some(3));
    assert_eq!(integer(array1.get_index(3).unwrap()), Some(4));

    // Test replacing
    let mut value = ConfigValue::Integer(1);
    value.merge(ConfigValue::String("hello".to_string()));
    assert_eq!(value.as_str(), Some("hello"));
}

#[test]
fn test_config_paths() {
    let mut config = Config::new_map();

    // Set nested values
    config.set("a.b.c", 42.into()).unwrap();
    config.set("a.d", "hello".to_string().into()).unwrap();
    config.set("a.e[0]", 1.into()).unwrap();
    config.set("a.e[1]", 2.into()).unwrap();
    config.set("a.e[2]", 3.into()).unwrap();

    // Get values
    assert_eq!(integer(config.get("a.b.c").unwrap()), Some(42));
    assert_eq!(config.get("a.d").unwrap().as_str(), Some("hello"));
    assert_eq!(integer(config.get("a.e[0]").unwrap()), Some(1));
    assert_eq!(integer(config.get("a.e[1]").unwrap()), Some(2));
    assert_eq!(integer(config.get("a.e[2]").unwrap()), Some(3));

    // Get non-existent values
    assert!(config.get("a.x").is_none());
    assert!(config.get("a.e[10]").is_none());

    // Get as specific types
    assert_eq!(config.get("a.b.c").and_then(integer), Some(42));
    assert_eq!(
        config.get("a.d").and_then(|v| v.as_str()).map(String::from),
        Some("hello".to_string())
    );
    assert!(config.get("a.b.c").and_then(|v| v.as_bool()).is_none()); // Not a boolean

    // Check if paths exist
    assert!(config.contains("a.b.c"));
    assert!(!config.contains("a.x"));

    // Remove values
    let removed = config.remove("a.b.c").unwrap();
    assert_eq!(integer(&removed), Some(42));
    assert!(!config.contains("a.b.c"));

    // Test path parsing with different formats
    let mut config = Config::new_map();
    config.set("a.b.c", 1.into()).unwrap();

    let a_map = vec![("b".to_string(), ConfigValue::Integer(2))];
    let a_array = vec![
        ConfigValue::Mapping(a_map),
        ConfigValue::Array(vec![ConfigValue::Integer(3)]),
    ];
    config.set("a", ConfigValue::Array(a_array)).unwrap();

    assert!(config.get("a").is_some());
    assert!(config.get("a[0]").is_some());
    assert!(config.get("a[0].b").is_some());
    assert_eq!(integer(config.get("a[0].b").unwrap()), Some(2));
    assert!(config.get("a[1]").is_some());
    assert!(config.get("a[1][0]").is_some());
    assert_eq!(integer(config.get("a[1][0]").unwrap()), Some(3));
}

#[test]
fn test_config_merge() {
    let map1 = vec![
        ("key1".to_string(), ConfigValue::Integer(1)),
        ("key2".to_string(), ConfigValue::Integer(2)),
    ];
    let map2 = vec![
        ("key2".to_string(), ConfigValue::Integer(3)),
        ("key3".to_string(), ConfigValue::Integer(4)),
    ];

    let mut config1 = Config::from_value(ConfigValue::Mapping(map1));
    let config2 = Config::from_value(ConfigValue::Mapping(map2));

    config1.merge(config2);

    assert_eq!(integer(config1.root.get("key1").unwrap()), Some(1));
    assert_eq!(integer(config1.root.get("key2").unwrap()), Some(3));
    assert_eq!(integer(config1.root.get("key3").unwrap()), Some(4));
}

#[test]
fn set_then_get_and_remove() {
    let mut config = Config::new();
    // A null root becomes the containers the path asks for.
    config.set("servers[2].ports[1]", 8080.into()).unwrap();
    assert_eq!(integer(config.get("servers[2].ports[1]").unwrap()), Some(8080));
    assert_eq!(config.get("servers[0]"), Some(&ConfigValue::Mapping(Vec::new())));
    assert_eq!(config.get("servers[2].ports[0]"), Some(&ConfigValue::Null));
    assert_eq!(config.get("servers").unwrap().len(), Some(3));

    // A scalar on the way refuses the path and changes nothing.
    let before = config.get("servers").cloned();
    assert_eq!(
        config.set("servers[2].ports[1].tls", true.into()),
        Err("Failed to access map at key 'tls'".to_string())
    );
    assert_eq!(integer(config.get("servers[2].ports[1]").unwrap()), Some(8080));
    assert_eq!(config.get("servers").cloned(), before);
    config.set("servers[2].ports[1]", ConfigValue::Mapping(Vec::new())).unwrap();
    config.set("servers[2].ports[1].tls", true.into()).unwrap();
    assert_eq!(config.get("servers[2].ports[1].tls"), Some(&ConfigValue::Bool(true)));

    // A path with no steps is refused; the empty path is the root.
    assert_eq!(config.set(".", 1.into()), Err("Failed to set value".to_string()));
    assert!(config.remove(".").is_none());
    assert!(config.get("").unwrap().is_map());

    // A bracket that is not a number is skipped.
    assert_eq!(config.get("servers[x][2].ports[1].tls"), Some(&ConfigValue::Bool(true)));

    let removed = config.remove("servers[2].ports[1].tls").unwrap();
    assert_eq!(removed, ConfigValue::Bool(true));
    assert!(!config.contains("servers[2].ports[1].tls"));
    assert!(config.remove("servers[9]").is_none());

    let root = config.remove("").unwrap();
    assert!(root.is_map());
    assert_eq!(config.root, ConfigValue::Null);

    if let Some(v) = config.get_mut("") {
        *v = ConfigValue::Integer(5);
    }
    assert_eq!(config.root, ConfigValue::Integer(5));
}

#[test]
fn set_refuses_a_step_of_the_wrong_kind() {
    let mut config = Config::new_map();
    config.set("a", "x".to_string().into()).unwrap();
    assert_eq!(
        config.set("a[0]", 1.into()),
        Err("Failed to access array at index 0".to_string())
    );
    assert_eq!(config.get("a"), Some(&ConfigValue::String("x".to_string())));
    assert_eq!(
        config.set("a.b", 1.into()),
        Err("Failed to access map at key 'b'".to_string())
    );
    config.set("list[1]", 7.into()).unwrap();
    assert_eq!(
        config.set("list.k", 1.into()),
        Err("Failed to access map at key 'k'".to_string())
    );
    assert_eq!(
        config.set("list[1][12].x", 1.into()),
        Err("Failed to access array at index 12".to_string())
    );
    assert_eq!(integer(config.get("list[1]").unwrap()), Some(7));
    // A null on the way becomes the container its step needs.
    assert_eq!(config.get("list[0]"), Some(&ConfigValue::Null));
    config.set("list[0][2].x", 1.into()).unwrap();
    assert_eq!(integer(config.get("list[0][2].x").unwrap()), Some(1));
    assert_eq!(config.get("list[0][0]"), Some(&ConfigValue::Mapping(Vec::new())));
    assert_eq!(config.set("", 3.into()), Ok(()));
    assert_eq!(config.root, ConfigValue::Integer(3));
}

#[test]
fn remove_takes_every_entry_with_the_key() {
    let mut config = Config::from_value(ConfigValue::Mapping(vec![
        ("k".to_string(), ConfigValue::Integer(1)),
        ("j".to_string(), ConfigValue::Integer(5)),
        ("k".to_string(), ConfigValue::Integer(2)),
    ]));
    assert_eq!(config.remove("k"), Some(ConfigValue::Integer(1)));
    assert!(!config.contains("k"));
    assert_eq!(
        config.root,
        ConfigValue::Mapping(vec![("j".to_string(), ConfigValue::Integer(5))])
    );
    assert_eq!(config.remove("k"), None);

    let mut value = ConfigValue::Mapping(vec![
        ("x".to_string(), ConfigValue::Bool(true)),
        ("x".to_string(), ConfigValue::Bool(false)),
    ]);
    assert_eq!(value.remove("x"), Some(ConfigValue::Bool(true)));
    assert_eq!(value.get("x"), None);
    assert_eq!(value.len(), Some(0));
}

#[test]
fn values_compare_as_values() {
    let zero = ConfigValue::Float(0.0f64.to_bits());
    let negative_zero = ConfigValue::Float((-0.0f64).to_bits());
    assert_eq!(zero, negative_zero);
    let nan = ConfigValue::Float(f64::NAN.to_bits());
    assert_ne!(nan, nan);
    assert_ne!(ConfigValue::Float(1.5f64.to_bits()), ConfigValue::Float(2.5f64.to_bits()));
    assert_ne!(ConfigValue::Integer(1), ConfigValue::Float(1.0f64.to_bits()));

    let ab = ConfigValue::Mapping(vec![
        ("a".to_string(), ConfigValue::Integer(1)),
        ("b".to_string(), ConfigValue::Array(vec![ConfigValue::Bool(true)])),
    ]);
    let ba = ConfigValue::Mapping(vec![
        ("b".to_string(), ConfigValue::Array(vec![ConfigValue::Bool(true)])),
        ("a".to_string(), ConfigValue::Integer(1)),
    ]);
    assert_eq!(ab, ba);
    let ab_other = ConfigValue::Mapping(vec![
        ("a".to_string(), ConfigValue::Integer(1)),
        ("b".to_string(), ConfigValue::Array(vec![ConfigValue::Bool(false)])),
    ]);
    assert_ne!(ab, ab_other);
    let a_only = ConfigValue::Mapping(vec![("a".to_string(), ConfigValue::Integer(1))]);
    assert_ne!(ab, a_only);
    assert_ne!(a_only, ab);
    assert_ne!(
        ConfigValue::Array(vec![ConfigValue::Integer(1)]),
        ConfigValue::Array(vec![ConfigValue::Integer(1), ConfigValue::Integer(2)])
    );
    assert_eq!(
        Config::from_value(ab.clone()),
        Config::from_value(ba.clone())
    );
}
