//! Layers, dotted keys, and what they resolve to.
use ktesio_engine::config::{
    base_url_override, resolve, ConfigLayer, SourceLayer, METERING_BASE_URL_KEY,
};
use ktesio_engine::dotted::set_dotted;
use ktesio_engine::effective::{secret_name, EffectiveConfig};
use ktesio_engine::error::ConfigError;
use ktesio_engine::registry::{
    engine_defaults_layer, kind_defaults_layer, EffectiveConfigSnapshot,
    EFFECTIVE_CONFIG_SNAPSHOT_SCHEMA_VERSION,
};

fn layer(source: SourceLayer, text: &str) -> ConfigLayer {
    ConfigLayer::parse(source, "<test>", text).ok().unwrap()
}

fn resolved(engine: &str, kind: &str, instance: &str, overrides: &str) -> EffectiveConfig {
    resolve([
        layer(SourceLayer::EngineDefault, engine),
        layer(SourceLayer::KindDefault, kind),
        layer(SourceLayer::Instance, instance),
        layer(SourceLayer::InvocationOverride, overrides),
    ])
}

#[test]
fn engine_defaults_layer_parses_and_is_empty_in_2_1() {
    let layer = engine_defaults_layer().ok().unwrap();
    assert!(layer.is_empty(), "engine defaults must be empty in 2-1");
    let eff = resolve([
        layer,
        ConfigLayer::empty(),
        ConfigLayer::empty(),
        ConfigLayer::empty(),
    ]);
    assert!(eff.is_empty());
    assert_eq!(eff.value("restart.policy"), None);
}

#[test]
fn kind_defaults_layer_is_empty_for_every_kind_in_2_1() {
    assert!(kind_defaults_layer("mock").is_empty());
    assert!(kind_defaults_layer("anything-else").is_empty());
}

#[test]
fn effective_config_snapshot_dto_has_one_entry_per_leaf_with_value_and_source() {
    let layers = [
        ConfigLayer::empty(),
        ConfigLayer::parse(
            SourceLayer::KindDefault,
            "<k>",
            "[a]\nb = \"kind-b\"\nc = \"kind-c\"\n",
        )
        .ok()
        .unwrap(),
        ConfigLayer::parse(SourceLayer::Instance, "<i>", "[a]\nb = \"inst-b\"\n").ok().unwrap(),
        ConfigLayer::empty(),
    ];
    let eff = resolve(layers);
    let snap = EffectiveConfigSnapshot::from_effective(&eff);
    assert_eq!(snap.schema_version, EFFECTIVE_CONFIG_SNAPSHOT_SCHEMA_VERSION);
    assert_eq!(snap.entries.len(), 2);
    let ab = snap.entries.iter().find(|e| e.key == "a.b").unwrap();
    assert_eq!(ab.value, "inst-b");
    assert_eq!(ab.source, SourceLayer::Instance);
    let ac = snap.entries.iter().find(|e| e.key == "a.c").unwrap();
    assert_eq!(ac.value, "kind-c");
    assert_eq!(ac.source, SourceLayer::KindDefault);
}

#[test]
fn effective_config_snapshot_round_trips_through_json() {
    let eff = resolved("n = 42\n", "", "model = \"gpt-4\"\n", "");
    let snap = EffectiveConfigSnapshot::from_effective(&eff);
    let n = snap.entries.iter().find(|e| e.key == "n").unwrap();
    assert_eq!(n.value, "42");
    assert_eq!(n.source.as_str(), "engine-default");
    let model = snap.entries.iter().find(|e| e.key == "model").unwrap();
    assert_eq!(model.source.as_str(), "instance");
}

#[test]
fn base_url_override_builds_the_reserved_metering_leaf() {
    let layer = base_url_override("http://127.0.0.1:54321");
    let resolved = resolve([
        ConfigLayer::empty(),
        ConfigLayer::empty(),
        ConfigLayer::empty(),
        layer,
    ]);
    assert_eq!(
        resolved.value_display(METERING_BASE_URL_KEY).as_deref(),
        Some("http://127.0.0.1:54321"),
        "the loopback URL lands at the reserved metering.base_url leaf"
    );
}

#[test]
fn set_dotted_creates_nested_tables_and_preserves_siblings() {
    let mut t = toml::value::Table::new();
    set_dotted(&mut t, "a.b", toml::Value::Integer(1)).unwrap();
    set_dotted(&mut t, "a.c", toml::Value::Integer(2)).unwrap();
    set_dotted(&mut t, "a.b", toml::Value::Integer(9)).unwrap();
    let a = t.get("a").unwrap().as_table().unwrap();
    assert_eq!(a.get("b"), Some(&toml::Value::Integer(9)));
    assert_eq!(a.get("c"), Some(&toml::Value::Integer(2)));
    set_dotted(&mut t, "a.b", toml::Value::String("s".into())).unwrap();
    assert_eq!(
        t.get("a").unwrap().as_table().unwrap().get("b"),
        Some(&toml::Value::String("s".into()))
    );
}

#[test]
fn set_dotted_fails_closed_on_scalar_intermediate_and_mutates_nothing() {
    let mut t = toml::value::Table::new();
    set_dotted(&mut t, "x", toml::Value::Integer(5)).unwrap();
    let err = set_dotted(&mut t, "x.y", toml::Value::Integer(6)).unwrap_err();
    match err {
        ConfigError::WriteShapeConflict {
            key,
            conflicting_ancestor,
        } => {
            assert_eq!(key, "x.y");
            assert_eq!(conflicting_ancestor, "x");
        }
        other => panic!("expected WriteShapeConflict, got {other:?}"),
    }
    assert_eq!(t.get("x"), Some(&toml::Value::Integer(5)));

    let mut t2 = toml::value::Table::new();
    set_dotted(&mut t2, "a.b", toml::Value::Integer(1)).unwrap();
    let err = set_dotted(&mut t2, "a.b.c.d", toml::Value::Integer(2)).unwrap_err();
    assert!(matches!(
        err,
        ConfigError::WriteShapeConflict { conflicting_ancestor, .. }
            if conflicting_ancestor == "a.b"
    ));
}

#[test]
fn set_dotted_takes_empty_parts_as_keys() {
    let mut t = toml::value::Table::new();
    set_dotted(&mut t, ".a", toml::Value::Integer(1)).unwrap();
    assert_eq!(t.get("").unwrap().as_table().unwrap().get("a"), Some(&toml::Value::Integer(1)));
    let err = set_dotted(&mut t, ".a.b", toml::Value::Integer(2)).unwrap_err();
    assert!(matches!(
        err,
        ConfigError::WriteShapeConflict { conflicting_ancestor, .. } if conflicting_ancestor == "a"
    ));
    let mut whole = toml::value::Table::new();
    set_dotted(&mut whole, "", toml::Value::Integer(3)).unwrap();
    assert_eq!(whole.get(""), Some(&toml::Value::Integer(3)));
}

#[test]
fn the_strongest_layer_wins_key_by_key() {
    let eff = resolved(
        "a = \"e\"\nb = \"e\"\nc = \"e\"\nd = \"e\"\n",
        "b = \"k\"\nc = \"k\"\nd = \"k\"\n",
        "c = \"i\"\nd = \"i\"\n",
        "d = \"o\"\n",
    );
    let told: Vec<(String, String, &str)> = (0..eff.len())
        .map(|i| {
            let (key, value) = eff.entry(i);
            (key.to_string(), value.display(), value.source.as_str())
        })
        .collect();
    let told: Vec<(&str, &str, &str)> =
        told.iter().map(|(k, v, s)| (k.as_str(), v.as_str(), *s)).collect();
    assert_eq!(
        told,
        vec![
            ("a", "e", "engine-default"),
            ("b", "k", "kind-default"),
            ("c", "i", "instance"),
            ("d", "o", "invocation-override"),
        ]
    );
}

fn told(eff: &EffectiveConfig) -> Vec<String> {
    (0..eff.len())
        .map(|i| {
            let (key, value) = eff.entry(i);
            format!("{key}={} {}", value.display(), value.source.as_str())
        })
        .collect()
}

#[test]
fn a_strong_scalar_prunes_a_weak_subtree() {
    let eff = resolved("", "", "[agent.a]\nb = \"x\"\nc = \"y\"\n", "[agent]\na = \"o\"\n");
    assert_eq!(told(&eff), ["agent.a=o invocation-override"]);
}

#[test]
fn a_strong_subtree_masks_a_weak_scalar() {
    let eff = resolved("", "", "[agent]\na = \"x\"\nz = \"y\"\n", "[agent.a]\nb = \"o\"\n");
    assert_eq!(told(&eff), ["agent.a.b=o invocation-override", "agent.z=y instance"]);
}

#[test]
fn what_is_masked_masks_what_is_weaker_still() {
    let eff = resolved(
        "[a]\nx = \"e\"\n",
        "other = \"k\"\n",
        "a = \"i\"\n",
        "[a.b]\nc = \"o\"\n",
    );
    assert_eq!(told(&eff), ["a.b.c=o invocation-override", "other=k kind-default"]);
}

#[test]
fn an_empty_strong_table_masks_nothing() {
    let eff = resolved("", "", "[agent]\na = \"x\"\n", "[agent]\na = {}\n");
    assert_eq!(told(&eff), ["agent.a=x instance"]);
}

#[test]
fn a_key_with_a_dot_in_it_is_its_own_path() {
    let eff = resolved("", "", "[a]\nb = \"i\"\nc = \"j\"\n", "\"a.b\" = \"o\"\n");
    assert_eq!(told(&eff), ["a.b=o invocation-override", "a.c=j instance"]);
}

#[test]
fn keys_come_in_order_and_nested_ones_dotted() {
    let eff = resolved("", "", "z = 1\n[b]\nx = true\n[b.a]\ny = [1, 2]\n", "");
    let keys: Vec<&str> = (0..eff.len()).map(|i| eff.entry(i).0).collect();
    assert_eq!(keys, vec!["b.a.y", "b.x", "z"]);
    assert_eq!(eff.value_display("b.x").as_deref(), Some("true"));
    assert_eq!(eff.value_display("b.a.y").as_deref(), Some("[1, 2]"));
    assert_eq!(eff.value("b"), None, "a table is no leaf");
}

#[test]
fn anything_but_a_text_is_shown_inline() {
    let eff = resolved(
        "",
        "",
        "i = 0x10\nf = 1e3\nn = -1\nl = [\n  \"a\",\n  { b = 1 },\n  1979-05-27,\n]\n",
        "",
    );
    assert_eq!(eff.value_display("i").as_deref(), Some("16"));
    assert_eq!(eff.value_display("f").as_deref(), Some("1000.0"));
    assert_eq!(eff.value_display("n").as_deref(), Some("-1"));
    assert_eq!(eff.value_display("l").as_deref(), Some("[\"a\", { b = 1 }, 1979-05-27]"));
}

#[test]
fn a_forgotten_key_is_gone_and_the_others_stay() {
    let mut eff = resolved("", "", "a = 1\nb = 2\nc = 3\n", "");
    eff.remove("b");
    eff.remove("missing");
    let keys: Vec<&str> = (0..eff.len()).map(|i| eff.entry(i).0).collect();
    assert_eq!(keys, vec!["a", "c"]);
    assert!(eff.get("b").is_none());
    assert_eq!(eff.value_display("c").as_deref(), Some("3"));
}

#[test]
fn references_to_secrets_are_masked_and_found() {
    let eff = resolved(
        "",
        "",
        "model = \"secret:API_KEY\"\nplain = \"visible\"\nnumber = 7\n[a]\nb = \"secret:OTHER\"\n",
        "",
    );
    assert_eq!(eff.value_display("model").as_deref(), Some("secret:****"));
    assert_eq!(eff.value_display("a.b").as_deref(), Some("secret:****"));
    assert_eq!(eff.value_display("plain").as_deref(), Some("visible"));
    let leaves: Vec<(String, String)> =
        eff.secret_leaves().into_iter().map(|l| (l.key, l.secret)).collect();
    assert_eq!(
        leaves,
        vec![
            ("a.b".to_string(), "OTHER".to_string()),
            ("model".to_string(), "API_KEY".to_string()),
        ]
    );
    assert_eq!(secret_name("secret:"), Some("".to_string()));
    assert_eq!(secret_name("Secret:X"), None);
    assert_eq!(secret_name("secre"), None);
}

#[test]
fn a_malformed_layer_names_its_layer_and_path() {
    let err = ConfigLayer::parse(SourceLayer::KindDefault, "/etc/kind.toml", "a = = b").err().unwrap();
    match err {
        ConfigError::MalformedLayer { layer, path, detail } => {
            assert_eq!(layer, SourceLayer::KindDefault);
            assert_eq!(path, "/etc/kind.toml");
            assert!(!detail.is_empty());
        }
        other => panic!("expected MalformedLayer, got {other:?}"),
    }
}

#[test]
fn a_layer_holds_its_table() {
    let layer = layer(SourceLayer::Instance, "a = 1\n");
    assert!(!layer.is_empty());
    assert_eq!(layer.as_table().get("a"), Some(&toml::Value::Integer(1)));
    assert_eq!(ConfigLayer::from_table(layer.to_table()).as_table(), layer.as_table());
    assert!(ConfigLayer::empty().is_empty());
}
