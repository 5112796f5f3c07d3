//! How failures are told from one part of the engine to another.
use ktesio_engine::error::{
    config_apply_to_engine, config_to_engine, launch_to_engine, registry_to_engine,
    secret_to_engine, snapshot_to_engine, stop_error_to_registry, BackendError, ConfigApplyError,
    ConfigError, EngineError, LaunchResolveError, RegistryError, SecretError, StoreError,
};
use ktesio_engine::name::{InstanceName, NameError};

#[test]
fn snapshot_to_engine_maps_snapshot_write_and_falls_back_for_others() {
    let mapped = snapshot_to_engine(RegistryError::SnapshotWrite {
        name: "demo".into(),
        path: "/x/agents/demo/effective-config.json".into(),
        detail: "disk full".into(),
    });
    match mapped {
        EngineError::Snapshot { name, path, detail } => {
            assert_eq!(name, "demo");
            assert!(path.ends_with("effective-config.json"), "path={path}");
            assert_eq!(detail, "disk full");
        }
        other => panic!("expected Snapshot, got {other:?}"),
    }
    let fallback = snapshot_to_engine(RegistryError::NotFound { name: "demo".into() });
    assert!(matches!(fallback, EngineError::NotFound { name } if name == "demo"));
}

#[test]
fn registry_to_engine_maps_each_variant() {
    assert!(matches!(
        registry_to_engine(RegistryError::NotFound { name: "x".into() }),
        EngineError::NotFound { .. }
    ));
    assert!(matches!(
        registry_to_engine(RegistryError::InvalidName {
            name: "X".into(),
            reason: NameError::BadChar,
        }),
        EngineError::InvalidName { .. }
    ));
    assert!(matches!(
        registry_to_engine(RegistryError::Io {
            name: "x".into(),
            path: "/p".into(),
            source: "boom".into(),
        }),
        EngineError::Log { .. }
    ));
    assert!(matches!(
        registry_to_engine(RegistryError::ManifestNotFound { path: "/m".into() }),
        EngineError::AdapterUnresolved { .. }
    ));
    assert!(matches!(
        registry_to_engine(RegistryError::Store(StoreError::Backend("db gone".into()))),
        EngineError::Store(StoreError::Backend(detail)) if detail == "db gone"
    ));
}

#[test]
fn launch_to_engine_wraps_as_adapter_unresolved() {
    let name = InstanceName::new("svc").unwrap();
    let err = launch_to_engine(
        &name,
        LaunchResolveError::NativeHasNoLaunch { kind: "mock".into() },
    );
    match err {
        EngineError::AdapterUnresolved { name, detail } => {
            assert_eq!(name, "svc");
            assert!(detail.contains("no launch command"));
        }
        other => panic!("expected AdapterUnresolved, got {other:?}"),
    }
}

#[test]
fn config_to_engine_and_config_apply_to_engine_wrap_as_adapter_unresolved() {
    let name = InstanceName::new("svc").unwrap();
    let cfg_err = config_to_engine(&name, ConfigError::NotFound { name: "svc".into() });
    match cfg_err {
        EngineError::AdapterUnresolved { name, detail } => {
            assert_eq!(name, "svc");
            assert!(detail.contains("svc"), "detail preserved: {detail}");
        }
        other => panic!("expected AdapterUnresolved, got {other:?}"),
    }
    let apply_err = config_apply_to_engine(
        &name,
        ConfigApplyError::FileRender {
            key: "config/agent.toml".into(),
            path: "config/agent.toml".into(),
            detail: "disk full".into(),
        },
    );
    match apply_err {
        EngineError::AdapterUnresolved { name, detail } => {
            assert_eq!(name, "svc");
            assert!(detail.contains("config/agent.toml"), "{detail}");
            assert!(detail.contains("disk full"), "{detail}");
        }
        other => panic!("expected AdapterUnresolved, got {other:?}"),
    }
}

#[test]
fn stop_error_to_registry_maps_each_arm() {
    assert!(matches!(
        stop_error_to_registry(EngineError::Store(StoreError::Backend("db gone".into()))),
        RegistryError::Store(_)
    ));
    assert!(matches!(
        stop_error_to_registry(EngineError::InvalidName {
            name: "Bad Name".into(),
            reason: NameError::BadChar,
        }),
        RegistryError::InvalidName { .. }
    ));
    assert!(matches!(
        stop_error_to_registry(EngineError::NotFound { name: "ghost".into() }),
        RegistryError::NotFound { name } if name == "ghost"
    ));

    let mapped = stop_error_to_registry(EngineError::Backend {
        name: "live".into(),
        source: BackendError::Control {
            op: "terminate".into(),
            detail: "boom".into(),
        },
    });
    match mapped {
        RegistryError::Io { source, .. } => {
            let msg = source;
            assert!(msg.contains("could not stop the live instance"), "{msg}");
            assert!(msg.contains("boom"), "underlying detail preserved: {msg}");
        }
        other => panic!("expected Io for a backend teardown failure, got {other:?}"),
    }

    assert!(matches!(
        stop_error_to_registry(EngineError::Log {
            name: "live".into(),
            path: "/x/logs/instance.log".into(),
            detail: "disk full".into(),
        }),
        RegistryError::Io { .. }
    ));
}

#[test]
fn shared_failures_survive_both_ways() {
    for err in [
        RegistryError::NotFound { name: "x".into() },
        RegistryError::InvalidName { name: "X".into(), reason: NameError::BadChar },
        RegistryError::Store(StoreError::Backend("db gone".into())),
    ] {
        assert_eq!(stop_error_to_registry(registry_to_engine(err.clone())), err);
    }
}

#[test]
fn a_missing_secret_is_named() {
    let name = InstanceName::new("svc").unwrap();
    let err = secret_to_engine(
        &name,
        SecretError::Unresolved { name: "API_KEY".into(), resolvers: "env, file".into() },
    );
    match err {
        EngineError::Secret { name, detail } => {
            assert_eq!(name, "svc");
            assert!(detail.contains("API_KEY"), "{detail}");
        }
        other => panic!("expected Secret, got {other:?}"),
    }
}

#[test]
fn name_errors_say_what_is_wrong() {
    assert_eq!(InstanceName::new("").unwrap_err(), NameError::Empty);
    assert_eq!(InstanceName::new("Bad").unwrap_err(), NameError::BadChar);
    assert_ne!(NameError::Empty.message(), NameError::BadChar.message());
}
