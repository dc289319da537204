use nearby_management::config_store::{
    config_id_from_management_path, confirm_config_id, management_config_path,
    management_socket_path, ConfigError,
};
use nearby_management::overwrite::{
    NearbyMutationHooks, NearbyWebClientService, RunRequest, ServiceError, WebClientCall,
};
use nearby_management::paths::{join, path_components, path_file_stem, path_has_parent, same_path};
use nearby_management::storage::{
    display_name, runtime_management_config_control, ConfigFileControl, NearbyConfigStorage,
};
use std::path::Path;

const ID: u128 = 0x550e8400_e29b_41d4_a716_446655440000;
const ROOT: &[u8] = b"/data/app";
const CONFIG: &[u8] =
    b"/data/app/.easytier-nearby-management/550e8400-e29b-41d4-a716-446655440000.toml";

fn text(bytes: Vec<u8>) -> String {
    String::from_utf8(bytes).unwrap()
}

#[test]
fn paths_agree_with_the_standard_library() {
    let samples = [
        "", "/", ".", "..", "a", "./a", "/./a", "a/.", "a/./b", "a//b", "a/b/", "//a", "/a/../b",
        "a/..", ".a", ".a.b", "a.b.c", "a.", "..a", "...", "/a.toml", "././a", "./", "a/b.c/d",
    ];
    for left in samples {
        for right in samples {
            assert_eq!(
                same_path(left.as_bytes(), right.as_bytes()),
                Path::new(left) == Path::new(right),
                "{left:?} {right:?}"
            );
        }
        assert_eq!(
            path_file_stem(left.as_bytes()).map(text),
            Path::new(left).file_stem().map(|stem| stem.to_str().unwrap().to_owned()),
            "{left:?}"
        );
        assert_eq!(
            path_has_parent(left.as_bytes()),
            Path::new(left).parent().is_some(),
            "{left:?}"
        );
        assert_eq!(
            path_components(left.as_bytes()).len(),
            Path::new(left).components().count(),
            "{left:?}"
        );
        assert_eq!(
            text(join(left.as_bytes(), b"name.toml")),
            Path::new(left).join("name.toml").to_str().unwrap(),
            "{left:?}"
        );
    }
}

#[test]
fn the_managed_files_stand_below_the_root() {
    assert_eq!(
        text(management_socket_path(Some(ROOT)).unwrap()),
        "/data/app/easytier-nearby-management.sock"
    );
    assert!(management_socket_path(None).is_none());
    assert_eq!(management_config_path(ID, Some(ROOT)).unwrap(), CONFIG);
    assert_eq!(management_config_path(ID, Some(b"/data/app/")).unwrap(), CONFIG);
    assert!(management_config_path(ID, None).is_none());
}

#[test]
fn each_configuration_path_is_read_as_its_instance() {
    for id in [0, 1, ID, u128::MAX, 0xabcdef << 100] {
        let path = management_config_path(id, Some(ROOT)).unwrap();
        assert!(matches!(config_id_from_management_path(&path, Some(ROOT)), Ok(found) if found == id));
    }
    assert_ne!(
        management_config_path(1, Some(ROOT)).unwrap(),
        management_config_path(2, Some(ROOT)).unwrap()
    );
    let spelled = b"/data//app/./.easytier-nearby-management/550e8400-e29b-41d4-a716-446655440000.toml";
    assert!(matches!(config_id_from_management_path(spelled, Some(ROOT)), Ok(ID)));
}

#[test]
fn other_paths_are_refused_each_for_its_reason() {
    let read = |path: &[u8], root: Option<&[u8]>| config_id_from_management_path(path, root).err().unwrap();
    assert!(matches!(read(b"/data/app/..", Some(ROOT)), ConfigError::InvalidPath));
    assert!(matches!(read(b"", Some(ROOT)), ConfigError::InvalidPath));
    assert!(matches!(read(b"/data/\xff.toml", Some(ROOT)), ConfigError::InvalidPath));
    assert!(matches!(
        read(b"/data/app/.easytier-nearby-management/x.toml", Some(ROOT)),
        ConfigError::InvalidInstanceId(words) if words == uuid::Uuid::parse_str("x").unwrap_err().to_string()
    ));
    assert!(matches!(read(CONFIG, None), ConfigError::StoreNotInitialized));
    assert!(matches!(read(CONFIG, Some(b"/data")), ConfigError::OutsideStore));
    for outside in [
        "/data/app/550e8400-e29b-41d4-a716-446655440000.toml",
        "/data/app/.easytier-nearby-management/550E8400-E29B-41D4-A716-446655440000.toml",
        "/data/app/.easytier-nearby-management/550e8400e29b41d4a716446655440000.toml",
        "/data/app/.easytier-nearby-management/550e8400-e29b-41d4-a716-446655440000",
        "/data/app/.easytier-nearby-management/550e8400-e29b-41d4-a716-446655440000.json",
        "/data/app/.easytier-nearby-management/a/../550e8400-e29b-41d4-a716-446655440000.toml",
    ] {
        assert!(matches!(read(outside.as_bytes(), Some(ROOT)), ConfigError::OutsideStore), "{outside}");
    }
    assert!(matches!(
        confirm_config_id(CONFIG, Some(ROOT), Err("words".to_owned())),
        Err(ConfigError::InvalidInstanceId(words)) if words == "words"
    ));
    assert!(matches!(confirm_config_id(CONFIG, Some(ROOT), Ok(ID)), Ok(ID)));
    assert!(matches!(confirm_config_id(CONFIG, Some(ROOT), Ok(7)), Err(ConfigError::OutsideStore)));
}

#[test]
fn errors_say_what_is_wrong() {
    let message = |error: ConfigError<String>| error.message();
    assert_eq!(message(ConfigError::InvalidPath), "nearby management config path is invalid");
    assert_eq!(message(ConfigError::InvalidInstanceId("w".to_owned())), "w");
    assert_eq!(message(ConfigError::StoreNotInitialized), "HarmonyOS config store is not initialized");
    assert_eq!(
        message(ConfigError::OutsideStore),
        "nearby management config path is outside the managed store"
    );
    assert_eq!(message(ConfigError::NotUtf8("u".to_owned())), "u");
    assert_eq!(
        message(ConfigError::InstanceIdChanged),
        "nearby management cannot change the running instance ID"
    );
    assert_eq!(message(ConfigError::NotPersisted), "failed to persist nearby management config");
    assert_eq!(
        message(ConfigError::RemovalRefused),
        "nearby management never deletes a saved HarmonyOS config"
    );
    assert_eq!(
        ServiceError::OverwriteNotRequested.message(),
        "nearby management requires an explicit overwrite"
    );
    assert_eq!(ServiceError::InstanceIdMissing.message(), "nearby management requires an instance ID");
    assert_eq!(
        ServiceError::NotTheRunningInstance.message(),
        "nearby management may only overwrite the single running HarmonyOS instance"
    );
    assert_eq!(
        ServiceError::StoreNotInitialized.message(),
        "HarmonyOS config store is not initialized"
    );
    assert_eq!(ServiceError::ControlMissing.message(), "running instance config control is missing");
    assert_eq!(
        ServiceError::NotOwned.message(),
        "running instance is not owned by the HarmonyOS nearby console"
    );
    assert_eq!(
        ServiceError::RetainRefused.message(),
        "nearby management cannot retain or remove HarmonyOS instances"
    );
    assert_eq!(
        ServiceError::DeleteRefused.message(),
        "nearby management cannot stop or delete a HarmonyOS instance"
    );
}

#[test]
fn only_managed_files_may_be_written_and_none_deleted() {
    let managed = NearbyConfigStorage::inspect(CONFIG, Some(ROOT));
    assert_eq!(managed.path.unwrap(), CONFIG);
    assert!(!managed.read_only && managed.no_delete);
    let other = NearbyConfigStorage::inspect(b"/etc/passwd", Some(ROOT));
    assert_eq!(other.path.unwrap(), b"/etc/passwd");
    assert!(other.read_only && other.no_delete);
    assert!(matches!(NearbyConfigStorage::remove(CONFIG), Err(ConfigError::RemovalRefused)));
}

#[test]
fn a_configuration_is_read_under_its_hyphenated_key() {
    assert_eq!(
        NearbyConfigStorage::read(CONFIG, Some(ROOT)).ok().unwrap(),
        "550e8400-e29b-41d4-a716-446655440000"
    );
    assert!(matches!(NearbyConfigStorage::read(CONFIG, None), Err(ConfigError::StoreNotInitialized)));
}

#[test]
fn a_write_keeps_the_instance_and_its_name() {
    let pending = NearbyConfigStorage::write(CONFIG, "h\u{e4}".as_bytes(), Some(ROOT)).ok().unwrap();
    assert_eq!(pending.config_id, ID);
    assert_eq!(pending.text, "h\u{e4}");
    let record =
        NearbyConfigStorage::write_parsed(&pending, ID, None, Some("r".to_owned()), "i".to_owned())
            .ok()
            .unwrap();
    assert_eq!(record.key, "550e8400-e29b-41d4-a716-446655440000");
    assert_eq!(record.display_name, "r");
    assert!(matches!(
        NearbyConfigStorage::write_parsed(&pending, 1, None, None, "i".to_owned()),
        Err(ConfigError::InstanceIdChanged)
    ));
    assert!(matches!(NearbyConfigStorage::write_saved(false), Err(ConfigError::NotPersisted)));
    assert!(NearbyConfigStorage::write_saved(true).is_ok());
    assert!(matches!(
        NearbyConfigStorage::write(CONFIG, b"a\xff", Some(ROOT)),
        Err(ConfigError::NotUtf8(words)) if words == std::str::from_utf8(&[b'a', 255]).unwrap_err().to_string()
    ));
    assert!(matches!(
        NearbyConfigStorage::write(b"/x", b"a\xff", Some(ROOT)),
        Err(ConfigError::InvalidInstanceId(_))
    ));
}

#[test]
fn the_stored_name_wins() {
    let name = |s: Option<&str>, r: Option<&str>| {
        display_name(s.map(str::to_owned), r.map(str::to_owned), "own".to_owned())
    };
    assert_eq!(name(Some("s"), Some("r")), "s");
    assert_eq!(name(None, Some("r")), "r");
    assert_eq!(name(None, None), "own");
    assert_eq!(name(Some(""), Some("r")), "");
}

fn verdict(
    overwrite: bool,
    inst_id: Option<u128>,
    running: &[u128],
    root: Option<&[u8]>,
    control: Option<ConfigFileControl>,
) -> Option<ServiceError> {
    NearbyWebClientService::ensure_safe_overwrite(
        &RunRequest { overwrite, inst_id },
        running,
        root,
        &control,
    )
    .err()
}

#[test]
fn only_the_single_running_managed_instance_is_overwritten() {
    let own = || runtime_management_config_control(ID, Some(ROOT));
    assert!(verdict(true, Some(ID), &[ID], Some(ROOT), own()).is_none());
    assert!(matches!(
        verdict(false, Some(ID), &[ID], Some(ROOT), own()),
        Some(ServiceError::OverwriteNotRequested)
    ));
    assert!(matches!(
        verdict(true, None, &[ID], Some(ROOT), own()),
        Some(ServiceError::InstanceIdMissing)
    ));
    for running in [&[][..], &[1][..], &[ID, 1][..], &[ID, ID][..]] {
        assert!(matches!(
            verdict(true, Some(ID), running, Some(ROOT), own()),
            Some(ServiceError::NotTheRunningInstance)
        ));
    }
    assert!(matches!(
        verdict(true, Some(ID), &[ID], None, own()),
        Some(ServiceError::StoreNotInitialized)
    ));
    assert!(matches!(
        verdict(true, Some(ID), &[ID], Some(ROOT), None),
        Some(ServiceError::ControlMissing)
    ));
    let refused = |control: ConfigFileControl| {
        matches!(
            verdict(true, Some(ID), &[ID], Some(ROOT), Some(control)),
            Some(ServiceError::NotOwned)
        )
    };
    let path = || Some(CONFIG.to_vec());
    assert!(refused(ConfigFileControl { path: None, read_only: false, no_delete: true }));
    assert!(refused(ConfigFileControl { path: path(), read_only: true, no_delete: true }));
    assert!(refused(ConfigFileControl { path: path(), read_only: false, no_delete: false }));
    assert!(refused(runtime_management_config_control(1, Some(ROOT)).unwrap()));
    assert!(runtime_management_config_control(ID, None).is_none());
}

#[test]
fn reading_calls_pass_and_destructive_calls_do_not() {
    let request = RunRequest { overwrite: false, inst_id: None };
    let check = |call| NearbyWebClientService::check_call(call, &request, &[], None, &None);
    for call in [
        WebClientCall::ValidateConfig,
        WebClientCall::CollectNetworkInfo,
        WebClientCall::ListNetworkInstance,
        WebClientCall::GetNetworkInstanceConfig,
        WebClientCall::ListNetworkInstanceMeta,
    ] {
        assert!(check(call).is_ok());
    }
    assert!(matches!(
        check(WebClientCall::RetainNetworkInstance),
        Err(ServiceError::RetainRefused)
    ));
    assert!(matches!(
        check(WebClientCall::DeleteNetworkInstance),
        Err(ServiceError::DeleteRefused)
    ));
    assert!(matches!(
        check(WebClientCall::RunNetworkInstance),
        Err(ServiceError::OverwriteNotRequested)
    ));
}

#[test]
fn hooks_guard_and_record_the_restart() {
    assert!(NearbyMutationHooks::pre_run_network_instance(ID, &[ID]).is_ok());
    assert_eq!(
        NearbyMutationHooks::pre_run_network_instance(ID, &[]).unwrap_err(),
        "nearby management may only overwrite the single running HarmonyOS instance"
    );
    let record =
        NearbyMutationHooks::post_run_network_instance(ID, Some("own".to_owned()), None, None)
            .ok()
            .unwrap();
    assert_eq!(record.key, "550e8400-e29b-41d4-a716-446655440000");
    assert_eq!(record.display_name, "own");
    assert_eq!(
        NearbyMutationHooks::post_run_network_instance(ID, None, Some("s".to_owned()), None)
            .err()
            .unwrap(),
        "instance 550e8400-e29b-41d4-a716-446655440000 is missing after restart"
    );
}
