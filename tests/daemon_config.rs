use std::time::Duration;

use splinterd::cli::{key_file_paths, msg_from_io_error, resolve_key_dir, CliError, IoErrorKind};
use splinterd::daemon::{
    inproc_ids, join_path, shutdown_order, AdminStoreChoice, Component, CreateError,
    OAuthSettings, RegistrySource, RestApiBind, SplinterDaemon, SplinterDaemonBuilder, StartError,
};
use splinterd::store::{
    StoreError, AuthorizationHeader, BearerToken, GetUserByOAuthAuthorization, MemoryOAuthUserSessionStore,
    MemoryStoreFactory, OAuthUserSession,
};
use splinterd::text::{parse_registry_arg, strip_prefix};

fn complete_builder() -> SplinterDaemonBuilder {
    SplinterDaemonBuilder::new()
        .with_state_dir("/var/lib/splinter".into())
        .with_service_endpoint("tcp://127.0.0.1:8043".into())
        .with_network_endpoints(vec!["tcps://0.0.0.0:8044".into()])
        .with_advertised_endpoints(vec!["tcps://node:8044".into()])
        .with_initial_peers(vec![])
        .with_node_id("alpha".into())
        .with_display_name("Alpha".into())
        .with_rest_api_endpoint("http://127.0.0.1:8080".into())
        .with_db_url(Some("memory".into()))
        .with_registries(vec![])
        .with_registry_auto_refresh(600)
        .with_registry_forced_refresh(10)
        .with_heartbeat(30)
        .with_admin_timeout(Duration::from_secs(30))
        .with_strict_ref_counts(true)
}

fn missing(r: Result<SplinterDaemon, CreateError>) -> String {
    match r {
        Err(CreateError::MissingRequiredField(m)) => m,
        Ok(_) => panic!("expected an error"),
    }
}

#[test]
fn build_complete_configuration() {
    let d = complete_builder().build().expect("complete");
    assert_eq!(d.node_id, "alpha");
    assert_eq!(d.heartbeat, 30);
    assert_eq!(d.mesh_incoming_capacity, 512);
    assert_eq!(d.mesh_outgoing_capacity, 128);
    assert!(d.rest_api_ssl_settings.is_none());
    assert!(d.strict_ref_counts);
}

#[test]
fn build_reports_first_missing_field() {
    assert_eq!(missing(SplinterDaemonBuilder::new().build()), "Missing field: heartbeat");
    assert_eq!(
        missing(SplinterDaemonBuilder::new().with_heartbeat(1).build()),
        "Missing field: node_id"
    );
    let mut b = complete_builder();
    b.strict_ref_counts = None;
    assert_eq!(missing(b.build()), "Missing field: strict_ref_counts");
    let b = complete_builder().with_rest_api_server_cert("cert.pem".into());
    assert_eq!(
        missing(b.build()),
        "Both rest_api_server_cert and rest_api_server_key must be set"
    );
    let b = complete_builder().enable_biome(true).with_db_url(None);
    assert_eq!(missing(b.build()), "db_url is required to enable biome features.");
    let e = CreateError::MissingRequiredField("x".into());
    assert_eq!(e.message(), "missing required field: x");
}

#[test]
fn rest_api_bind_choices() {
    let d = complete_builder().build().unwrap();
    assert!(matches!(d.rest_api_bind(), Ok(RestApiBind::Insecure(b)) if b == "127.0.0.1:8080"));
    let d = complete_builder().with_rest_api_endpoint("https://h:443".into()).build().unwrap();
    assert!(matches!(d.rest_api_bind(), Err(StartError::RestApiError(_))));
    let d = complete_builder()
        .with_rest_api_endpoint("https://h:443".into())
        .with_rest_api_server_cert("c".into())
        .with_rest_api_server_key("k".into())
        .build()
        .unwrap();
    match d.rest_api_bind() {
        Ok(RestApiBind::Secure { bind, cert_path, key_path }) => {
            assert_eq!(bind, "h:443");
            assert_eq!(cert_path, "c");
            assert_eq!(key_path, "k");
        }
        _ => panic!("secure bind expected"),
    }
}

#[test]
fn admin_store_choices() {
    let d = complete_builder().build().unwrap();
    assert!(matches!(d.admin_store_choice(), Ok(AdminStoreChoice::Database(u)) if u == "memory"));
    let d = complete_builder().with_storage_type(Some("yaml".into())).build().unwrap();
    match d.admin_store_choice() {
        Ok(AdminStoreChoice::Yaml { circuits_path, proposals_path }) => {
            assert_eq!(circuits_path, "/var/lib/splinter/circuits.yaml");
            assert_eq!(proposals_path, "/var/lib/splinter/circuit_proposals.yaml");
        }
        _ => panic!("yaml expected"),
    }
    let d = complete_builder().with_storage_type(Some("memory".into())).build().unwrap();
    assert!(matches!(d.admin_store_choice(), Ok(AdminStoreChoice::Memory)));
    let d = complete_builder().with_storage_type(Some("disk".into())).build().unwrap();
    match d.admin_store_choice() {
        Err(e @ StartError::StorageError(_)) => assert_eq!(
            e.message(),
            "unable to set up storage: storage type is not supported: disk"
        ),
        _ => panic!("storage error expected"),
    }
    let d = complete_builder().with_db_url(None).build().unwrap();
    assert!(matches!(d.admin_store_choice(), Err(StartError::StorageError(_))));
}

#[test]
fn oauth_settings_validation() {
    let d = complete_builder().build().unwrap();
    assert!(matches!(d.oauth_settings(), Ok(None)));
    let d = complete_builder().with_oauth_client_id(Some("id".into())).build().unwrap();
    match d.oauth_settings() {
        Err(StartError::RestApiError(m)) => assert_eq!(m, "missing OAuth provider configuration"),
        _ => panic!("error expected"),
    }
    let full = || {
        complete_builder()
            .with_oauth_client_id(Some("id".into()))
            .with_oauth_client_secret(Some("secret".into()))
            .with_oauth_redirect_url(Some("https://r".into()))
    };
    let d = full().with_oauth_provider(Some("github".into())).build().unwrap();
    assert!(matches!(d.oauth_settings(), Ok(Some(OAuthSettings::GitHub { .. }))));
    let d = full().with_oauth_provider(Some("azure".into())).build().unwrap();
    match d.oauth_settings() {
        Err(StartError::RestApiError(m)) => {
            assert_eq!(m, "missing OAuth OpenID discovery document URL configuration")
        }
        _ => panic!("error expected"),
    }
    let d = full()
        .with_oauth_provider(Some("openid".into()))
        .with_oauth_openid_url(Some("https://o".into()))
        .build()
        .unwrap();
    assert!(matches!(d.oauth_settings(), Ok(Some(OAuthSettings::OpenId { .. }))));
    let d = full().with_oauth_provider(Some("myspace".into())).build().unwrap();
    match d.oauth_settings() {
        Err(StartError::RestApiError(m)) => assert_eq!(m, "invalid OAuth provider: myspace"),
        _ => panic!("error expected"),
    }
}

#[test]
fn registry_arguments() {
    assert_eq!(parse_registry_arg("file:///etc/reg.yaml"), Ok(("file", "/etc/reg.yaml")));
    assert_eq!(parse_registry_arg("https://a://b"), Ok(("https", "a://b")));
    assert_eq!(parse_registry_arg("no-scheme"), Err("No URI scheme provided"));
    assert_eq!(parse_registry_arg("a:/b"), Err("No URI scheme provided"));
    assert!(matches!(
        splinterd::daemon::registry_source("file://./r.yaml", 600, 0),
        RegistrySource::File(p) if p == "./r.yaml"
    ));
    match splinterd::daemon::registry_source("https://reg/r.yaml", 600, 0) {
        RegistrySource::Remote { url, auto_refresh, forced_refresh } => {
            assert_eq!(url, "https://reg/r.yaml");
            assert_eq!(auto_refresh, Some(600));
            assert_eq!(forced_refresh, None);
        }
        _ => panic!("remote expected"),
    }
    assert!(matches!(splinterd::daemon::registry_source("ftp://x", 1, 1), RegistrySource::Invalid(_)));
    assert!(matches!(splinterd::daemon::registry_source("x", 1, 1), RegistrySource::Unparsable(_)));
}

#[test]
fn inproc_identities_and_shutdown_order() {
    let ids = inproc_ids("alpha");
    assert_eq!(ids[0], ("inproc://orchestator".to_string(), "orchestator::alpha".to_string()));
    assert_eq!(ids[1], ("inproc://admin-service".to_string(), "admin::alpha".to_string()));
    assert_eq!(ids[2], ("inproc://health-service".to_string(), "health::alpha".to_string()));
    let order = shutdown_order();
    assert_eq!(order.first(), Some(&Component::RestApi));
    assert_eq!(order.last(), Some(&Component::Mesh));
    assert_eq!(order.len(), 7);
}

#[test]
fn paths_and_prefixes() {
    assert_eq!(join_path("/a", "b"), "/a/b");
    assert_eq!(join_path("/a/", "b"), "/a/b");
    assert_eq!(join_path("", "b"), "b");
    assert_eq!(strip_prefix("http://x", "http://"), Some("x"));
    assert_eq!(strip_prefix("htt", "http://"), None);
}

#[test]
fn key_locations() {
    assert_eq!(resolve_key_dir(Some("/k".into()), true, None).unwrap(), "/k");
    assert_eq!(resolve_key_dir(None, true, None).unwrap(), "/etc/splinter/keys");
    assert_eq!(
        resolve_key_dir(None, false, Some("/home/u".into())).unwrap(),
        "/home/u/.splinter/keys"
    );
    assert!(matches!(resolve_key_dir(None, false, None), Err(CliError::EnvironmentError(_))));
    let (private_path, public_path) = key_file_paths("/home/u/.splinter/keys", "alice");
    assert_eq!(private_path, "/home/u/.splinter/keys/alice.priv");
    assert_eq!(public_path, "/home/u/.splinter/keys/alice.pub");
    let (private_path, _) = key_file_paths("/k", "bob.key");
    assert_eq!(private_path, "/k/bob.priv");
    let (private_path, _) = key_file_paths("/k", ".hidden");
    assert_eq!(private_path, "/k/.hidden.priv");
}

#[test]
fn io_error_messages() {
    assert_eq!(msg_from_io_error(IoErrorKind::NotFound), "File not found");
    assert_eq!(msg_from_io_error(IoErrorKind::PermissionDenied), "Permission denied");
    assert_eq!(msg_from_io_error(IoErrorKind::InvalidData), "Invalid data");
    assert_eq!(msg_from_io_error(IoErrorKind::Other), "Unknown I/O error");
}

#[test]
fn oauth_user_lookup() {
    let mut factory = MemoryStoreFactory::new();
    factory.get_biome_oauth_user_session_store().add_session(OAuthUserSession {
        access_token: "tok".into(),
        user_id: "user-1".into(),
    });
    let mut store = MemoryOAuthUserSessionStore::new();
    store.add_session(OAuthUserSession { access_token: "tok".into(), user_id: "user-1".into() });
    store.add_session(OAuthUserSession { access_token: "tok".into(), user_id: "user-2".into() });
    let mapping = GetUserByOAuthAuthorization::new(store);
    let header = AuthorizationHeader::Bearer(BearerToken::OAuth2("tok".into()));
    assert_eq!(mapping.get(&header).unwrap().unwrap().user_id, "user-2");
    let other = AuthorizationHeader::Bearer(BearerToken::OAuth2("nope".into()));
    assert!(mapping.get(&other).unwrap().is_none());
    let biome = AuthorizationHeader::Bearer(BearerToken::Biome("tok".into()));
    assert!(mapping.get(&biome).unwrap().is_none());
}

#[test]
fn memory_stores_start_empty_and_keys_need_users() {
    let mut factory = MemoryStoreFactory::new();
    assert!(factory.get_key_owner(&"pk".to_string()).is_none());
    assert!(factory.get_refresh_token(&"u1".to_string()).is_none());
    assert_eq!(factory.add_key("pk".into(), "u1".into()), Err(StoreError::UnknownUser));
    factory.get_biome_credentials_store().add_credentials("u1".into(), "alice".into());
    assert_eq!(
        factory.get_biome_credentials_store().get_user_id(&"alice".to_string()),
        Some("u1".to_string())
    );
    assert_eq!(factory.add_key("pk".into(), "u1".into()), Ok(()));
    assert_eq!(factory.get_key_owner(&"pk".to_string()), Some("u1".to_string()));
    factory.set_refresh_token("u1".into(), "tok".into());
    assert_eq!(factory.get_refresh_token(&"u1".to_string()), Some("tok".to_string()));
    factory.insert_inflight_request("req".into(), "pending".into());
    assert_eq!(factory.take_inflight_request("req".into()), Some("pending".to_string()));
    assert_eq!(factory.take_inflight_request("req".into()), None);
}
