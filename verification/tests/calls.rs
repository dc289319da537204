use nearby_management::call::{
    call_nearby_management_json_rpc, management_reply, CallStep, MAX_JSON_PAYLOAD_BYTES,
};
use nearby_management::host_server::{
    ensure_runtime_management_server_started, server_started, stop_runtime_management_server,
    NearbyManagementHostServer, StartStep,
};
use nearby_management::json::{failure_reply, success_reply};
use nearby_management::listener::{
    accepted_tunnel_info, find_management_socket_url, host_proxy_socket, host_proxy_tunnel_info,
    management_socket_url, ListenOutcome, ListenStep, NearbyUnixListener, SOCKET_MODE,
};
use nearby_management::config_store::ConfigError;
use nearby_management::service::{
    call_official_management_json_rpc, find_service, CallError, ManagementService,
};
use nearby_management::session::{packet_queues, NearbyManagementSession, NearbyRole};
use nearby_management::sessions::{open_session, Established, NearbySessions};
use serde_json::Value;

type Session = NearbyManagementSession<u8, u8>;

/// A client under the key `c` and a host under the key `h`.
fn sessions() -> NearbySessions<u8, u8> {
    let mut sessions = NearbySessions::new();
    for (key, role, rpc) in [("c", NearbyRole::Client, Some(1)), ("h", NearbyRole::HostProxy, None)] {
        let ends = packet_queues().0;
        let established = Established { rpc, ends, inbound_task: 2, outbound_task: 3 };
        assert!(open_session(&mut sessions, key.to_owned(), role, Some(established)));
    }
    sessions
}

fn reply(step: CallStep) -> String {
    match step {
        CallStep::Reply(text) => text,
        _ => panic!("not answered at once"),
    }
}

#[test]
fn replies_are_json_objects() {
    assert_eq!(failure_reply("a \"b\"\n"), r#"{"error":"a \"b\"\n","ok":false}"#);
    let result: Value = serde_json::from_str("[1, {\"x\": null}]").unwrap();
    assert_eq!(success_reply(result.clone()), r#"{"ok":true,"result":[1,{"x":null}]}"#);
    assert_eq!(management_reply(Ok(result)), r#"{"ok":true,"result":[1,{"x":null}]}"#);
    assert_eq!(management_reply(Err("e".to_owned())), r#"{"error":"e","ok":false}"#);
}

#[test]
fn calls_that_cannot_be_made_are_answered_at_once() {
    let sessions = sessions();
    let large = format!("\"{}\"", "x".repeat(MAX_JSON_PAYLOAD_BYTES - 1));
    assert_eq!(MAX_JSON_PAYLOAD_BYTES, 4 * 1024 * 1024);
    assert_eq!(
        reply(call_nearby_management_json_rpc(&sessions, "x", "s", "m", None, &large)),
        r#"{"error":"management payload is too large","ok":false}"#
    );
    assert_eq!(
        reply(call_nearby_management_json_rpc(&sessions, "x", "s", "m", None, "{")),
        r#"{"error":"nearby management session not found","ok":false}"#
    );
    let words = serde_json::from_str::<Value>("{").unwrap_err().to_string();
    assert_eq!(
        reply(call_nearby_management_json_rpc(&sessions, "c", "s", "m", None, "{")),
        failure_reply(&format!("invalid management JSON: {words}"))
    );
}

#[test]
fn the_largest_payload_is_still_read() {
    let sessions = sessions();
    let payload = format!("\"{}\"", "x".repeat(MAX_JSON_PAYLOAD_BYTES - 2));
    assert!(matches!(
        call_nearby_management_json_rpc(&sessions, "c", "nope", "m", None, &payload),
        CallStep::Fail(CallError::InvalidServiceKey(_, _))
    ));
}

#[test]
fn names_are_trimmed_and_addressed() {
    let sessions = sessions();
    let step = call_nearby_management_json_rpc(
        &sessions,
        "c",
        " \tapi.logger.LoggerRpcService\u{3000}",
        "\u{a0}get_config\n",
        Some(" d e "),
        " {\"k\": 1} ",
    );
    let call = match step {
        CallStep::Call(call) => call,
        _ => panic!("not called"),
    };
    assert_eq!(call.service, ManagementService::Logger);
    assert_eq!(call.method, "get_config");
    assert_eq!(call.domain, "d e");
    assert_eq!((call.from_peer, call.to_peer), (1, 1));
    assert_eq!(call.payload.to_string(), "{\"k\":1}");
    match call_nearby_management_json_rpc(
        &sessions,
        "c",
        "api.config.ConfigRpcService",
        "m",
        None,
        "null",
    ) {
        CallStep::Call(call) => assert_eq!(call.domain, ""),
        _ => panic!("not called"),
    }
}

#[test]
fn hosts_do_not_call() {
    let sessions = sessions();
    match call_nearby_management_json_rpc(
        &sessions,
        "h",
        "api.logger.LoggerRpcService",
        "m",
        None,
        "{}",
    ) {
        CallStep::Fail(error) => {
            assert!(matches!(error, CallError::NotAClient));
            assert_eq!(
                error.message().unwrap(),
                "nearby host proxy sessions cannot originate management calls"
            );
        }
        _ => panic!("called"),
    }
    let client = Session::from_split(NearbyRole::Client, None, packet_queues().0, 2, 3);
    match client.call_json("api.logger.LoggerRpcService", "m", "", Value::Null) {
        Err(error) => {
            assert!(matches!(error, CallError::ClientUnavailable));
            assert_eq!(error.message().unwrap(), "nearby RPC client is unavailable");
        }
        Ok(_) => panic!("called"),
    }
}

#[test]
fn each_service_has_its_name() {
    let table = [
        ("api.manage.WebClientService", ManagementService::WebClient),
        ("api.logger.LoggerRpcService", ManagementService::Logger),
        ("api.instance.PeerManageRpcService", ManagementService::PeerManage),
        ("api.instance.PeerCenterManageRpcService", ManagementService::PeerCenter),
        ("api.instance.ConnectorManageRpcService", ManagementService::ConnectorManage),
        ("api.instance.MappedListenerManageRpcService", ManagementService::MappedListenerManage),
        ("api.instance.VpnPortalRpcService", ManagementService::VpnPortal),
        ("api.instance.TcpProxyRpcService", ManagementService::TcpProxy),
        ("api.instance.AclManageRpcService", ManagementService::AclManage),
        ("api.instance.PortForwardManageRpcService", ManagementService::PortForwardManage),
        ("api.instance.StatsRpcService", ManagementService::Stats),
        ("api.instance.CredentialManageRpcService", ManagementService::CredentialManage),
        ("api.config.ConfigRpcService", ManagementService::Config),
    ];
    for (name, service) in table {
        assert_eq!(find_service(name), Some(service));
        assert!(matches!(
            call_official_management_json_rpc(name, "m", "d", Value::Null),
            Ok(call) if call.service == service && call.method == "m" && call.domain == "d"
        ));
    }
    assert_eq!(find_service("api.instance.statsRpcService"), None);
    match call_official_management_json_rpc("x", "m", "d", Value::Null) {
        Err(CallError::InvalidServiceKey(service, protocol)) => {
            assert_eq!((service.as_str(), protocol.as_str()), ("x", "x"));
            assert!(CallError::InvalidServiceKey(service, protocol).message().is_none());
        }
        _ => panic!("found"),
    }
}

#[test]
fn the_server_is_started_once_per_socket() {
    let mut state: Option<NearbyManagementHostServer<u8>> = None;
    let path = || Some(b"/s/sock".to_vec());
    assert!(matches!(
        ensure_runtime_management_server_started(&mut state, None, true),
        StartStep::NotInitialized
    ));
    assert!(matches!(
        ensure_runtime_management_server_started(&mut state, path(), true),
        StartStep::Serve(at) if at == b"/s/sock"
    ));
    assert!(!server_started(&mut state, b"/s/sock".to_vec(), None));
    assert!(state.is_none());
    assert!(server_started(&mut state, b"/s/sock".to_vec(), Some(5)));
    assert!(matches!(
        ensure_runtime_management_server_started(&mut state, path(), true),
        StartStep::AlreadyRunning
    ));
    assert_eq!(state.as_ref().unwrap().server, 5);
    assert!(matches!(
        ensure_runtime_management_server_started(&mut state, None, true),
        StartStep::NotInitialized
    ));
    assert!(state.is_some());
    assert!(matches!(
        ensure_runtime_management_server_started(&mut state, path(), false),
        StartStep::Serve(_)
    ));
    assert!(state.is_none());
    server_started(&mut state, b"/s/sock".to_vec(), Some(6));
    assert!(matches!(
        ensure_runtime_management_server_started(&mut state, Some(b"/t/sock".to_vec()), true),
        StartStep::Serve(_)
    ));
    server_started(&mut state, b"/t/sock".to_vec(), Some(7));
    assert!(stop_runtime_management_server(&mut state));
    assert!(!stop_runtime_management_server(&mut state));
}

#[test]
fn listening_goes_step_by_step() {
    let mut listener = NearbyUnixListener::new(b"/s/sock".to_vec());
    let mut bound = None;
    assert_eq!(SOCKET_MODE, 0o600);
    assert_eq!(NearbyUnixListener::<u8>::new(b"/".to_vec()).listen(), ListenStep::LookForStale);
    let mut step = listener.listen();
    let mut seen = vec![];
    while step != ListenStep::Ready {
        seen.push(step);
        assert!(listener.accept().is_err());
        let outcome = match step {
            ListenStep::LookForStale => ListenOutcome::Found,
            ListenStep::Bind => {
                bound = Some(5);
                ListenOutcome::Done
            }
            _ => ListenOutcome::Done,
        };
        step = listener.listen_next(step, outcome, &mut bound).unwrap();
    }
    assert_eq!(
        seen,
        vec![
            ListenStep::CreateParent,
            ListenStep::LookForStale,
            ListenStep::RemoveStale,
            ListenStep::Bind,
            ListenStep::RestrictMode,
        ]
    );
    assert_eq!(listener.accept(), Ok(&5));
    assert_eq!(bound, None);
    assert_eq!(listener.listen(), ListenStep::Ready);
    assert_eq!(
        listener.listen_next(ListenStep::Ready, ListenOutcome::Failed, &mut bound),
        Some(ListenStep::Ready)
    );
    assert_eq!(listener.accept(), Ok(&5));
}

#[test]
fn a_failed_step_ends_the_listening() {
    for step in [
        ListenStep::CreateParent,
        ListenStep::LookForStale,
        ListenStep::RemoveStale,
        ListenStep::Bind,
        ListenStep::RestrictMode,
    ] {
        let mut listener = NearbyUnixListener::new(vec![]);
        let mut bound = Some(5);
        assert_eq!(listener.listen_next(step, ListenOutcome::Failed, &mut bound), None);
        assert_eq!(bound, Some(5));
        assert!(listener.listener.is_none());
    }
    let mut listener = NearbyUnixListener::<u8>::new(vec![]);
    assert_eq!(
        listener.listen_next(ListenStep::LookForStale, ListenOutcome::Done, &mut None),
        Some(ListenStep::Bind)
    );
    assert_eq!(
        listener.accept().unwrap_err(),
        "nearby management listener is not started"
    );
}

#[test]
fn connections_know_the_socket_by_its_url() {
    assert_eq!(management_socket_url(b"/data/a b/s.sock"), "unix:///data/a%20b/s.sock");
    assert_eq!(find_management_socket_url(b"/data/s.sock").unwrap(), "unix:///data/s.sock");
    assert_eq!(find_management_socket_url(b"/\xff").unwrap(), "unix:///%EF%BF%BD");
    assert_eq!(find_management_socket_url(b"/a?b#c@[").unwrap(), "unix:///a?b#c@[");
    assert!(find_management_socket_url(b"[").is_none());
    let info = accepted_tunnel_info("unix:///s".to_owned());
    assert_eq!(info.tunnel_type, "unix");
    assert_eq!(info.local_addr.as_deref(), Some("unix:///s"));
    assert!(info.remote_addr.is_none() && info.resolved_remote_addr.is_none());
    let info = host_proxy_tunnel_info("unix:///r".to_owned());
    assert_eq!(info.tunnel_type, "unix");
    assert_eq!(info.remote_addr.as_deref(), Some("unix:///r"));
    assert!(info.local_addr.is_none() && info.resolved_remote_addr.is_none());
    assert_eq!(host_proxy_socket(Some(b"/r")).ok().unwrap(), b"/r/easytier-nearby-management.sock");
    assert!(matches!(host_proxy_socket(None), Err(ConfigError::StoreNotInitialized)));
}
