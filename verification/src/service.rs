//! The services that a management call may be addressed to.

use crate::text::same_text;
use serde_json::Value;
use vstd::prelude::*;

verus! {

/// The peer that both ends of a management session call themselves.
pub const RPC_PEER_ID: u32 = 1;

/// A service of the management surface.
#[derive(Clone, Copy, Debug, PartialEq, Eq, Structural)]
pub enum ManagementService {
    WebClient,
    Logger,
    PeerManage,
    PeerCenter,
    ConnectorManage,
    MappedListenerManage,
    VpnPortal,
    TcpProxy,
    AclManage,
    PortForwardManage,
    Stats,
    CredentialManage,
    Config,
}

/// The name under which callers know a service.
pub open spec fn service_name_of(service: ManagementService) -> Seq<char> {
    match service {
        ManagementService::WebClient => "api.manage.WebClientService"@,
        ManagementService::Logger => "api.logger.LoggerRpcService"@,
        ManagementService::PeerManage => "api.instance.PeerManageRpcService"@,
        ManagementService::PeerCenter => "api.instance.PeerCenterManageRpcService"@,
        ManagementService::ConnectorManage => "api.instance.ConnectorManageRpcService"@,
        ManagementService::MappedListenerManage => "api.instance.MappedListenerManageRpcService"@,
        ManagementService::VpnPortal => "api.instance.VpnPortalRpcService"@,
        ManagementService::TcpProxy => "api.instance.TcpProxyRpcService"@,
        ManagementService::AclManage => "api.instance.AclManageRpcService"@,
        ManagementService::PortForwardManage => "api.instance.PortForwardManageRpcService"@,
        ManagementService::Stats => "api.instance.StatsRpcService"@,
        ManagementService::CredentialManage => "api.instance.CredentialManageRpcService"@,
        ManagementService::Config => "api.config.ConfigRpcService"@,
    }
}

/// A call to be made: the service, the two peers, the domain, and what is asked.
pub struct ScopedCall {
    pub service: ManagementService,
    pub from_peer: u32,
    pub to_peer: u32,
    pub domain: String,
    pub method: String,
    pub payload: Value,
}

/// Why a call is not made.
pub enum CallError {
    /// Only the client end of a session calls.
    NotAClient,
    /// The session has nothing to call with.
    ClientUnavailable,
    /// No service has this name; it stands for the service and for its protocol.
    InvalidServiceKey(String, String),
}

/// Whether `call` is what becomes of a call to the service of the given name: it
/// goes to that service, or there is none.
pub open spec fn is_addressed(
    service_name: Seq<char>,
    method_name: Seq<char>,
    domain_name: Seq<char>,
    payload: Value,
    call: Result<ScopedCall, CallError>,
) -> bool {
    match call {
        Ok(call) => {
            &&& service_name == service_name_of(call.service)
            &&& call.from_peer == RPC_PEER_ID
            &&& call.to_peer == RPC_PEER_ID
            &&& call.domain@ == domain_name
            &&& call.method@ == method_name
            &&& call.payload == payload
        },
        Err(error) => {
            &&& forall|service: ManagementService|
                service_name != #[trigger] service_name_of(service)
            &&& error matches CallError::InvalidServiceKey(service, protocol)
            &&& service@ == service_name
            &&& protocol@ == service_name
        },
    }
}

impl CallError {
    /// What the session itself tells the caller; an unknown service is reported by
    /// its name alone.
    pub fn message(&self) -> (message: Option<String>)
        ensures
            match self {
                CallError::NotAClient => message is Some && message->0@
                    == "nearby host proxy sessions cannot originate management calls"@,
                CallError::ClientUnavailable => message is Some && message->0@
                    == "nearby RPC client is unavailable"@,
                CallError::InvalidServiceKey(_, _) => message is None,
            },
    {
        match self {
            CallError::NotAClient => Some(
                "nearby host proxy sessions cannot originate management calls".to_owned(),
            ),
            CallError::ClientUnavailable => Some("nearby RPC client is unavailable".to_owned()),
            CallError::InvalidServiceKey(_, _) => None,
        }
    }
}

/// The length of a service's name and three of its characters, by which it is told from
/// the others.
spec fn name_traits(service: ManagementService) -> (nat, char, char, char) {
    match service {
        ManagementService::WebClient => (27, 'm', 'b', 'C'),
        ManagementService::Logger => (27, 'l', 'g', 'g'),
        ManagementService::PeerManage => (33, 'i', 'P', 'e'),
        ManagementService::PeerCenter => (39, 'i', 'P', 'e'),
        ManagementService::ConnectorManage => (38, 'i', 'C', 'o'),
        ManagementService::MappedListenerManage => (43, 'i', 'M', 'a'),
        ManagementService::VpnPortal => (32, 'i', 'V', 'p'),
        ManagementService::TcpProxy => (31, 'i', 'T', 'c'),
        ManagementService::AclManage => (32, 'i', 'A', 'c'),
        ManagementService::PortForwardManage => (40, 'i', 'P', 'o'),
        ManagementService::Stats => (28, 'i', 'S', 't'),
        ManagementService::CredentialManage => (39, 'i', 'C', 'r'),
        ManagementService::Config => (27, 'c', 'n', 'f'),
    }
}

#[verifier::spinoff_prover]
proof fn lemma_name_traits(service: ManagementService)
    ensures
        name_traits(service) == ({
            let name = service_name_of(service);
            (name.len(), name[4], name[13], name[14])
        }),
{
    match service {
        ManagementService::WebClient => {
            reveal_strlit("api.manage.WebClientService");
        },
        ManagementService::Logger => {
            reveal_strlit("api.logger.LoggerRpcService");
        },
        ManagementService::PeerManage => {
            reveal_strlit("api.instance.PeerManageRpcService");
        },
        ManagementService::PeerCenter => {
            reveal_strlit("api.instance.PeerCenterManageRpcService");
        },
        ManagementService::ConnectorManage => {
            reveal_strlit("api.instance.ConnectorManageRpcService");
        },
        ManagementService::MappedListenerManage => {
            reveal_strlit("api.instance.MappedListenerManageRpcService");
        },
        ManagementService::VpnPortal => {
            reveal_strlit("api.instance.VpnPortalRpcService");
        },
        ManagementService::TcpProxy => {
            reveal_strlit("api.instance.TcpProxyRpcService");
        },
        ManagementService::AclManage => {
            reveal_strlit("api.instance.AclManageRpcService");
        },
        ManagementService::PortForwardManage => {
            reveal_strlit("api.instance.PortForwardManageRpcService");
        },
        ManagementService::Stats => {
            reveal_strlit("api.instance.StatsRpcService");
        },
        ManagementService::CredentialManage => {
            reveal_strlit("api.instance.CredentialManageRpcService");
        },
        ManagementService::Config => {
            reveal_strlit("api.config.ConfigRpcService");
        },
    }
}

/// No two services share a name.
pub proof fn lemma_service_names_distinct(a: ManagementService, b: ManagementService)
    requires
        service_name_of(a) == service_name_of(b),
    ensures
        a == b,
{
    lemma_name_traits(a);
    lemma_name_traits(b);
    assert(name_traits(a) == name_traits(b));
}

/// The service of the given name.
pub fn find_service(service_name: &str) -> (found: Option<ManagementService>)
    ensures
        match found {
            Some(service) => service_name@ == service_name_of(service),
            None => forall|service: ManagementService|
                service_name@ != #[trigger] service_name_of(service),
        },
{
    if same_text(service_name, "api.manage.WebClientService") {
        Some(ManagementService::WebClient)
    } else if same_text(service_name, "api.logger.LoggerRpcService") {
        Some(ManagementService::Logger)
    } else if same_text(service_name, "api.instance.PeerManageRpcService") {
        Some(ManagementService::PeerManage)
    } else if same_text(service_name, "api.instance.PeerCenterManageRpcService") {
        Some(ManagementService::PeerCenter)
    } else if same_text(service_name, "api.instance.ConnectorManageRpcService") {
        Some(ManagementService::ConnectorManage)
    } else if same_text(service_name, "api.instance.MappedListenerManageRpcService") {
        Some(ManagementService::MappedListenerManage)
    } else if same_text(service_name, "api.instance.VpnPortalRpcService") {
        Some(ManagementService::VpnPortal)
    } else if same_text(service_name, "api.instance.TcpProxyRpcService") {
        Some(ManagementService::TcpProxy)
    } else if same_text(service_name, "api.instance.AclManageRpcService") {
        Some(ManagementService::AclManage)
    } else if same_text(service_name, "api.instance.PortForwardManageRpcService") {
        Some(ManagementService::PortForwardManage)
    } else if same_text(service_name, "api.instance.StatsRpcService") {
        Some(ManagementService::Stats)
    } else if same_text(service_name, "api.instance.CredentialManageRpcService") {
        Some(ManagementService::CredentialManage)
    } else if same_text(service_name, "api.config.ConfigRpcService") {
        Some(ManagementService::Config)
    } else {
        None
    }
}

/// Addresses a call to the service of the given name.
pub fn call_official_management_json_rpc(
    service_name: &str,
    method_name: &str,
    domain_name: &str,
    payload: Value,
) -> (call: Result<ScopedCall, CallError>)
    ensures
        is_addressed(service_name@, method_name@, domain_name@, payload, call),
        call is Ok <==> exists|service: ManagementService|
            service_name@ == #[trigger] service_name_of(service),
        call matches Ok(call) ==> {
            &&& service_name_of(call.service) == service_name@
            &&& call.from_peer == 1
            &&& call.to_peer == 1
            &&& call.domain@ == domain_name@
            &&& call.method@ == method_name@
            &&& call.payload == payload
        },
        call matches Err(error) ==> (error matches CallError::InvalidServiceKey(service, protocol)
            && service@ == service_name@ && protocol@ == service_name@),
{
    match find_service(service_name) {
        Some(service) => Ok(
            ScopedCall {
                service,
                from_peer: RPC_PEER_ID,
                to_peer: RPC_PEER_ID,
                domain: domain_name.to_owned(),
                method: method_name.to_owned(),
                payload,
            },
        ),
        None => Err(
            CallError::InvalidServiceKey(service_name.to_owned(), service_name.to_owned()),
        ),
    }
}

/// A call to a service by its name is made, to that service, between the two ends of
/// the session, and carries the domain, the method and the payload that were given.
pub proof fn lemma_calls_carry_what_was_given(
    service: ManagementService,
    method_name: Seq<char>,
    domain_name: Seq<char>,
    payload: Value,
    call: Result<ScopedCall, CallError>,
)
    requires
        is_addressed(service_name_of(service), method_name, domain_name, payload, call),
    ensures
        call is Ok,
        call->Ok_0.service == service,
        call->Ok_0.payload == payload,
        call->Ok_0.method@ == method_name,
        call->Ok_0.domain@ == domain_name,
        call->Ok_0.from_peer == call->Ok_0.to_peer,
        call->Ok_0.to_peer == 1,
{
    if call is Ok {
        lemma_service_names_distinct(call->Ok_0.service, service);
    }
}

/// A name that no service has is refused, and the refusal names it.
pub proof fn lemma_unknown_services_are_refused(
    service_name: Seq<char>,
    method_name: Seq<char>,
    domain_name: Seq<char>,
    payload: Value,
    call: Result<ScopedCall, CallError>,
)
    requires
        is_addressed(service_name, method_name, domain_name, payload, call),
        forall|service: ManagementService| service_name != #[trigger] service_name_of(service),
    ensures
        call matches Err(CallError::InvalidServiceKey(service, protocol)) && service@
            == service_name && protocol@ == service_name,
{
}

/// Two calls to one service differ in what they carry exactly as what they were given
/// differs.
pub proof fn lemma_distinct_calls_stay_distinct(
    service_name: Seq<char>,
    method_name: Seq<char>,
    other_method: Seq<char>,
    domain_name: Seq<char>,
    other_domain: Seq<char>,
    payload: Value,
    other_payload: Value,
    call: ScopedCall,
    other: ScopedCall,
)
    requires
        is_addressed(service_name, method_name, domain_name, payload, Ok(call)),
        is_addressed(service_name, other_method, other_domain, other_payload, Ok(other)),
    ensures
        call.service == other.service,
        call.payload == other.payload <==> payload == other_payload,
        call.method@ == other.method@ <==> method_name == other_method,
        call.domain@ == other.domain@ <==> domain_name == other_domain,
{
    lemma_service_names_distinct(call.service, other.service);
}

} // verus!
