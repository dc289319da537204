//! Which management calls may reach the running instance: everything that reads,
//! and the overwriting of the one running instance with its own configuration.

use crate::config_store::{config_path_of, management_config_path, path_view, root_view};
use crate::instance_id::{hyphenated, lemma_hyphenated_distinct, uuid_text, InstanceId};
use crate::paths::components;
use crate::storage::{
    display_name, display_name_of, owns_path, text_view, ConfigFileControl, ConfigRecord,
};
use vstd::prelude::*;

verus! {

/// Why a management call is refused.
pub enum ServiceError {
    /// The call does not ask for an overwrite.
    OverwriteNotRequested,
    /// The call names no instance.
    InstanceIdMissing,
    /// The instance is not the one that runs, or not the only one.
    NotTheRunningInstance,
    /// There is no configuration root yet.
    StoreNotInitialized,
    /// Nothing is known of the instance's configuration file.
    ControlMissing,
    /// The instance's configuration file is not a managed one.
    NotOwned,
    /// Instances are never retained, so never removed.
    RetainRefused,
    /// Instances are never deleted.
    DeleteRefused,
}

/// What a refusal tells the caller.
pub open spec fn refusal_message(error: ServiceError) -> Seq<char> {
    match error {
        ServiceError::OverwriteNotRequested => "nearby management requires an explicit overwrite"@,
        ServiceError::InstanceIdMissing => "nearby management requires an instance ID"@,
        ServiceError::NotTheRunningInstance => "nearby management may only overwrite the single running HarmonyOS instance"@,
        ServiceError::StoreNotInitialized => "HarmonyOS config store is not initialized"@,
        ServiceError::ControlMissing => "running instance config control is missing"@,
        ServiceError::NotOwned => "running instance is not owned by the HarmonyOS nearby console"@,
        ServiceError::RetainRefused => "nearby management cannot retain or remove HarmonyOS instances"@,
        ServiceError::DeleteRefused => "nearby management cannot stop or delete a HarmonyOS instance"@,
    }
}

impl ServiceError {
    pub fn message(&self) -> (message: String)
        ensures
            message@ == refusal_message(*self),
    {
        match self {
            ServiceError::OverwriteNotRequested => {
                "nearby management requires an explicit overwrite".to_owned()
            },
            ServiceError::InstanceIdMissing => {
                "nearby management requires an instance ID".to_owned()
            },
            ServiceError::NotTheRunningInstance => {
                "nearby management may only overwrite the single running HarmonyOS instance".to_owned()
            },
            ServiceError::StoreNotInitialized => {
                "HarmonyOS config store is not initialized".to_owned()
            },
            ServiceError::ControlMissing => {
                "running instance config control is missing".to_owned()
            },
            ServiceError::NotOwned => {
                "running instance is not owned by the HarmonyOS nearby console".to_owned()
            },
            ServiceError::RetainRefused => {
                "nearby management cannot retain or remove HarmonyOS instances".to_owned()
            },
            ServiceError::DeleteRefused => {
                "nearby management cannot stop or delete a HarmonyOS instance".to_owned()
            },
        }
    }
}

/// What a call to run an instance asks for.
pub struct RunRequest {
    /// Whether a running instance may be replaced.
    pub overwrite: bool,
    /// The instance to run.
    pub inst_id: Option<InstanceId>,
}

/// The calls of the management service.
#[derive(Clone, Copy, PartialEq, Eq, Structural)]
pub enum WebClientCall {
    ValidateConfig,
    RunNetworkInstance,
    RetainNetworkInstance,
    CollectNetworkInfo,
    ListNetworkInstance,
    DeleteNetworkInstance,
    GetNetworkInstanceConfig,
    ListNetworkInstanceMeta,
}

/// Whether `id` is the one running instance.
pub open spec fn is_the_running_instance(running: Seq<InstanceId>, id: InstanceId) -> bool {
    running.len() == 1 && running[0] == id
}

/// Whether the requested instance may be overwritten, and if not, the first
/// reason why.
pub open spec fn overwrite_verdict(
    request: RunRequest,
    running: Seq<InstanceId>,
    root: Option<Seq<u8>>,
    control: Option<ConfigFileControl>,
) -> Result<(), ServiceError> {
    if !request.overwrite {
        Err(ServiceError::OverwriteNotRequested)
    } else if request.inst_id is None {
        Err(ServiceError::InstanceIdMissing)
    } else if !is_the_running_instance(running, request.inst_id->0) {
        Err(ServiceError::NotTheRunningInstance)
    } else if root is None {
        Err(ServiceError::StoreNotInitialized)
    } else if control is None {
        Err(ServiceError::ControlMissing)
    } else if !owns_path(control->0, config_path_of(root->0, request.inst_id->0)) {
        Err(ServiceError::NotOwned)
    } else {
        Ok(())
    }
}

/// Whether a call may be handed on, and if not, why.
pub open spec fn call_verdict(
    call: WebClientCall,
    request: RunRequest,
    running: Seq<InstanceId>,
    root: Option<Seq<u8>>,
    control: Option<ConfigFileControl>,
) -> Result<(), ServiceError> {
    match call {
        WebClientCall::RunNetworkInstance => overwrite_verdict(request, running, root, control),
        WebClientCall::RetainNetworkInstance => Err(ServiceError::RetainRefused),
        WebClientCall::DeleteNetworkInstance => Err(ServiceError::DeleteRefused),
        _ => Ok(()),
    }
}

/// A call that is handed on reads, or replaces the one running instance, on
/// explicit request, in its own managed configuration, which stays undeletable.
pub proof fn lemma_calls_handed_on(
    call: WebClientCall,
    request: RunRequest,
    running: Seq<InstanceId>,
    root: Option<Seq<u8>>,
    control: Option<ConfigFileControl>,
)
    requires
        call_verdict(call, request, running, root, control) is Ok,
    ensures
        call != WebClientCall::RetainNetworkInstance,
        call != WebClientCall::DeleteNetworkInstance,
        call == WebClientCall::RunNetworkInstance ==> {
            &&& request.overwrite
            &&& request.inst_id is Some
            &&& is_the_running_instance(running, request.inst_id->0)
            &&& root is Some
            &&& control is Some
            &&& owns_path(control->0, config_path_of(root->0, request.inst_id->0))
            &&& !control->0.read_only
            &&& control->0.no_delete
        },
{
}

/// The control that a running instance is given lets nearby management overwrite
/// it, as long as no other instance runs.
pub proof fn lemma_runtime_control_allows_overwrite(
    id: InstanceId,
    root: Seq<u8>,
    control: ConfigFileControl,
)
    requires
        path_view(control.path) == Some(config_path_of(root, id)),
        !control.read_only,
        control.no_delete,
    ensures
        overwrite_verdict(
            RunRequest { overwrite: true, inst_id: Some(id) },
            seq![id],
            Some(root),
            Some(control),
        ) is Ok,
{
}

fn is_single_running(running: &[InstanceId], id: InstanceId) -> (r: bool)
    ensures
        r == is_the_running_instance(running@, id),
{
    running.len() == 1 && running[0] == id
}

/// The management service for the running instance.
pub struct NearbyWebClientService;

impl NearbyWebClientService {
    /// Whether the requested instance may be overwritten. `control` is what is
    /// known of the requested instance's configuration file.
    pub fn ensure_safe_overwrite(
        request: &RunRequest,
        running: &[InstanceId],
        root: Option<&[u8]>,
        control: &Option<ConfigFileControl>,
    ) -> (verdict: Result<(), ServiceError>)
        ensures
            verdict == overwrite_verdict(*request, running@, root_view(root), *control),
            verdict is Ok <==> {
                &&& request.overwrite
                &&& request.inst_id is Some
                &&& running@ == seq![request.inst_id->0]
                &&& root is Some
                &&& control is Some
                &&& control->0.path is Some
                &&& components(control->0.path->0@) == components(
                    config_path_of(root->0@, request.inst_id->0),
                )
                &&& !control->0.read_only
                &&& control->0.no_delete
            },
    {
        proof {
            if running@.len() == 1 {
                assert(running@ =~= seq![running@[0]]);
            }
        }
        if !request.overwrite {
            return Err(ServiceError::OverwriteNotRequested);
        }
        let requested_id = match request.inst_id {
            Some(id) => id,
            None => return Err(ServiceError::InstanceIdMissing),
        };
        if !is_single_running(running, requested_id) {
            return Err(ServiceError::NotTheRunningInstance);
        }
        let expected_path = match management_config_path(requested_id, root) {
            Some(path) => path,
            None => return Err(ServiceError::StoreNotInitialized),
        };
        match control {
            Some(control) => if control.controls(expected_path.as_slice()) {
                Ok(())
            } else {
                Err(ServiceError::NotOwned)
            },
            None => Err(ServiceError::ControlMissing),
        }
    }

    /// Whether a call may be handed on to the instance manager.
    pub fn check_call(
        call: WebClientCall,
        request: &RunRequest,
        running: &[InstanceId],
        root: Option<&[u8]>,
        control: &Option<ConfigFileControl>,
    ) -> (verdict: Result<(), ServiceError>)
        ensures
            verdict == call_verdict(call, *request, running@, root_view(root), *control),
            call == WebClientCall::RetainNetworkInstance ==> verdict == Err::<(), ServiceError>(
                ServiceError::RetainRefused,
            ),
            call == WebClientCall::DeleteNetworkInstance ==> verdict == Err::<(), ServiceError>(
                ServiceError::DeleteRefused,
            ),
            call == WebClientCall::RunNetworkInstance ==> (verdict is Ok <==> {
                &&& request.overwrite
                &&& request.inst_id is Some
                &&& running@ == seq![request.inst_id->0]
                &&& root is Some
                &&& control is Some
                &&& control->0.path is Some
                &&& components(control->0.path->0@) == components(
                    config_path_of(root->0@, request.inst_id->0),
                )
                &&& !control->0.read_only
                &&& control->0.no_delete
            }),
            verdict is Err ==> call == WebClientCall::RunNetworkInstance || call
                == WebClientCall::RetainNetworkInstance || call
                == WebClientCall::DeleteNetworkInstance,
    {
        match call {
            WebClientCall::RunNetworkInstance => Self::ensure_safe_overwrite(
                request,
                running,
                root,
                control,
            ),
            WebClientCall::RetainNetworkInstance => Err(ServiceError::RetainRefused),
            WebClientCall::DeleteNetworkInstance => Err(ServiceError::DeleteRefused),
            WebClientCall::ValidateConfig => Ok(()),
            WebClientCall::CollectNetworkInfo => Ok(()),
            WebClientCall::ListNetworkInstance => Ok(()),
            WebClientCall::GetNetworkInstanceConfig => Ok(()),
            WebClientCall::ListNetworkInstanceMeta => Ok(()),
        }
    }
}

/// Whether `record` is what is kept of an instance once it has been restarted.
/// `instance_name` is the name that its configuration gives itself, where it runs.
pub open spec fn is_after_run(
    instance_id: InstanceId,
    instance_name: Option<String>,
    stored_name: Option<String>,
    running_name: Option<String>,
    record: Result<ConfigRecord, String>,
) -> bool {
    match instance_name {
        Some(own_name) => {
            &&& record is Ok
            &&& record->Ok_0.key@ == hyphenated(instance_id)
            &&& record->Ok_0.display_name@ == display_name_of(
                text_view(stored_name),
                text_view(running_name),
                own_name@,
            )
        },
        None => record is Err && record->Err_0@ == "instance "@ + hyphenated(instance_id)
            + " is missing after restart"@,
    }
}

/// What happens around the replacement of the running instance.
pub struct NearbyMutationHooks;

impl NearbyMutationHooks {
    /// Whether the instance `config_id` may be started now.
    pub fn pre_run_network_instance(
        config_id: InstanceId,
        running: &[InstanceId],
    ) -> (verdict: Result<(), String>)
        ensures
            verdict is Ok <==> is_the_running_instance(running@, config_id),
            verdict is Ok <==> running@.len() == 1 && running@[0] == config_id,
            verdict matches Err(message) ==> message@ == refusal_message(
                ServiceError::NotTheRunningInstance,
            ),
    {
        if is_single_running(running, config_id) {
            Ok(())
        } else {
            Err(ServiceError::NotTheRunningInstance.message())
        }
    }

    /// The record to keep of the instance once it has been restarted.
    /// `instance_name` is the name that its configuration gives itself, where the
    /// instance runs.
    pub fn post_run_network_instance(
        instance_id: InstanceId,
        instance_name: Option<String>,
        stored_name: Option<String>,
        running_name: Option<String>,
    ) -> (record: Result<ConfigRecord, String>)
        ensures
            is_after_run(instance_id, instance_name, stored_name, running_name, record),
            match instance_name {
                Some(own_name) => record is Ok && record->Ok_0.key@ == hyphenated(instance_id)
                    && record->Ok_0.display_name@ == display_name_of(
                    text_view(stored_name),
                    text_view(running_name),
                    own_name@,
                ),
                None => record is Err && record->Err_0@ == "instance "@ + hyphenated(instance_id)
                    + " is missing after restart"@,
            },
            record matches Ok(record) ==> {
                &&& stored_name is Some ==> record.display_name@ == stored_name->0@
                &&& stored_name is None && running_name is Some ==> record.display_name@
                    == running_name->0@
                &&& stored_name is None && running_name is None ==> record.display_name@
                    == instance_name->0@
            },
    {
        match instance_name {
            Some(own_name) => Ok(
                ConfigRecord {
                    key: uuid_text(instance_id),
                    display_name: display_name(stored_name, running_name, own_name),
                },
            ),
            None => {
                let mut message = "instance ".to_owned();
                message.append(uuid_text(instance_id).as_str());
                message.append(" is missing after restart");
                Err(message)
            },
        }
    }
}

/// A call to run the one running instance, with the control that it was given and on
/// explicit request, is handed on.
pub proof fn lemma_runtime_control_hands_the_run_on(
    id: InstanceId,
    root: Seq<u8>,
    control: ConfigFileControl,
)
    requires
        path_view(control.path) == Some(config_path_of(root, id)),
        !control.read_only,
        control.no_delete,
    ensures
        call_verdict(
            WebClientCall::RunNetworkInstance,
            RunRequest { overwrite: true, inst_id: Some(id) },
            seq![id],
            Some(root),
            Some(control),
        ) is Ok,
{
}

/// A call to run an instance is handed on exactly where it asks for an overwrite of the
/// one instance that runs, and that instance's control opens its own managed file to
/// writing and closes it to deletion.
pub proof fn lemma_runs_handed_on(
    request: RunRequest,
    running: Seq<InstanceId>,
    root: Option<Seq<u8>>,
    control: Option<ConfigFileControl>,
)
    ensures
        call_verdict(WebClientCall::RunNetworkInstance, request, running, root, control) is Ok <==> {
            &&& request.overwrite
            &&& request.inst_id is Some
            &&& running == seq![request.inst_id->0]
            &&& root is Some
            &&& control is Some
            &&& control->0.path is Some
            &&& components(control->0.path->0@) == components(
                config_path_of(root->0, request.inst_id->0),
            )
            &&& !control->0.read_only
            &&& control->0.no_delete
        },
{
    if running.len() == 1 {
        assert(running =~= seq![running[0]]);
    }
}

/// A call to run an instance is refused for the first reason there is.
pub proof fn lemma_runs_refused(
    request: RunRequest,
    running: Seq<InstanceId>,
    root: Option<Seq<u8>>,
    control: Option<ConfigFileControl>,
    error: ServiceError,
)
    requires
        call_verdict(WebClientCall::RunNetworkInstance, request, running, root, control) == Err::<
            (),
            ServiceError,
        >(error),
    ensures
        error is OverwriteNotRequested <==> !request.overwrite,
        error is InstanceIdMissing <==> request.overwrite && request.inst_id is None,
        error is NotTheRunningInstance <==> request.overwrite && request.inst_id is Some && !(
        running.len() == 1 && running[0] == request.inst_id->0),
        error is StoreNotInitialized ==> root is None,
        error is ControlMissing ==> root is Some && control is None,
        error is NotOwned ==> root is Some && control is Some,
        !(error is RetainRefused) && !(error is DeleteRefused),
        request.overwrite && request.inst_id is Some && running == seq![request.inst_id->0] ==> {
            &&& root is None ==> error is StoreNotInitialized
            &&& root is Some && control is None ==> error is ControlMissing
            &&& root is Some && control is Some ==> error is NotOwned
        },
{
}

/// Calls that only read are handed on, whatever runs, and calls that could stop or
/// remove an instance never are.
pub proof fn lemma_reads_pass_and_removals_do_not(
    call: WebClientCall,
    request: RunRequest,
    running: Seq<InstanceId>,
    root: Option<Seq<u8>>,
    control: Option<ConfigFileControl>,
)
    requires
        call != WebClientCall::RunNetworkInstance,
    ensures
        match call_verdict(call, request, running, root, control) {
            Ok(_) => call == WebClientCall::ValidateConfig || call
                == WebClientCall::CollectNetworkInfo || call == WebClientCall::ListNetworkInstance
                || call == WebClientCall::GetNetworkInstanceConfig || call
                == WebClientCall::ListNetworkInstanceMeta,
            Err(ServiceError::RetainRefused) => call == WebClientCall::RetainNetworkInstance,
            Err(ServiceError::DeleteRefused) => call == WebClientCall::DeleteNetworkInstance,
            Err(_) => false,
        },
{
}

/// An instance that runs after its restart is recorded, under its own key and with the
/// first of the stored, the running and its own name; one that does not is reported by
/// its identifier.
pub proof fn lemma_restarts_are_recorded(
    instance_id: InstanceId,
    other_id: InstanceId,
    instance_name: Option<String>,
    stored_name: Option<String>,
    running_name: Option<String>,
    record: Result<ConfigRecord, String>,
    other: Result<ConfigRecord, String>,
)
    requires
        is_after_run(instance_id, instance_name, stored_name, running_name, record),
        is_after_run(other_id, instance_name, stored_name, running_name, other),
    ensures
        record is Ok <==> instance_name is Some,
        record is Ok && other is Ok ==> (record->Ok_0.key@ == other->Ok_0.key@ <==> instance_id
            == other_id),
        record is Ok ==> record->Ok_0.key@ == hyphenated(instance_id),
        record is Ok && stored_name is Some ==> record->Ok_0.display_name@ == stored_name->0@,
        record is Ok && stored_name is None && running_name is Some
            ==> record->Ok_0.display_name@ == running_name->0@,
        record is Ok && stored_name is None && running_name is None
            ==> record->Ok_0.display_name@ == instance_name->0@,
        record is Err ==> record->Err_0@ == "instance "@ + hyphenated(instance_id)
            + " is missing after restart"@,
{
    if hyphenated(instance_id) == hyphenated(other_id) {
        lemma_hyphenated_distinct(instance_id, other_id);
    }
}

} // verus!
