//! The one management server of the process that runs the instance.

use crate::paths::{components, same_path};
use vstd::prelude::*;

verus! {

/// A running management server. `Server` is what keeps it running.
pub struct NearbyManagementHostServer<Server> {
    pub socket_path: Vec<u8>,
    pub server: Server,
}

/// What is to be done so that the server runs.
pub enum StartStep {
    /// Nothing can be done: there is no configuration root.
    NotInitialized,
    /// Nothing has to be done.
    AlreadyRunning,
    /// Serve on the socket at this path.
    Serve(Vec<u8>),
}

/// Whether a server runs on the socket at `path`.
pub open spec fn runs_at<Server>(
    state: Option<NearbyManagementHostServer<Server>>,
    path: Seq<u8>,
) -> bool {
    state is Some && components(state->0.socket_path@) == components(path)
}

/// Whether `step` is the one that gets a server running, and `before` goes over into
/// `after` with it: a server that has lost its socket, or that listens elsewhere, is
/// dropped.
pub open spec fn is_start<Server>(
    before: Option<NearbyManagementHostServer<Server>>,
    after: Option<NearbyManagementHostServer<Server>>,
    socket_path: Option<Vec<u8>>,
    socket_exists: bool,
    step: StartStep,
) -> bool {
    match socket_path {
        None => step is NotInitialized && after == before,
        Some(path) => if runs_at(before, path@) && socket_exists {
            step is AlreadyRunning && after == before
        } else {
            step == StartStep::Serve(path) && after is None
        },
    }
}

/// Decides how to get the server running.
pub fn ensure_runtime_management_server_started<Server>(
    state: &mut Option<NearbyManagementHostServer<Server>>,
    socket_path: Option<Vec<u8>>,
    socket_exists: bool,
) -> (step: StartStep)
    ensures
        is_start(*old(state), *final(state), socket_path, socket_exists, step),
        step is NotInitialized <==> socket_path is None,
        step is AlreadyRunning ==> socket_exists && *old(state) is Some && *final(state) == *old(
            state,
        ),
        socket_path is Some && *old(state) is None ==> step == StartStep::Serve(socket_path->0),
        socket_path is Some && !socket_exists ==> step == StartStep::Serve(socket_path->0),
{
    let path = match socket_path {
        Some(path) => path,
        None => return StartStep::NotInitialized,
    };
    let running = match &*state {
        Some(server) => socket_exists && same_path(
            server.socket_path.as_slice(),
            path.as_slice(),
        ),
        None => false,
    };
    if running {
        return StartStep::AlreadyRunning;
    }
    *state = None;
    StartStep::Serve(path)
}

/// Whether `before` goes over into `after` when a server was to be started on the socket
/// at a path, and `running` says whether it was.
pub open spec fn is_kept<Server>(
    before: Option<NearbyManagementHostServer<Server>>,
    after: Option<NearbyManagementHostServer<Server>>,
    socket_path: Vec<u8>,
    server: Option<Server>,
    running: bool,
) -> bool {
    match server {
        Some(server) => running && after == Some(NearbyManagementHostServer { socket_path, server }),
        None => !running && after == before,
    }
}

/// Whether `before` goes over into `after` when the server is stopped, and `stopped` says
/// whether there was one.
pub open spec fn is_stop<Server>(
    before: Option<NearbyManagementHostServer<Server>>,
    after: Option<NearbyManagementHostServer<Server>>,
    stopped: bool,
) -> bool {
    after is None && stopped == (before is Some)
}

/// Keeps a server that has been started, and says whether one was.
pub fn server_started<Server>(
    state: &mut Option<NearbyManagementHostServer<Server>>,
    socket_path: Vec<u8>,
    server: Option<Server>,
) -> (running: bool)
    ensures
        is_kept(*old(state), *final(state), socket_path, server, running),
        running == (server is Some),
        *final(state) == match server {
            Some(server) => Some(NearbyManagementHostServer { socket_path, server }),
            None => *old(state),
        },
{
    match server {
        Some(server) => {
            *state = Some(NearbyManagementHostServer { socket_path, server });
            true
        },
        None => false,
    }
}

/// Stops the server, and says whether there was one.
pub fn stop_runtime_management_server<Server>(
    state: &mut Option<NearbyManagementHostServer<Server>>,
) -> (stopped: bool)
    ensures
        is_stop(*old(state), *final(state), stopped),
        stopped == (*old(state) is Some),
        *final(state) is None,
{
    state.take().is_some()
}

/// A server that has been started on a socket is kept, and not started again, for
/// as long as the socket is there.
pub proof fn lemma_started_once<Server>(
    server: NearbyManagementHostServer<Server>,
    after: Option<NearbyManagementHostServer<Server>>,
    socket_path: Vec<u8>,
    step: StartStep,
)
    requires
        socket_path@ == server.socket_path@,
        is_start(Some(server), after, Some(socket_path), true, step),
    ensures
        step is AlreadyRunning,
        after == Some(server),
{
}

/// There are never two servers: by the time that one is to be served, none is kept.
pub proof fn lemma_one_server_at_a_time<Server>(
    before: Option<NearbyManagementHostServer<Server>>,
    after: Option<NearbyManagementHostServer<Server>>,
    socket_path: Option<Vec<u8>>,
    socket_exists: bool,
    step: StartStep,
)
    requires
        is_start(before, after, socket_path, socket_exists, step),
        step is Serve,
    ensures
        after is None,
        socket_path == Some(step->Serve_0),
{
}

/// The server is left alone only where one is kept on the socket at the path and the
/// socket is there; nothing is done only where there is no path; and in every other
/// case a server is to be served on the socket at the path.
pub proof fn lemma_left_alone_only_while_running<Server>(
    before: Option<NearbyManagementHostServer<Server>>,
    after: Option<NearbyManagementHostServer<Server>>,
    socket_path: Option<Vec<u8>>,
    socket_exists: bool,
    step: StartStep,
)
    requires
        is_start(before, after, socket_path, socket_exists, step),
    ensures
        step is NotInitialized <==> socket_path is None,
        step is AlreadyRunning <==> {
            &&& socket_path is Some
            &&& before is Some
            &&& components(before->0.socket_path@) == components(socket_path->0@)
            &&& socket_exists
        },
        step is Serve ==> socket_path == Some(step->Serve_0) && after is None,
        !(step is Serve) ==> after == before,
{
}

/// Where no server is kept, as before the first start and after a stop, one is to be
/// served, whether or not something stands where its socket will.
pub proof fn lemma_first_start_serves<Server>(
    after: Option<NearbyManagementHostServer<Server>>,
    socket_path: Vec<u8>,
    socket_exists: bool,
    step: StartStep,
)
    requires
        is_start(None, after, Some(socket_path), socket_exists, step),
    ensures
        step == StartStep::Serve(socket_path),
{
}

/// Two starts that find the same are decided alike.
pub proof fn lemma_starts_agree<Server>(
    before: Option<NearbyManagementHostServer<Server>>,
    after: Option<NearbyManagementHostServer<Server>>,
    other_after: Option<NearbyManagementHostServer<Server>>,
    socket_path: Option<Vec<u8>>,
    socket_exists: bool,
    step: StartStep,
    other_step: StartStep,
)
    requires
        is_start(before, after, socket_path, socket_exists, step),
        is_start(before, other_after, socket_path, socket_exists, other_step),
    ensures
        step == other_step,
        after == other_after,
{
}

/// A server that has just been started runs: asking for it again finds it running, as
/// long as its socket is there, and it is that server which is kept.
pub proof fn lemma_started_then_running<Server>(
    before: Option<NearbyManagementHostServer<Server>>,
    kept: Option<NearbyManagementHostServer<Server>>,
    after: Option<NearbyManagementHostServer<Server>>,
    socket_path: Vec<u8>,
    asked_path: Vec<u8>,
    server: Server,
    running: bool,
    step: StartStep,
)
    requires
        is_kept(before, kept, socket_path, Some(server), running),
        components(asked_path@) == components(socket_path@),
        is_start(kept, after, Some(asked_path), true, step),
    ensures
        running,
        step is AlreadyRunning,
        after is Some,
        after->0.server == server,
        after->0.socket_path == socket_path,
{
}

/// A server that could not be started is not kept: asking for it again is decided as if
/// nothing had been tried.
pub proof fn lemma_failed_start_is_tried_again<Server>(
    before: Option<NearbyManagementHostServer<Server>>,
    served: Option<NearbyManagementHostServer<Server>>,
    kept: Option<NearbyManagementHostServer<Server>>,
    after: Option<NearbyManagementHostServer<Server>>,
    socket_path: Vec<u8>,
    socket_exists: bool,
    exists_now: bool,
    running: bool,
    step: StartStep,
    next_step: StartStep,
)
    requires
        is_start(before, served, Some(socket_path), socket_exists, step),
        step is Serve,
        is_kept(served, kept, socket_path, None, running),
        is_start(kept, after, Some(socket_path), exists_now, next_step),
    ensures
        !running,
        next_step == StartStep::Serve(socket_path),
{
}

/// After a stop nothing runs: a second stop finds no server, and asking for one serves
/// it anew.
pub proof fn lemma_stopped_then_served<Server>(
    before: Option<NearbyManagementHostServer<Server>>,
    stopped_state: Option<NearbyManagementHostServer<Server>>,
    again: Option<NearbyManagementHostServer<Server>>,
    after: Option<NearbyManagementHostServer<Server>>,
    socket_path: Vec<u8>,
    socket_exists: bool,
    stopped: bool,
    stopped_again: bool,
    step: StartStep,
)
    requires
        is_stop(before, stopped_state, stopped),
        is_stop(stopped_state, again, stopped_again),
        is_start(again, after, Some(socket_path), socket_exists, step),
    ensures
        stopped <==> before is Some,
        !stopped_again,
        step == StartStep::Serve(socket_path),
{
}

} // verus!
