//! The socket that the management server listens on.

use crate::config_store::{
    lemma_socket_path_components, management_socket_path, root_view, socket_path_of, ConfigError,
    MANAGEMENT_SOCKET_FILE_NAME,
};
use crate::paths::{components, has_parent, is_rooted, path_has_parent, SEPARATOR};
use crate::text::{lossy_text, lossy_text_of};
use vstd::prelude::*;
use vstd::utf8::{
    codepoint_width_1, decode_first_scalar, decode_utf8, encode_utf8, is_ascii_chars,
    is_ascii_chars_encode_utf8, is_leading_byte_width_1, pop_first_scalar, valid_utf8,
};

verus! {

/// The kind of tunnel that a management connection is.
pub const TUNNEL_TYPE: &'static str = "unix";

/// Who may touch the socket: its owner, for reading and writing.
pub const SOCKET_MODE: u32 = 0o600;

/// The URL that a text is taken for, written out, if it is taken for one.
pub uninterp spec fn parsed_url(text: Seq<char>) -> Option<Seq<char>>;

/// `Url::parse`. Whatever follows `unix:///` is a path, a query and a fragment,
/// none of which is ever refused for what it holds.
#[verifier::external_body]
fn parse_url(text: &str) -> (url: Option<String>)
    ensures
        match url {
            Some(url) => parsed_url(text@) == Some(url@),
            None => parsed_url(text@) is None,
        },
        "unix:///"@.is_prefix_of(text@) && text@.len() <= 0x1000_0000 ==> url is Some,
{
    url::Url::parse(text).ok().map(|url| url.to_string())
}

/// The text of a socket's URL.
pub open spec fn socket_url_text(path: Seq<u8>) -> Seq<char> {
    "unix://"@ + lossy_text_of(path)
}

/// What is known of a management connection.
pub struct TunnelInfo {
    pub tunnel_type: String,
    pub local_addr: Option<String>,
    pub remote_addr: Option<String>,
    pub resolved_remote_addr: Option<String>,
}

/// What is to be done next so that the socket is listened on.
#[derive(Clone, Copy, Debug, PartialEq, Eq, Structural)]
pub enum ListenStep {
    /// Create the directory that the socket stands in.
    CreateParent,
    /// See whether something stands where the socket will.
    LookForStale,
    /// Remove what stands there.
    RemoveStale,
    /// Bind the socket.
    Bind,
    /// Let only the owner touch the socket.
    RestrictMode,
    /// Nothing.
    Ready,
}

/// How a step ended.
#[derive(Clone, Copy, Debug, PartialEq, Eq, Structural)]
pub enum ListenOutcome {
    Done,
    /// Something stands where the socket will.
    Found,
    Failed,
}

/// The step that follows a step with the given outcome; none where the listening
/// has failed.
pub open spec fn step_after(step: ListenStep, outcome: ListenOutcome) -> Option<ListenStep> {
    match (step, outcome) {
        (ListenStep::Ready, _) => Some(ListenStep::Ready),
        (_, ListenOutcome::Failed) => None,
        (ListenStep::CreateParent, _) => Some(ListenStep::LookForStale),
        (ListenStep::LookForStale, ListenOutcome::Found) => Some(ListenStep::RemoveStale),
        (ListenStep::LookForStale, _) => Some(ListenStep::Bind),
        (ListenStep::RemoveStale, _) => Some(ListenStep::Bind),
        (ListenStep::Bind, _) => Some(ListenStep::RestrictMode),
        (ListenStep::RestrictMode, _) => Some(ListenStep::Ready),
    }
}

/// The first step to listen on the socket at a path.
pub open spec fn first_step(listening: bool, socket_path: Seq<u8>) -> ListenStep {
    if listening {
        ListenStep::Ready
    } else if has_parent(socket_path) {
        ListenStep::CreateParent
    } else {
        ListenStep::LookForStale
    }
}

/// Whether a step with the given outcome takes what is bound to the socket from `bound`
/// to `still_bound`, and what is listened with from `before` to `after`.
pub open spec fn is_keeping<Listener>(
    step: ListenStep,
    outcome: ListenOutcome,
    before: Option<Listener>,
    after: Option<Listener>,
    bound: Option<Listener>,
    still_bound: Option<Listener>,
) -> bool {
    if step == ListenStep::RestrictMode && outcome != ListenOutcome::Failed {
        after == bound && still_bound is None
    } else {
        after == before && still_bound == bound
    }
}

/// A listener on the socket at a path. `Listener` is what is bound to the socket.
pub struct NearbyUnixListener<Listener> {
    pub socket_path: Vec<u8>,
    /// What connections are accepted from, once the socket is listened on.
    pub listener: Option<Listener>,
}

impl<Listener> NearbyUnixListener<Listener> {
    pub fn new(socket_path: Vec<u8>) -> (listener: Self)
        ensures
            listener.socket_path == socket_path,
            listener.listener is None,
    {
        NearbyUnixListener { socket_path, listener: None }
    }

    /// The first step to listen; none is needed where the listener listens
    /// already.
    pub fn listen(&self) -> (step: ListenStep)
        ensures
            step == first_step(self.listener is Some, self.socket_path@),
            step == (if self.listener is Some {
                ListenStep::Ready
            } else if has_parent(self.socket_path@) {
                ListenStep::CreateParent
            } else {
                ListenStep::LookForStale
            }),
    {
        if self.listener.is_some() {
            ListenStep::Ready
        } else if path_has_parent(self.socket_path.as_slice()) {
            ListenStep::CreateParent
        } else {
            ListenStep::LookForStale
        }
    }

    /// The step after one that has ended. `bound` is what has been bound to the
    /// socket; it is kept once the socket is restricted to its owner.
    pub fn listen_next(
        &mut self,
        step: ListenStep,
        outcome: ListenOutcome,
        bound: &mut Option<Listener>,
    ) -> (next: Option<ListenStep>)
        ensures
            next == step_after(step, outcome),
            is_keeping(
                step,
                outcome,
                old(self).listener,
                final(self).listener,
                *old(bound),
                *final(bound),
            ),
            next is None <==> outcome == ListenOutcome::Failed && step != ListenStep::Ready,
            final(self).socket_path == old(self).socket_path,
            if step == ListenStep::RestrictMode && outcome != ListenOutcome::Failed {
                final(self).listener == *old(bound) && *final(bound) is None
            } else {
                final(self).listener == old(self).listener && *final(bound) == *old(bound)
            },
    {
        match step {
            ListenStep::Ready => Some(ListenStep::Ready),
            _ => if outcome == ListenOutcome::Failed {
                None
            } else {
                match step {
                    ListenStep::CreateParent => Some(ListenStep::LookForStale),
                    ListenStep::LookForStale => if outcome == ListenOutcome::Found {
                        Some(ListenStep::RemoveStale)
                    } else {
                        Some(ListenStep::Bind)
                    },
                    ListenStep::RemoveStale => Some(ListenStep::Bind),
                    ListenStep::Bind => Some(ListenStep::RestrictMode),
                    ListenStep::RestrictMode => {
                        self.listener = bound.take();
                        Some(ListenStep::Ready)
                    },
                    ListenStep::Ready => Some(ListenStep::Ready),
                }
            },
        }
    }

    /// What a connection is to be accepted from, where the socket is listened on.
    pub fn accept(&self) -> (listener: Result<&Listener, String>)
        ensures
            match self.listener {
                Some(bound) => listener == Ok::<&Listener, String>(&bound),
                None => listener is Err && listener->Err_0@
                    == "nearby management listener is not started"@,
            },
    {
        match &self.listener {
            Some(listener) => Ok(listener),
            None => Err("nearby management listener is not started".to_owned()),
        }
    }
}

/// What is known of a connection that was accepted at `local_url`.
pub fn accepted_tunnel_info(local_url: String) -> (info: TunnelInfo)
    ensures
        info.tunnel_type@ == TUNNEL_TYPE@,
        info.local_addr == Some(local_url),
        info.remote_addr is None,
        info.resolved_remote_addr is None,
{
    TunnelInfo {
        tunnel_type: TUNNEL_TYPE.to_owned(),
        local_addr: Some(local_url),
        remote_addr: None,
        resolved_remote_addr: None,
    }
}

proof fn lemma_decoded_length(bytes: Seq<u8>)
    requires
        valid_utf8(bytes),
    ensures
        decode_utf8(bytes).len() <= bytes.len(),
    decreases bytes.len(),
{
    if bytes.len() > 0 {
        lemma_decoded_length(pop_first_scalar(bytes));
    }
}

/// A path that starts at the root makes a text that starts like a URL with an
/// empty host.
proof fn lemma_rooted_url_text(path: Seq<u8>)
    requires
        valid_utf8(path),
        is_rooted(path),
    ensures
        "unix:///"@.is_prefix_of("unix://"@ + decode_utf8(path)),
        ("unix://"@ + decode_utf8(path)).len() <= path.len() + 7,
{
    reveal_strlit("unix://");
    reveal_strlit("unix:///");
    lemma_decoded_length(path);
    assert(is_leading_byte_width_1(47u8) && codepoint_width_1(47u8) == 47u32) by (bit_vector);
    assert(decode_first_scalar(path) == 47);
    assert(decode_utf8(path)[0] == '/');
    let text = "unix://"@ + decode_utf8(path);
    assert(text.subrange(0, 8) =~= "unix:///"@);
}

/// The URL of the socket at a path that forms one.
pub fn management_socket_url(path: &[u8]) -> (url: String)
    requires
        parsed_url(socket_url_text(path@)) is Some,
    ensures
        parsed_url(socket_url_text(path@)) == Some(url@),
{
    let mut text = "unix://".to_owned();
    text.append(lossy_text(path).as_str());
    parse_url(text.as_str()).unwrap()
}

/// The URL of the socket at a path, where the path forms one. A path in UTF-8 that
/// starts at the root does.
pub fn find_management_socket_url(path: &[u8]) -> (url: Option<String>)
    ensures
        match url {
            Some(url) => parsed_url(socket_url_text(path@)) == Some(url@),
            None => parsed_url(socket_url_text(path@)) is None,
        },
        valid_utf8(path@) && is_rooted(path@) && path@.len() <= 0xfff_fff0 ==> url is Some,
{
    let mut text = "unix://".to_owned();
    text.append(lossy_text(path).as_str());
    proof {
        if valid_utf8(path@) && is_rooted(path@) {
            lemma_rooted_url_text(path@);
        }
    }
    if parse_url(text.as_str()).is_some() {
        Some(management_socket_url(path))
    } else {
        None
    }
}

/// The socket that a host's end connects to.
pub fn host_proxy_socket(root: Option<&[u8]>) -> (path: Result<Vec<u8>, ConfigError<String>>)
    ensures
        match root_view(root) {
            Some(dir) => path is Ok && path->Ok_0@ == socket_path_of(dir),
            None => path is Err && path->Err_0 is StoreNotInitialized,
        },
{
    match management_socket_path(root) {
        Some(path) => Ok(path),
        None => Err(ConfigError::StoreNotInitialized),
    }
}

/// What is known of the connection of a host's end to the server at `remote_url`.
pub fn host_proxy_tunnel_info(remote_url: String) -> (info: TunnelInfo)
    ensures
        info.tunnel_type@ == TUNNEL_TYPE@,
        info.local_addr is None,
        info.remote_addr == Some(remote_url),
        info.resolved_remote_addr is None,
{
    TunnelInfo {
        tunnel_type: TUNNEL_TYPE.to_owned(),
        local_addr: None,
        remote_addr: Some(remote_url),
        resolved_remote_addr: None,
    }
}

/// Whether these are the steps of one attempt to listen, with their outcomes.
pub open spec fn is_attempt(steps: Seq<ListenStep>, outcomes: Seq<ListenOutcome>) -> bool {
    &&& steps.len() == outcomes.len() + 1
    &&& steps[0] == ListenStep::CreateParent || steps[0] == ListenStep::LookForStale
    &&& forall|i: int|
        0 <= i < outcomes.len() ==> #[trigger] step_after(steps[i], outcomes[i]) == Some(
            steps[i + 1],
        )
}

/// An attempt that ends well has bound the socket and then restricted it to its
/// owner, has removed what it found in the way and nothing else, and no step of it
/// has failed.
pub proof fn lemma_attempts_that_end_well(steps: Seq<ListenStep>, outcomes: Seq<ListenOutcome>)
    requires
        is_attempt(steps, outcomes),
        steps.last() == ListenStep::Ready,
        forall|i: int| 0 <= i < outcomes.len() ==> #[trigger] steps[i] != ListenStep::Ready,
    ensures
        outcomes.len() >= 3,
        steps[outcomes.len() - 1] == ListenStep::RestrictMode,
        steps[outcomes.len() - 2] == ListenStep::Bind,
        forall|i: int| 0 <= i < outcomes.len() ==> #[trigger] outcomes[i] != ListenOutcome::Failed,
        steps[0] != ListenStep::RemoveStale,
        forall|i: int|
            0 <= i < outcomes.len() ==> #[trigger] step_after(steps[i], outcomes[i]) == Some(
                steps[i + 1],
            ) && (steps[i + 1] == ListenStep::RemoveStale <==> steps[i] == ListenStep::LookForStale
                && outcomes[i] == ListenOutcome::Found),
{
    let n = outcomes.len() as int;
    assert(n > 0);
    assert(step_after(steps[n - 1], outcomes[n - 1]) == Some(steps[n]));
    assert(steps[n - 1] == ListenStep::RestrictMode);
    assert(step_after(steps[n - 2], outcomes[n - 2]) == Some(steps[n - 1]));
    assert(steps[n - 2] == ListenStep::Bind);
    assert(step_after(steps[n - 3], outcomes[n - 3]) == Some(steps[n - 2]));
    assert forall|i: int| 0 <= i < n implies #[trigger] outcomes[i] != ListenOutcome::Failed by {
        assert(step_after(steps[i], outcomes[i]) == Some(steps[i + 1]));
    }
}

/// Listening fails exactly where a step fails, and nothing fails once it is done.
pub proof fn lemma_only_failures_end_the_listening(step: ListenStep, outcome: ListenOutcome)
    ensures
        step_after(step, outcome) is None <==> outcome == ListenOutcome::Failed && step
            != ListenStep::Ready,
        step_after(step, outcome) == Some(ListenStep::Ready) <==> step == ListenStep::Ready || (step
            == ListenStep::RestrictMode && outcome != ListenOutcome::Failed),
        step_after(step, outcome) == Some(ListenStep::RestrictMode) <==> step == ListenStep::Bind
            && outcome != ListenOutcome::Failed,
        step_after(step, outcome) == Some(ListenStep::RemoveStale) <==> step
            == ListenStep::LookForStale && outcome == ListenOutcome::Found,
        step_after(step, outcome) != Some(ListenStep::CreateParent),
{
}

/// An attempt whose steps do not fail is at its end after at most five of them.
pub proof fn lemma_attempts_end(steps: Seq<ListenStep>, outcomes: Seq<ListenOutcome>)
    requires
        is_attempt(steps, outcomes),
        outcomes.len() == 5,
    ensures
        steps.last() == ListenStep::Ready,
{
    assert(step_after(steps[0], outcomes[0]) == Some(steps[1]));
    assert(step_after(steps[1], outcomes[1]) == Some(steps[2]));
    assert(step_after(steps[2], outcomes[2]) == Some(steps[3]));
    assert(step_after(steps[3], outcomes[3]) == Some(steps[4]));
    assert(step_after(steps[4], outcomes[4]) == Some(steps[5]));
}

/// The text of a socket's URL is the scheme and the path.
pub proof fn lemma_socket_url_text(path: Seq<u8>)
    ensures
        socket_url_text(path).len() == 7 + lossy_text_of(path).len(),
        socket_url_text(path).take(7) == "unix://"@,
        socket_url_text(path).skip(7) == lossy_text_of(path),
{
    reveal_strlit("unix://");
    assert(socket_url_text(path).take(7) =~= "unix://"@);
    assert(socket_url_text(path).skip(7) =~= lossy_text_of(path));
}

/// The socket of a configuration root is listened on from the creation of its directory
/// on, unless it is listened on already.
pub proof fn lemma_listening_starts_with_the_directory(root: Seq<u8>)
    ensures
        first_step(false, socket_path_of(root)) == ListenStep::CreateParent,
        first_step(true, socket_path_of(root)) == ListenStep::Ready,
{
    lemma_socket_path_components(root);
    let name = components(socket_path_of(root)).last();
    assert(name == encode_utf8(MANAGEMENT_SOCKET_FILE_NAME@));
    reveal_strlit("easytier-nearby-management.sock");
    assert(is_ascii_chars(MANAGEMENT_SOCKET_FILE_NAME@));
    is_ascii_chars_encode_utf8(MANAGEMENT_SOCKET_FILE_NAME@);
    assert(name.len() != seq![SEPARATOR].len());
}

/// Listening starts over, and is never skipped, as long as nothing is listened with; its
/// first step is to create the directory, where the path names something in one, and
/// else to look for what stands in the way.
pub proof fn lemma_first_steps(listening: bool, path: Seq<u8>)
    ensures
        first_step(listening, path) == ListenStep::Ready <==> listening,
        first_step(listening, path) == ListenStep::CreateParent <==> !listening && components(
            path,
        ).len() > 0 && components(path).last() != seq![SEPARATOR],
        first_step(listening, path) == ListenStep::LookForStale <==> !listening && (components(
            path,
        ).len() == 0 || components(path).last() == seq![SEPARATOR]),
{
}

/// What was bound is listened with from the moment that the socket is restricted to its
/// owner, and not before; no other step changes what is listened with.
pub proof fn lemma_listens_once_restricted<Listener>(
    step: ListenStep,
    outcome: ListenOutcome,
    after: Option<Listener>,
    bound: Option<Listener>,
    still_bound: Option<Listener>,
)
    requires
        is_keeping(step, outcome, None, after, bound, still_bound),
    ensures
        after is Some ==> step == ListenStep::RestrictMode && outcome != ListenOutcome::Failed
            && after == bound,
        step_after(step, outcome) == Some(ListenStep::Ready) && step != ListenStep::Ready
            ==> after == bound && still_bound is None,
        step_after(step, outcome) != Some(ListenStep::Ready) ==> after is None && still_bound
            == bound,
{
}

} // verus!
