//! The decisions of the policy actor of a proxy: what it does with a
//! request from the data-plane host, and with the news that a proxy it
//! asked for has started, as a step from state and event to next state and
//! actions. Performing the actions (starting servers, writing replies)
//! is left to the caller.

use vstd::prelude::*;
use crate::policies::Protocol;

verus! {

/// What the actor keeps: the ports of the running HTTP and TCP proxies.
#[derive(Debug, Clone, Copy, PartialEq, Eq, Structural)]
pub struct ProxyState {
    pub http_port: Option<u16>,
    pub tcp_port: Option<u16>,
}

/// A request from the host, or news of a proxy that was asked to start.
#[derive(Debug, Clone, Copy, PartialEq, Eq, Structural)]
pub enum ProxyEvent {
    /// A change of labels.
    Label,
    /// A new timeout, in seconds.
    Timeout(u8),
    Status,
    Stop(Protocol),
    StartHttp(u16),
    StartTcp(u16),
    /// A new policy, with whether it has a TCP and an HTTP part.
    SetPolicy { tcp: bool, http: bool },
    Shutdown,
    /// The HTTP proxy asked for on a port started (`true`) or failed.
    HttpStarted(u16, bool),
    /// The TCP proxy asked for on a port started (`true`) or failed.
    TcpStarted(u16, bool),
}

/// A reply to the host.
#[derive(Debug, Clone, Copy, PartialEq, Eq, Structural)]
pub enum ProxyResponse {
    RequestFailed,
    Stopped,
    Started,
    ShuttingDown,
}

/// What the actor is to do.
#[derive(Debug, Clone, Copy, PartialEq, Eq, Structural)]
pub enum ProxyAction {
    HandleLabels,
    SetTimeout(u8),
    ReplyStatus,
    Reply(ProxyResponse),
    StopHttp,
    StopTcp,
    StartHttp(u16),
    StartTcp(u16),
    InstallTcp,
    InstallHttp,
    Close,
}

/// The next state and the actions for an event.
pub open spec fn proxy_step_spec(st: ProxyState, ev: ProxyEvent) -> (ProxyState, Seq<ProxyAction>) {
    match ev {
        ProxyEvent::Label => (st, seq![ProxyAction::HandleLabels]),
        ProxyEvent::Timeout(s) => (st, seq![ProxyAction::SetTimeout(s)]),
        ProxyEvent::Status => (st, seq![ProxyAction::ReplyStatus]),
        ProxyEvent::Stop(Protocol::HTTP) => if st.http_port is None {
            (st, seq![ProxyAction::Reply(ProxyResponse::RequestFailed)])
        } else {
            (ProxyState { http_port: None, ..st }, seq![ProxyAction::StopHttp, ProxyAction::Reply(ProxyResponse::Stopped)])
        },
        ProxyEvent::Stop(Protocol::TCP) => if st.tcp_port is None {
            (st, seq![ProxyAction::Reply(ProxyResponse::RequestFailed)])
        } else {
            (ProxyState { tcp_port: None, ..st }, seq![ProxyAction::StopTcp, ProxyAction::Reply(ProxyResponse::Stopped)])
        },
        ProxyEvent::StartHttp(p) => if st.http_port == Some(p) {
            (st, seq![ProxyAction::Reply(ProxyResponse::RequestFailed)])
        } else {
            (ProxyState { http_port: None, ..st }, seq![ProxyAction::StopHttp, ProxyAction::StartHttp(p)])
        },
        ProxyEvent::StartTcp(p) => if st.tcp_port == Some(p) {
            (st, seq![ProxyAction::Reply(ProxyResponse::RequestFailed)])
        } else {
            (ProxyState { tcp_port: None, ..st }, seq![ProxyAction::StopTcp, ProxyAction::StartTcp(p)])
        },
        ProxyEvent::SetPolicy { tcp, http } => (
            st,
            if tcp && http {
                seq![ProxyAction::InstallTcp, ProxyAction::InstallHttp]
            } else if tcp {
                seq![ProxyAction::InstallTcp]
            } else if http {
                seq![ProxyAction::InstallHttp]
            } else {
                Seq::empty()
            },
        ),
        ProxyEvent::Shutdown => (st, seq![ProxyAction::Reply(ProxyResponse::ShuttingDown), ProxyAction::Close]),
        ProxyEvent::HttpStarted(p, ok) => if ok {
            (ProxyState { http_port: Some(p), ..st }, seq![ProxyAction::Reply(ProxyResponse::Started)])
        } else {
            (st, Seq::empty())
        },
        ProxyEvent::TcpStarted(p, ok) => if ok {
            (ProxyState { tcp_port: Some(p), ..st }, seq![ProxyAction::Reply(ProxyResponse::Started)])
        } else {
            (st, Seq::empty())
        },
    }
}

/// One step of the policy actor (see `proxy_step_spec`).
pub fn proxy_step(st: ProxyState, ev: ProxyEvent) -> (r: (ProxyState, Vec<ProxyAction>))
    ensures
        (r.0, r.1@) == proxy_step_spec(st, ev),
{
    let failed = ProxyAction::Reply(ProxyResponse::RequestFailed);
    let (next, acts): (ProxyState, Vec<ProxyAction>) = match ev {
        ProxyEvent::Label => (st, vec![ProxyAction::HandleLabels]),
        ProxyEvent::Timeout(s) => (st, vec![ProxyAction::SetTimeout(s)]),
        ProxyEvent::Status => (st, vec![ProxyAction::ReplyStatus]),
        ProxyEvent::Stop(Protocol::HTTP) => if st.http_port.is_none() {
            (st, vec![failed])
        } else {
            (ProxyState { http_port: None, tcp_port: st.tcp_port }, vec![ProxyAction::StopHttp, ProxyAction::Reply(ProxyResponse::Stopped)])
        },
        ProxyEvent::Stop(Protocol::TCP) => if st.tcp_port.is_none() {
            (st, vec![failed])
        } else {
            (ProxyState { http_port: st.http_port, tcp_port: None }, vec![ProxyAction::StopTcp, ProxyAction::Reply(ProxyResponse::Stopped)])
        },
        ProxyEvent::StartHttp(p) => if st.http_port == Some(p) {
            (st, vec![failed])
        } else {
            (ProxyState { http_port: None, tcp_port: st.tcp_port }, vec![ProxyAction::StopHttp, ProxyAction::StartHttp(p)])
        },
        ProxyEvent::StartTcp(p) => if st.tcp_port == Some(p) {
            (st, vec![failed])
        } else {
            (ProxyState { http_port: st.http_port, tcp_port: None }, vec![ProxyAction::StopTcp, ProxyAction::StartTcp(p)])
        },
        ProxyEvent::SetPolicy { tcp, http } => {
            let mut v: Vec<ProxyAction> = Vec::new();
            if tcp {
                v.push(ProxyAction::InstallTcp);
            }
            if http {
                v.push(ProxyAction::InstallHttp);
            }
            (st, v)
        },
        ProxyEvent::Shutdown => (st, vec![ProxyAction::Reply(ProxyResponse::ShuttingDown), ProxyAction::Close]),
        ProxyEvent::HttpStarted(p, ok) => if ok {
            (ProxyState { http_port: Some(p), tcp_port: st.tcp_port }, vec![ProxyAction::Reply(ProxyResponse::Started)])
        } else {
            (st, Vec::new())
        },
        ProxyEvent::TcpStarted(p, ok) => if ok {
            (ProxyState { http_port: st.http_port, tcp_port: Some(p) }, vec![ProxyAction::Reply(ProxyResponse::Started)])
        } else {
            (st, Vec::new())
        },
    };
    proof {
        let sp = proxy_step_spec(st, ev);
        assert(acts@ =~= sp.1);
    }
    (next, acts)
}

/// A proxy that is asked to start on a port where it already runs is
/// refused and nothing changes; one that is asked to stop while it does not
/// run is refused too.
pub proof fn lemma_refusals(st: ProxyState, p: u16)
    ensures
        st.http_port == Some(p) ==> proxy_step_spec(st, ProxyEvent::StartHttp(p))
            == (st, seq![ProxyAction::Reply(ProxyResponse::RequestFailed)]),
        st.tcp_port == Some(p) ==> proxy_step_spec(st, ProxyEvent::StartTcp(p))
            == (st, seq![ProxyAction::Reply(ProxyResponse::RequestFailed)]),
        st.http_port is None ==> proxy_step_spec(st, ProxyEvent::Stop(Protocol::HTTP))
            == (st, seq![ProxyAction::Reply(ProxyResponse::RequestFailed)]),
        st.tcp_port is None ==> proxy_step_spec(st, ProxyEvent::Stop(Protocol::TCP))
            == (st, seq![ProxyAction::Reply(ProxyResponse::RequestFailed)]),
{
}

/// Starting a proxy on a new port, once it reports that it started, leaves
/// it running on that port, and the other proxy as it was.
pub proof fn lemma_start_then_started(st: ProxyState, p: u16)
    ensures
        st.http_port != Some(p) ==> ({
            let s1 = proxy_step_spec(st, ProxyEvent::StartHttp(p)).0;
            let s2 = proxy_step_spec(s1, ProxyEvent::HttpStarted(p, true)).0;
            s2.http_port == Some(p) && s2.tcp_port == st.tcp_port
        }),
        st.tcp_port != Some(p) ==> ({
            let s1 = proxy_step_spec(st, ProxyEvent::StartTcp(p)).0;
            let s2 = proxy_step_spec(s1, ProxyEvent::TcpStarted(p, true)).0;
            s2.tcp_port == Some(p) && s2.http_port == st.http_port
        }),
{
}

/// A new policy leaves the running proxies as they are; the actor installs
/// the HTTP policy exactly when the policy has an HTTP part and the TCP
/// policy exactly when it has a TCP part, each once, the TCP one first, and
/// does nothing else.
pub proof fn lemma_set_policy(st: ProxyState, tcp: bool, http: bool)
    ensures
        ({
            let (next, acts) = proxy_step_spec(st, ProxyEvent::SetPolicy { tcp, http });
            &&& next == st
            &&& acts.contains(ProxyAction::InstallHttp) <==> http
            &&& acts.contains(ProxyAction::InstallTcp) <==> tcp
            &&& acts.len() == (if tcp { 1int } else { 0int }) + (if http { 1int } else { 0int })
            &&& forall|i: int| 0 <= i < acts.len()
                ==> ((#[trigger] acts[i]) == ProxyAction::InstallHttp || acts[i] == ProxyAction::InstallTcp)
            &&& (tcp && http) ==> acts == seq![ProxyAction::InstallTcp, ProxyAction::InstallHttp]
        }),
{
    let acts = proxy_step_spec(st, ProxyEvent::SetPolicy { tcp, http }).1;
    if tcp && http {
        assert(acts[0] == ProxyAction::InstallTcp);
        assert(acts[1] == ProxyAction::InstallHttp);
    } else if tcp {
        assert(acts[0] == ProxyAction::InstallTcp);
    } else if http {
        assert(acts[0] == ProxyAction::InstallHttp);
    }
}

} // verus!
