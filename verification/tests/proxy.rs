use armour_lang::policies::Protocol;
use armour_lang::proxy::{proxy_step, ProxyAction, ProxyEvent, ProxyResponse, ProxyState};

#[test]
fn start_stop_cycle() {
    let st = ProxyState { http_port: None, tcp_port: None };
    let (st, acts) = proxy_step(st, ProxyEvent::StartHttp(8080));
    assert_eq!(acts, vec![ProxyAction::StopHttp, ProxyAction::StartHttp(8080)]);
    assert_eq!(st.http_port, None);
    let (st, acts) = proxy_step(st, ProxyEvent::HttpStarted(8080, true));
    assert_eq!(acts, vec![ProxyAction::Reply(ProxyResponse::Started)]);
    assert_eq!(st.http_port, Some(8080));
    let (st2, acts) = proxy_step(st, ProxyEvent::StartHttp(8080));
    assert_eq!(acts, vec![ProxyAction::Reply(ProxyResponse::RequestFailed)]);
    assert_eq!(st2, st);
    let (st, acts) = proxy_step(st, ProxyEvent::Stop(Protocol::HTTP));
    assert_eq!(acts, vec![ProxyAction::StopHttp, ProxyAction::Reply(ProxyResponse::Stopped)]);
    assert_eq!(st.http_port, None);
    let (_, acts) = proxy_step(st, ProxyEvent::Stop(Protocol::TCP));
    assert_eq!(acts, vec![ProxyAction::Reply(ProxyResponse::RequestFailed)]);
}

#[test]
fn other_requests() {
    let st = ProxyState { http_port: Some(1), tcp_port: Some(2) };
    assert_eq!(proxy_step(st, ProxyEvent::Timeout(5)).1, vec![ProxyAction::SetTimeout(5)]);
    assert_eq!(proxy_step(st, ProxyEvent::Status).1, vec![ProxyAction::ReplyStatus]);
    assert_eq!(proxy_step(st, ProxyEvent::Label).1, vec![ProxyAction::HandleLabels]);
    assert_eq!(
        proxy_step(st, ProxyEvent::SetPolicy { tcp: true, http: true }).1,
        vec![ProxyAction::InstallTcp, ProxyAction::InstallHttp]
    );
    assert!(proxy_step(st, ProxyEvent::SetPolicy { tcp: false, http: false }).1.is_empty());
    assert_eq!(
        proxy_step(st, ProxyEvent::Shutdown).1,
        vec![ProxyAction::Reply(ProxyResponse::ShuttingDown), ProxyAction::Close]
    );
    let (s, acts) = proxy_step(st, ProxyEvent::TcpStarted(3, false));
    assert!(acts.is_empty());
    assert_eq!(s, st);
}
