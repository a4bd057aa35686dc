use orbitbuild::build_proxy::{BuildProxy, ProxyAction, ProxyEvent, BUILD_ALPN};
use orbitbuild::path::FsPath;

#[test]
fn build_alpn_value() {
    assert_eq!(BUILD_ALPN, b"ORBITBUILD/BUILD/0");
}

#[test]
fn build_proxy_new() {
    let proxy = BuildProxy::new(FsPath::from_text("/var/run/buildkitd.sock"));
    assert_eq!(proxy.buildkitd_socket, FsPath::from_text("/var/run/buildkitd.sock"));
}

#[test]
fn connections_are_refused_only_before_bytes_flow() {
    let proxy = BuildProxy::new(FsPath::from_text("/var/run/buildkitd.sock"));
    assert_eq!(proxy.accept(ProxyEvent::Connected), ProxyAction::AcceptStream);
    assert_eq!(proxy.accept(ProxyEvent::StreamOpened), ProxyAction::ConnectSocket);
    assert_eq!(proxy.accept(ProxyEvent::SocketConnected), ProxyAction::Copy);
    assert_eq!(proxy.accept(ProxyEvent::Copied(1, 2)), ProxyAction::Finish);
    assert_eq!(proxy.accept(ProxyEvent::CopyFailed("x".to_string())), ProxyAction::Finish);
    assert_eq!(
        proxy.accept(ProxyEvent::StreamFailed("x".to_string())),
        ProxyAction::Refuse("x".to_string())
    );
    assert_eq!(
        proxy.accept(ProxyEvent::SocketFailed("y".to_string())),
        ProxyAction::Refuse("y".to_string())
    );
}
