//! The build proxy: the protocol by which a Satellite offers its buildkitd.
//!
//! A connection under this protocol is a byte pipe to the Satellite's buildkitd socket. Who may
//! connect is decided before, by membership of the Constellation.

use vstd::prelude::*;

use crate::path::FsPath;

verus! {

/// The name of the protocol, as nodes negotiate it: `ORBITBUILD/BUILD/0`.
pub const BUILD_ALPN: &'static [u8; 18] = &[
    79, 82, 66, 73, 84, 66, 85, 73, 76, 68, 47, 66, 85, 73, 76, 68, 47, 48,
];

/// Connects those who build with a buildkitd.
#[derive(Debug)]
pub struct BuildProxy {
    /// The socket of the buildkitd.
    pub buildkitd_socket: FsPath,
}

impl Clone for BuildProxy {
    fn clone(&self) -> (proxy: BuildProxy)
        ensures
            proxy.buildkitd_socket@ == self.buildkitd_socket@,
    {
        BuildProxy { buildkitd_socket: self.buildkitd_socket.clone() }
    }
}

/// What happened to a connection.
#[derive(Debug, PartialEq, Eq)]
pub enum ProxyEvent {
    /// A connection has come in.
    Connected,
    /// The other side has opened a stream.
    StreamOpened,
    /// No stream was opened; the text says why.
    StreamFailed(String),
    /// The buildkitd has been reached.
    SocketConnected,
    /// The buildkitd could not be reached; the text says why.
    SocketFailed(String),
    /// All was copied: so many bytes from the buildkitd, and so many to it.
    Copied(u64, u64),
    /// Copying failed in one direction; the text says why.
    CopyFailed(String),
}

/// What is to be done next with a connection.
#[derive(Debug, PartialEq, Eq)]
pub enum ProxyAction {
    /// Wait for the other side to open a stream.
    AcceptStream,
    /// Connect to the buildkitd.
    ConnectSocket,
    /// Copy bytes in both directions.
    Copy,
    /// The connection is over.
    Finish,
    /// The connection is refused, with this message.
    Refuse(String),
}

/// What is to be done next with a connection after an event. Once bytes are being copied, the
/// connection counts as served, whatever becomes of it.
pub open spec fn proxy_step(event: ProxyEvent) -> ProxyAction {
    match event {
        ProxyEvent::Connected => ProxyAction::AcceptStream,
        ProxyEvent::StreamOpened => ProxyAction::ConnectSocket,
        ProxyEvent::StreamFailed(reason) => ProxyAction::Refuse(reason),
        ProxyEvent::SocketConnected => ProxyAction::Copy,
        ProxyEvent::SocketFailed(reason) => ProxyAction::Refuse(reason),
        ProxyEvent::Copied(_, _) => ProxyAction::Finish,
        ProxyEvent::CopyFailed(_) => ProxyAction::Finish,
    }
}

impl BuildProxy {
    /// A proxy to the buildkitd with the given socket.
    pub fn new(buildkitd_socket: FsPath) -> (proxy: BuildProxy)
        ensures
            proxy.buildkitd_socket == buildkitd_socket,
    {
        BuildProxy { buildkitd_socket }
    }

    /// What is to be done next with a connection after an event.
    pub fn accept(&self, event: ProxyEvent) -> (action: ProxyAction)
        ensures
            action == proxy_step(event),
    {
        match event {
            ProxyEvent::Connected => ProxyAction::AcceptStream,
            ProxyEvent::StreamOpened => ProxyAction::ConnectSocket,
            ProxyEvent::StreamFailed(reason) => ProxyAction::Refuse(reason),
            ProxyEvent::SocketConnected => ProxyAction::Copy,
            ProxyEvent::SocketFailed(reason) => ProxyAction::Refuse(reason),
            ProxyEvent::Copied(_, _) => ProxyAction::Finish,
            ProxyEvent::CopyFailed(_) => ProxyAction::Finish,
        }
    }
}

/// What is done on each event on a connection: a stream is waited for, buildkitd is connected, and
/// bytes are copied. A connection is refused exactly if no stream was opened or buildkitd could not
/// be reached, with the reason; once bytes are being copied it is served to the end.
pub proof fn only_unreachable_builds_are_refused(event: ProxyEvent)
    ensures
        proxy_step(event) is AcceptStream <==> event is Connected,
        proxy_step(event) is ConnectSocket <==> event is StreamOpened,
        proxy_step(event) is Copy <==> event is SocketConnected,
        proxy_step(event) is Finish <==> event is Copied || event is CopyFailed,
        proxy_step(event) is Refuse <==> event is StreamFailed || event is SocketFailed,
        event matches ProxyEvent::StreamFailed(reason) ==> proxy_step(event)
            == ProxyAction::Refuse(reason),
        event matches ProxyEvent::SocketFailed(reason) ==> proxy_step(event)
            == ProxyAction::Refuse(reason),
{
}

/// The name of the protocol is `ORBITBUILD/BUILD/0`.
pub proof fn the_protocol_has_a_name()
    ensures
        BUILD_ALPN@ == seq![
            79u8,
            82,
            66,
            73,
            84,
            66,
            85,
            73,
            76,
            68,
            47,
            66,
            85,
            73,
            76,
            68,
            47,
            48,
        ],
{
}

} // verus!
