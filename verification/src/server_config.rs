use vstd::prelude::*;

use crate::protocol::Protocol;

verus! {

/// Where the tunnel service listens, and over which transport.
#[derive(Clone, Debug)]
pub struct TunnelServiceConfig {
    pub host: String,
    pub port: u16,
    pub protocol: Protocol,
}

/// Where the gateway's gRPC service listens.
#[derive(Clone, Debug)]
pub struct GrpcServiceConfig {
    pub host: String,
    pub port: u16,
}

/// The gateway server's configuration.
#[derive(Clone, Debug)]
pub struct ServerConfig {
    pub tunnel: TunnelServiceConfig,
    pub grpc: GrpcServiceConfig,
    pub sqlite_url: String,
    pub backend_grpc_url: String,
}

impl Default for ServerConfig {
    /// The configuration written when there is no configuration file: both
    /// services on `localhost`, the tunnel on port 8080 over QUIC, gRPC on
    /// port 50051, the backend at `http://localhost:50051`, and the database
    /// in `db.sqlite`.
    fn default() -> (r: Self)
        ensures
            r.tunnel.host@ == "localhost"@,
            r.tunnel.port == 8080,
            r.tunnel.protocol == Protocol::Quic,
            r.grpc.host@ == "localhost"@,
            r.grpc.port == 50051,
            r.backend_grpc_url@ == "http://localhost:50051"@,
            r.sqlite_url@ == "sqlite://db.sqlite?mode=rwc"@,
    {
        ServerConfig {
            tunnel: TunnelServiceConfig {
                host: "localhost".to_owned(),
                port: 8080,
                protocol: Protocol::Quic,
            },
            grpc: GrpcServiceConfig { host: "localhost".to_owned(), port: 50051 },
            backend_grpc_url: "http://localhost:50051".to_owned(),
            sqlite_url: "sqlite://db.sqlite?mode=rwc".to_owned(),
        }
    }
}

} // verus!
