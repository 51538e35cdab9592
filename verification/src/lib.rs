//! Core of a small network-service substrate: an epoll-style reactor model,
//! a non-blocking TCP server's decision logic, a bounded connection pool and
//! a fixed-block memory pool, plus the length-prefixed serializer and the
//! service registry / round-robin load balancer that sit beside them.
//!
//! Every state change is specified against a mathematical model of the
//! component's state; the kernel-facing work (sockets, epoll, clocks, locks)
//! lives outside this crate and consumes the decisions proved here.

pub mod assoc;
pub mod connection_pool;
pub mod load_balancer;
pub mod logger;
pub mod memory_pool;
pub mod metrics;
pub mod reactor;
pub mod serializer;
pub mod service_registry;
pub mod tcp_server;

pub use connection_pool::{Connection, ConnectionPool};
pub use load_balancer::LoadBalancer;
pub use logger::LogLevel;
pub use memory_pool::MemoryPool;
pub use metrics::Metrics;
pub use reactor::Reactor;
pub use serializer::{Deserializer, Serializer};
pub use service_registry::{ServiceInstance, ServiceRegistry};
pub use tcp_server::TcpServer;
