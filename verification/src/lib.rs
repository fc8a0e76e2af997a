pub mod text;
pub mod strmap;
pub mod tie_breaker;
pub mod scheduler;
pub mod clock;
pub mod registry;
pub mod token;
pub mod iscsi;
pub mod telemetry;
pub mod bridge;
pub mod hypervisor;
pub mod migration;
pub mod cloud_init;
pub mod csi;
pub mod zfs;
pub mod ids;
pub mod hpe_oneview;
pub mod hpe_vc;
pub mod aggregator;
pub mod node;
pub mod vsock;
pub mod bidder;
pub mod tls;
