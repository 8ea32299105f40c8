//! Account-manager gateway for volunteer-computing devices: a work-unit store,
//! the scheduler relay's correlation logic, and the planificator that weighs
//! projects for a device.
pub mod app_state;
pub mod database;
pub mod device_info;
pub mod planificator;
pub mod proxy_scheduler;
pub mod rpc;

pub use app_state::{AppState, ConfigError, Project};
pub use database::{AppVersion, DataBase, StatusUpdate, WorkUnit};
pub use device_info::{DeviceInfo, HostInfo};
pub use planificator::{planify_action, PlanificatorProject, PlanificatorResult};
