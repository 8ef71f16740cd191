//! Discovery of connected USB devices from what the operating system
//! reports of them: the records of the devices in a device tree of
//! attribute files, and the requests by which a hub is asked about the
//! device on one of its ports.

pub mod device;
pub mod enumeration;
pub mod error;
pub mod hub;
pub mod permutation;
pub mod sysfs;
pub mod text;

pub use device::{DeviceInfo, InterfaceInfo, Speed};
pub use enumeration::{list_devices, probe_device};
pub use error::{Error, ErrorKind};
pub use hub::{HubHandle, HubPort};
pub use sysfs::{SysfsError, SysfsPath};
