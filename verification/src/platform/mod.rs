//! Where the software runs: platform records, providers and native helpers.
pub mod native;

pub use crate::toolkit::platform::{
    PowerStatus, SystemBiosInfo, DiskDriveInfo, NetworkAdapterInfo, PlatformProvider,
};
pub use crate::toolkit::platform_web::WebPlatform;
pub use crate::toolkit::platform_mobile::MobilePlatform;
pub use crate::toolkit::platform_embedded::EmbeddedPlatform;
pub use native::sys_info::providers::{FallbackPlatform, CurrentPlatform};
