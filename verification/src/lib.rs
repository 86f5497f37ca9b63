pub mod email_addr;
pub mod error;
pub mod geohash;
pub mod order;
pub mod twid;

pub use email_addr::EmailAddr;
pub use error::InvalidFormat;
pub use twid::Twid;
