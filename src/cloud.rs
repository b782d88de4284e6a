pub mod amazon;
pub mod azure;
pub mod google;
pub mod oracle;
