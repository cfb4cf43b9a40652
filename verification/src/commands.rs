pub mod feat;
pub mod fix;
pub mod init;
pub mod next;
pub mod release;
pub mod reset;
