pub mod domain_name;
pub mod header;
pub mod message;
pub mod question;
pub mod rr;

pub use crate::dns::domain_name::DomainName;
pub use crate::dns::header::{Header, MessageType, OpCode, ResponseCode};
pub use crate::dns::message::Message;
pub use crate::dns::question::{Question, QueryClass, QueryType};
pub use crate::dns::rr::{Ipv4Address, RRClass, RRData, RRType, ResourceRecord};
