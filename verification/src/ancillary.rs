//! Support for reading and writing ancillary data.

pub mod append;
pub mod bytes;
pub mod format;
pub mod laws;
pub mod layout;
pub mod owned;
pub mod payload;
pub mod reader;
pub mod socket_ancillary;
pub mod socket_cred;
pub mod walk;
pub mod writer;

pub use owned::{IntoAncillaryMessages, OwnedAncillaryMessage, OwnedFileDescriptors};
pub use reader::{
    AncillaryMessage, AncillaryMessageReader, AncillaryMessages, FileDescriptors,
    UnixCredentials, UnknownMessage,
};
pub use socket_ancillary::{
    AncillaryData, AncillaryError, Messages, ScmCredentials, ScmRights, SocketAncillary,
};
pub use socket_cred::SocketCred;
pub use writer::{AddControlMessageError, AncillaryMessageWriter};
