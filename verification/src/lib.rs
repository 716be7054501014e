//! Per-user image collection sessions for a chat channel: a session store, the
//! commands that drive it, and the export of what a session gathered.

pub mod command;
pub mod error;
pub mod export;
pub mod laws;
pub mod machine;
pub mod session;
pub mod store;
pub mod text;

pub use command::{interpret, parse_reference, Command, MessageReference};
pub use error::SessionError;
pub use export::{export, Artifact};
pub use machine::{finish_extraction, Effect, MessageEvent, Reply};
pub use session::{has_image_extension, Attachment, ImageList, MAX_IMAGES_PER_SECTION};
pub use store::{ImageListMap, SessionKey};
