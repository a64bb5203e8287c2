pub mod chars;
pub mod commit;
pub mod cursor;
pub mod grammar;
pub mod message;

pub use cursor::CharPred;
pub use cursor::Cursor;
pub use grammar::MsgModel;
pub use grammar::Alphabetic;
pub use grammar::InsideScope;
pub use message::MsgDesc;
pub use message::parse_commit_msg;
pub use commit::CommitDesc;
pub use commit::CommitId;
