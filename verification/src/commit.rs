use vstd::prelude::*;

use crate::message::MsgDesc;

verus! {

/// A content-addressed commit identifier: the twenty raw bytes of the
/// object id, held as plain values.
#[derive(Clone, Copy, PartialEq, Eq, Debug)]
pub struct CommitId {
    pub bytes: [u8; 20],
}

impl View for CommitId {
    type V = Seq<u8>;

    open spec fn view(&self) -> Seq<u8> {
        self.bytes@
    }
}

/// A commit paired with its classified message and, when one is known, the
/// author's display name. A value object: built once, read thereafter.
pub struct CommitDesc {
    pub oid: CommitId,
    pub msg: MsgDesc,
    pub author: Option<String>,
}

impl CommitDesc {
    /// A description of the commit `oid` carrying the classified message
    /// `msg` and no author yet.
    pub fn new(oid: CommitId, msg: MsgDesc) -> (r: CommitDesc)
        ensures
            r.oid == oid,
            r.msg == msg,
            r.author is None,
    {
        CommitDesc { oid, msg, author: None }
    }

    /// The same description, with the author's display name filled in.
    pub fn with_author(self, author: String) -> (r: CommitDesc)
        ensures
            r.oid == self.oid,
            r.msg == self.msg,
            r.author == Some(author),
    {
        CommitDesc { author: Some(author), ..self }
    }

    /// The commit's identifier.
    pub fn id(&self) -> (r: CommitId)
        ensures
            r == self.oid,
    {
        self.oid
    }

    /// The classified message.
    pub fn message(&self) -> (r: &MsgDesc)
        ensures
            *r == self.msg,
    {
        &self.msg
    }

    /// The author's display name, when one is known.
    pub fn author(&self) -> (r: Option<&str>)
        ensures
            (r is Some) == (self.author is Some),
            r matches Some(a) ==> self.author matches Some(b) && a@ == b@,
    {
        match &self.author {
            Some(a) => Some(a.as_str()),
            None => None,
        }
    }
}

} // verus!
