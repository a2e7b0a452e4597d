//! What passes between the tasks of a connection.

use vstd::prelude::*;

verus! {

/// A response as it was received: its content and the status line that ends it.
#[derive(Debug)]
pub struct RawCommandResponse {
    content: Vec<u8>,
    status: Vec<u8>,
}

/// A [`RawCommandResponse`] as contracts speak of it.
pub struct RawCommandResponseView {
    pub content: Seq<u8>,
    pub status: Seq<u8>,
}

impl View for RawCommandResponse {
    type V = RawCommandResponseView;

    closed spec fn view(&self) -> RawCommandResponseView {
        RawCommandResponseView { content: self.content@, status: self.status@ }
    }
}

impl RawCommandResponse {
    pub fn new(content: Vec<u8>, status: Vec<u8>) -> (response: RawCommandResponse)
        ensures
            response@.content == content@,
            response@.status == status@,
    {
        RawCommandResponse { content, status }
    }

    pub fn content(&self) -> (content: &[u8])
        ensures
            content@ == self@.content,
    {
        self.content.as_slice()
    }

    pub fn status(&self) -> (status: &[u8])
        ensures
            status@ == self@.status,
    {
        self.status.as_slice()
    }
}

} // verus!
