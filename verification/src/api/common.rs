//! The envelope of every answer, and the search result that many answers
//! list.

use vstd::prelude::*;
use crate::api::error::ApiError;

verus! {

pub struct ApiResponse<T> {
    pub error: bool,
    pub body: Option<T>,
    pub message: Option<String>,
}

impl<T> ApiResponse<T> {
    /// The answer holds what was asked for: it is no error and has a body.
    pub open spec fn is_success(&self) -> bool {
        !self.error && self.body is Some
    }

    /// Opens the envelope: the body of an answer that holds one, else an
    /// external error 400 with the service's message, or with none where
    /// it sent none.
    pub fn into_result(self) -> (r: Result<T, ApiError>)
        ensures
            match r {
                Ok(body) => self.is_success() && self.body == Some(body),
                Err(e) => {
                    &&& !self.is_success()
                    &&& e is External
                    &&& e->External_0 == 400
                    &&& e->External_1@ == match self.message {
                        Some(m) => m@,
                        None => Seq::<char>::empty(),
                    }
                },
            },
    {
        if self.error {
            return Err(ApiError::External(400, message_or_empty(self.message)));
        }
        match self.body {
            Some(body) => Ok(body),
            None => Err(ApiError::External(400, message_or_empty(self.message))),
        }
    }
}

fn message_or_empty(message: Option<String>) -> (s: String)
    ensures
        s@ == match message {
            Some(m) => m@,
            None => Seq::<char>::empty(),
        },
{
    match message {
        Some(m) => m,
        None => String::new(),
    }
}

pub struct PixivSearchResult {
    pub id: u64,
    pub title: String,
    pub user_id: u64,
    pub user_name: String,
    pub description: String,
    pub update_date: String,
    pub create_date: String,
    pub r18: u32,
    pub page_count: u32,
    pub illust_type: u8,
    pub url: String,
    pub width: u32,
    pub height: u32,
    pub is_masked: bool,
}

} // verus!
