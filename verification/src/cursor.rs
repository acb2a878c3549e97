use vstd::prelude::*;

verus! {

/// The pagination cursor that drives a page-by-page walk of the remote
/// store.
///
/// `Start` means no fetch has been issued yet; `Continue` carries the
/// server-issued continuation token for the next fetch; `Done` means the
/// server signalled the end of the result set and no further fetch may be
/// issued.
pub enum PageCursor {
    /// No page fetched yet; the first fetch carries no continuation token.
    Start,
    /// The server returned this non-empty token; the next fetch carries it.
    Continue(String),
    /// Traversal is finished; no further fetch is issued.
    Done,
}

/// A next-cursor field keeps the traversal going exactly when it is present
/// and non-empty. An absent token and an empty-string token both end the
/// traversal.
pub open spec fn token_continues(token: Option<String>) -> bool {
    match token {
        Some(t) => t@.len() > 0,
        None => false,
    }
}

impl PageCursor {
    /// The cursor still asks for a fetch (`Start` or `Continue`).
    pub open spec fn wants_fetch(self) -> bool {
        !(self is Done)
    }

    /// The cursor after one fetch response whose next-cursor field was
    /// `token`: continue with the token when it is present and non-empty,
    /// otherwise stop.
    pub fn after_response(token: Option<String>) -> (c: Self)
        ensures
            token_continues(token) ==> c == PageCursor::Continue(token->0),
            !token_continues(token) ==> c == PageCursor::Done,
    {
        match token {
            Some(t) => {
                if t.as_str().is_empty() {
                    PageCursor::Done
                } else {
                    PageCursor::Continue(t)
                }
            },
            None => PageCursor::Done,
        }
    }

    /// The continuation token the next fetch must carry, or `None` when the
    /// traversal is over and no fetch may be issued.
    ///
    /// A caller driving a real client fetches while this returns `Some`,
    /// passing the inner token (absent on the very first request) along
    /// with the request.
    pub fn request_token(&self) -> (r: Option<Option<String>>)
        ensures
            r is Some <==> self.wants_fetch(),
            self is Start ==> r == Some(Option::<String>::None),
            self is Continue ==> r == Some(Some(self->0)),
            self is Done ==> r is None,
    {
        match self {
            PageCursor::Start => Some(None),
            PageCursor::Continue(t) => Some(Some(t.clone())),
            PageCursor::Done => None,
        }
    }
}

/// Empty-cursor equivalence: a response whose next-cursor is the empty
/// string moves the cursor to exactly the same state as one whose
/// next-cursor is absent — both end the traversal.
pub proof fn lemma_empty_cursor_equivalence(empty_token: Option<String>)
    requires
        empty_token is Some,
        empty_token->0@.len() == 0,
    ensures
        !token_continues(empty_token),
        !token_continues(Option::<String>::None),
{
}

} // verus!
