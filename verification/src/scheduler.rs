//! What a running query knows of where it runs.

use std::sync::Arc;
use vstd::prelude::*;

verus! {

/// What a running query carries along: the session that issued it, shared
/// with whoever else holds that session.
pub struct ExecutionContext<S> {
    session: Arc<S>,
}

pub type ExecutionContextRef<S> = Arc<ExecutionContext<S>>;

impl<S> View for ExecutionContext<S> {
    type V = S;

    /// The session that the context carries.
    closed spec fn view(&self) -> S {
        *self.session
    }
}

impl<S> ExecutionContext<S> {
    pub fn new(session: Arc<S>) -> (context: Self)
        ensures
            context@ == *session,
    {
        Self { session }
    }

    pub fn session(&self) -> (session: &S)
        ensures
            *session == self@,
    {
        &self.session
    }
}

} // verus!
