//! Failures of the outside world: what went wrong, in what context, and whether the inventory
//! server was the cause.

use vstd::prelude::*;

use crate::client;
use crate::client::ErrorView;
use crate::client::SnipeItError;
use crate::lifecycle::FsmState;
use crate::model::Duplicate;
use crate::text;

verus! {

/// A failure with its causes, the outermost first.
#[derive(Clone, Debug, PartialEq, Eq)]
pub struct Failure {
    pub causes: Vec<String>,
    /// The error of the inventory server among the causes, if there is one.
    pub server: Option<SnipeItError>,
}

/// The deep view of a [`Failure`].
#[verifier::ext_equal]
pub struct FailureView {
    pub causes: Seq<Seq<char>>,
    pub server: Option<ErrorView>,
}

impl DeepView for Failure {
    type V = FailureView;

    open spec fn deep_view(&self) -> FailureView {
        FailureView { causes: self.causes.deep_view(), server: self.server.deep_view() }
    }
}

impl Duplicate for Failure {
    fn duplicate(&self) -> (copy: Self) {
        let server = match &self.server {
            Some(error) => Some(error.duplicate()),
            None => None,
        };
        Failure { causes: self.causes.duplicate(), server }
    }
}

/// The text of a failure: its causes, separated by colons.
pub open spec fn failure_text(causes: Seq<Seq<char>>) -> Seq<char> {
    text::joined(causes, ": "@)
}

/// What a failure is in short: its outermost cause.
pub open spec fn outermost(causes: Seq<Seq<char>>) -> Seq<char> {
    if causes.len() == 0 {
        Seq::empty()
    } else {
        causes[0]
    }
}

/// A failure in a wider context.
pub open spec fn in_context(failure: FailureView, context: Seq<char>) -> FailureView {
    FailureView { causes: seq![context] + failure.causes, server: failure.server }
}

impl Failure {
    /// A failure with one cause.
    pub fn of(cause: &str) -> (failure: Failure)
        ensures
            failure.deep_view() == (FailureView { causes: seq![cause@], server: None }),
    {
        let mut causes: Vec<String> = Vec::new();
        causes.push(cause.to_owned());
        let failure = Failure { causes, server: None };
        proof {
            assert(failure.deep_view().causes =~= seq![cause@]);
        }
        failure
    }

    /// A failure that the inventory server caused.
    pub fn from_server(error: SnipeItError) -> (failure: Failure)
        ensures
            failure.deep_view() == (FailureView {
                causes: seq![client::error_text(error.deep_view())],
                server: Some(error.deep_view()),
            }),
    {
        let mut causes: Vec<String> = Vec::new();
        causes.push(error.message());
        let failure = Failure { causes, server: Some(error) };
        proof {
            assert(failure.deep_view().causes =~= seq![client::error_text(error.deep_view())]);
        }
        failure
    }

    /// Puts the failure into a wider context.
    pub fn context(self, context: &str) -> (failure: Failure)
        ensures
            failure.deep_view() == in_context(self.deep_view(), context@),
    {
        let mut causes: Vec<String> = Vec::new();
        causes.push(context.to_owned());
        let mut inner = self.causes;
        let ghost before = inner.deep_view();
        causes.append(&mut inner);
        let failure = Failure { causes, server: self.server };
        proof {
            assert(failure.deep_view().causes =~= seq![context@] + before);
        }
        failure
    }

    /// Describes the failure in short, without what caused it.
    pub fn summary(&self) -> (summary: String)
        ensures
            summary@ == outermost(self.deep_view().causes),
    {
        if self.causes.len() == 0 {
            let summary = String::new();
            proof {
                assert(summary@ =~= Seq::empty());
            }
            summary
        } else {
            self.causes[0].as_str().to_owned()
        }
    }

    /// Describes the failure with all that caused it.
    pub fn message(&self) -> (message: String)
        ensures
            message@ == failure_text(self.causes.deep_view()),
    {
        let mut message = String::new();
        let mut index: usize = 0;
        proof {
            assert(self.causes.deep_view().take(0) =~= Seq::empty());
            assert(message@ =~= Seq::empty());
        }
        while index < self.causes.len()
            invariant
                index <= self.causes@.len(),
                message@ == failure_text(self.causes.deep_view().take(index as int)),
            decreases self.causes.len() - index,
        {
            let ghost causes = self.causes.deep_view();
            proof {
                assert(causes.take(index as int + 1).drop_last() =~= causes.take(index as int));
                assert(causes.take(index as int + 1).last() == self.causes@[index as int]@);
                if index == 0 {
                    assert(causes.take(1)[0] == self.causes@[0]@);
                    assert(Seq::<char>::empty() + self.causes@[0]@ =~= self.causes@[0]@);
                }
            }
            if index == 0 {
                message.append(self.causes[index].as_str());
            } else {
                message.append(": ");
                message.append(self.causes[index].as_str());
            }
            index += 1;
        }
        proof {
            let causes = self.causes.deep_view();
            assert(causes.take(causes.len() as int) =~= causes);
        }
        message
    }
}

/// The state of the service after a synchronization has failed: it has to be configured again if
/// the server refused the token or its permissions.
pub open spec fn failed_state(server: Option<ErrorView>) -> FsmState {
    match server {
        Some(ErrorView::AuthFailure) => FsmState::Unconfigured,
        Some(ErrorView::PermissionDenied) => FsmState::Unconfigured,
        _ => FsmState::Error,
    }
}

/// Decides the state of the service after a synchronization has failed.
pub fn state_after_sync_error(failure: &Failure) -> (state: FsmState)
    ensures
        state == failed_state(failure.deep_view().server),
{
    match &failure.server {
        Some(SnipeItError::AuthFailure) => FsmState::Unconfigured,
        Some(SnipeItError::PermissionDenied) => FsmState::Unconfigured,
        _ => FsmState::Error,
    }
}

/// A context changes neither the state that follows a failure nor the text of what it wraps. It is
/// what the failure is in short.
pub proof fn context_keeps_the_cause(failure: FailureView, context: Seq<char>)
    requires
        failure.causes.len() > 0,
    ensures
        failed_state(in_context(failure, context).server) == failed_state(failure.server),
        failure_text(in_context(failure, context).causes) == context + ": "@ + failure_text(
            failure.causes,
        ),
        outermost(in_context(failure, context).causes) == context,
    decreases failure.causes.len(),
{
    let wrapped = in_context(failure, context).causes;
    assert(wrapped.drop_last() =~= seq![context] + failure.causes.drop_last());
    assert(wrapped.last() == failure.causes.last());
    if failure.causes.len() == 1 {
        assert(wrapped.drop_last() =~= seq![context]);
        assert(text::joined(wrapped.drop_last(), ": "@) == context);
        assert(failure_text(failure.causes) == failure.causes[0]);
    } else {
        let inner = FailureView { causes: failure.causes.drop_last(), server: failure.server };
        context_keeps_the_cause(inner, context);
        assert(failure_text(wrapped) =~= context + ": "@ + failure_text(failure.causes));
    }
}

proof fn lemma_joined_front(first: Seq<char>, rest: Seq<Seq<char>>, separator: Seq<char>)
    requires
        rest.len() > 0,
    ensures
        text::joined(seq![first] + rest, separator) == first + separator + text::joined(
            rest,
            separator,
        ),
    decreases rest.len(),
{
    reveal_with_fuel(text::joined, 2);
    let all = seq![first] + rest;
    assert(all.drop_last() =~= seq![first] + rest.drop_last());
    assert(all.last() == rest.last());
    if rest.len() == 1 {
        assert(all.drop_last() =~= seq![first]);
        assert(text::joined(all, separator) =~= first + separator + rest[0]);
    } else {
        lemma_joined_front(first, rest.drop_last(), separator);
        assert(text::joined(all, separator) =~= first + separator + text::joined(
            rest,
            separator,
        ));
    }
}

/// Context goes in front of what it is given for: it is what a caller is told first, the full
/// message has it, a colon and the message without it, and what the server said stays.
pub proof fn context_goes_in_front(failure: FailureView, context: Seq<char>)
    ensures
        outermost(in_context(failure, context).causes) == context,
        in_context(failure, context).server == failure.server,
        in_context(failure, context).causes.len() == failure.causes.len() + 1,
        failure.causes.len() > 0 ==> failure_text(in_context(failure, context).causes) == context
            + ": "@ + failure_text(failure.causes),
        failure.causes.len() == 0 ==> failure_text(in_context(failure, context).causes) == context,
{
    if failure.causes.len() > 0 {
        lemma_joined_front(context, failure.causes, ": "@);
    } else {
        assert(seq![context] + failure.causes =~= seq![context]);
    }
}

} // verus!
