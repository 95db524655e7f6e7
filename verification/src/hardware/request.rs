//! What the application asks the privileged helper for.

use vstd::prelude::*;

use crate::protocol::helper::Action;
use crate::text::texts;

verus! {

/// An action and its arguments.
#[derive(Debug)]
pub struct Request {
    pub action: Action,
    pub args: Vec<String>,
}

impl Request {
    /// Whether this asks for `action` with these arguments.
    pub open spec fn asks(self, action: Action, args: Seq<Seq<char>>) -> bool {
        self.action == action && texts(self.args@) == args
    }

    /// Asks for an action without arguments.
    pub fn plain(action: Action) -> (r: Self)
        ensures
            r.asks(action, seq![]),
    {
        let args: Vec<String> = Vec::new();
        assert(texts(args@) == Seq::<Seq<char>>::empty());
        Request { action, args }
    }

    /// Asks for an action with one argument.
    pub fn with(action: Action, arg: &str) -> (r: Self)
        ensures
            r.asks(action, seq![arg@]),
    {
        let mut args: Vec<String> = Vec::new();
        args.push(arg.to_owned());
        assert(texts(args@) == seq![arg@]);
        Request { action, args }
    }
}

/// Requests as contracts speak of them.
pub open spec fn requests_view(list: Seq<Request>) -> Seq<(Action, Seq<Seq<char>>)> {
    Seq::new(list.len(), |i: int| (list[i].action, texts(list[i].args@)))
}

/// Requests are seen as they are, in their order.
pub proof fn law_requests_are_seen_as_they_are(list: Seq<Request>, i: int)
    requires
        0 <= i < list.len(),
    ensures
        requests_view(list).len() == list.len(),
        requests_view(list)[i].0 == list[i].action,
        requests_view(list)[i].1 == texts(list[i].args@),
        list[i].asks(requests_view(list)[i].0, requests_view(list)[i].1),
{
}

} // verus!
