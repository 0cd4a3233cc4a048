//! The message filter pipeline: registered filters run in order over an
//! outgoing chat body, each seeing the body as the previous ones left it.
use vstd::prelude::*;

verus! {

/// What a filter decides to do with a message.
#[derive(Debug)]
pub enum FilterAction {
    /// Let the message through unchanged.
    Allow,
    /// Replace the message body with this text.
    Modify(String),
    /// Block the message entirely, for this reason.
    Block(String),
}

/// A filter verdict over plain character sequences.
pub enum Verdict {
    Allow,
    Modify(Seq<char>),
    Block(Seq<char>),
}

impl View for FilterAction {
    type V = Verdict;

    open spec fn view(&self) -> Verdict {
        match self {
            FilterAction::Allow => Verdict::Allow,
            FilterAction::Modify(b) => Verdict::Modify(b@),
            FilterAction::Block(r) => Verdict::Block(r@),
        }
    }
}

/// A registered filter: it sees the sender's name and the current body.
/// It may keep state of its own between calls. The hub calls it from whichever
/// connection holds the hub at the time, so it must be `Send`.
pub trait MessageFilter: Send {
    fn check(&mut self, username: &str, body: &str) -> FilterAction;
}

/// One step of the pipeline: the body handed to the next filter after a
/// filter gave `v` on `current`, or the reason when it blocked.
pub open spec fn next_body_spec(current: Seq<char>, v: Verdict) -> Result<Seq<char>, Seq<char>> {
    match v {
        Verdict::Allow => Ok(current),
        Verdict::Modify(next) => Ok(next),
        Verdict::Block(reason) => Err(reason),
    }
}

/// The pipeline's answer when no filter blocked and `last` is the body the
/// filters left: `Allow` when it equals the input `body`, else `Modify(last)`.
pub open spec fn outcome_spec(body: Seq<char>, last: Seq<char>) -> Verdict {
    if last == body {
        Verdict::Allow
    } else {
        Verdict::Modify(last)
    }
}

/// The body after the verdicts `vs`, given in the order the filters ran,
/// or the reason of the first block among them.
pub open spec fn fold_verdicts(body: Seq<char>, vs: Seq<Verdict>) -> Result<Seq<char>, Seq<char>>
    decreases vs.len(),
{
    if vs.len() == 0 {
        Ok(body)
    } else {
        match fold_verdicts(body, vs.drop_last()) {
            Err(reason) => Err(reason),
            Ok(current) => next_body_spec(current, vs.last()),
        }
    }
}

/// What the pipeline returns for `body` when its filters gave the verdicts `vs`:
/// the first block, else the final body if it differs from `body`, else `Allow`.
pub open spec fn pipeline_result(body: Seq<char>, vs: Seq<Verdict>) -> Verdict {
    match fold_verdicts(body, vs) {
        Err(reason) => Verdict::Block(reason),
        Ok(last) => outcome_spec(body, last),
    }
}

/// `vs` is what `n` filters can give when each runs until the first block:
/// no block but possibly the last, and all `n` ran unless one blocked.
pub open spec fn complete_run(vs: Seq<Verdict>, n: nat) -> bool {
    &&& vs.len() <= n
    &&& forall|i: int| 0 <= i < vs.len() - 1 ==> !(#[trigger] vs[i] is Block)
    &&& (vs.len() < n ==> vs.len() > 0 && vs.last() is Block)
}

/// One step of the pipeline: the body to hand to the next filter after a
/// filter gave `verdict` on `current` (`Err` with the reason on a block).
pub fn next_body(current: String, verdict: FilterAction) -> (r: Result<String, String>)
    ensures
        match next_body_spec(current@, verdict@) {
            Ok(b) => r matches Ok(x) && x@ == b,
            Err(e) => r matches Err(x) && x@ == e,
        },
{
    match verdict {
        FilterAction::Allow => Ok(current),
        FilterAction::Modify(next) => Ok(next),
        FilterAction::Block(reason) => Err(reason),
    }
}

/// The pipeline's answer for input `body` once every filter has run without
/// blocking and left `last`.
pub fn outcome(body: &str, last: String) -> (r: FilterAction)
    ensures
        r@ == outcome_spec(body@, last@),
{
    if crate::text::string_eq(&last, body) {
        FilterAction::Allow
    } else {
        FilterAction::Modify(last)
    }
}

/// The ordered list of registered filters.
pub struct FilterRegistry {
    filters: Vec<Box<dyn MessageFilter>>,
}

impl FilterRegistry {
    /// The number of registered filters.
    pub closed spec fn len(&self) -> nat {
        self.filters@.len()
    }

    pub fn new() -> (r: Self)
        ensures
            r.len() == 0,
    {
        FilterRegistry { filters: Vec::new() }
    }

    /// The registered filters, in the order they run.
    pub closed spec fn entries(&self) -> Seq<Box<dyn MessageFilter>> {
        self.filters@
    }

    /// Registers a filter after those already there, which keep their order.
    pub fn add<F: MessageFilter + 'static>(&mut self, filter: F)
        ensures
            final(self).len() == old(self).len() + 1,
            final(self).entries().drop_last() == old(self).entries(),
    {
        let boxed: Box<dyn MessageFilter> = Box::new(filter);
        let ghost before = self.filters@;
        self.filters.push(boxed);
        proof {
            vstd::seq::axiom_seq_push_len(before, boxed);
            assert(self.filters@ == before.push(boxed));
            let all = self.filters@;
            let n = before.len() as int;
            vstd::seq::axiom_seq_subrange_len(all, 0, n);
            assert forall|k: int| 0 <= k < n implies all.drop_last()[k] == before[k] by {
                vstd::seq::axiom_seq_subrange_index(all, 0, n, k);
                vstd::seq::axiom_seq_push_index_different(before, boxed, k);
            }
            vstd::seq::axiom_seq_ext_equal(all.drop_last(), before);
            assert(before == old(self).entries());
        }
    }

    /// Runs the filters in order over `body`, each on the body as the previous
    /// ones left it (see `next_body`); stops at the first block. Without a
    /// block, the answer is `outcome(body, last body)`.
    pub fn apply(&mut self, username: &str, body: &str) -> (r: FilterAction)
        ensures
            final(self).len() == old(self).len(),
            exists|vs: Seq<Verdict>|
                complete_run(vs, old(self).len()) && r@ == #[trigger] pipeline_result(body@, vs),
    {
        let mut current: String = body.to_owned();
        let ghost mut vs: Seq<Verdict> = Seq::empty();
        let n = self.filters.len();
        let mut i: usize = 0;
        while i < n
            invariant
                n == self.filters@.len(),
                n == old(self).filters@.len(),
                i <= n,
                vs.len() == i,
                forall|k: int| 0 <= k < vs.len() ==> !(#[trigger] vs[k] is Block),
                fold_verdicts(body@, vs) == Ok::<Seq<char>, Seq<char>>(current@),
            decreases n - i,
        {
            let verdict = self.filters[i].check(username, current.as_str());
            let ghost v = verdict@;
            let ghost ws = vs.push(v);
            proof {
                assert(ws.drop_last() =~= vs);
            }
            match next_body(current, verdict) {
                Ok(next) => {
                    current = next;
                },
                Err(reason) => {
                    proof {
                        assert(complete_run(ws, n as nat)) by {
                            assert forall|k: int| 0 <= k < ws.len() - 1 implies !(#[trigger] ws[k] is Block) by {
                                assert(ws[k] == vs[k]);
                            }
                        }
                        assert(FilterAction::Block(reason)@ == pipeline_result(body@, ws));
                    }
                    return FilterAction::Block(reason);
                },
            }
            proof {
                vs = ws;
            }
            i += 1;
        }
        let r = outcome(body, current);
        proof {
            assert(complete_run(vs, n as nat));
            assert(r@ == pipeline_result(body@, vs));
        }
        r
    }
}

} // verus!
