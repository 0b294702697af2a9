//! The decisions of the bounded-concurrency fetch pipeline: which tile to
//! launch next under the in-flight cap, and what to do with each completed
//! fetch so that every body is paired with its own tile, in whatever order
//! completions arrive.

use vstd::prelude::*;
use crate::link::{Link, output_path_of};

verus! {

/// The in-flight cap of the fetch stage.
pub const CONCURRENT_REQUESTS: usize = 2;

/// The launch bookkeeping of the fetch stage. Tiles are launched in
/// submission order; at most [`CONCURRENT_REQUESTS`] may be in flight at
/// once. The caller performs the fetches and reports each completion.
pub struct Scheduler {
    total: usize,
    launched: usize,
    completed: usize,
}

impl Scheduler {
    /// How many tiles this run has in all.
    pub closed spec fn total(self) -> int {
        self.total as int
    }

    /// How many tiles have been launched so far.
    pub closed spec fn launched(self) -> int {
        self.launched as int
    }

    /// How many launched tiles have completed so far.
    pub closed spec fn completed(self) -> int {
        self.completed as int
    }

    /// How many fetches are in flight: launched and not yet completed.
    pub open spec fn in_flight(self) -> int {
        self.launched() - self.completed()
    }

    /// Every completion belongs to a launch, every launch to a tile, and
    /// the in-flight cap holds.
    pub open spec fn wf(self) -> bool {
        &&& 0 <= self.completed() <= self.launched() <= self.total()
        &&& self.in_flight() <= CONCURRENT_REQUESTS as int
    }

    pub fn new(total: usize) -> (s: Scheduler)
        ensures
            s.wf(),
            s.total() == total,
            s.launched() == 0,
            s.completed() == 0,
    {
        Scheduler { total, launched: 0, completed: 0 }
    }

    /// Hands out the next tile index to fetch, or `None` exactly when
    /// every tile is already launched or the in-flight cap is reached.
    pub fn try_launch(&mut self) -> (r: Option<usize>)
        requires
            old(self).wf(),
        ensures
            final(self).wf(),
            final(self).total() == old(self).total(),
            final(self).completed() == old(self).completed(),
            match r {
                Some(i) => {
                    &&& old(self).launched() < old(self).total()
                    &&& old(self).in_flight() < CONCURRENT_REQUESTS as int
                    &&& i as int == old(self).launched()
                    &&& final(self).launched() == old(self).launched() + 1
                },
                None => {
                    &&& *final(self) == *old(self)
                    &&& (old(self).launched() == old(self).total() || old(self).in_flight()
                        == CONCURRENT_REQUESTS as int)
                },
            },
    {
        if self.launched < self.total && self.launched - self.completed < CONCURRENT_REQUESTS {
            let i = self.launched;
            self.launched = self.launched + 1;
            Some(i)
        } else {
            None
        }
    }

    /// Records that one in-flight fetch has completed.
    pub fn on_complete(&mut self)
        requires
            old(self).wf(),
            old(self).in_flight() > 0,
        ensures
            final(self).wf(),
            final(self).total() == old(self).total(),
            final(self).launched() == old(self).launched(),
            final(self).completed() == old(self).completed() + 1,
    {
        self.completed = self.completed + 1;
    }

    /// How many fetches are in flight right now.
    pub fn in_flight_count(&self) -> (r: usize)
        requires
            self.wf(),
        ensures
            r as int == self.in_flight(),
    {
        self.launched - self.completed
    }

    /// Whether every tile has been launched and has completed.
    pub fn is_done(&self) -> (r: bool)
        requires
            self.wf(),
        ensures
            r == (self.launched() == self.total() && self.completed() == self.total()),
    {
        self.launched == self.total && self.completed == self.total
    }
}

/// Law: in every well-formed scheduler state — the initial state is one,
/// and every operation preserves them — at most `CONCURRENT_REQUESTS`
/// fetches are in flight.
pub proof fn lemma_concurrency_bound(s: Scheduler)
    requires
        s.wf(),
    ensures
        s.in_flight() <= CONCURRENT_REQUESTS as int,
{
}

/// What the writer does with one completed fetch: save the body under the
/// tile's output path, or report the failure.
pub enum WriteAction {
    Save { path: String, body: Vec<u8> },
    Report { message: String },
}

/// The body bytes of one fetch, or the text of its error.
pub open spec fn result_view(r: Result<Vec<u8>, String>) -> Result<Seq<u8>, Seq<char>> {
    match r {
        Ok(b) => Ok(b@),
        Err(e) => Err(e@),
    }
}

/// The diagnostic line for a failed fetch names the tile's URL and the
/// error.
pub open spec fn report_message(url: Seq<char>, err: Seq<char>) -> Seq<char> {
    "Got an error fetching "@ + url + ": "@ + err
}

/// The action that belongs to one tile and one fetch result: its own body
/// saved under its own output path, or a report naming its own URL.
pub open spec fn action_matches(
    l: Link,
    result: Result<Seq<u8>, Seq<char>>,
    a: WriteAction,
) -> bool {
    match result {
        Ok(b) => match a {
            WriteAction::Save { path, body } => path@ == output_path_of(l.point_format, l.coordinate)
                && body@ == b,
            WriteAction::Report { .. } => false,
        },
        Err(e) => match a {
            WriteAction::Save { .. } => false,
            WriteAction::Report { message } => message@ == report_message(l.url@, e),
        },
    }
}

/// Decides what to do with the completed fetch of one tile.
pub fn action_for(link: &Link, result: Result<Vec<u8>, String>) -> (a: WriteAction)
    ensures
        action_matches(*link, result_view(result), a),
{
    match result {
        Ok(body) => WriteAction::Save { path: link.output_path(), body },
        Err(e) => {
            let mut m = String::from_str("Got an error fetching ");
            m.append(link.url.as_str());
            m.append(": ");
            m.append(e.as_str());
            assert(m@ =~= report_message(link.url@, e@));
            WriteAction::Report { message: m }
        },
    }
}

/// The number of save actions in a plan.
pub open spec fn count_saves(s: Seq<WriteAction>) -> int
    decreases s.len(),
{
    if s.len() == 0 {
        0
    } else {
        count_saves(s.drop_last()) + match s.last() {
            WriteAction::Save { .. } => 1int,
            WriteAction::Report { .. } => 0int,
        }
    }
}

/// The number of successful fetches among indexed results.
pub open spec fn count_oks(s: Seq<(usize, Result<Vec<u8>, String>)>) -> int
    decreases s.len(),
{
    if s.len() == 0 {
        0
    } else {
        count_oks(s.drop_last()) + match s.last().1 {
            Ok(_) => 1int,
            Err(_) => 0int,
        }
    }
}

/// Law: pairing survives reordering, and fetch errors stay isolated.
/// Results may arrive in any order; each carries the index of the tile it
/// was fetched for. The plan pairs every body with its own tile's output
/// path and every error with its own tile's URL, and it saves exactly as
/// many files as there were successful fetches.
pub fn plan_writes(
    links: &Vec<Link>,
    results: Vec<(usize, Result<Vec<u8>, String>)>,
) -> (acts: Vec<WriteAction>)
    requires
        forall|i: int| 0 <= i < results@.len() ==> (results@[i].0 as int) < links@.len(),
    ensures
        acts@.len() == results@.len(),
        forall|i: int|
            0 <= i < results@.len() ==> action_matches(
                links@[results@[i].0 as int],
                result_view(results@[i].1),
                acts@[i],
            ),
        count_saves(acts@) == count_oks(results@),
{
    let ghost orig = results@;
    let mut rest = results;
    let mut acts: Vec<WriteAction> = Vec::new();
    #[verifier::loop_isolation(false)]
    loop
        invariant
            acts@.len() + rest@.len() == orig.len(),
            rest@ =~= orig.skip(acts@.len() as int),
            forall|i: int| 0 <= i < orig.len() ==> (orig[i].0 as int) < links@.len(),
            forall|i: int|
                0 <= i < acts@.len() ==> action_matches(
                    links@[orig[i].0 as int],
                    result_view(orig[i].1),
                    acts@[i],
                ),
            count_saves(acts@) == count_oks(orig.take(acts@.len() as int)),
        decreases rest@.len(),
    {
        if rest.len() == 0 {
            break;
        }
        let ghost k = acts@.len() as int;
        assert(rest@[0] == orig[k]);
        let (idx, res) = rest.remove(0);
        let a = action_for(&links[idx], res);
        proof {
            assert(acts@.push(a).drop_last() =~= acts@);
            assert(orig.take(k + 1).drop_last() =~= orig.take(k));
        }
        acts.push(a);
        proof {
            assert(rest@ =~= orig.skip(acts@.len() as int));
        }
    }
    proof {
        assert(orig.take(orig.len() as int) =~= orig);
    }
    acts
}

} // verus!
