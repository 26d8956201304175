//! The generations that are running, at most one per conversation.
use vstd::prelude::*;

use tokio_util::sync::CancellationToken;

use crate::text::{chars_equal, chars_of};

verus! {

#[verifier::external_type_specification]
#[verifier::external_body]
pub struct ExCancellationToken(CancellationToken);

/// Signals cancellation with `CancellationToken::cancel`; nothing is stated of it.
#[verifier::external_body]
fn cancel_token(token: &CancellationToken) {
    token.cancel()
}

/// A running generation: its request, its response, and the token that stops it.
pub struct ActiveGeneration {
    pub request_id: String,
    pub response_id: String,
    pub cancellation: CancellationToken,
}

/// The running generations, by conversation.
pub struct GenerationManager {
    active: Vec<(String, ActiveGeneration)>,
}

/// The request and response of each entry, by conversation.
pub open spec fn entries_map(entries: Seq<(String, ActiveGeneration)>) -> Map<Seq<char>, (Seq<char>, Seq<char>)>
    decreases entries.len(),
{
    if entries.len() == 0 {
        Map::empty()
    } else {
        let last = entries.last();
        entries_map(entries.drop_last()).insert(last.0@, (last.1.request_id@, last.1.response_id@))
    }
}

/// No conversation has two entries.
pub open spec fn distinct_keys(entries: Seq<(String, ActiveGeneration)>) -> bool {
    forall|i: int, j: int| 0 <= i < j < entries.len() ==> #[trigger] entries[i].0@ != #[trigger] entries[j].0@
}

proof fn lemma_entries_map(entries: Seq<(String, ActiveGeneration)>, i: int)
    requires
        distinct_keys(entries),
        0 <= i < entries.len(),
    ensures
        entries_map(entries).contains_key(entries[i].0@),
        entries_map(entries)[entries[i].0@] == (entries[i].1.request_id@, entries[i].1.response_id@),
    decreases entries.len(),
{
    if i < entries.len() - 1 {
        let rest = entries.drop_last();
        assert(rest[i] == entries[i]);
        assert(distinct_keys(rest));
        lemma_entries_map(rest, i);
        assert(entries.last().0@ != entries[i].0@);
    }
}

proof fn lemma_entries_map_absent(entries: Seq<(String, ActiveGeneration)>, k: Seq<char>)
    requires
        forall|i: int| 0 <= i < entries.len() ==> #[trigger] entries[i].0@ != k,
    ensures
        !entries_map(entries).contains_key(k),
    decreases entries.len(),
{
    if entries.len() > 0 {
        let rest = entries.drop_last();
        assert forall|i: int| 0 <= i < rest.len() implies #[trigger] rest[i].0@ != k by {
            assert(rest[i] == entries[i]);
        }
        lemma_entries_map_absent(rest, k);
    }
}

proof fn lemma_entries_map_remove(entries: Seq<(String, ActiveGeneration)>, i: int)
    requires
        distinct_keys(entries),
        0 <= i < entries.len(),
    ensures
        entries_map(entries.remove(i)) =~= entries_map(entries).remove(entries[i].0@),
    decreases entries.len(),
{
    let rest = entries.drop_last();
    assert(distinct_keys(rest));
    if i == entries.len() - 1 {
        assert(entries.remove(i) =~= rest);
        assert forall|j: int| 0 <= j < rest.len() implies #[trigger] rest[j].0@ != entries[i].0@ by {
            assert(rest[j] == entries[j]);
        }
        lemma_entries_map_absent(rest, entries[i].0@);
    } else {
        lemma_entries_map_remove(rest, i);
        assert(entries.remove(i).drop_last() =~= rest.remove(i));
        assert(entries.remove(i).last() == entries.last());
        assert(entries.last().0@ != entries[i].0@);
    }
}

impl GenerationManager {
    /// The request and response running in each conversation.
    pub closed spec fn running(&self) -> Map<Seq<char>, (Seq<char>, Seq<char>)> {
        entries_map(self.active@)
    }

    pub closed spec fn wf(&self) -> bool {
        distinct_keys(self.active@)
    }

    /// No generation is running.
    pub fn new() -> (r: GenerationManager)
        ensures
            r.wf(),
            r.running() == Map::<Seq<char>, (Seq<char>, Seq<char>)>::empty(),
    {
        GenerationManager { active: Vec::new() }
    }

    fn position(&self, conversation_id: &str) -> (r: Option<usize>)
        requires
            self.wf(),
        ensures
            match r {
                Some(i) => i < self.active@.len() && self.active@[i as int].0@ == conversation_id@,
                None => !self.running().contains_key(conversation_id@),
            },
    {
        let key = chars_of(conversation_id);
        let mut i: usize = 0;
        while i < self.active.len()
            invariant
                i <= self.active@.len(),
                key@ == conversation_id@,
                forall|j: int| 0 <= j < i ==> #[trigger] self.active@[j].0@ != conversation_id@,
            decreases self.active.len() - i,
        {
            let candidate = chars_of(self.active[i].0.as_str());
            if chars_equal(&candidate, &key) {
                return Some(i);
            }
            i += 1;
        }
        proof {
            lemma_entries_map_absent(self.active@, conversation_id@);
        }
        None
    }

    /// Whether a generation runs in the conversation.
    pub fn is_active(&self, conversation_id: &str) -> (r: bool)
        requires
            self.wf(),
        ensures
            r == self.running().contains_key(conversation_id@),
    {
        match self.position(conversation_id) {
            Some(i) => {
                proof {
                    lemma_entries_map(self.active@, i as int);
                }
                true
            },
            None => false,
        }
    }

    /// Why a generation cannot start in the conversation, if it cannot: one already runs
    /// there.
    pub fn start_refusal(&self, conversation_id: &str) -> (r: Option<&'static str>)
        requires
            self.wf(),
        ensures
            !self.running().contains_key(conversation_id@) ==> r is None,
            self.running().contains_key(conversation_id@) ==> (r matches Some(e)
                && e@ == "This conversation already has an active generation."@),
    {
        if self.is_active(conversation_id) {
            Some("This conversation already has an active generation.")
        } else {
            None
        }
    }

    /// Registers a generation, unless one already runs in the conversation.
    pub fn start(
        &mut self,
        conversation_id: String,
        request_id: String,
        response_id: String,
        cancellation: CancellationToken,
    ) -> (r: bool)
        requires
            old(self).wf(),
        ensures
            final(self).wf(),
            r == !old(self).running().contains_key(conversation_id@),
            r ==> final(self).running() == old(self).running().insert(conversation_id@, (request_id@, response_id@)),
            !r ==> final(self).running() == old(self).running(),
    {
        match self.position(conversation_id.as_str()) {
            Some(i) => {
                proof {
                    lemma_entries_map(self.active@, i as int);
                }
                false
            },
            None => {
                let ghost before = self.active@;
                proof {
                    assert forall|j: int| 0 <= j < before.len() implies #[trigger] before[j].0@ != conversation_id@ by {
                        if before[j].0@ == conversation_id@ {
                            lemma_entries_map(before, j);
                        }
                    }
                }
                self.active.push((conversation_id, ActiveGeneration { request_id, response_id, cancellation }));
                proof {
                    assert(self.active@.drop_last() =~= before);
                    assert forall|a: int, b: int| 0 <= a < b < self.active@.len() implies #[trigger] self.active@[a].0@
                        != #[trigger] self.active@[b].0@ by {
                        if b == self.active@.len() - 1 {
                            assert(self.active@[a] == before[a]);
                        } else {
                            assert(self.active@[a] == before[a] && self.active@[b] == before[b]);
                        }
                    }
                }
                true
            },
        }
    }

    /// Signals the conversation's generation to stop; false when none runs.
    pub fn stop(&self, conversation_id: &str) -> (r: bool)
        requires
            self.wf(),
        ensures
            r == self.running().contains_key(conversation_id@),
    {
        match self.position(conversation_id) {
            Some(i) => {
                proof {
                    lemma_entries_map(self.active@, i as int);
                }
                cancel_token(&self.active[i].1.cancellation);
                true
            },
            None => false,
        }
    }

    /// Forgets the conversation's generation if it is the one of `request_id`.
    pub fn finish(&mut self, conversation_id: &str, request_id: &str)
        requires
            old(self).wf(),
        ensures
            final(self).wf(),
            final(self).running() == if old(self).running().contains_key(conversation_id@) && old(self).running()[conversation_id@].0
                == request_id@ {
                old(self).running().remove(conversation_id@)
            } else {
                old(self).running()
            },
    {
        match self.position(conversation_id) {
            Some(i) => {
                proof {
                    lemma_entries_map(self.active@, i as int);
                }
                let current = chars_of(self.active[i].1.request_id.as_str());
                let wanted = chars_of(request_id);
                if chars_equal(&current, &wanted) {
                    let ghost before = self.active@;
                    let _removed = self.active.remove(i);
                    proof {
                        lemma_entries_map_remove(before, i as int);
                        assert forall|a: int, b: int| 0 <= a < b < self.active@.len() implies #[trigger] self.active@[a].0@
                            != #[trigger] self.active@[b].0@ by {
                            let a0 = if a < i { a } else { a + 1 };
                            let b0 = if b < i { b } else { b + 1 };
                            assert(self.active@[a] == before[a0] && self.active@[b] == before[b0]);
                        }
                    }
                }
            },
            None => {},
        }
    }

    /// The generation running in the conversation.
    pub fn active_request(&self, conversation_id: &str) -> (r: Option<&ActiveGeneration>)
        requires
            self.wf(),
        ensures
            match r {
                Some(a) => self.running().contains_key(conversation_id@) && self.running()[conversation_id@] == (
                    a.request_id@,
                    a.response_id@,
                ),
                None => !self.running().contains_key(conversation_id@),
            },
    {
        match self.position(conversation_id) {
            Some(i) => {
                proof {
                    lemma_entries_map(self.active@, i as int);
                }
                Some(&self.active[i].1)
            },
            None => None,
        }
    }
}

impl Default for GenerationManager {
    fn default() -> (r: Self)
        ensures
            r.wf(),
            r.running() == Map::<Seq<char>, (Seq<char>, Seq<char>)>::empty(),
    {
        GenerationManager::new()
    }
}

/// Registering a generation and finishing it with the same request leaves the running
/// generations as they were.
pub proof fn lemma_start_then_finish(
    running: Map<Seq<char>, (Seq<char>, Seq<char>)>,
    conversation_id: Seq<char>,
    request_id: Seq<char>,
    response_id: Seq<char>,
)
    requires
        !running.contains_key(conversation_id),
    ensures
        running.insert(conversation_id, (request_id, response_id)).remove(conversation_id) == running,
{
    assert(running.insert(conversation_id, (request_id, response_id)).remove(conversation_id) =~= running);
}

} // verus!
