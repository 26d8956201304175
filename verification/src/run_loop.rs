//! The decisions of a running generation. Every tick the loop takes the events that arrived,
//! applies them to the response and its request, and decides whether to write them to
//! storage, whether to report a snapshot, and whether it is done. Waiting, writing and
//! reporting happen outside.
use vstd::prelude::*;

use crate::continuation::{flatten, normalize_step, normalizer_chain, prefill_parts, ContinuationNormalizer};
use crate::domain::{
    opt_view, same_request, same_response, AssistantResponse, GenerationErrorKind, GenerationEvent, Message, RequestInfo,
    RequestStatus, Timestamp,
};
use crate::prepare::{GenerationStart, PreparedGeneration};
use crate::reducer::{apply_event_at, event_effect, interrupted_event, interrupted_message};
use crate::runner::{restore_failed_continuation, GenerationSnapshot};

verus! {

/// How long changes may wait before they are written, in milliseconds.
pub const STORAGE_FLUSH_INTERVAL_MS: u64 = 320;

/// A generation as its loop sees it.
pub struct GenerationRun {
    pub response: AssistantResponse,
    pub request: RequestInfo,
    /// The response before a continuation, restored if the continuation does not complete.
    pub baseline: Option<AssistantResponse>,
    /// Removes the replayed prefill from a continued response's stream.
    pub normalizer: Option<ContinuationNormalizer>,
    /// Whether changes are written to storage.
    pub stored: bool,
    /// Whether there are changes that were not written.
    pub dirty: bool,
    /// Whether the generation has ended.
    pub terminal: bool,
}

/// What the loop does after a tick.
pub struct RunStep {
    /// Write the response and the request now.
    pub persist: bool,
    /// Report this snapshot.
    pub snapshot: Option<GenerationSnapshot>,
    /// Stop after reporting.
    pub finished: bool,
}

/// Each event takes the response and the request from one state to the next.
pub open spec fn chain_holds(
    events: Seq<GenerationEvent>,
    responses: Seq<AssistantResponse>,
    requests: Seq<RequestInfo>,
    outcomes: Seq<(bool, Option<Seq<char>>)>,
    elapsed_ms: u64,
    now: Timestamp,
) -> bool {
    &&& responses.len() == events.len() + 1
    &&& requests.len() == events.len() + 1
    &&& outcomes.len() == events.len()
    &&& forall|i: int|
        0 <= i < events.len() ==> #[trigger] step_effect(
            events[i],
            responses[i],
            responses[i + 1],
            requests[i],
            requests[i + 1],
            elapsed_ms,
            now,
            outcomes[i],
        )
}

/// The effect of one event: what `apply_event_at` does, unless the response already holds
/// the most reasoning blocks a count can number, when the event changes nothing.
pub open spec fn step_effect(
    event: GenerationEvent,
    a0: AssistantResponse,
    a1: AssistantResponse,
    r0: RequestInfo,
    r1: RequestInfo,
    elapsed_ms: u64,
    now: Timestamp,
    outcome: (bool, Option<Seq<char>>),
) -> bool {
    if a0.blocks@.len() < u64::MAX {
        event_effect(event, a0, a1, r0, r1, elapsed_ms, now, outcome.0, outcome.1)
    } else {
        a1 == a0 && r1 == r0 && !outcome.0 && outcome.1 is None
    }
}

/// Some event ended the generation.
pub open spec fn any_terminal(outcomes: Seq<(bool, Option<Seq<char>>)>) -> bool {
    exists|i: int| 0 <= i < outcomes.len() && #[trigger] outcomes[i].0
}

/// The reasoning blocks the events finished, in order.
pub open spec fn finished_ids(outcomes: Seq<(bool, Option<Seq<char>>)>) -> Seq<Seq<char>>
    decreases outcomes.len(),
{
    if outcomes.len() == 0 {
        Seq::empty()
    } else {
        match outcomes.last().1 {
            Some(id) => finished_ids(outcomes.drop_last()).push(id),
            None => finished_ids(outcomes.drop_last()),
        }
    }
}

/// The failure reported when the event stream closed before the generation ended.
pub open spec fn is_interruption(e: GenerationEvent) -> bool {
    e matches GenerationEvent::Failed(f) && f.kind == GenerationErrorKind::StreamInterrupted
        && f.message@ == interrupted_message() && f.detail is None
}

/// The events a tick works on: those that arrived, or an interruption when none arrived, the
/// stream is closed and the generation has not ended.
pub open spec fn tick_batch(arrived: Seq<GenerationEvent>, batch: Seq<GenerationEvent>, closed: bool, terminal: bool) -> bool {
    if arrived.len() == 0 && closed && !terminal {
        batch.len() == 1 && is_interruption(batch[0])
    } else {
        batch == arrived
    }
}

/// The response after the end of a continuation that did not complete is the one it started
/// from, with the new request's id and the time (what `restore_failed_continuation` states).
pub open spec fn restored(before: AssistantResponse, after: AssistantResponse, request: RequestInfo, baseline: Option<AssistantResponse>, now: Timestamp) -> bool {
    if request.status == RequestStatus::Completed || baseline is None {
        after == before
    } else {
        let b = baseline->Some_0;
        &&& after.request_id == Some(request.id)
        &&& after.updated_at == now
        &&& after.id == b.id
        &&& after.status == b.status
        &&& after.content == b.content
        &&& after.thinking == b.thinking
        &&& after.blocks@ == b.blocks@
        &&& crate::domain::message_views(after.transcript@) == crate::domain::message_views(b.transcript@)
        &&& after.tool_executions@ == b.tool_executions@
        &&& after.created_at == b.created_at
    }
}

fn last_message(messages: &Vec<Message>) -> (r: Option<&Message>)
    ensures
        messages@.len() == 0 ==> r is None,
        messages@.len() > 0 ==> r == Some(&messages@.last()),
{
    if messages.len() == 0 {
        None
    } else {
        Some(&messages[messages.len() - 1])
    }
}

pub open spec fn ids_view(ids: Seq<String>) -> Seq<Seq<char>> {
    ids.map_values(|s: String| s@)
}

impl GenerationRun {
    pub open spec fn wf(&self) -> bool {
        self.normalizer matches Some(n) ==> n.wf()
    }

    /// The loop state of a prepared generation; a continuation removes the replay of the
    /// message it continues.
    pub fn start(prepared: PreparedGeneration, stored: bool) -> (r: GenerationRun)
        ensures
            r.wf(),
            r.response == prepared.response,
            r.request == prepared.request_info,
            r.baseline == prepared.continuation_baseline,
            r.stored == stored,
            !r.dirty,
            !r.terminal,
            (prepared.start is ContinueResponse) == (r.normalizer is Some),
            r.normalizer matches Some(n) ==> {
                &&& n.is_active()
                &&& n.text_filter().prefix_view() == prefill_parts(
                    if prepared.provider_request.messages@.len() > 0 {
                        Some(&prepared.provider_request.messages@.last())
                    } else {
                        None
                    },
                ).0
                &&& n.reasoning_filter().prefix_view() == prefill_parts(
                    if prepared.provider_request.messages@.len() > 0 {
                        Some(&prepared.provider_request.messages@.last())
                    } else {
                        None
                    },
                ).1
            },
    {
        let continuing = match prepared.start {
            GenerationStart::ContinueResponse { .. } => true,
            _ => false,
        };
        let normalizer = if continuing {
            Some(ContinuationNormalizer::new(last_message(&prepared.provider_request.messages)))
        } else {
            None
        };
        GenerationRun {
            response: prepared.response,
            request: prepared.request_info,
            baseline: prepared.continuation_baseline,
            normalizer,
            stored,
            dirty: false,
            terminal: false,
        }
    }

    /// One tick of the loop, `elapsed_ms` into the request and `since_flush_ms` after the
    /// last write. With no events and nothing due, nothing happens. Otherwise the events are
    /// applied in order (through the normalizer of a continuation), a continuation that ended
    /// without completing is restored, the changes are written when the generation ended or
    /// the interval passed (or dropped when nothing is stored), and a snapshot is reported
    /// when events arrived; the loop stops once it reported the end.
    pub fn step(
        &mut self,
        arrived: Vec<GenerationEvent>,
        closed: bool,
        elapsed_ms: u64,
        since_flush_ms: u64,
        now: Timestamp,
    ) -> (r: RunStep)
        requires
            old(self).wf(),
        ensures
            final(self).wf(),
            final(self).baseline == old(self).baseline,
            final(self).stored == old(self).stored,
            exists|
                batch: Seq<GenerationEvent>,
                applied: Seq<GenerationEvent>,
                responses: Seq<AssistantResponse>,
                requests: Seq<RequestInfo>,
                outcomes: Seq<(bool, Option<Seq<char>>)>,
            |
                #![trigger tick_batch(arrived@, batch, closed, old(self).terminal), chain_holds(applied, responses, requests, outcomes, elapsed_ms, now)]
                {
                    &&& tick_batch(arrived@, batch, closed, old(self).terminal)
                    &&& if batch.len() == 0 && (!old(self).dirty || since_flush_ms < STORAGE_FLUSH_INTERVAL_MS) {
                        &&& *final(self) == *old(self)
                        &&& !r.persist && r.snapshot is None && !r.finished
                    } else {
                        let terminal = old(self).terminal || any_terminal(outcomes);
                        let due = terminal || since_flush_ms >= STORAGE_FLUSH_INTERVAL_MS;
                        &&& chain_holds(applied, responses, requests, outcomes, elapsed_ms, now)
                        &&& responses[0] == old(self).response
                        &&& requests[0] == old(self).request
                        &&& old(self).normalizer is None ==> applied == batch && final(self).normalizer is None
                        &&& old(self).normalizer matches Some(n0) ==> exists|
                            states: Seq<ContinuationNormalizer>,
                            outputs: Seq<Seq<GenerationEvent>>,
                        |
                            #![trigger normalizer_chain(batch, states, outputs)]
                            {
                                &&& normalizer_chain(batch, states, outputs)
                                &&& states[0] == n0
                                &&& applied == flatten(outputs)
                                &&& final(self).normalizer == Some(states.last())
                            }
                        &&& final(self).request == requests.last()
                        &&& if terminal {
                            restored(responses.last(), final(self).response, final(self).request, old(self).baseline, now)
                        } else {
                            final(self).response == responses.last()
                        }
                        &&& final(self).terminal == terminal
                        &&& r.persist == (due && old(self).stored)
                        &&& final(self).dirty == (!due && (old(self).dirty || batch.len() > 0)) || r.persist
                        &&& (batch.len() > 0) == (r.snapshot is Some)
                        &&& r.snapshot matches Some(s) ==> (same_response(s.response, final(self).response)
                            && same_request(s.request, final(self).request) && s.terminal == terminal
                            && ids_view(s.finished_reasoning_ids@) == finished_ids(outcomes))
                        &&& r.finished == (batch.len() > 0 && terminal)
                    }
                },
    {
        let mut batch = arrived;
        if batch.len() == 0 && closed && !self.terminal {
            batch.push(interrupted_event());
        }
        let ghost batch_view = batch@;
        let ghost start_response = self.response;
        let ghost start_request = self.request;
        assert(tick_batch(arrived@, batch_view, closed, old(self).terminal));
        if batch.len() == 0 && (!self.dirty || since_flush_ms < STORAGE_FLUSH_INTERVAL_MS) {
            let ghost empty_events = Seq::<GenerationEvent>::empty();
            let ghost empty_outcomes = Seq::<(bool, Option<Seq<char>>)>::empty();
            assert(chain_holds(empty_events, seq![start_response], seq![start_request], empty_outcomes, elapsed_ms, now));
            return RunStep { persist: false, snapshot: None, finished: false };
        }
        let has_events = batch.len() > 0;
        let mut finished_reasoning_ids: Vec<String> = Vec::new();
        let ghost mut applied: Seq<GenerationEvent> = Seq::empty();
        let ghost mut responses: Seq<AssistantResponse> = seq![self.response];
        let ghost mut requests: Seq<RequestInfo> = seq![self.request];
        let ghost mut outcomes: Seq<(bool, Option<Seq<char>>)> = Seq::empty();
        let ghost mut states: Seq<ContinuationNormalizer> = if self.normalizer is Some {
            seq![self.normalizer->0]
        } else {
            Seq::empty()
        };
        let ghost mut outputs: Seq<Seq<GenerationEvent>> = Seq::empty();
        let mut terminal = self.terminal;
        assert(batch_view.len() == batch.len());
        let mut pending = batch;
        let mut k: usize = 0;
        proof {
            assert(pending@ =~= batch_view.skip(0));
            assert(batch_view.take(0) =~= Seq::<GenerationEvent>::empty());
            assert(ids_view(finished_reasoning_ids@) =~= Seq::<Seq<char>>::empty());
        }
        while pending.len() > 0
            invariant
                k + pending@.len() == batch_view.len(),
                batch_view.len() <= usize::MAX,
                pending@ == batch_view.skip(k as int),
                self.wf(),
                self.baseline == old(self).baseline,
                self.stored == old(self).stored,
                self.dirty == old(self).dirty,
                self.terminal == old(self).terminal,
                (self.normalizer is None) == (old(self).normalizer is None),
                old(self).normalizer is None ==> applied == batch_view.take(k as int),
                old(self).normalizer matches Some(n0) ==> (normalizer_chain(batch_view.take(k as int), states, outputs)
                    && states[0] == n0 && applied == flatten(outputs) && self.normalizer == Some(states.last())),
                chain_holds(applied, responses, requests, outcomes, elapsed_ms, now),
                responses[0] == start_response,
                requests[0] == start_request,
                responses.last() == self.response,
                requests.last() == self.request,
                terminal == (old(self).terminal || any_terminal(outcomes)),
                ids_view(finished_reasoning_ids@) == finished_ids(outcomes),
            decreases pending.len(),
        {
            let event = pending.remove(0);
            assert(event == batch_view[k as int]);
            let ghost mut n_before = self.normalizer;
            let ghost mut n_after = self.normalizer;
            let normalized = if self.normalizer.is_some() {
                let mut normalizer = self.normalizer.take().unwrap();
                proof {
                    n_before = Some(normalizer);
                }
                let out = normalizer.normalize(event);
                proof {
                    n_after = Some(normalizer);
                }
                self.normalizer = Some(normalizer);
                out
            } else {
                let mut one: Vec<GenerationEvent> = Vec::new();
                one.push(event);
                one
            };
            proof {
                if old(self).normalizer is None {
                    assert(normalized@ =~= seq![batch_view[k as int]]);
                }
            }
            let ghost applied_before = applied;
            proof {
                if old(self).normalizer is Some {
                    let old_states = states;
                    let old_outputs = outputs;
                    let events = batch_view.take(k as int + 1);
                    assert(normalize_step(n_before->0, batch_view[k as int], n_after->0, normalized@));
                    states = states.push(n_after->0);
                    outputs = outputs.push(normalized@);
                    assert forall|i: int| 0 <= i < events.len() implies #[trigger] normalize_step(
                        states[i],
                        events[i],
                        states[i + 1],
                        outputs[i],
                    ) by {
                        if i < k {
                            assert(events[i] == batch_view.take(k as int)[i]);
                            assert(states[i] == old_states[i] && states[i + 1] == old_states[i + 1]);
                            assert(outputs[i] == old_outputs[i]);
                        } else {
                            assert(events[i] == batch_view[k as int]);
                        }
                    }
                    assert(outputs.drop_last() =~= old_outputs);
                }
            }
            let mut rest = normalized;
            let ghost all_normalized = rest@;
            assert(all_normalized.len() == rest.len());
            let mut j: usize = 0;
            proof {
                assert(rest@ =~= all_normalized.skip(0));
                assert(applied == applied_before + all_normalized.take(0));
            }
            while rest.len() > 0
                invariant
                    j + rest@.len() == all_normalized.len(),
                    all_normalized.len() <= usize::MAX,
                    rest@ == all_normalized.skip(j as int),
                    applied == applied_before + all_normalized.take(j as int),
                    chain_holds(applied, responses, requests, outcomes, elapsed_ms, now),
                    responses[0] == start_response,
                    requests[0] == start_request,
                    responses.last() == self.response,
                    requests.last() == self.request,
                    terminal == (old(self).terminal || any_terminal(outcomes)),
                    ids_view(finished_reasoning_ids@) == finished_ids(outcomes),
                    self.wf(),
                    self.baseline == old(self).baseline,
                    self.stored == old(self).stored,
                    self.dirty == old(self).dirty,
                    self.terminal == old(self).terminal,
                    (self.normalizer is None) == (old(self).normalizer is None),
                    old(self).normalizer matches Some(n0) ==> (normalizer_chain(batch_view.take(k as int + 1), states, outputs)
                        && states[0] == n0 && flatten(outputs) == applied_before + all_normalized
                        && self.normalizer == Some(states.last())),
                decreases rest.len(),
            {
                let next = rest.remove(0);
                assert(next == all_normalized[j as int]);
                let ghost r0 = self.response;
                let ghost q0 = self.request;
                let ghost o: (bool, Option<Seq<char>>);
                if (self.response.blocks.len() as u64) < u64::MAX {
                    let outcome = apply_event_at(next, &mut self.response, &mut self.request, elapsed_ms, now);
                    proof {
                        o = (outcome.terminal, opt_view(outcome.finished_reasoning_id));
                    }
                    terminal = terminal || outcome.terminal;
                    let ghost ids_before = finished_reasoning_ids@;
                    match outcome.finished_reasoning_id {
                        Some(id) => {
                            finished_reasoning_ids.push(id);
                            assert(ids_view(finished_reasoning_ids@) =~= ids_view(ids_before).push(id@));
                        },
                        None => {},
                    }
                } else {
                    proof {
                        o = (false, None);
                    }
                }
                proof {
                    assert(step_effect(all_normalized[j as int], r0, self.response, q0, self.request, elapsed_ms, now, o));
                    let old_applied = applied;
                    let old_responses = responses;
                    let old_requests = requests;
                    let old_outcomes = outcomes;
                    applied = applied.push(all_normalized[j as int]);
                    responses = responses.push(self.response);
                    requests = requests.push(self.request);
                    outcomes = outcomes.push(o);
                    assert forall|i: int| 0 <= i < applied.len() implies #[trigger] step_effect(
                        applied[i],
                        responses[i],
                        responses[i + 1],
                        requests[i],
                        requests[i + 1],
                        elapsed_ms,
                        now,
                        outcomes[i],
                    ) by {
                        if i < old_applied.len() {
                            assert(applied[i] == old_applied[i]);
                            assert(responses[i] == old_responses[i] && responses[i + 1] == old_responses[i + 1]);
                            assert(requests[i] == old_requests[i] && requests[i + 1] == old_requests[i + 1]);
                            assert(outcomes[i] == old_outcomes[i]);
                            assert(step_effect(old_applied[i], old_responses[i], old_responses[i + 1], old_requests[i], old_requests[i + 1], elapsed_ms, now, old_outcomes[i]));
                        }
                    }
                    assert(outcomes.drop_last() =~= old_outcomes);
                    assert(outcomes.last() == o);
                    if o.0 {
                        assert(outcomes[outcomes.len() - 1].0);
                    }
                    if any_terminal(old_outcomes) {
                        let w = choose|i: int| 0 <= i < old_outcomes.len() && #[trigger] old_outcomes[i].0;
                        assert(outcomes[w].0);
                    }
                    if any_terminal(outcomes) {
                        let w = choose|i: int| 0 <= i < outcomes.len() && #[trigger] outcomes[i].0;
                        if w < old_outcomes.len() {
                            assert(old_outcomes[w].0);
                        }
                    }
                }
                j += 1;
                proof {
                    assert(rest@ =~= all_normalized.skip(j as int));
                    assert(all_normalized.take(j as int) =~= all_normalized.take(j - 1).push(all_normalized[j - 1]));
                    assert(applied =~= applied_before + all_normalized.take(j as int));
                }
            }
            proof {
                assert(all_normalized.take(all_normalized.len() as int) =~= all_normalized);
                if old(self).normalizer is None {
                    assert(batch_view.take(k as int + 1) =~= batch_view.take(k as int).push(batch_view[k as int]));
                }
            }
            k += 1;
            proof {
                assert(pending@ =~= batch_view.skip(k as int));
            }
        }
        proof {
            assert(batch_view.take(batch_view.len() as int) =~= batch_view);
        }
        if terminal {
            restore_failed_continuation(&mut self.response, &self.request, self.baseline.as_ref(), now);
        }
        self.terminal = terminal;
        let due = terminal || since_flush_ms >= STORAGE_FLUSH_INTERVAL_MS;
        let dirty = self.dirty || has_events;
        let persist = dirty && due && self.stored;
        self.dirty = if dirty && due && !self.stored {
            false
        } else {
            dirty
        };
        let snapshot = if has_events {
            Some(
                GenerationSnapshot {
                    response: self.response.clone(),
                    request: self.request.clone(),
                    terminal,
                    finished_reasoning_ids,
                },
            )
        } else {
            None
        };
        assert(chain_holds(applied, responses, requests, outcomes, elapsed_ms, now));
        RunStep { persist, snapshot, finished: has_events && terminal }
    }

    /// Records how a write ended: a successful write leaves nothing unwritten.
    pub fn persisted(&mut self, ok: bool)
        ensures
            *final(self) == (GenerationRun { dirty: old(self).dirty && !ok, ..*old(self) }),
    {
        if ok {
            self.dirty = false;
        }
    }
}

} // verus!
