//! Keeping the loaded conversation in step with a running generation: each streamed copy of
//! the response and its request replaces the stored one, and a response that completes with
//! text becomes the one the conversation continues from when there is no usable one.
use vstd::prelude::*;

use crate::domain::{opt_view, AssistantResponse, MessageStatus, RequestInfo, Turn};
use crate::history::{response_index, response_index_exec};
use crate::history::lemma_response_index_valid;
use crate::workspace::{lemma_request_index_range, request_index, request_index_exec};

verus! {

/// The continuation names a response of `responses` that completed with some text.
pub open spec fn usable_continuation(continuation: Option<Seq<char>>, responses: Seq<AssistantResponse>) -> bool {
    match continuation {
        None => false,
        Some(id) => match response_index(responses, id) {
            None => false,
            Some(k) => responses[k].status == MessageStatus::Completed && responses[k].content@.len() > 0,
        },
    }
}

/// The responses after the copy of one of them arrived: the first with its id is replaced.
pub open spec fn with_response(responses: Seq<AssistantResponse>, response: AssistantResponse) -> Seq<AssistantResponse> {
    match response_index(responses, response.id@) {
        Some(k) => responses.update(k, response),
        None => responses,
    }
}

/// The continuation after `response` arrived in a turn whose responses are now `responses`:
/// a response that completed with text takes over a continuation that is not usable.
pub open spec fn next_continuation(
    continuation: Option<Seq<char>>,
    responses: Seq<AssistantResponse>,
    response: AssistantResponse,
) -> Option<Seq<char>> {
    if response.status == MessageStatus::Completed && response.content@.len() > 0 && !usable_continuation(
        continuation,
        responses,
    ) {
        Some(response.id@)
    } else {
        continuation
    }
}

/// The first turn with this id.
pub open spec fn turn_position(turns: Seq<Turn>, id: Seq<char>) -> Option<int>
    decreases turns.len(),
{
    if turns.len() == 0 {
        None
    } else if turns[0].id@ == id {
        Some(0)
    } else {
        match turn_position(turns.drop_first(), id) {
            Some(i) => Some(i + 1),
            None => None,
        }
    }
}

proof fn lemma_turn_position_range(turns: Seq<Turn>, id: Seq<char>)
    ensures
        turn_position(turns, id) matches Some(i) ==> 0 <= i < turns.len() && turns[i].id@ == id,
    decreases turns.len(),
{
    if turns.len() > 0 {
        lemma_turn_position_range(turns.drop_first(), id);
    }
}

fn find_turn_position(turns: &Vec<Turn>, id: &String) -> (r: Option<usize>)
    ensures
        r is None <==> turn_position(turns@, id@) is None,
        r matches Some(i) ==> i < turns@.len() && turn_position(turns@, id@) == Some(i as int),
{
    proof {
        lemma_turn_position_range(turns@, id@);
    }
    let mut i: usize = 0;
    assert(turns@.skip(0) =~= turns@);
    while i < turns.len()
        invariant
            i <= turns@.len(),
            turn_position(turns@, id@) == (match turn_position(turns@.skip(i as int), id@) {
                Some(j) => Some(j + i),
                None => None::<int>,
            }),
        decreases turns.len() - i,
    {
        assert(turns@.skip(i as int).drop_first() =~= turns@.skip(i as int + 1));
        assert(turns@.skip(i as int)[0] == turns@[i as int]);
        if turns[i].id == *id {
            return Some(i);
        }
        i += 1;
    }
    None
}

/// Whether the turn's continuation names a response that completed with text.
pub fn continuation_is_usable(turn: &Turn) -> (r: bool)
    ensures
        r == usable_continuation(opt_view(turn.continuation_response_id), turn.responses@),
{
    assert(turn.responses@.len() == turn.responses.len());
    match &turn.continuation_response_id {
        None => false,
        Some(id) => {
            proof {
                lemma_response_index_valid(turn.responses@, id@, 0);
            }
            match response_index_exec(&turn.responses, id) {
                None => false,
                Some(k) => turn.responses[k].status == MessageStatus::Completed
                    && !turn.responses[k].content.as_str().is_empty(),
            }
        },
    }
}

/// Takes a streamed copy of a response and of its request into the loaded conversation, when
/// the generation belongs to the open conversation: the turn of the request gets the copy in
/// place of the stored response (and may continue from it), and the copy of the request
/// replaces the stored request. Returns whether the generation belongs to the open
/// conversation; nothing changes when it does not.
pub fn apply_generation_snapshot(
    turns: &mut Vec<Turn>,
    requests: &mut Vec<RequestInfo>,
    open_conversation: &Option<String>,
    conversation_id: &String,
    response: AssistantResponse,
    request: RequestInfo,
) -> (r: bool)
    ensures
        r == (opt_view(*open_conversation) == Some(conversation_id@)),
        !r ==> final(turns)@ == old(turns)@ && final(requests)@ == old(requests)@,
        r ==> final(turns)@.len() == old(turns)@.len() && match turn_position(old(turns)@, request.turn_id@) {
            None => final(turns)@ == old(turns)@,
            Some(t) => {
                &&& forall|i: int| 0 <= i < old(turns)@.len() && i != t ==> final(turns)@[i] == old(turns)@[i]
                &&& final(turns)@[t].id == old(turns)@[t].id
                &&& final(turns)@[t].conversation_id == old(turns)@[t].conversation_id
                &&& final(turns)@[t].parent_response_id == old(turns)@[t].parent_response_id
                &&& final(turns)@[t].user == old(turns)@[t].user
                &&& final(turns)@[t].generation_config == old(turns)@[t].generation_config
                &&& final(turns)@[t].responses@ == with_response(old(turns)@[t].responses@, response)
                &&& opt_view(final(turns)@[t].continuation_response_id) == next_continuation(
                    opt_view(old(turns)@[t].continuation_response_id),
                    with_response(old(turns)@[t].responses@, response),
                    response,
                )
            },
        },
        r ==> match request_index(old(requests)@, request.id@) {
            None => final(requests)@ == old(requests)@,
            Some(q) => final(requests)@ == old(requests)@.update(q, request),
        },
{
    let current = match open_conversation {
        Some(id) => *id == *conversation_id,
        None => false,
    };
    if !current {
        return false;
    }
    let request_id = request.id.clone();
    match find_turn_position(turns, &request.turn_id) {
        None => {},
        Some(t) => {
            let turn = &mut turns[t];
            assert(turn.responses@.len() == turn.responses.len());
            proof {
                lemma_response_index_valid(turn.responses@, response.id@, 0);
            }
            let completed = response.status == MessageStatus::Completed && !response.content.as_str().is_empty();
            let response_id = response.id.clone();
            match response_index_exec(&turn.responses, &response.id) {
                Some(k) => {
                    turn.responses.set(k, response);
                },
                None => {},
            }
            let usable = continuation_is_usable(turn);
            if completed && !usable {
                turn.continuation_response_id = Some(response_id);
            }
        },
    }
    assert(requests@.len() == requests.len());
    proof {
        lemma_request_index_range(requests@, request.id@);
    }
    match request_index_exec(requests, &request_id) {
        Some(q) => {
            requests.set(q, request);
        },
        None => {},
    }
    true
}

proof fn lemma_index_after_update(responses: Seq<AssistantResponse>, j: int, response: AssistantResponse, k: int)
    requires
        0 <= j < responses.len(),
        responses[j].id@ == response.id@,
    ensures
        crate::history::response_index_from(responses.update(j, response), response.id@, k)
            == crate::history::response_index_from(responses, response.id@, k),
    decreases responses.len() - k,
{
    if 0 <= k < responses.len() {
        lemma_index_after_update(responses, j, response, k + 1);
    }
}

/// Once a copy of a response that completed with text has arrived in its turn, the turn has a
/// usable continuation: a new message can follow it.
pub proof fn lemma_completed_response_can_be_continued(
    continuation: Option<Seq<char>>,
    responses: Seq<AssistantResponse>,
    response: AssistantResponse,
)
    requires
        response_index(responses, response.id@) is Some,
        response.status == MessageStatus::Completed,
        response.content@.len() > 0,
    ensures
        usable_continuation(
            next_continuation(continuation, with_response(responses, response), response),
            with_response(responses, response),
        ),
{
    lemma_response_index_valid(responses, response.id@, 0);
    let j = response_index(responses, response.id@)->0;
    lemma_index_after_update(responses, j, response, 0);
}

/// A generation that completed while its conversation was not open is marked as unseen.
pub fn completed_in_background(status: MessageStatus, open_conversation: &Option<String>, conversation_id: &String) -> (r: bool)
    ensures
        r == (status == MessageStatus::Completed && opt_view(*open_conversation) != Some(conversation_id@)),
{
    let open_here = match open_conversation {
        Some(id) => *id == *conversation_id,
        None => false,
    };
    status == MessageStatus::Completed && !open_here
}

/// The turn whose end starts an automatic title: the turn of the request, when it is a root
/// turn (one that answers no response).
pub fn title_turn(turns: &Vec<Turn>, turn_id: &String) -> (r: Option<usize>)
    ensures
        match turn_position(turns@, turn_id@) {
            Some(t) => if turns@[t].parent_response_id is None {
                r == Some(t as usize)
            } else {
                r is None
            },
            None => r is None,
        },
{
    match find_turn_position(turns, turn_id) {
        Some(t) => if turns[t].parent_response_id.is_none() {
            Some(t)
        } else {
            None
        },
        None => None,
    }
}

/// The text last parsed for each output id.
pub open spec fn last_source(seen: Seq<(Seq<char>, Seq<char>)>, id: Seq<char>) -> Option<Seq<char>>
    decreases seen.len(),
{
    if seen.len() == 0 {
        None
    } else if seen.last().0 == id {
        Some(seen.last().1)
    } else {
        last_source(seen.drop_last(), id)
    }
}

/// The sources that need parsing as Markdown: those whose text differs from what was last
/// parsed for their id. Each one taken is remembered.
pub open spec fn fresh_sources(seen: Seq<(Seq<char>, Seq<char>)>, sources: Seq<(Seq<char>, Seq<char>)>) -> (Seq<(Seq<char>, Seq<char>)>, Seq<(Seq<char>, Seq<char>)>)
    decreases sources.len(),
{
    if sources.len() == 0 {
        (seen, Seq::empty())
    } else {
        let (seen1, out1) = fresh_sources(seen, sources.drop_last());
        let s = sources.last();
        if last_source(seen1, s.0) == Some(s.1) {
            (seen1, out1)
        } else {
            (seen1.push(s), out1.push(s))
        }
    }
}

pub open spec fn pair_views(v: Seq<(String, String)>) -> Seq<(Seq<char>, Seq<char>)> {
    v.map_values(|p: (String, String)| (p.0@, p.1@))
}

fn last_source_exec(seen: &Vec<(String, String)>, id: &String) -> (r: Option<usize>)
    ensures
        match last_source(pair_views(seen@), id@) {
            Some(t) => r matches Some(i) && i < seen@.len() && seen@[i as int].1@ == t,
            None => r is None,
        },
{
    let mut k = seen.len();
    assert(pair_views(seen@).take(seen@.len() as int) =~= pair_views(seen@));
    while k > 0
        invariant
            k <= seen@.len(),
            last_source(pair_views(seen@), id@) == last_source(pair_views(seen@).take(k as int), id@),
        decreases k,
    {
        assert(pair_views(seen@).take(k as int).drop_last() =~= pair_views(seen@).take(k - 1));
        if seen[k - 1].0 == *id {
            return Some(k - 1);
        }
        k -= 1;
    }
    None
}

/// Keeps the sources of a snapshot that need parsing as Markdown, and remembers them.
pub fn markdown_sources_to_parse(seen: &mut Vec<(String, String)>, sources: Vec<(String, String)>) -> (r: Vec<(String, String)>)
    ensures
        (pair_views(final(seen)@), pair_views(r@)) == fresh_sources(pair_views(old(seen)@), pair_views(sources@)),
{
    let ghost start = pair_views(seen@);
    let mut out: Vec<(String, String)> = Vec::new();
    let mut k: usize = 0;
    assert(pair_views(sources@).take(0) =~= Seq::<(Seq<char>, Seq<char>)>::empty());
    assert(pair_views(out@) =~= Seq::<(Seq<char>, Seq<char>)>::empty());
    while k < sources.len()
        invariant
            k <= sources@.len(),
            (pair_views(seen@), pair_views(out@)) == fresh_sources(start, pair_views(sources@).take(k as int)),
        decreases sources.len() - k,
    {
        let id = &sources[k].0;
        let text = &sources[k].1;
        proof {
            assert(pair_views(sources@).take(k as int + 1).drop_last() =~= pair_views(sources@).take(k as int));
        }
        let known = match last_source_exec(seen, id) {
            Some(i) => seen[i].1 == *text,
            None => false,
        };
        if !known {
            let ghost sv = pair_views(seen@);
            let ghost ov = pair_views(out@);
            seen.push((id.clone(), text.clone()));
            out.push((id.clone(), text.clone()));
            assert(pair_views(seen@) =~= sv.push(pair_views(sources@)[k as int]));
            assert(pair_views(out@) =~= ov.push(pair_views(sources@)[k as int]));
        }
        k += 1;
    }
    assert(pair_views(sources@).take(sources@.len() as int) =~= pair_views(sources@));
    out
}

} // verus!
