//! The rules the conversation store follows: title search, how unfinished work is marked after
//! a restart, and how values are written to SQL.
use vstd::prelude::*;

use crate::domain::{AutoTitleState, Conversation, MessageStatus, RequestStatus, title_progress};
use crate::order::{chars_lt, lemma_lex_irreflexive, lemma_lex_total, lemma_lex_transitive, lex_lt};
use crate::text::{chars_of, push_str, string_of};

verus! {

/// The code of a character with ASCII letters in lower case.
pub open spec fn ascii_fold(c: char) -> u32 {
    if 'A' <= c && c <= 'Z' {
        ((c as u32) + 32) as u32
    } else {
        c as u32
    }
}

/// Whether `query` occurs in `text` at `at`, ASCII letters compared without case.
pub open spec fn occurs_folded_at(text: Seq<char>, query: Seq<char>, at: int) -> bool {
    0 <= at && at + query.len() <= text.len() && forall|j: int|
        0 <= j < query.len() ==> ascii_fold(#[trigger] text[at + j]) == ascii_fold(query[j])
}

/// Whether a title matches a search: the query occurs in it, ASCII letters compared without
/// case, and every other character, `%` and `_` included, literally.
pub open spec fn title_matches(title: Seq<char>, query: Seq<char>) -> bool {
    exists|at: int| #[trigger] occurs_folded_at(title, query, at)
}

fn fold(c: char) -> (r: u32)
    ensures
        r == ascii_fold(c),
{
    if 'A' <= c && c <= 'Z' {
        c as u32 + 32
    } else {
        c as u32
    }
}

fn occurs_at(text: &Vec<char>, query: &Vec<char>, at: usize) -> (r: bool)
    requires
        at + query.len() <= text.len(),
    ensures
        r == occurs_folded_at(text@, query@, at as int),
{
    let mut j: usize = 0;
    assert(text@.len() == text.len());
    while j < query.len()
        invariant
            0 <= j <= query@.len(),
            at + query@.len() <= text@.len() <= usize::MAX,
            forall|t: int| 0 <= t < j ==> ascii_fold(#[trigger] text@[at + t]) == ascii_fold(query@[t]),
        decreases query.len() - j,
    {
        if fold(text[at + j]) != fold(query[j]) {
            assert(!(ascii_fold(text@[at + j as int]) == ascii_fold(query@[j as int])));
            return false;
        }
        j += 1;
    }
    true
}

/// Whether a title matches a search query.
pub fn matches_title(title: &str, query: &str) -> (r: bool)
    ensures
        r == title_matches(title@, query@),
{
    let text = chars_of(title);
    let q = chars_of(query);
    if q.len() > text.len() {
        assert(!title_matches(title@, query@)) by {
            if title_matches(title@, query@) {
                let at = choose|at: int| #[trigger] occurs_folded_at(title@, query@, at);
            }
        }
        return false;
    }
    let mut at: usize = 0;
    while at <= text.len() - q.len()
        invariant
            q@.len() <= text@.len(),
            text@ == title@,
            q@ == query@,
            forall|b: int| 0 <= b < at ==> !#[trigger] occurs_folded_at(title@, query@, b),
        decreases text.len() - q.len() + 1 - at,
    {
        if occurs_at(&text, &q, at) {
            return true;
        }
        at += 1;
    }
    assert(!title_matches(title@, query@)) by {
        if title_matches(title@, query@) {
            let b = choose|b: int| #[trigger] occurs_folded_at(title@, query@, b);
            assert(b < at);
        }
    }
    false
}

/// The conversations whose titles match a search query, in the order they were given.
pub fn search_conversations(conversations: Vec<Conversation>, query: &str) -> (r: Vec<Conversation>)
    ensures
        r@ == conversations@.filter(|c: Conversation| title_matches(c.title@, query@)),
{
    assert(conversations@.len() == conversations.len());
    let ghost all = conversations@;
    let ghost pred = |c: Conversation| title_matches(c.title@, query@);
    let mut rest = conversations;
    let mut found: Vec<Conversation> = Vec::new();
    let mut i: usize = 0;
    proof {
        reveal(Seq::filter);
        assert(all.take(0).filter(pred) =~= Seq::<Conversation>::empty());
    }
    while rest.len() > 0
        invariant
            i + rest@.len() == all.len(),
            all.len() <= usize::MAX,
            rest@ == all.skip(i as int),
            found@ == all.take(i as int).filter(pred),
            pred == (|c: Conversation| title_matches(c.title@, query@)),
        decreases rest.len(),
    {
        let c = rest.remove(0);
        assert(c == all[i as int]);
        proof {
            assert(all.take(i + 1).drop_last() =~= all.take(i as int));
            assert(all.take(i + 1).last() == c);
        }
        let keep = matches_title(c.title.as_str(), query);
        assert(pred(c) == keep);
        proof {
            reveal(Seq::filter);
            let t = all.take(i + 1);
            assert(t.len() > 0);
            assert(t.filter(pred) == (if pred(t.last()) {
                t.drop_last().filter(pred).push(t.last())
            } else {
                t.drop_last().filter(pred)
            }));
        }
        if keep {
            found.push(c);
        }
        i += 1;
        proof {
            assert(rest@ =~= all.skip(i as int));
        }
    }
    assert(all.take(all.len() as int) =~= all);
    found
}

/// A search query written as a `LIKE` pattern body: `\`, `%` and `_` escaped with `\`.
pub open spec fn like_escaped(query: Seq<char>) -> Seq<char>
    decreases query.len(),
{
    if query.len() == 0 {
        Seq::empty()
    } else {
        let c = query.last();
        like_escaped(query.drop_last()) + if c == '\\' || c == '%' || c == '_' {
            seq!['\\', c]
        } else {
            seq![c]
        }
    }
}

/// Escapes a search query for a `LIKE` pattern.
pub fn escape_like(query: &str) -> (r: String)
    ensures
        r@ == like_escaped(query@),
{
    let q = chars_of(query);
    let mut out: Vec<char> = Vec::new();
    let mut i: usize = 0;
    while i < q.len()
        invariant
            0 <= i <= q@.len(),
            q@ == query@,
            out@ == like_escaped(q@.take(i as int)),
        decreases q.len() - i,
    {
        proof {
            assert(q@.take(i + 1).drop_last() =~= q@.take(i as int));
        }
        let c = q[i];
        if c == '\\' || c == '%' || c == '_' {
            out.push('\\');
        }
        out.push(c);
        i += 1;
        proof {
            assert(out@ =~= like_escaped(q@.take(i as int)));
        }
    }
    assert(q@.take(q@.len() as int) =~= q@);
    string_of(&out)
}

/// A count as SQLite stores it: capped at the largest signed 64-bit integer.
pub fn sql_u64(value: Option<u64>) -> (r: Option<i64>)
    ensures
        r == (match value {
            Some(v) => Some(if v > i64::MAX { i64::MAX } else { v as i64 }),
            None => None::<i64>,
        }),
{
    match value {
        Some(v) => Some(if v > i64::MAX as u64 {
            i64::MAX
        } else {
            v as i64
        }),
        None => None,
    }
}

/// The status a message has after a restart: unfinished messages were interrupted.
pub open spec fn recovered_message(status: MessageStatus) -> MessageStatus {
    if status == MessageStatus::Pending || status == MessageStatus::Streaming {
        MessageStatus::Interrupted
    } else {
        status
    }
}

/// The status a request has after a restart: unfinished requests were interrupted.
pub open spec fn recovered_request(status: RequestStatus) -> RequestStatus {
    if status == RequestStatus::Sending || status == RequestStatus::Streaming {
        RequestStatus::Interrupted
    } else {
        status
    }
}

/// The message statuses that are marked interrupted after a restart.
pub fn unfinished_message_statuses() -> (r: Vec<MessageStatus>)
    ensures
        forall|s: MessageStatus| r@.contains(s) <==> recovered_message(s) != s,
{
    let r = vec![MessageStatus::Pending, MessageStatus::Streaming];
    assert forall|s: MessageStatus| r@.contains(s) <==> recovered_message(s) != s by {
        if recovered_message(s) != s {
            if s == MessageStatus::Pending {
                assert(r@[0] == s);
            } else {
                assert(r@[1] == s);
            }
        }
    }
    r
}

/// The request statuses that are marked interrupted after a restart.
pub fn unfinished_request_statuses() -> (r: Vec<RequestStatus>)
    ensures
        forall|s: RequestStatus| r@.contains(s) <==> recovered_request(s) != s,
{
    let r = vec![RequestStatus::Sending, RequestStatus::Streaming];
    assert forall|s: RequestStatus| r@.contains(s) <==> recovered_request(s) != s by {
        if recovered_request(s) != s {
            if s == RequestStatus::Sending {
                assert(r@[0] == s);
            } else {
                assert(r@[1] == s);
            }
        }
    }
    r
}

/// A response as it is after a restart: unfinished, it is interrupted; nothing else changes.
pub open spec fn recovered_response(r: crate::domain::AssistantResponse) -> crate::domain::AssistantResponse {
    crate::domain::AssistantResponse { status: recovered_message(r.status), ..r }
}

/// A request as it is after a restart: unfinished, it is interrupted; nothing else changes.
pub open spec fn recovered_request_info(r: crate::domain::RequestInfo) -> crate::domain::RequestInfo {
    crate::domain::RequestInfo { status: recovered_request(r.status), ..r }
}

/// Marks the unfinished responses and requests of a loaded conversation as interrupted, as
/// they are after a restart; every other field of every response and request stays.
pub fn recover_interrupted(
    responses: &mut Vec<crate::domain::AssistantResponse>,
    requests: &mut Vec<crate::domain::RequestInfo>,
)
    ensures
        final(responses)@ == old(responses)@.map_values(|r: crate::domain::AssistantResponse| recovered_response(r)),
        final(requests)@ == old(requests)@.map_values(|r: crate::domain::RequestInfo| recovered_request_info(r)),
{
    let ghost before = responses@;
    let mut k: usize = 0;
    while k < responses.len()
        invariant
            0 <= k <= responses@.len(),
            responses@.len() == before.len(),
            forall|j: int| 0 <= j < k ==> (#[trigger] responses@[j]) == recovered_response(before[j]),
            forall|j: int| k <= j < before.len() ==> #[trigger] responses@[j] == before[j],
        decreases responses.len() - k,
    {
        let status = responses[k].status;
        if status == MessageStatus::Pending || status == MessageStatus::Streaming {
            let mut response = responses.remove(k);
            response.status = MessageStatus::Interrupted;
            responses.insert(k, response);
        }
        k += 1;
    }
    assert(responses@ =~= before.map_values(|r: crate::domain::AssistantResponse| recovered_response(r)));
    let ghost before_requests = requests@;
    let mut k: usize = 0;
    while k < requests.len()
        invariant
            0 <= k <= requests@.len(),
            requests@.len() == before_requests.len(),
            forall|j: int| 0 <= j < k ==> (#[trigger] requests@[j]) == recovered_request_info(before_requests[j]),
            forall|j: int| k <= j < before_requests.len() ==> #[trigger] requests@[j] == before_requests[j],
        decreases requests.len() - k,
    {
        let status = requests[k].status;
        if status == RequestStatus::Sending || status == RequestStatus::Streaming {
            let mut request = requests.remove(k);
            request.status = RequestStatus::Interrupted;
            requests.insert(k, request);
        }
        k += 1;
    }
    assert(requests@ =~= before_requests.map_values(|r: crate::domain::RequestInfo| recovered_request_info(r)));
}

/// Recovering twice is recovering once: what a restart left interrupted stays as it is.
pub proof fn lemma_recovery_is_idempotent(
    responses: Seq<crate::domain::AssistantResponse>,
    requests: Seq<crate::domain::RequestInfo>,
)
    ensures
        responses.map_values(|r: crate::domain::AssistantResponse| recovered_response(r)).map_values(
            |r: crate::domain::AssistantResponse| recovered_response(r),
        ) == responses.map_values(|r: crate::domain::AssistantResponse| recovered_response(r)),
        requests.map_values(|r: crate::domain::RequestInfo| recovered_request_info(r)).map_values(
            |r: crate::domain::RequestInfo| recovered_request_info(r),
        ) == requests.map_values(|r: crate::domain::RequestInfo| recovered_request_info(r)),
{
    assert(responses.map_values(|r: crate::domain::AssistantResponse| recovered_response(r)).map_values(
        |r: crate::domain::AssistantResponse| recovered_response(r),
    ) =~= responses.map_values(|r: crate::domain::AssistantResponse| recovered_response(r)));
    assert(requests.map_values(|r: crate::domain::RequestInfo| recovered_request_info(r)).map_values(
        |r: crate::domain::RequestInfo| recovered_request_info(r),
    ) =~= requests.map_values(|r: crate::domain::RequestInfo| recovered_request_info(r)));
}

/// The first conversation with the given id.
pub open spec fn conversation_with(conversations: Seq<Conversation>, id: Seq<char>) -> Option<Conversation>
    decreases conversations.len(),
{
    if conversations.len() == 0 {
        None
    } else if conversations[0].id@ == id {
        Some(conversations[0])
    } else {
        conversation_with(conversations.drop_first(), id)
    }
}

/// The title state a reloaded conversation keeps: the later of the stored one and the one
/// shown before, so a reload never moves a title back.
pub open spec fn kept_title_state(fresh: Conversation, shown: Seq<Conversation>) -> AutoTitleState {
    match conversation_with(shown, fresh.id@) {
        Some(c) => if title_progress(fresh.auto_title_state) >= title_progress(c.auto_title_state) {
            fresh.auto_title_state
        } else {
            c.auto_title_state
        },
        None => fresh.auto_title_state,
    }
}

fn shown_title_state(shown: &Vec<Conversation>, id: &String) -> (r: Option<AutoTitleState>)
    ensures
        r == (match conversation_with(shown@, id@) {
            Some(c) => Some(c.auto_title_state),
            None => None::<AutoTitleState>,
        }),
{
    let key = chars_of(id.as_str());
    let mut i: usize = 0;
    assert(shown@.skip(0) =~= shown@);
    while i < shown.len()
        invariant
            i <= shown@.len(),
            key@ == id@,
            conversation_with(shown@, id@) == conversation_with(shown@.skip(i as int), id@),
        decreases shown.len() - i,
    {
        assert(shown@.skip(i as int).drop_first() =~= shown@.skip(i as int + 1));
        assert(shown@.skip(i as int)[0] == shown@[i as int]);
        let candidate = chars_of(shown[i].id.as_str());
        if crate::text::chars_equal(&candidate, &key) {
            return Some(shown[i].auto_title_state);
        }
        i += 1;
    }
    None
}

/// Reloaded conversations keep the title progress already shown for them.
pub fn keep_title_progress(fresh: Vec<Conversation>, shown: &Vec<Conversation>) -> (r: Vec<Conversation>)
    ensures
        r@.len() == fresh@.len(),
        forall|i: int|
            0 <= i < fresh@.len() ==> #[trigger] r@[i] == (Conversation {
                auto_title_state: kept_title_state(fresh@[i], shown@),
                ..fresh@[i]
            }),
{
    let ghost all = fresh@;
    let mut rest = fresh;
    let mut kept: Vec<Conversation> = Vec::new();
    let mut k: usize = 0;
    assert(all.len() == rest.len());
    assert(rest@ =~= all.skip(0));
    while rest.len() > 0
        invariant
            k + rest@.len() == all.len(),
            all.len() <= usize::MAX,
            rest@ == all.skip(k as int),
            kept@.len() == k,
            forall|i: int|
                0 <= i < k ==> #[trigger] kept@[i] == (Conversation {
                    auto_title_state: kept_title_state(all[i], shown@),
                    ..all[i]
                }),
        decreases rest.len(),
    {
        let mut c = rest.remove(0);
        assert(c == all[k as int]);
        match shown_title_state(shown, &c.id) {
            Some(state) => {
                c.auto_title_state = c.auto_title_state.later(state);
            },
            None => {},
        }
        kept.push(c);
        k += 1;
        assert(rest@ =~= all.skip(k as int));
    }
    kept
}

/// A reload never moves a conversation's title progress back: the kept state is at least as
/// far as the stored one and as the one shown before.
pub proof fn lemma_reload_keeps_title_progress(fresh: Conversation, shown: Seq<Conversation>)
    ensures
        title_progress(kept_title_state(fresh, shown)) >= title_progress(fresh.auto_title_state),
        conversation_with(shown, fresh.id@) matches Some(c) ==> title_progress(kept_title_state(fresh, shown))
            >= title_progress(c.auto_title_state),
{
}

/// The conversation list shows `a` before `b`: pinned conversations first, then the more
/// recently updated, then by identifier.
pub open spec fn listed_before(a: Conversation, b: Conversation) -> bool {
    if a.pinned != b.pinned {
        a.pinned
    } else if a.updated_at != b.updated_at {
        a.updated_at > b.updated_at
    } else {
        lex_lt(a.id@, b.id@)
    }
}

/// No conversation is listed after one that should come after it.
pub open spec fn in_list_order(s: Seq<Conversation>) -> bool {
    forall|i: int, j: int| 0 <= i < j < s.len() ==> !listed_before(#[trigger] s[j], #[trigger] s[i])
}

proof fn lemma_listed_transitive(a: Conversation, b: Conversation, c: Conversation)
    requires
        listed_before(a, b),
        listed_before(b, c),
    ensures
        listed_before(a, c),
{
    if a.pinned == b.pinned && b.pinned == c.pinned && a.updated_at == b.updated_at && b.updated_at == c.updated_at {
        lemma_lex_transitive(a.id@, b.id@, c.id@);
    }
}

proof fn lemma_listed_irreflexive(a: Conversation)
    ensures
        !listed_before(a, a),
{
    lemma_lex_irreflexive(a.id@);
}

/// Neither comes first: the two share their place in the list.
proof fn lemma_listed_tie(a: Conversation, b: Conversation, c: Conversation)
    requires
        !listed_before(a, b),
        !listed_before(b, a),
    ensures
        listed_before(a, c) == listed_before(b, c),
{
    if a.id@ != b.id@ {
        lemma_lex_total(a.id@, b.id@);
    }
}

fn is_listed_before(a: &Conversation, b: &Conversation) -> (r: bool)
    ensures
        r == listed_before(*a, *b),
{
    if a.pinned != b.pinned {
        a.pinned
    } else if a.updated_at != b.updated_at {
        a.updated_at > b.updated_at
    } else {
        let x = chars_of(a.id.as_str());
        let y = chars_of(b.id.as_str());
        chars_lt(&x, &y)
    }
}

/// The conversations in the order of the conversation list: pinned first, then the most
/// recently updated, then by identifier.
pub fn list_conversations(conversations: Vec<Conversation>) -> (r: Vec<Conversation>)
    ensures
        in_list_order(r@),
        r@.to_multiset() =~= conversations@.to_multiset(),
{
    let ghost input = conversations@;
    let mut rest = conversations;
    let mut sorted: Vec<Conversation> = Vec::new();
    proof {
        broadcast use vstd::seq_lib::group_to_multiset_ensures;
        assert(sorted@.to_multiset() =~= vstd::multiset::Multiset::<Conversation>::empty());
    }
    while rest.len() > 0
        invariant
            in_list_order(sorted@),
            sorted@.to_multiset().add(rest@.to_multiset()) =~= input.to_multiset(),
        decreases rest.len(),
    {
        let ghost before = rest@;
        let ghost sorted_before = sorted@;
        let item = rest.remove(0);
        let mut p: usize = sorted.len();
        loop
            invariant
                p <= sorted@.len(),
                sorted_before == sorted@,
                forall|j: int| p <= j < sorted_before.len() ==> listed_before(item, #[trigger] sorted_before[j]),
            ensures
                p <= sorted_before.len(),
                forall|j: int| p <= j < sorted_before.len() ==> listed_before(item, #[trigger] sorted_before[j]),
                p == 0 || !listed_before(item, sorted_before[p - 1]),
            decreases p,
        {
            if p == 0 {
                break;
            }
            if !is_listed_before(&item, &sorted[p - 1]) {
                break;
            }
            p -= 1;
        }
        let ghost x = item;
        sorted.insert(p, item);
        proof {
            broadcast use vstd::seq_lib::group_to_multiset_ensures;
            let s = sorted@;
            assert(s =~= sorted_before.insert(p as int, x));
            assert(before[0] == x);
            assert(rest@ =~= before.remove(0));
            assert forall|i: int, j: int| 0 <= i < j < s.len() implies !listed_before(#[trigger] s[j], #[trigger] s[i]) by {
                if j == p && i < p {
                    assert(s[i] == sorted_before[i]);
                    if i < p - 1 && listed_before(x, s[i]) {
                        assert(!listed_before(sorted_before[p - 1], sorted_before[i]));
                        if listed_before(sorted_before[p - 1], x) {
                            lemma_listed_transitive(sorted_before[p - 1], x, s[i]);
                        } else {
                            lemma_listed_tie(x, sorted_before[p - 1], s[i]);
                        }
                    }
                } else if i == p && j > p {
                    assert(s[j] == sorted_before[j - 1]);
                    if listed_before(s[j], x) {
                        lemma_listed_transitive(x, s[j], x);
                        lemma_listed_irreflexive(x);
                    }
                } else if i < p && j > p {
                    assert(s[i] == sorted_before[i] && s[j] == sorted_before[j - 1]);
                } else if i > p {
                    assert(s[i] == sorted_before[i - 1] && s[j] == sorted_before[j - 1]);
                } else {
                    assert(s[i] == sorted_before[i] && s[j] == sorted_before[j]);
                }
            }
            assert(before =~= seq![x] + rest@);
            assert(before.to_multiset() =~= rest@.to_multiset().insert(x));
            assert(s.to_multiset() =~= sorted_before.to_multiset().insert(x));
        }
    }
    sorted
}

/// Clearing a conversation's context removes its turns and its requests; everything else
/// stays, in order.
pub fn clear_conversation_context(
    turns: &mut Vec<crate::domain::Turn>,
    requests: &mut Vec<crate::domain::RequestInfo>,
    conversation_id: &String,
)
    ensures
        final(turns)@ == old(turns)@.filter(|t: crate::domain::Turn| t.conversation_id@ != conversation_id@),
        final(requests)@ == old(requests)@.filter(|q: crate::domain::RequestInfo| q.conversation_id@ != conversation_id@),
{
    let ghost keep_turn = |t: crate::domain::Turn| t.conversation_id@ != conversation_id@;
    let ghost start = turns@;
    let mut kept: Vec<crate::domain::Turn> = Vec::new();
    let mut rest: Vec<crate::domain::Turn> = Vec::new();
    std::mem::swap(&mut rest, turns);
    let mut k: usize = 0;
    let ghost total = rest@.len();
    assert(rest@.len() == rest.len());
    assert(start.take(0).filter(keep_turn) =~= Seq::<crate::domain::Turn>::empty());
    while rest.len() > 0
        invariant
            k + rest@.len() == total,
            total == start.len(),
            total <= usize::MAX,
            rest@ == start.skip(k as int),
            kept@ == start.take(k as int).filter(keep_turn),
            keep_turn == (|t: crate::domain::Turn| t.conversation_id@ != conversation_id@),
        decreases rest.len(),
    {
        let t = rest.remove(0);
        proof {
            reveal(Seq::filter);
            assert(start.take(k as int + 1).drop_last() =~= start.take(k as int));
            assert(start.take(k as int + 1).last() == t);
            assert(rest@ =~= start.skip(k as int + 1));
        }
        if t.conversation_id != *conversation_id {
            kept.push(t);
        }
        k += 1;
    }
    assert(start.take(total as int) =~= start);
    *turns = kept;
    let ghost keep_request = |q: crate::domain::RequestInfo| q.conversation_id@ != conversation_id@;
    let ghost start_requests = requests@;
    let mut kept_requests: Vec<crate::domain::RequestInfo> = Vec::new();
    let mut rest_requests: Vec<crate::domain::RequestInfo> = Vec::new();
    std::mem::swap(&mut rest_requests, requests);
    let mut k: usize = 0;
    let ghost total_requests = rest_requests@.len();
    assert(rest_requests@.len() == rest_requests.len());
    assert(start_requests.take(0).filter(keep_request) =~= Seq::<crate::domain::RequestInfo>::empty());
    while rest_requests.len() > 0
        invariant
            k + rest_requests@.len() == total_requests,
            total_requests == start_requests.len(),
            total_requests <= usize::MAX,
            rest_requests@ == start_requests.skip(k as int),
            kept_requests@ == start_requests.take(k as int).filter(keep_request),
            keep_request == (|q: crate::domain::RequestInfo| q.conversation_id@ != conversation_id@),
        decreases rest_requests.len(),
    {
        let q = rest_requests.remove(0);
        proof {
            reveal(Seq::filter);
            assert(start_requests.take(k as int + 1).drop_last() =~= start_requests.take(k as int));
            assert(start_requests.take(k as int + 1).last() == q);
            assert(rest_requests@ =~= start_requests.skip(k as int + 1));
        }
        if q.conversation_id != *conversation_id {
            kept_requests.push(q);
        }
        k += 1;
    }
    assert(start_requests.take(total_requests as int) =~= start_requests);
    *requests = kept_requests;
}

} // verus!
