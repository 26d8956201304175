//! Which earlier turns go into a request, and the messages they become.
//!
//! Turns form a tree: a turn answers the response named by its `parent_response_id`. The
//! history of a request is the lineage of responses that leads to it, oldest first, cut to
//! the conversation's history limit.
use vstd::prelude::*;

use crate::context_usage::saturate;
use crate::domain::{
    opt_view, AssistantResponse, HistoryLimit, Message, MessageRole, MessageView, Turn,
    UserMessage, message_views, clone_messages,
};

verus! {

/// How many earlier turns a request may see and how many it was given.
#[derive(Clone, Copy, Debug, Default, PartialEq, Eq, Structural)]
pub struct HistoryPreview {
    pub available_turns: u32,
    pub included_turns: u32,
}

/// The index of the first response with this id.
pub open spec fn response_index_from(responses: Seq<AssistantResponse>, id: Seq<char>, k: int) -> Option<int>
    decreases responses.len() - k,
{
    if k < 0 || k >= responses.len() {
        None
    } else if responses[k].id@ == id {
        Some(k)
    } else {
        response_index_from(responses, id, k + 1)
    }
}

pub open spec fn response_index(responses: Seq<AssistantResponse>, id: Seq<char>) -> Option<int> {
    response_index_from(responses, id, 0)
}

/// The first turn, from index `k` on, that holds a response with this id, and that response.
pub open spec fn position_from(turns: Seq<Turn>, id: Seq<char>, k: int) -> Option<(usize, usize)>
    decreases turns.len() - k,
{
    if k < 0 || k >= turns.len() {
        None
    } else {
        match response_index(turns[k].responses@, id) {
            Some(j) => Some((k as usize, j as usize)),
            None => position_from(turns, id, k + 1),
        }
    }
}

/// Where the response with this id stands: its turn and its place in that turn.
pub open spec fn response_position(turns: Seq<Turn>, id: Seq<char>) -> Option<(usize, usize)> {
    position_from(turns, id, 0)
}

/// The number of responses in all turns.
pub open spec fn response_total(turns: Seq<Turn>) -> nat
    decreases turns.len(),
{
    if turns.len() == 0 {
        0
    } else {
        response_total(turns.drop_last()) + turns.last().responses@.len()
    }
}

/// The ancestors reached from `current`, oldest first: each step finds the response, takes
/// its turn and moves to the response that turn answers. The walk ends at a response that is
/// missing or already seen; `fuel` bounds the steps.
pub open spec fn walk(
    turns: Seq<Turn>,
    current: Option<Seq<char>>,
    visited: Seq<Seq<char>>,
    fuel: nat,
) -> Seq<(usize, usize)>
    decreases fuel,
{
    if fuel == 0 {
        Seq::empty()
    } else {
        match current {
            None => Seq::empty(),
            Some(id) => if visited.contains(id) {
                Seq::empty()
            } else {
                match response_position(turns, id) {
                    None => Seq::empty(),
                    Some(p) => walk(
                        turns,
                        opt_view(turns[p.0 as int].parent_response_id),
                        visited.push(id),
                        (fuel - 1) as nat,
                    ).push(p),
                }
            },
        }
    }
}

/// The lineage of turns and responses that ends with the response `id`, oldest first.
pub open spec fn lineage(turns: Seq<Turn>, id: Seq<char>) -> Seq<(usize, usize)> {
    walk(turns, Some(id), Seq::empty(), response_total(turns) + 1)
}

/// The ancestors a request may see under a history limit: all of them, or the newest `n`.
pub open spec fn limited(ancestors: Seq<(usize, usize)>, limit: HistoryLimit) -> Seq<(usize, usize)> {
    match limit {
        HistoryLimit::All => ancestors,
        HistoryLimit::Last(n) => if ancestors.len() <= n {
            ancestors
        } else {
            ancestors.skip(ancestors.len() - n)
        },
    }
}

/// All ancestors of a request that answers `response_id`.
pub open spec fn available(turns: Seq<Turn>, response_id: Option<Seq<char>>) -> Seq<(usize, usize)> {
    match response_id {
        Some(id) => lineage(turns, id),
        None => Seq::empty(),
    }
}

/// A count as stored, saturated to `u32`.
pub open spec fn count_u32(n: nat) -> u32 {
    if n > u32::MAX {
        u32::MAX
    } else {
        n as u32
    }
}

/// The messages of a user message sent as plain text.
pub open spec fn plain_user(user: UserMessage) -> MessageView {
    MessageView {
        role: MessageRole::User,
        text: user.content@,
        reasoning: Seq::empty(),
        images: Seq::empty(),
    }
}

/// The messages that stand for a response in later requests: its transcript, or its text
/// when it has no transcript.
pub open spec fn response_messages(response: AssistantResponse) -> Seq<MessageView> {
    if response.transcript@.len() == 0 {
        if response.content@.len() == 0 {
            Seq::empty()
        } else {
            seq![
                MessageView {
                    role: MessageRole::Assistant,
                    text: response.content@,
                    reasoning: Seq::empty(),
                    images: Seq::empty(),
                },
            ]
        }
    } else {
        message_views(response.transcript@)
    }
}

/// How each user message is sent: a prepared message, or the reason it could not be
/// prepared. A user message without an entry is sent as plain text.
pub open spec fn conversion_from(
    conversions: Seq<(String, Result<Message, String>)>,
    user: UserMessage,
    k: int,
) -> Result<MessageView, Seq<char>>
    decreases conversions.len() - k,
{
    if k < 0 || k >= conversions.len() {
        Ok(plain_user(user))
    } else if conversions[k].0@ == user.id@ {
        match conversions[k].1 {
            Ok(m) => Ok(m@),
            Err(e) => Err(e@),
        }
    } else {
        conversion_from(conversions, user, k + 1)
    }
}

pub open spec fn conversion(
    conversions: Seq<(String, Result<Message, String>)>,
    user: UserMessage,
) -> Result<MessageView, Seq<char>> {
    conversion_from(conversions, user, 0)
}

/// The messages of a list of ancestors, in order, or the first conversion error.
pub open spec fn expanded(
    turns: Seq<Turn>,
    ancestors: Seq<(usize, usize)>,
    conversions: Seq<(String, Result<Message, String>)>,
) -> Result<Seq<MessageView>, Seq<char>>
    decreases ancestors.len(),
{
    if ancestors.len() == 0 {
        Ok(Seq::empty())
    } else {
        match expanded(turns, ancestors.drop_last(), conversions) {
            Err(e) => Err(e),
            Ok(before) => {
                let a = ancestors.last();
                let turn = turns[a.0 as int];
                match conversion(conversions, turn.user) {
                    Err(e) => Err(e),
                    Ok(u) => Ok(
                        before + seq![u] + response_messages(turn.responses@[a.1 as int]),
                    ),
                }
            },
        }
    }
}

/// Ancestors that name existing turns and responses.
pub open spec fn valid_ancestors(turns: Seq<Turn>, ancestors: Seq<(usize, usize)>) -> bool {
    forall|k: int|
        0 <= k < ancestors.len() ==> (#[trigger] ancestors[k]).0 < turns.len()
            && ancestors[k].1 < turns[ancestors[k].0 as int].responses@.len()
}

/// The last turn among the first `k` whose parent is `parent`.
pub open spec fn last_child(turns: Seq<Turn>, parent: Option<Seq<char>>, k: int) -> Option<int>
    decreases k,
{
    if k <= 0 || k > turns.len() {
        None
    } else if opt_view(turns[k - 1].parent_response_id) == parent {
        Some(k - 1)
    } else {
        last_child(turns, parent, k - 1)
    }
}

/// From turn `i`, follow the response each turn continues from to the newest turn that
/// answers it, while there is one; `fuel` bounds the steps.
pub open spec fn descend(turns: Seq<Turn>, i: int, fuel: nat) -> int
    decreases fuel,
{
    if fuel == 0 {
        i
    } else {
        match turns[i].continuation_response_id {
            None => i,
            Some(c) => match last_child(turns, Some(c@), turns.len() as int) {
                None => i,
                Some(j) => descend(turns, j, (fuel - 1) as nat),
            },
        }
    }
}

/// The newest turn of the shown branch: from the newest root turn, down the responses each
/// turn continues from.
pub open spec fn active_leaf(turns: Seq<Turn>) -> Option<int> {
    match last_child(turns, None, turns.len() as int) {
        None => None,
        Some(r) => Some(descend(turns, r, turns.len())),
    }
}

/// The response a new turn answers: the one the active leaf continues from.
pub open spec fn new_turn_parent(turns: Seq<Turn>) -> Option<Seq<char>> {
    match active_leaf(turns) {
        Some(i) => opt_view(turns[i].continuation_response_id),
        None => None,
    }
}

pub(crate) proof fn lemma_position_valid(turns: Seq<Turn>, id: Seq<char>, k: int)
    requires
        0 <= k,
        turns.len() <= usize::MAX,
    ensures
        match position_from(turns, id, k) {
            Some(p) => p.0 < turns.len() && p.1 < turns[p.0 as int].responses@.len()
                && turns[p.0 as int].responses@[p.1 as int].id@ == id,
            None => true,
        },
    decreases turns.len() - k,
{
    if k < turns.len() {
        match response_index(turns[k].responses@, id) {
            Some(j) => {
                lemma_response_index_valid(turns[k].responses@, id, 0);
                assert(turns[k].responses@.len() == turns[k].responses.len());
            },
            None => lemma_position_valid(turns, id, k + 1),
        }
    }
}

pub(crate) proof fn lemma_response_index_valid(responses: Seq<AssistantResponse>, id: Seq<char>, k: int)
    requires
        0 <= k,
    ensures
        match response_index_from(responses, id, k) {
            Some(j) => k <= j < responses.len() && responses[j].id@ == id,
            None => true,
        },
    decreases responses.len() - k,
{
    if k < responses.len() && responses[k].id@ != id {
        lemma_response_index_valid(responses, id, k + 1);
    }
}

proof fn lemma_walk_valid(turns: Seq<Turn>, current: Option<Seq<char>>, visited: Seq<Seq<char>>, fuel: nat)
    requires
        turns.len() <= usize::MAX,
    ensures
        valid_ancestors(turns, walk(turns, current, visited, fuel)),
    decreases fuel,
{
    if fuel > 0 {
        match current {
            None => {},
            Some(id) => if !visited.contains(id) {
                lemma_position_valid(turns, id, 0);
                match response_position(turns, id) {
                    None => {},
                    Some(p) => {
                        let rest = walk(
                            turns,
                            opt_view(turns[p.0 as int].parent_response_id),
                            visited.push(id),
                            (fuel - 1) as nat,
                        );
                        lemma_walk_valid(
                            turns,
                            opt_view(turns[p.0 as int].parent_response_id),
                            visited.push(id),
                            (fuel - 1) as nat,
                        );
                        assert forall|k: int| 0 <= k < rest.push(p).len() implies (#[trigger] rest.push(
                            p,
                        )[k]).0 < turns.len() && rest.push(p)[k].1 < turns[rest.push(
                            p,
                        )[k].0 as int].responses@.len() by {
                            if k < rest.len() {
                                assert(rest.push(p)[k] == rest[k]);
                            }
                        }
                    },
                }
            },
        }
    }
}

pub(crate) fn response_index_exec(responses: &Vec<AssistantResponse>, id: &String) -> (r: Option<usize>)
    ensures
        r == (match response_index(responses@, id@) {
            Some(j) => Some(j as usize),
            None => None::<usize>,
        }),
        r matches Some(j) ==> j < responses@.len(),
{
    let mut k: usize = 0;
    while k < responses.len()
        invariant
            0 <= k <= responses@.len(),
            response_index(responses@, id@) == response_index_from(responses@, id@, k as int),
        decreases responses.len() - k,
    {
        if responses[k].id == *id {
            return Some(k);
        }
        k += 1;
    }
    None
}

/// Where the response with this id stands.
pub(crate) fn find_response(turns: &[Turn], id: &String) -> (r: Option<(usize, usize)>)
    ensures
        r == response_position(turns@, id@),
{
    let mut k: usize = 0;
    while k < turns.len()
        invariant
            0 <= k <= turns@.len(),
            response_position(turns@, id@) == position_from(turns@, id@, k as int),
        decreases turns.len() - k,
    {
        match response_index_exec(&turns[k].responses, id) {
            Some(j) => {
                return Some((k, j));
            },
            None => {},
        }
        k += 1;
    }
    None
}

fn turns_response_total(turns: &[Turn]) -> (r: usize)
    ensures
        r == (if response_total(turns@) < usize::MAX {
            response_total(turns@)
        } else {
            usize::MAX as nat
        }),
{
    let mut total: usize = 0;
    let mut k: usize = 0;
    while k < turns.len()
        invariant
            0 <= k <= turns@.len(),
            total == (if response_total(turns@.subrange(0, k as int)) < usize::MAX {
                response_total(turns@.subrange(0, k as int))
            } else {
                usize::MAX as nat
            }),
        decreases turns.len() - k,
    {
        proof {
            assert(turns@.subrange(0, k + 1).drop_last() =~= turns@.subrange(0, k as int));
        }
        let n = turns[k].responses.len();
        total = if total > usize::MAX - n {
            usize::MAX
        } else {
            total + n
        };
        k += 1;
    }
    assert(turns@.subrange(0, turns@.len() as int) =~= turns@);
    total
}

fn contains_id(visited: &Vec<String>, id: &String) -> (r: bool)
    ensures
        r == crate::order::views(visited@).contains(id@),
{
    let mut k: usize = 0;
    while k < visited.len()
        invariant
            0 <= k <= visited@.len(),
            forall|j: int| 0 <= j < k ==> visited@[j]@ != id@,
        decreases visited.len() - k,
    {
        if visited[k] == *id {
            assert(crate::order::views(visited@)[k as int] == id@);
            return true;
        }
        k += 1;
    }
    assert(!crate::order::views(visited@).contains(id@)) by {
        if crate::order::views(visited@).contains(id@) {
            let j = choose|j: int|
                0 <= j < crate::order::views(visited@).len() && crate::order::views(visited@)[j]
                    == id@;
            assert(visited@[j]@ == id@);
        }
    }
    false
}

/// The lineage of turns and responses that ends with the response `id`, oldest first.
fn lineage_through_response(turns: &[Turn], id: &String) -> (r: Vec<(usize, usize)>)
    requires
        response_total(turns@) < usize::MAX,
    ensures
        r@ == lineage(turns@, id@),
        valid_ancestors(turns@, r@),
{
    assert(turns@.len() == turns.len());
    let fuel_total = turns_response_total(turns) + 1;
    let mut fuel: usize = fuel_total;
    let mut lineage_rev: Vec<(usize, usize)> = Vec::new();
    let mut visited: Vec<String> = Vec::new();
    let mut current: Option<String> = Some(id.clone());
    proof {
        assert(crate::order::views(visited@) =~= Seq::<Seq<char>>::empty());
        assert(Seq::<(usize, usize)>::empty() + lineage_rev@ =~= lineage_rev@);
    }
    while fuel > 0
        invariant
            lineage(turns@, id@) == walk(turns@, opt_view(current), crate::order::views(visited@), fuel as nat)
                + lineage_rev@,
        ensures
            lineage(turns@, id@) == lineage_rev@,
        decreases fuel,
    {
        let c = match &current {
            None => {
                break;
            },
            Some(c) => c.clone(),
        };
        if contains_id(&visited, &c) {
            break;
        }
        match find_response(turns, &c) {
            None => {
                break;
            },
            Some(p) => {
                proof {
                    assert(turns@.len() == turns.len());
                    lemma_position_valid(turns@, c@, 0);
                }
                let ghost before = lineage_rev@;
                let ghost seen = crate::order::views(visited@);
                let ghost rest = walk(
                    turns@,
                    opt_view(turns@[p.0 as int].parent_response_id),
                    seen.push(c@),
                    (fuel - 1) as nat,
                );
                lineage_rev.insert(0, p);
                visited.push(c);
                let parent = turns[p.0].parent_response_id.clone();
                current = parent;
                fuel -= 1;
                proof {
                    assert(crate::order::views(visited@) =~= seen.push(c@));
                    assert(lineage_rev@ =~= seq![p] + before);
                    assert(rest.push(p) + before =~= rest + lineage_rev@);
                }
            },
        }
    }
    proof {
        lemma_walk_valid(turns@, Some(id@), Seq::empty(), response_total(turns@) + 1);
    }
    lineage_rev
}


/// What the messages of a turn need from a model.
#[derive(Clone, Copy, Debug, Default, PartialEq, Eq, Structural)]
pub struct InputRequirements {
    pub vision: bool,
    pub audio: bool,
}

/// What an included earlier turn adds to a request.
#[derive(Clone, Copy, Debug, PartialEq, Eq, Structural)]
pub struct PreparedHistoryGroup {
    pub message_count: usize,
    pub audio_duration_ms: u64,
    pub requirements: InputRequirements,
}

/// The ancestors chosen for a request and how many there were.
pub struct HistorySelection {
    pub limit: HistoryLimit,
    pub available: usize,
    pub ancestors: Vec<(usize, usize)>,
}

/// What a user message needs: vision for images and PDFs, audio input for recordings.
pub open spec fn requirements_of(user: UserMessage) -> InputRequirements {
    InputRequirements {
        vision: exists|k: int|
            0 <= k < user.attachments@.len() && (#[trigger] user.attachments@[k]).kind.spec_requires_vision(),
        audio: exists|k: int|
            0 <= k < user.attachments@.len() && (#[trigger] user.attachments@[k]).kind.spec_requires_audio(),
    }
}

pub open spec fn attachments_audio(attachments: Seq<crate::domain::Attachment>) -> int
    decreases attachments.len(),
{
    if attachments.len() == 0 {
        0
    } else {
        attachments_audio(attachments.drop_last()) + match attachments.last().audio {
            Some(a) => a.duration_ms as int,
            None => 0,
        }
    }
}

/// The recorded audio of a user message, in milliseconds.
pub open spec fn user_audio(user: UserMessage) -> int {
    attachments_audio(user.attachments@)
}

/// The messages of ancestors when every user message is sent as plain text.
pub open spec fn plain_expanded(turns: Seq<Turn>, ancestors: Seq<(usize, usize)>) -> Seq<MessageView>
    decreases ancestors.len(),
{
    if ancestors.len() == 0 {
        Seq::empty()
    } else {
        let a = ancestors.last();
        let turn = turns[a.0 as int];
        plain_expanded(turns, ancestors.drop_last()) + seq![plain_user(turn.user)]
            + response_messages(turn.responses@[a.1 as int])
    }
}

/// The group an ancestor adds.
pub open spec fn group_of(turns: Seq<Turn>, a: (usize, usize)) -> PreparedHistoryGroup {
    let turn = turns[a.0 as int];
    PreparedHistoryGroup {
        message_count: (1 + response_messages(turn.responses@[a.1 as int]).len()) as usize,
        audio_duration_ms: saturate(user_audio(turn.user)) as u64,
        requirements: requirements_of(turn.user),
    }
}

pub open spec fn groups_of(turns: Seq<Turn>, ancestors: Seq<(usize, usize)>) -> Seq<PreparedHistoryGroup> {
    ancestors.map_values(|a: (usize, usize)| group_of(turns, a))
}

/// The audio of the user messages of ancestors, in milliseconds.
pub open spec fn ancestors_audio(turns: Seq<Turn>, ancestors: Seq<(usize, usize)>) -> int
    decreases ancestors.len(),
{
    if ancestors.len() == 0 {
        0
    } else {
        ancestors_audio(turns, ancestors.drop_last()) + user_audio(turns[ancestors.last().0 as int].user)
    }
}

pub proof fn lemma_plain_expanded(turns: Seq<Turn>, ancestors: Seq<(usize, usize)>)
    ensures
        expanded(turns, ancestors, Seq::empty()) == Ok::<Seq<MessageView>, Seq<char>>(
            plain_expanded(turns, ancestors),
        ),
    decreases ancestors.len(),
{
    if ancestors.len() > 0 {
        lemma_plain_expanded(turns, ancestors.drop_last());
    }
}

proof fn lemma_expanded_error_stays(
    turns: Seq<Turn>,
    ancestors: Seq<(usize, usize)>,
    conversions: Seq<(String, Result<Message, String>)>,
    k: int,
    e: Seq<char>,
)
    requires
        0 <= k <= ancestors.len(),
        expanded(turns, ancestors.subrange(0, k), conversions) == Err::<Seq<MessageView>, Seq<char>>(e),
    ensures
        expanded(turns, ancestors, conversions) == Err::<Seq<MessageView>, Seq<char>>(e),
    decreases ancestors.len(),
{
    if k == ancestors.len() {
        assert(ancestors.subrange(0, k) =~= ancestors);
    } else {
        assert(ancestors.drop_last().subrange(0, k) =~= ancestors.subrange(0, k));
        lemma_expanded_error_stays(turns, ancestors.drop_last(), conversions, k, e);
    }
}

proof fn lemma_attachments_audio_nonneg(attachments: Seq<crate::domain::Attachment>)
    ensures
        attachments_audio(attachments) >= 0,
    decreases attachments.len(),
{
    if attachments.len() > 0 {
        lemma_attachments_audio_nonneg(attachments.drop_last());
    }
}

proof fn lemma_ancestors_audio_nonneg(turns: Seq<Turn>, ancestors: Seq<(usize, usize)>)
    ensures
        ancestors_audio(turns, ancestors) >= 0,
    decreases ancestors.len(),
{
    if ancestors.len() > 0 {
        lemma_ancestors_audio_nonneg(turns, ancestors.drop_last());
        lemma_attachments_audio_nonneg(turns[ancestors.last().0 as int].user.attachments@);
    }
}

/// What a user message needs from a model.
pub fn user_requirements(user: &UserMessage) -> (r: InputRequirements)
    ensures
        r == requirements_of(*user),
{
    let mut vision = false;
    let mut audio = false;
    let mut k: usize = 0;
    while k < user.attachments.len()
        invariant
            0 <= k <= user.attachments@.len(),
            vision == exists|j: int|
                0 <= j < k && (#[trigger] user.attachments@[j]).kind.spec_requires_vision(),
            audio == exists|j: int|
                0 <= j < k && (#[trigger] user.attachments@[j]).kind.spec_requires_audio(),
        decreases user.attachments.len() - k,
    {
        let kind = user.attachments[k].kind;
        if kind.requires_vision() {
            vision = true;
        }
        if kind.requires_audio() {
            audio = true;
        }
        k += 1;
    }
    InputRequirements { vision, audio }
}

/// The recorded audio of a user message, in milliseconds, saturating.
pub fn user_audio_ms(user: &UserMessage) -> (r: u64)
    ensures
        r == saturate(user_audio(*user)),
{
    let mut total: u64 = 0;
    let mut k: usize = 0;
    while k < user.attachments.len()
        invariant
            0 <= k <= user.attachments@.len(),
            total == saturate(attachments_audio(user.attachments@.subrange(0, k as int))),
        decreases user.attachments.len() - k,
    {
        proof {
            assert(user.attachments@.subrange(0, k + 1).drop_last() =~= user.attachments@.subrange(
                0,
                k as int,
            ));
            lemma_attachments_audio_nonneg(user.attachments@.subrange(0, k as int));
        }
        match &user.attachments[k].audio {
            Some(a) => {
                total = total.saturating_add(a.duration_ms);
            },
            None => {},
        }
        k += 1;
    }
    assert(user.attachments@.subrange(0, user.attachments@.len() as int) =~= user.attachments@);
    total
}

/// The ancestors of a request that answers `response_id`, under a history limit.
pub fn select_history(turns: &[Turn], response_id: &Option<String>, limit: HistoryLimit) -> (r: HistorySelection)
    requires
        response_total(turns@) < usize::MAX,
    ensures
        r.limit == limit,
        r.available == available(turns@, opt_view(*response_id)).len(),
        r.ancestors@ == limited(available(turns@, opt_view(*response_id)), limit),
        valid_ancestors(turns@, r.ancestors@),
{
    let mut ancestors = match response_id {
        Some(id) => lineage_through_response(turns, id),
        None => Vec::new(),
    };
    let available = ancestors.len();
    match limit {
        HistoryLimit::All => {},
        HistoryLimit::Last(n) => {
            let keep = n as usize;
            if ancestors.len() > keep {
                let ghost all = ancestors@;
                let remove = ancestors.len() - keep;
                let tail = ancestors.split_off(remove);
                ancestors = tail;
                proof {
                    assert(ancestors@ =~= all.skip(all.len() - n));
                    assert forall|k: int| 0 <= k < ancestors@.len() implies (#[trigger] ancestors@[k]).0
                        < turns@.len() && ancestors@[k].1 < turns@[ancestors@[k].0 as int].responses@.len() by {
                        assert(ancestors@[k] == all[k + remove]);
                    }
                }
            }
        },
    }
    HistorySelection { limit, available, ancestors }
}

/// The request context recorded for a selection.
pub open spec fn context_of(limit: HistoryLimit, available: nat, included: nat) -> crate::domain::RequestContextInfo {
    crate::domain::RequestContextInfo {
        history_limit: limit,
        available_history_turns: count_u32(available),
        included_history_turns: count_u32(included),
        limited_by_context_window: false,
    }
}

/// A count as stored, saturated to `u32`.
pub fn turn_count(count: usize) -> (r: u32)
    ensures
        r == count_u32(count as nat),
{
    if count > u32::MAX as usize {
        u32::MAX
    } else {
        count as u32
    }
}

/// How a user message is sent.
pub fn convert_user_message(conversions: &Vec<(String, Result<Message, String>)>, user: &UserMessage) -> (r: Result<Message, String>)
    ensures
        match conversion(conversions@, *user) {
            Ok(v) => r matches Ok(m) && m@ == v,
            Err(e) => r matches Err(s) && s@ == e,
        },
{
    let mut k: usize = 0;
    while k < conversions.len()
        invariant
            0 <= k <= conversions@.len(),
            conversion(conversions@, *user) == conversion_from(conversions@, *user, k as int),
        decreases conversions.len() - k,
    {
        if conversions[k].0 == user.id {
            return match &conversions[k].1 {
                Ok(m) => Ok(m.clone()),
                Err(e) => Err(e.clone()),
            };
        }
        k += 1;
    }
    let m = Message::user(user.content.clone());
    assert(m@.images =~= Seq::<crate::domain::ImageInput>::empty());
    assert(m@ == plain_user(*user));
    Ok(m)
}

/// Adds the messages that stand for a response.
fn push_response_messages(response: &AssistantResponse, messages: &mut Vec<Message>)
    ensures
        message_views(final(messages)@) == message_views(old(messages)@) + response_messages(*response),
{
    let ghost before = messages@;
    if response.transcript.len() == 0 {
        if !response.content.as_str().is_empty() {
            let m = Message::assistant(response.content.clone());
            assert(m@.images =~= Seq::<crate::domain::ImageInput>::empty());
            assert(m@.reasoning =~= Seq::<char>::empty());
            messages.push(m);
            assert(message_views(messages@) =~= message_views(before) + response_messages(*response));
        } else {
            assert(message_views(messages@) =~= message_views(before) + response_messages(*response));
        }
    } else {
        let mut copy = clone_messages(&response.transcript);
        let ghost added = copy@;
        messages.append(&mut copy);
        assert(messages@ =~= before + added);
        assert(message_views(messages@) =~= message_views(before) + message_views(added));
    }
}

/// Adds the messages of one ancestor, or reports why its user message could not be sent.
fn expand_ancestor(
    turns: &[Turn],
    a: (usize, usize),
    conversions: &Vec<(String, Result<Message, String>)>,
    messages: &mut Vec<Message>,
) -> (r: Result<(), String>)
    requires
        a.0 < turns@.len(),
        a.1 < turns@[a.0 as int].responses@.len(),
    ensures
        match conversion(conversions@, turns@[a.0 as int].user) {
            Ok(u) => r is Ok && message_views(final(messages)@) == message_views(old(messages)@) + seq![u]
                + response_messages(turns@[a.0 as int].responses@[a.1 as int]),
            Err(e) => r matches Err(s) && s@ == e && final(messages)@ == old(messages)@,
        },
{
    let turn = &turns[a.0];
    let user = match convert_user_message(conversions, &turn.user) {
        Ok(m) => m,
        Err(e) => {
            return Err(e);
        },
    };
    let ghost before = messages@;
    let ghost u = user@;
    messages.push(user);
    assert(message_views(messages@) =~= message_views(before) + seq![u]);
    push_response_messages(&turn.responses[a.1], messages);
    Ok(())
}

/// The messages of the chosen ancestors and the group each adds, or the first conversion
/// error.
pub fn expand_with_groups(
    turns: &[Turn],
    ancestors: &Vec<(usize, usize)>,
    conversions: &Vec<(String, Result<Message, String>)>,
) -> (r: Result<(Vec<Message>, Vec<PreparedHistoryGroup>), String>)
    requires
        valid_ancestors(turns@, ancestors@),
    ensures
        match expanded(turns@, ancestors@, conversions@) {
            Ok(v) => r matches Ok(p) && message_views(p.0@) == v && p.1@ == groups_of(turns@, ancestors@),
            Err(e) => r matches Err(s) && s@ == e,
        },
{
    let mut messages: Vec<Message> = Vec::new();
    let mut groups: Vec<PreparedHistoryGroup> = Vec::new();
    let mut i: usize = 0;
    proof {
        assert(ancestors@.subrange(0, 0) =~= Seq::<(usize, usize)>::empty());
        assert(message_views(messages@) =~= Seq::<MessageView>::empty());
        assert(groups_of(turns@, ancestors@.subrange(0, 0)) =~= Seq::<PreparedHistoryGroup>::empty());
    }
    while i < ancestors.len()
        invariant
            0 <= i <= ancestors@.len(),
            valid_ancestors(turns@, ancestors@),
            expanded(turns@, ancestors@.subrange(0, i as int), conversions@) == Ok::<
                Seq<MessageView>,
                Seq<char>,
            >(message_views(messages@)),
            groups@ == groups_of(turns@, ancestors@.subrange(0, i as int)),
        decreases ancestors.len() - i,
    {
        let a = ancestors[i];
        assert(a == ancestors@[i as int]);
        let ghost prefix = ancestors@.subrange(0, i + 1);
        proof {
            assert(prefix.drop_last() =~= ancestors@.subrange(0, i as int));
            assert(prefix.last() == a);
        }
        let start = messages.len();
        let ghost before = messages@;
        match expand_ancestor(turns, a, conversions, &mut messages) {
            Ok(()) => {
                assert(message_views(messages@).len() == messages@.len());
                assert(message_views(before).len() == before.len());
            },
            Err(e) => {
                proof {
                    lemma_expanded_error_stays(turns@, ancestors@, conversions@, i + 1, e@);
                }
                return Err(e);
            },
        }
        let turn = &turns[a.0];
        let group = PreparedHistoryGroup {
            message_count: messages.len() - start,
            audio_duration_ms: user_audio_ms(&turn.user),
            requirements: user_requirements(&turn.user),
        };
        proof {
            assert(message_views(messages@).len() == messages@.len());
            assert(group == group_of(turns@, a));
        }
        groups.push(group);
        i += 1;
        proof {
            assert(groups@ =~= groups_of(turns@, ancestors@.subrange(0, i as int)));
        }
    }
    assert(ancestors@.subrange(0, ancestors@.len() as int) =~= ancestors@);
    Ok((messages, groups))
}

/// The last of the first `k` turns whose parent is `parent`.
fn find_last_child(turns: &[Turn], parent: &Option<String>) -> (r: Option<usize>)
    ensures
        match last_child(turns@, opt_view(*parent), turns@.len() as int) {
            Some(i) => 0 <= i < turns@.len() && r == Some(i as usize),
            None => r is None,
        },
{
    proof {
        lemma_last_child_range(turns@, opt_view(*parent), turns@.len() as int);
    }
    let mut k: usize = turns.len();
    while k > 0
        invariant
            0 <= k <= turns@.len(),
            last_child(turns@, opt_view(*parent), turns@.len() as int) == last_child(
                turns@,
                opt_view(*parent),
                k as int,
            ),
        decreases k,
    {
        let same = match (&turns[k - 1].parent_response_id, parent) {
            (Some(a), Some(b)) => *a == *b,
            (None, None) => true,
            _ => false,
        };
        if same {
            return Some(k - 1);
        }
        k -= 1;
    }
    None
}

proof fn lemma_last_child_range(turns: Seq<Turn>, parent: Option<Seq<char>>, k: int)
    ensures
        last_child(turns, parent, k) matches Some(i) ==> 0 <= i < k && i < turns.len(),
    decreases k,
{
    if 0 < k <= turns.len() && opt_view(turns[k - 1].parent_response_id) != parent {
        lemma_last_child_range(turns, parent, k - 1);
    }
}

/// The newest turn of the shown branch.
pub fn active_leaf_turn(turns: &[Turn]) -> (r: Option<usize>)
    ensures
        match active_leaf(turns@) {
            Some(i) => 0 <= i < turns@.len() && r == Some(i as usize),
            None => r is None,
        },
{
    let root = match find_last_child(turns, &None) {
        Some(r) => r,
        None => {
            return None;
        },
    };
    let mut i: usize = root;
    let mut fuel: usize = turns.len();
    while fuel > 0
        invariant
            i < turns@.len(),
            descend(turns@, root as int, turns@.len()) == descend(turns@, i as int, fuel as nat),
        ensures
            i < turns@.len(),
            descend(turns@, root as int, turns@.len()) == i,
        decreases fuel,
    {
        let next = match &turns[i].continuation_response_id {
            None => {
                break;
            },
            Some(c) => find_last_child(turns, &Some(c.clone())),
        };
        match next {
            None => {
                break;
            },
            Some(j) => {
                assert(descend(turns@, i as int, fuel as nat) == descend(turns@, j as int, (fuel - 1) as nat));
                i = j;
                fuel -= 1;
            },
        }
    }
    Some(i)
}

/// The response a new turn answers.
fn new_turn_response(turns: &[Turn]) -> (r: Option<String>)
    ensures
        opt_view(r) == new_turn_parent(turns@),
{
    match active_leaf_turn(turns) {
        Some(i) => turns[i].continuation_response_id.clone(),
        None => None,
    }
}

/// The messages a request for `turn` sends, every user message as plain text: its history

/// The history a new message is sent with is the history of a turn that answers the same
/// response, without that turn's own user message at the end; with no turns it is empty.
pub proof fn lemma_new_turn_history_is_turn_history_without_message(turns: Seq<Turn>, turn: Turn, limit: HistoryLimit)
    requires
        opt_view(turn.parent_response_id) == new_turn_parent(turns),
    ensures
        plain_expanded(turns, limited(available(turns, opt_view(turn.parent_response_id)), limit)) + seq![
            plain_user(turn.user),
        ] == plain_expanded(turns, limited(available(turns, new_turn_parent(turns)), limit)) + seq![
            plain_user(turn.user),
        ],
        plain_expanded(Seq::<Turn>::empty(), limited(available(Seq::<Turn>::empty(), new_turn_parent(Seq::<Turn>::empty())), limit)).len() == 0,
{
    let empty = Seq::<Turn>::empty();
    assert(active_leaf(empty) is None);
    assert(limited(available(empty, new_turn_parent(empty)), limit) =~= Seq::<(usize, usize)>::empty());
}

/// under the limit, then the turn's own user message.
pub fn history_for_turn(turns: &[Turn], turn: &Turn, limit: HistoryLimit) -> (r: Vec<Message>)
    requires
        response_total(turns@) < usize::MAX,
    ensures
        message_views(r@) == plain_expanded(
            turns@,
            limited(available(turns@, opt_view(turn.parent_response_id)), limit),
        ) + seq![plain_user(turn.user)],
{
    let selection = select_history(turns, &turn.parent_response_id, limit);
    let conversions: Vec<(String, Result<Message, String>)> = Vec::new();
    proof {
        lemma_plain_expanded(turns@, selection.ancestors@);
    }
    let mut messages = match expand_with_groups(turns, &selection.ancestors, &conversions) {
        Ok(p) => p.0,
        Err(_) => {
            assert(false);
            Vec::new()
        },
    };
    let ghost before = messages@;
    let m = Message::user(turn.user.content.clone());
    assert(m@.images =~= Seq::<crate::domain::ImageInput>::empty());
    assert(m@ == plain_user(turn.user));
    messages.push(m);
    assert(message_views(messages@) =~= message_views(before) + seq![plain_user(turn.user)]);
    messages
}

/// The history a new turn would be sent with, as plain text.
pub fn history_for_new_turn(turns: &[Turn], limit: HistoryLimit) -> (r: Vec<Message>)
    requires
        response_total(turns@) < usize::MAX,
    ensures
        message_views(r@) == plain_expanded(
            turns@,
            limited(available(turns@, new_turn_parent(turns@)), limit),
        ),
{
    let parent = new_turn_response(turns);
    let selection = select_history(turns, &parent, limit);
    let conversions: Vec<(String, Result<Message, String>)> = Vec::new();
    proof {
        lemma_plain_expanded(turns@, selection.ancestors@);
    }
    match expand_with_groups(turns, &selection.ancestors, &conversions) {
        Ok(p) => p.0,
        Err(_) => {
            assert(false);
            Vec::new()
        },
    }
}

/// How many earlier turns a new turn could see, and how many the limit lets it see.
pub fn history_preview_for_new_turn(turns: &[Turn], limit: HistoryLimit) -> (r: HistoryPreview)
    requires
        response_total(turns@) < usize::MAX,
    ensures
        r.available_turns == count_u32(available(turns@, new_turn_parent(turns@)).len()),
        r.included_turns == count_u32(
            limited(available(turns@, new_turn_parent(turns@)), limit).len(),
        ),
{
    let parent = new_turn_response(turns);
    let selection = select_history(turns, &parent, limit);
    HistoryPreview {
        available_turns: turn_count(selection.available),
        included_turns: turn_count(selection.ancestors.len()),
    }
}


/// A history limit keeps the newest ancestors: under `Last(n)` a request sees the last
/// `n` of them (all of them when there are fewer), in their order; under `All` it sees all.
pub proof fn lemma_limit_keeps_newest(ancestors: Seq<(usize, usize)>, limit: HistoryLimit)
    ensures
        limited(ancestors, limit).len() <= ancestors.len(),
        limited(ancestors, limit) == ancestors.skip(ancestors.len() - limited(ancestors, limit).len()),
        limit matches HistoryLimit::Last(n) ==> limited(ancestors, limit).len() == (if ancestors.len()
            <= n {
            ancestors.len() as int
        } else {
            n as int
        }),
        limit is All ==> limited(ancestors, limit) == ancestors,
{
    assert(ancestors.skip(0) =~= ancestors);
}

} // verus!
