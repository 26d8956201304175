//! What the chat window shows of the loaded conversation: the response shown for a turn, the
//! request that is inspected, the context a new message would be sent with, and how the
//! conversation's prompt setup is named.
use vstd::prelude::*;

use crate::domain::{message_views, opt_view, AssistantResponse, HistoryLimit, Message, MessageRole, MessageView, RequestInfo, Turn};
use crate::history::{
    active_leaf, active_leaf_turn, available, history_for_new_turn, limited, new_turn_parent,
    plain_expanded, response_index, response_index_exec, response_total,
};
use crate::text::{chars_of, chars_equal, trim, trim_str};

verus! {

/// The response shown for a turn: the one chosen for it, else the one the conversation
/// continues from, else the first.
pub open spec fn shown_response(turn: Turn, chosen: Option<Seq<char>>) -> Option<int> {
    let by_choice = match chosen {
        Some(id) => response_index(turn.responses@, id),
        None => None,
    };
    let by_continuation = match opt_view(turn.continuation_response_id) {
        Some(id) => response_index(turn.responses@, id),
        None => None,
    };
    if by_choice is Some {
        by_choice
    } else if by_continuation is Some {
        by_continuation
    } else if turn.responses@.len() > 0 {
        Some(0)
    } else {
        None
    }
}

/// The position of the response shown for a turn.
pub fn visible_response(turn: &Turn, chosen: &Option<String>) -> (r: Option<usize>)
    ensures
        match shown_response(*turn, opt_view(*chosen)) {
            Some(i) => r == Some(i as usize) && i < turn.responses@.len(),
            None => r is None,
        },
{
    assert(turn.responses@.len() == turn.responses.len());
    proof {
        if let Some(id) = chosen {
            crate::history::lemma_response_index_valid(turn.responses@, id@, 0);
        }
        if let Some(id) = &turn.continuation_response_id {
            crate::history::lemma_response_index_valid(turn.responses@, id@, 0);
        }
    }
    let by_choice = match chosen {
        Some(id) => response_index_exec(&turn.responses, id),
        None => None,
    };
    if by_choice.is_some() {
        return by_choice;
    }
    let by_continuation = match &turn.continuation_response_id {
        Some(id) => response_index_exec(&turn.responses, id),
        None => None,
    };
    if by_continuation.is_some() {
        return by_continuation;
    }
    if turn.responses.len() > 0 {
        Some(0)
    } else {
        None
    }
}

/// The first request with the given id.
pub open spec fn request_index(requests: Seq<RequestInfo>, id: Seq<char>) -> Option<int>
    decreases requests.len(),
{
    if requests.len() == 0 {
        None
    } else if requests[0].id@ == id {
        Some(0)
    } else {
        match request_index(requests.drop_first(), id) {
            Some(i) => Some(i + 1),
            None => None,
        }
    }
}

pub(crate) fn request_index_exec(requests: &Vec<RequestInfo>, id: &String) -> (r: Option<usize>)
    ensures
        r == (match request_index(requests@, id@) {
            Some(i) => Some(i as usize),
            None => None::<usize>,
        }),
        r matches Some(i) ==> i < requests@.len(),
{
    let key = chars_of(id.as_str());
    let mut i: usize = 0;
    assert(requests@.skip(0) =~= requests@);
    while i < requests.len()
        invariant
            i <= requests@.len(),
            key@ == id@,
            request_index(requests@, id@) == (match request_index(requests@.skip(i as int), id@) {
                Some(j) => Some(j + i),
                None => None::<int>,
            }),
        decreases requests.len() - i,
    {
        assert(requests@.skip(i as int).drop_first() =~= requests@.skip(i as int + 1));
        assert(requests@.skip(i as int)[0] == requests@[i as int]);
        let candidate = chars_of(requests[i].id.as_str());
        if chars_equal(&candidate, &key) {
            return Some(i);
        }
        i += 1;
    }
    None
}

pub(crate) proof fn lemma_request_index_range(requests: Seq<RequestInfo>, id: Seq<char>)
    ensures
        request_index(requests, id) matches Some(i) ==> 0 <= i < requests.len(),
    decreases requests.len(),
{
    if requests.len() > 0 {
        lemma_request_index_range(requests.drop_first(), id);
    }
}

/// The request a response was made by.
pub open spec fn request_of(requests: Seq<RequestInfo>, response: AssistantResponse) -> Option<int> {
    match opt_view(response.request_id) {
        Some(id) => request_index(requests, id),
        None => None,
    }
}

/// The request shown for the conversation: the running one, if a generation runs; else the
/// request of the response the latest turn continues from (or of its first response).
pub open spec fn shown_request(active_request_id: Option<Seq<char>>, turns: Seq<Turn>, requests: Seq<RequestInfo>) -> Option<int> {
    match active_request_id {
        Some(id) => request_index(requests, id),
        None => match active_leaf(turns) {
            None => None,
            Some(t) => {
                let turn = turns[t];
                let continued = match opt_view(turn.continuation_response_id) {
                    Some(id) => response_index(turn.responses@, id),
                    None => None,
                };
                let response = if continued is Some {
                    continued
                } else if turn.responses@.len() > 0 {
                    Some(0)
                } else {
                    None
                };
                match response {
                    Some(k) => request_of(requests, turn.responses@[k]),
                    None => None,
                }
            },
        },
    }
}

/// The position of the request shown for the conversation.
pub fn current_request(active_request_id: &Option<String>, turns: &Vec<Turn>, requests: &Vec<RequestInfo>) -> (r: Option<usize>)
    ensures
        match shown_request(opt_view(*active_request_id), turns@, requests@) {
            Some(i) => r == Some(i as usize) && i < requests@.len(),
            None => r is None,
        },
{
    assert(requests@.len() == requests.len());
    assert(turns@.len() == turns.len());
    if let Some(id) = active_request_id {
        proof {
            lemma_request_index_range(requests@, id@);
        }
        return request_index_exec(requests, id);
    }
    let leaf = match active_leaf_turn(turns.as_slice()) {
        Some(t) => t,
        None => {
            return None;
        },
    };
    let turn = &turns[leaf];
    assert(turn.responses@.len() == turn.responses.len());
    proof {
        if let Some(id) = &turn.continuation_response_id {
            crate::history::lemma_response_index_valid(turn.responses@, id@, 0);
        }
    }
    let continued = match &turn.continuation_response_id {
        Some(id) => response_index_exec(&turn.responses, id),
        None => None,
    };
    let response = if continued.is_some() {
        continued
    } else if turn.responses.len() > 0 {
        Some(0)
    } else {
        None
    };
    match response {
        Some(k) => match &turn.responses[k].request_id {
            Some(id) => {
                proof {
                    lemma_request_index_range(requests@, id@);
                }
                request_index_exec(requests, id)
            },
            None => None,
        },
        None => None,
    }
}

/// The messages a new message would follow: the history of the shown branch within the
/// limit, after the conversation's opening when it has one (trimmed).
pub open spec fn context_messages(turns: Seq<Turn>, limit: HistoryLimit, opening: Seq<char>) -> Seq<MessageView> {
    let history = plain_expanded(turns, limited(available(turns, new_turn_parent(turns)), limit));
    if trim(opening).len() == 0 {
        history
    } else {
        seq![MessageView { role: MessageRole::Assistant, text: trim(opening), reasoning: Seq::empty(), images: Seq::empty() }]
            + history
    }
}

/// The messages a new message of the conversation would follow.
pub fn current_context_messages(turns: &Vec<Turn>, limit: HistoryLimit, opening: &str) -> (r: Vec<Message>)
    requires
        response_total(turns@) < usize::MAX,
    ensures
        message_views(r@) == context_messages(turns@, limit, opening@),
{
    let mut messages = history_for_new_turn(turns.as_slice(), limit);
    let trimmed = trim_str(opening);
    if !crate::text::is_blank(opening) {
        let ghost before = message_views(messages@);
        let message = Message::assistant(trimmed);
        assert(message.images@ =~= Seq::<crate::domain::ImageInput>::empty());
        assert(message.reasoning@ =~= Seq::<char>::empty());
        messages.insert(0, message);
        assert(message_views(messages@) =~= seq![
            MessageView { role: MessageRole::Assistant, text: trim(opening@), reasoning: Seq::empty(), images: Seq::empty() },
        ] + before);
    }
    messages
}

/// A reusable system prompt and opening, by name.
#[derive(Clone, Debug)]
pub struct PromptPreset {
    pub name: String,
    pub system_prompt: String,
    pub assistant_opening: String,
}

/// The preset holds exactly the (trimmed) setup.
pub open spec fn preset_fits(p: PromptPreset, system_prompt: Seq<char>, opening: Seq<char>) -> bool {
    p.system_prompt@ == trim(system_prompt) && p.assistant_opening@ == trim(opening)
}

/// The first preset with the given name.
pub open spec fn preset_named(presets: Seq<PromptPreset>, name: Seq<char>) -> Option<int>
    decreases presets.len(),
{
    if presets.len() == 0 {
        None
    } else if presets[0].name@ == name {
        Some(0)
    } else {
        match preset_named(presets.drop_first(), name) {
            Some(i) => Some(i + 1),
            None => None,
        }
    }
}

/// The first preset that holds the setup.
pub open spec fn first_fitting(presets: Seq<PromptPreset>, system_prompt: Seq<char>, opening: Seq<char>) -> Option<int>
    decreases presets.len(),
{
    if presets.len() == 0 {
        None
    } else if preset_fits(presets[0], system_prompt, opening) {
        Some(0)
    } else {
        match first_fitting(presets.drop_first(), system_prompt, opening) {
            Some(i) => Some(i + 1),
            None => None,
        }
    }
}

/// The preset a setup is shown as: the default preset when it holds the setup, else the
/// first preset that does.
pub open spec fn setup_preset(presets: Seq<PromptPreset>, default_name: Option<Seq<char>>, system_prompt: Seq<char>, opening: Seq<char>) -> Option<int> {
    let by_default = match default_name {
        Some(name) => match preset_named(presets, name) {
            Some(i) => if preset_fits(presets[i], system_prompt, opening) {
                Some(i)
            } else {
                None
            },
            None => None,
        },
        None => None,
    };
    if by_default is Some {
        by_default
    } else {
        first_fitting(presets, system_prompt, opening)
    }
}

proof fn lemma_preset_named_range(presets: Seq<PromptPreset>, name: Seq<char>)
    ensures
        preset_named(presets, name) matches Some(i) ==> 0 <= i < presets.len(),
    decreases presets.len(),
{
    if presets.len() > 0 {
        lemma_preset_named_range(presets.drop_first(), name);
    }
}

proof fn lemma_first_fitting_range(presets: Seq<PromptPreset>, system_prompt: Seq<char>, opening: Seq<char>)
    ensures
        first_fitting(presets, system_prompt, opening) matches Some(i) ==> 0 <= i < presets.len(),
    decreases presets.len(),
{
    if presets.len() > 0 {
        lemma_first_fitting_range(presets.drop_first(), system_prompt, opening);
    }
}

fn preset_by_name(presets: &Vec<PromptPreset>, name: &String) -> (r: Option<usize>)
    ensures
        r == (match preset_named(presets@, name@) {
            Some(i) => Some(i as usize),
            None => None::<usize>,
        }),
        r matches Some(i) ==> i < presets@.len(),
{
    proof {
        lemma_preset_named_range(presets@, name@);
    }
    let key = chars_of(name.as_str());
    let mut i: usize = 0;
    assert(presets@.skip(0) =~= presets@);
    while i < presets.len()
        invariant
            i <= presets@.len(),
            key@ == name@,
            preset_named(presets@, name@) == (match preset_named(presets@.skip(i as int), name@) {
                Some(j) => Some(j + i),
                None => None::<int>,
            }),
        decreases presets.len() - i,
    {
        assert(presets@.skip(i as int).drop_first() =~= presets@.skip(i as int + 1));
        assert(presets@.skip(i as int)[0] == presets@[i as int]);
        let candidate = chars_of(presets[i].name.as_str());
        if chars_equal(&candidate, &key) {
            return Some(i);
        }
        i += 1;
    }
    None
}

fn fits(preset: &PromptPreset, system_prompt: &Vec<char>, opening: &Vec<char>) -> (r: bool)
    ensures
        r == (preset.system_prompt@ == system_prompt@ && preset.assistant_opening@ == opening@),
{
    let s = chars_of(preset.system_prompt.as_str());
    let o = chars_of(preset.assistant_opening.as_str());
    chars_equal(&s, system_prompt) && chars_equal(&o, opening)
}

fn first_fitting_preset(presets: &Vec<PromptPreset>, system_prompt: &Vec<char>, opening: &Vec<char>, ghost_system: Ghost<Seq<char>>, ghost_opening: Ghost<Seq<char>>) -> (r: Option<usize>)
    requires
        system_prompt@ == trim(ghost_system@),
        opening@ == trim(ghost_opening@),
    ensures
        r == (match first_fitting(presets@, ghost_system@, ghost_opening@) {
            Some(i) => Some(i as usize),
            None => None::<usize>,
        }),
        r matches Some(i) ==> i < presets@.len(),
{
    proof {
        lemma_first_fitting_range(presets@, ghost_system@, ghost_opening@);
    }
    let mut i: usize = 0;
    assert(presets@.skip(0) =~= presets@);
    while i < presets.len()
        invariant
            i <= presets@.len(),
            system_prompt@ == trim(ghost_system@),
            opening@ == trim(ghost_opening@),
            first_fitting(presets@, ghost_system@, ghost_opening@) == (match first_fitting(presets@.skip(i as int), ghost_system@, ghost_opening@) {
                Some(j) => Some(j + i),
                None => None::<int>,
            }),
        decreases presets.len() - i,
    {
        assert(presets@.skip(i as int).drop_first() =~= presets@.skip(i as int + 1));
        assert(presets@.skip(i as int)[0] == presets@[i as int]);
        if fits(&presets[i], system_prompt, opening) {
            return Some(i);
        }
        i += 1;
    }
    None
}

/// The position of the preset a conversation's setup is shown as.
pub fn prompt_preset_for_setup(
    presets: &Vec<PromptPreset>,
    default_name: &Option<String>,
    system_prompt: &str,
    assistant_opening: &str,
) -> (r: Option<usize>)
    ensures
        match setup_preset(presets@, opt_view(*default_name), system_prompt@, assistant_opening@) {
            Some(i) => r == Some(i as usize) && 0 <= i < presets@.len(),
            None => r is None,
        },
        r matches Some(i) ==> i < presets@.len(),
{
    assert(presets@.len() == presets.len());
    let system = chars_of(trim_str(system_prompt).as_str());
    let opening = chars_of(trim_str(assistant_opening).as_str());
    proof {
        lemma_first_fitting_range(presets@, system_prompt@, assistant_opening@);
    }
    let by_default = match default_name {
        Some(name) => {
            proof {
                lemma_preset_named_range(presets@, name@);
            }
            match preset_by_name(presets, name) {
                Some(i) => {
                    assert(preset_named(presets@, name@) == Some(i as int));
                    if fits(&presets[i], &system, &opening) {
                        Some(i)
                    } else {
                        None
                    }
                },
                None => None,
            }
        },
        None => None,
    };
    match by_default {
        Some(i) => Some(i),
        None => first_fitting_preset(presets, &system, &opening, Ghost(system_prompt@), Ghost(assistant_opening@)),
    }
}

/// How a conversation's prompt setup is named: `None` when it has neither system prompt nor
/// opening, the preset it matches, or `Custom`.
pub open spec fn setup_label(presets: Seq<PromptPreset>, default_name: Option<Seq<char>>, system_prompt: Seq<char>, opening: Seq<char>) -> Seq<char> {
    if trim(system_prompt).len() == 0 && trim(opening).len() == 0 {
        "None"@
    } else {
        match setup_preset(presets, default_name, system_prompt, opening) {
            Some(i) => presets[i].name@,
            None => "Custom"@,
        }
    }
}

/// The name a conversation's prompt setup is shown under.
pub fn prompt_setup_label(
    presets: &Vec<PromptPreset>,
    default_name: &Option<String>,
    system_prompt: &str,
    assistant_opening: &str,
) -> (r: String)
    ensures
        r@ == setup_label(presets@, opt_view(*default_name), system_prompt@, assistant_opening@),
{
    assert(presets@.len() == presets.len());
    if crate::text::is_blank(system_prompt) && crate::text::is_blank(assistant_opening) {
        return String::from_str("None");
    }
    match prompt_preset_for_setup(presets, default_name, system_prompt, assistant_opening) {
        Some(i) => presets[i].name.clone(),
        None => String::from_str("Custom"),
    }
}

} // verus!
