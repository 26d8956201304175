//! Choosing a model: which model a conversation runs on, whether a model can generate, what
//! a choice in the model picker does, and what the picker lists for a query.
use vstd::prelude::*;

use crate::attachments::join3;
use crate::commands::{contains, contains_text, lowercase, normalized_query, to_lowercase};
use crate::text::{chars_of, trim_str};
use crate::domain::{opt_view, Conversation, Model, Provider, Turn};
use crate::live::{continuation_is_usable, usable_continuation};

verus! {

/// The first model, from index `k` on, with this id.
pub open spec fn model_index_from(models: Seq<Model>, id: Seq<char>, k: int) -> Option<int>
    decreases models.len() - k,
{
    if k < 0 || k >= models.len() {
        None
    } else if models[k].id@ == id {
        Some(k)
    } else {
        model_index_from(models, id, k + 1)
    }
}

/// The first model with this id.
pub open spec fn model_index(models: Seq<Model>, id: Seq<char>) -> Option<int> {
    model_index_from(models, id, 0)
}

/// The first provider, from index `k` on, with this id.
pub open spec fn provider_index_from(providers: Seq<Provider>, id: Seq<char>, k: int) -> Option<int>
    decreases providers.len() - k,
{
    if k < 0 || k >= providers.len() {
        None
    } else if providers[k].id@ == id {
        Some(k)
    } else {
        provider_index_from(providers, id, k + 1)
    }
}

/// The first provider with this id.
pub open spec fn provider_index(providers: Seq<Provider>, id: Seq<char>) -> Option<int> {
    provider_index_from(providers, id, 0)
}

proof fn lemma_model_index_range(models: Seq<Model>, id: Seq<char>, k: int)
    requires
        0 <= k,
    ensures
        model_index_from(models, id, k) matches Some(i) ==> k <= i < models.len() && models[i].id@ == id,
    decreases models.len() - k,
{
    if k < models.len() {
        lemma_model_index_range(models, id, k + 1);
    }
}

proof fn lemma_provider_index_range(providers: Seq<Provider>, id: Seq<char>, k: int)
    requires
        0 <= k,
    ensures
        provider_index_from(providers, id, k) matches Some(i) ==> k <= i < providers.len() && providers[i].id@ == id,
    decreases providers.len() - k,
{
    if k < providers.len() {
        lemma_provider_index_range(providers, id, k + 1);
    }
}

/// The position of the first model with this id.
pub fn find_model(models: &Vec<Model>, id: &String) -> (r: Option<usize>)
    ensures
        r == (match model_index(models@, id@) {
            Some(i) => Some(i as usize),
            None => None::<usize>,
        }),
        r matches Some(i) ==> i < models@.len() && models@[i as int].id@ == id@
            && model_index(models@, id@) == Some(i as int),
        model_index(models@, id@) matches Some(i) ==> 0 <= i < models@.len(),
{
    proof {
        lemma_model_index_range(models@, id@, 0);
    }
    let mut k: usize = 0;
    while k < models.len()
        invariant
            0 <= k <= models@.len(),
            model_index(models@, id@) == model_index_from(models@, id@, k as int),
        decreases models.len() - k,
    {
        if models[k].id == *id {
            return Some(k);
        }
        k += 1;
    }
    None
}

/// The position of the first provider with this id.
pub fn find_provider(providers: &Vec<Provider>, id: &String) -> (r: Option<usize>)
    ensures
        r == (match provider_index(providers@, id@) {
            Some(i) => Some(i as usize),
            None => None::<usize>,
        }),
        r matches Some(i) ==> i < providers@.len() && providers@[i as int].id@ == id@
            && provider_index(providers@, id@) == Some(i as int),
        provider_index(providers@, id@) matches Some(i) ==> 0 <= i < providers@.len(),
{
    proof {
        lemma_provider_index_range(providers@, id@, 0);
    }
    let mut k: usize = 0;
    while k < providers.len()
        invariant
            0 <= k <= providers@.len(),
            provider_index(providers@, id@) == provider_index_from(providers@, id@, k as int),
        decreases providers.len() - k,
    {
        if providers[k].id == *id {
            return Some(k);
        }
        k += 1;
    }
    None
}

/// Why a model cannot generate, if it cannot: its provider is missing or switched off, or
/// the model does not stream.
pub open spec fn unavailability(model: Model, providers: Seq<Provider>) -> Option<Seq<char>> {
    match provider_index(providers, model.provider_id@) {
        None => Some("Missing provider"@),
        Some(p) => if !providers[p].enabled {
            Some("Provider disabled"@)
        } else if !model.capabilities.streaming {
            Some("Streaming disabled"@)
        } else {
            None
        },
    }
}

/// Whether a model can generate, and if not, why.
pub fn model_availability(model: &Model, providers: &Vec<Provider>) -> (r: Result<(), &'static str>)
    ensures
        match unavailability(*model, providers@) {
            None => r is Ok,
            Some(reason) => r matches Err(e) && e@ == reason,
        },
{
    let provider = match find_provider(providers, &model.provider_id) {
        Some(p) => &providers[p],
        None => {
            return Err("Missing provider");
        },
    };
    if !provider.enabled {
        return Err("Provider disabled");
    }
    if !model.capabilities.streaming {
        return Err("Streaming disabled");
    }
    Ok(())
}

/// The conversation a reference points to.
pub open spec fn owned(conversation: Option<&Conversation>) -> Option<Conversation> {
    match conversation {
        Some(c) => Some(*c),
        None => None,
    }
}

/// The model a looked-up id names, if any.
pub open spec fn lookup(models: Seq<Model>, id: Option<Seq<char>>) -> Option<int> {
    match id {
        Some(id) => model_index(models, id),
        None => None,
    }
}

/// The model a conversation runs on: its own model, else the primary model. Without a
/// conversation there is none.
pub open spec fn conversation_model(conversation: Option<Conversation>, primary: Option<Seq<char>>, models: Seq<Model>) -> Option<int> {
    match conversation {
        None => None,
        Some(c) => {
            let own = lookup(models, opt_view(c.model_id));
            if own is Some {
                own
            } else {
                lookup(models, primary)
            }
        },
    }
}

/// The model new messages would be sent to: the conversation's model, else the model picked
/// before a conversation existed, else the primary model.
pub open spec fn chosen_model(
    conversation: Option<Conversation>,
    draft: Option<Seq<char>>,
    primary: Option<Seq<char>>,
    models: Seq<Model>,
) -> Option<int> {
    let current = conversation_model(conversation, primary, models);
    if current is Some {
        current
    } else {
        let drafted = lookup(models, draft);
        if drafted is Some {
            drafted
        } else {
            lookup(models, primary)
        }
    }
}

fn lookup_exec(models: &Vec<Model>, id: &Option<String>) -> (r: Option<usize>)
    ensures
        r == (match lookup(models@, opt_view(*id)) {
            Some(i) => Some(i as usize),
            None => None::<usize>,
        }),
        r matches Some(i) ==> i < models@.len() && lookup(models@, opt_view(*id)) == Some(i as int),
        lookup(models@, opt_view(*id)) matches Some(i) ==> 0 <= i < models@.len(),
{
    match id {
        Some(id) => find_model(models, id),
        None => None,
    }
}

/// The position of the model a conversation runs on.
pub fn current_model(conversation: Option<&Conversation>, primary: &Option<String>, models: &Vec<Model>) -> (r: Option<usize>)
    ensures
        r == (match conversation_model(owned(conversation), opt_view(*primary), models@) {
            Some(i) => Some(i as usize),
            None => None::<usize>,
        }),
        r matches Some(i) ==> i < models@.len()
            && conversation_model(owned(conversation), opt_view(*primary), models@) == Some(i as int),
{
    match conversation {
        None => None,
        Some(c) => {
            let own = lookup_exec(models, &c.model_id);
            if own.is_some() {
                own
            } else {
                lookup_exec(models, primary)
            }
        },
    }
}

/// The position of the model new messages would be sent to.
pub fn selected_model(
    conversation: Option<&Conversation>,
    draft: &Option<String>,
    primary: &Option<String>,
    models: &Vec<Model>,
) -> (r: Option<usize>)
    ensures
        r == (match chosen_model(owned(conversation), opt_view(*draft), opt_view(*primary), models@) {
            Some(i) => Some(i as usize),
            None => None::<usize>,
        }),
        r matches Some(i) ==> i < models@.len()
            && chosen_model(owned(conversation), opt_view(*draft), opt_view(*primary), models@) == Some(i as int),
{
    let current = current_model(conversation, primary, models);
    if current.is_some() {
        return current;
    }
    let drafted = lookup_exec(models, draft);
    if drafted.is_some() {
        drafted
    } else {
        lookup_exec(models, primary)
    }
}

/// What starting a generation runs on: the model asked for (else the conversation's model)
/// and its provider; or why it cannot start.
pub open spec fn target(
    conversation: Option<Conversation>,
    requested: Option<Seq<char>>,
    primary: Option<Seq<char>>,
    models: Seq<Model>,
    providers: Seq<Provider>,
) -> Result<(int, int), Seq<char>> {
    if conversation is None {
        Err("Create or select a conversation first."@)
    } else {
        let model = if requested is Some {
            lookup(models, requested)
        } else {
            conversation_model(conversation, primary, models)
        };
        match model {
            None => Err("Choose a model before sending."@),
            Some(m) => if !models[m].capabilities.streaming {
                Err("The selected model does not support streaming."@)
            } else {
                match provider_index(providers, models[m].provider_id@) {
                    None => Err("The selected model has no provider."@),
                    Some(p) => if !providers[p].enabled {
                        Err("The selected provider is disabled."@)
                    } else {
                        Ok((m, p))
                    },
                }
            },
        }
    }
}

/// The positions of the model and provider a generation would run on, or why it cannot
/// start.
pub fn generation_target(
    conversation: Option<&Conversation>,
    requested: &Option<String>,
    primary: &Option<String>,
    models: &Vec<Model>,
    providers: &Vec<Provider>,
) -> (r: Result<(usize, usize), String>)
    ensures
        match target(owned(conversation), opt_view(*requested), opt_view(*primary), models@, providers@) {
            Ok((m, p)) => r == Ok::<(usize, usize), String>((m as usize, p as usize)) && m < models@.len() && p < providers@.len(),
            Err(e) => r matches Err(s) && s@ == e,
        },
{
    if conversation.is_none() {
        return Err(String::from_str("Create or select a conversation first."));
    }
    let model = if requested.is_some() {
        lookup_exec(models, requested)
    } else {
        current_model(conversation, primary, models)
    };
    let m = match model {
        Some(m) => m,
        None => {
            return Err(String::from_str("Choose a model before sending."));
        },
    };
    if !models[m].capabilities.streaming {
        return Err(String::from_str("The selected model does not support streaming."));
    }
    let p = match find_provider(providers, &models[m].provider_id) {
        Some(p) => p,
        None => {
            return Err(String::from_str("The selected model has no provider."));
        },
    };
    if !providers[p].enabled {
        return Err(String::from_str("The selected provider is disabled."));
    }
    Ok((m, p))
}

/// A new message may follow the last turn only once that turn continues from a response
/// that completed with some text.
pub open spec fn continuable(turns: Seq<Turn>) -> bool {
    turns.len() == 0 || usable_continuation(opt_view(turns.last().continuation_response_id), turns.last().responses@)
}

/// Why a new message cannot be sent after the loaded turns, if it cannot.
pub fn continuation_refusal(turns: &Vec<Turn>) -> (r: Option<&'static str>)
    ensures
        continuable(turns@) ==> r is None,
        !continuable(turns@) ==> (r matches Some(e) && e@ == "Choose a completed response before continuing."@),
{
    if turns.len() == 0 || continuation_is_usable(&turns[turns.len() - 1]) {
        None
    } else {
        Some("Choose a completed response before continuing.")
    }
}

/// Some response to the turn was written by the model.
pub open spec fn answered_by(turn: Turn, model_id: Seq<char>) -> bool {
    exists|k: int| 0 <= k < turn.responses@.len() && (#[trigger] turn.responses@[k]).model_id@ == model_id
}

/// Why the model cannot write another response to the turn, if it cannot: it has answered
/// the turn already.
pub fn additional_response_refusal(turn: &Turn, model_id: &String) -> (r: Option<&'static str>)
    ensures
        !answered_by(*turn, model_id@) ==> r is None,
        answered_by(*turn, model_id@) ==> (r matches Some(e) && e@ == "This model has already answered this message."@),
{
    let mut k: usize = 0;
    while k < turn.responses.len()
        invariant
            0 <= k <= turn.responses@.len(),
            forall|j: int| 0 <= j < k ==> (#[trigger] turn.responses@[j]).model_id@ != model_id@,
        decreases turn.responses.len() - k,
    {
        if turn.responses[k].model_id == *model_id {
            return Some("This model has already answered this message.");
        }
        k += 1;
    }
    None
}

/// What picking a model in the model picker does.
#[derive(Debug, PartialEq, Eq)]
pub enum ModelChoice {
    /// No model has the id.
    NotFound,
    /// The model cannot generate; the text is shown as the error.
    Unavailable(String),
    /// The picker was opened for another response to a turn: the model writes it.
    AnswerTurn(usize),
    /// No conversation is open: the model is kept for the first message.
    UseForDraft(usize),
    /// The conversation already runs on the model.
    AlreadyChosen(usize),
    /// The conversation switches to the model.
    Switch(usize),
}

/// What picking an available model at position `m` does.
pub open spec fn settled_choice(m: int, models: Seq<Model>, conversation: Option<Conversation>, answering_turn: bool) -> ModelChoice {
    if answering_turn {
        ModelChoice::AnswerTurn(m as usize)
    } else {
        match conversation {
            None => ModelChoice::UseForDraft(m as usize),
            Some(c) => if opt_view(c.model_id) == Some(models[m].id@) {
                ModelChoice::AlreadyChosen(m as usize)
            } else {
                ModelChoice::Switch(m as usize)
            },
        }
    }
}

/// The error shown for a model that cannot generate.
pub open spec fn unavailable_message(reason: Seq<char>) -> Seq<char> {
    "Model is unavailable: "@ + reason + "."@
}

/// What picking the model with this id does; `answering_turn` tells that the picker was opened
/// to add a response to a turn.
pub fn model_choice(
    model_id: &String,
    models: &Vec<Model>,
    providers: &Vec<Provider>,
    conversation: Option<&Conversation>,
    answering_turn: bool,
) -> (r: ModelChoice)
    ensures
        match model_index(models@, model_id@) {
            None => r == ModelChoice::NotFound,
            Some(m) => match unavailability(models@[m], providers@) {
                Some(reason) => r matches ModelChoice::Unavailable(text) && text@ == unavailable_message(reason),
                None => r == settled_choice(m, models@, owned(conversation), answering_turn),
            },
        },
        r matches ModelChoice::AnswerTurn(m) ==> m < models@.len(),
        r matches ModelChoice::UseForDraft(m) ==> m < models@.len(),
        r matches ModelChoice::AlreadyChosen(m) ==> m < models@.len(),
        r matches ModelChoice::Switch(m) ==> m < models@.len(),
{
    let m = match find_model(models, model_id) {
        Some(m) => m,
        None => {
            return ModelChoice::NotFound;
        },
    };
    match model_availability(&models[m], providers) {
        Err(reason) => {
            return ModelChoice::Unavailable(join3("Model is unavailable: ", reason, "."));
        },
        Ok(()) => {},
    }
    if answering_turn {
        return ModelChoice::AnswerTurn(m);
    }
    match conversation {
        None => ModelChoice::UseForDraft(m),
        Some(c) => {
            let same = match &c.model_id {
                Some(id) => *id == models[m].id,
                None => false,
            };
            if same {
                ModelChoice::AlreadyChosen(m)
            } else {
                ModelChoice::Switch(m)
            }
        },
    }
}

/// The first turn, from index `k` on, with this id.
pub open spec fn turn_index_from(turns: Seq<Turn>, id: Seq<char>, k: int) -> Option<int>
    decreases turns.len() - k,
{
    if k < 0 || k >= turns.len() {
        None
    } else if turns[k].id@ == id {
        Some(k)
    } else {
        turn_index_from(turns, id, k + 1)
    }
}

proof fn lemma_turn_index_range(turns: Seq<Turn>, id: Seq<char>, k: int)
    requires
        0 <= k,
    ensures
        turn_index_from(turns, id, k) matches Some(i) ==> k <= i < turns.len(),
    decreases turns.len() - k,
{
    if k < turns.len() {
        lemma_turn_index_range(turns, id, k + 1);
    }
}

fn find_turn(turns: &Vec<Turn>, id: &String) -> (r: Option<usize>)
    ensures
        r is None <==> turn_index_from(turns@, id@, 0) is None,
        r matches Some(i) ==> i < turns@.len() && turn_index_from(turns@, id@, 0) == Some(i as int),
{
    proof {
        lemma_turn_index_range(turns@, id@, 0);
    }
    let mut k: usize = 0;
    while k < turns.len()
        invariant
            0 <= k <= turns@.len(),
            turn_index_from(turns@, id@, 0) == turn_index_from(turns@, id@, k as int),
        decreases turns.len() - k,
    {
        if turns[k].id == *id {
            return Some(k);
        }
        k += 1;
    }
    None
}

/// The model already answered the turn the picker was opened for.
pub open spec fn replied(turns: Seq<Turn>, answering: Option<Seq<char>>, model_id: Seq<char>) -> bool {
    match answering {
        None => false,
        Some(id) => match turn_index_from(turns, id, 0) {
            None => false,
            Some(t) => answered_by(turns[t], model_id),
        },
    }
}

/// A model matches a normalized query that is empty, or found in the lower case of its name,
/// of its remote id, or of its provider's name.
pub open spec fn model_matches(model: Model, providers: Seq<Provider>, q: Seq<char>) -> bool {
    ||| q.len() == 0
    ||| contains_text(lowercase(model.display_name@), q)
    ||| contains_text(lowercase(model.remote_id@), q)
    ||| match provider_index(providers, model.provider_id@) {
        Some(p) => contains_text(lowercase(providers[p].name@), q),
        None => false,
    }
}

/// The model picker lists the model at position `i`.
pub open spec fn listed(
    models: Seq<Model>,
    providers: Seq<Provider>,
    turns: Seq<Turn>,
    answering: Option<Seq<char>>,
    query: Seq<char>,
    i: usize,
) -> bool {
    &&& !replied(turns, answering, models[i as int].id@)
    &&& model_matches(models[i as int], providers, normalized_query(query))
}

/// The positions `0..n`.
pub open spec fn positions(n: nat) -> Seq<usize> {
    Seq::new(n, |i: int| i as usize)
}

fn matches_model(model: &Model, providers: &Vec<Provider>, q: &Vec<char>) -> (r: bool)
    ensures
        r == model_matches(*model, providers@, q@),
{
    if q.len() == 0 {
        return true;
    }
    let name = to_lowercase(model.display_name.as_str());
    if contains(name.as_str(), q) {
        return true;
    }
    let remote = to_lowercase(model.remote_id.as_str());
    if contains(remote.as_str(), q) {
        return true;
    }
    match find_provider(providers, &model.provider_id) {
        Some(p) => {
            let provider = to_lowercase(providers[p].name.as_str());
            contains(provider.as_str(), q)
        },
        None => false,
    }
}

/// The positions of the models the picker lists for a query, in order. When the picker was
/// opened to add a response to a turn, the models that answered it are left out.
pub fn filtered_models(
    models: &Vec<Model>,
    providers: &Vec<Provider>,
    turns: &Vec<Turn>,
    answering: &Option<String>,
    query: &str,
) -> (r: Vec<usize>)
    ensures
        r@ == positions(models@.len()).filter(|i: usize| listed(models@, providers@, turns@, opt_view(*answering), query@, i)),
        forall|j: int| 0 <= j < r@.len() ==> (#[trigger] r@[j]) < models@.len(),
{
    let q = chars_of(to_lowercase(trim_str(query).as_str()).as_str());
    let turn = match answering {
        Some(id) => find_turn(turns, id),
        None => None,
    };
    let ghost pred = |i: usize| listed(models@, providers@, turns@, opt_view(*answering), query@, i);
    let ghost all = positions(models@.len());
    let mut r: Vec<usize> = Vec::new();
    let mut i: usize = 0;
    assert(all.take(0).filter(pred) =~= Seq::<usize>::empty());
    while i < models.len()
        invariant
            i <= models@.len(),
            all == positions(models@.len()),
            pred == (|i: usize| listed(models@, providers@, turns@, opt_view(*answering), query@, i)),
            q@ == normalized_query(query@),
            turn is None <==> (match opt_view(*answering) {
                Some(id) => turn_index_from(turns@, id, 0) is None,
                None => true,
            }),
            turn matches Some(t) ==> t < turns@.len() && (opt_view(*answering) matches Some(id)
                && turn_index_from(turns@, id, 0) == Some(t as int)),
            r@ == all.take(i as int).filter(pred),
            forall|j: int| 0 <= j < r@.len() ==> (#[trigger] r@[j]) < i,
        decreases models.len() - i,
    {
        let model = &models[i];
        let answered = match turn {
            Some(t) => additional_response_refusal(&turns[t], &model.id).is_some(),
            None => false,
        };
        let keep = !answered && matches_model(model, providers, &q);
        assert(keep == pred(i));
        proof {
            reveal(Seq::filter);
            assert(all.take(i as int + 1).drop_last() =~= all.take(i as int));
            assert(all.take(i as int + 1).last() == i);
        }
        if keep {
            r.push(i);
        }
        i += 1;
    }
    assert(all.take(models@.len() as int) =~= all);
    r
}

/// The first listed entry, from `k` on, whose model is available and, when an id is wanted,
/// has that id.
pub open spec fn pick_from(
    listed: Seq<usize>,
    models: Seq<Model>,
    providers: Seq<Provider>,
    wanted: Option<Seq<char>>,
    k: int,
) -> Option<int>
    decreases listed.len() - k,
{
    if k < 0 || k >= listed.len() {
        None
    } else if (match wanted {
        Some(id) => models[listed[k] as int].id@ == id,
        None => true,
    }) && unavailability(models[listed[k] as int], providers) is None {
        Some(k)
    } else {
        pick_from(listed, models, providers, wanted, k + 1)
    }
}

/// The entry a freshly opened model picker highlights: the selected model when it is listed
/// and available, else the first available model, else the first entry.
pub open spec fn initial_pick(
    listed: Seq<usize>,
    models: Seq<Model>,
    providers: Seq<Provider>,
    selected: Option<Seq<char>>,
) -> int {
    let chosen = if selected is Some {
        pick_from(listed, models, providers, selected, 0)
    } else {
        None
    };
    match chosen {
        Some(k) => k,
        None => match pick_from(listed, models, providers, None, 0) {
            Some(k) => k,
            None => 0,
        },
    }
}

proof fn lemma_pick_range(listed: Seq<usize>, models: Seq<Model>, providers: Seq<Provider>, wanted: Option<Seq<char>>, k: int)
    requires
        0 <= k,
    ensures
        pick_from(listed, models, providers, wanted, k) matches Some(j) ==> k <= j < listed.len(),
    decreases listed.len() - k,
{
    if k < listed.len() {
        lemma_pick_range(listed, models, providers, wanted, k + 1);
    }
}

fn pick(listed: &Vec<usize>, models: &Vec<Model>, providers: &Vec<Provider>, wanted: &Option<String>) -> (r: Option<usize>)
    requires
        forall|j: int| 0 <= j < listed@.len() ==> (#[trigger] listed@[j]) < models@.len(),
    ensures
        r is None <==> pick_from(listed@, models@, providers@, opt_view(*wanted), 0) is None,
        r matches Some(j) ==> j < listed@.len() && pick_from(listed@, models@, providers@, opt_view(*wanted), 0) == Some(j as int),
{
    proof {
        lemma_pick_range(listed@, models@, providers@, opt_view(*wanted), 0);
    }
    let mut k: usize = 0;
    while k < listed.len()
        invariant
            0 <= k <= listed@.len(),
            forall|j: int| 0 <= j < listed@.len() ==> (#[trigger] listed@[j]) < models@.len(),
            pick_from(listed@, models@, providers@, opt_view(*wanted), 0) == pick_from(
                listed@,
                models@,
                providers@,
                opt_view(*wanted),
                k as int,
            ),
        decreases listed.len() - k,
    {
        let model = &models[listed[k]];
        let fits = match wanted {
            Some(id) => model.id == *id,
            None => true,
        };
        if fits && model_availability(model, providers).is_ok() {
            return Some(k);
        }
        k += 1;
    }
    None
}

/// The entry a freshly opened model picker highlights among the models it lists for the
/// query; `selected` is the id of the model in use, or none when the picker adds a response to
/// a turn.
pub fn initial_model_selection(
    models: &Vec<Model>,
    providers: &Vec<Provider>,
    turns: &Vec<Turn>,
    answering: &Option<String>,
    query: &str,
    selected: &Option<String>,
) -> (r: usize)
    ensures
        r as int == initial_pick(
            positions(models@.len()).filter(|i: usize| listed(models@, providers@, turns@, opt_view(*answering), query@, i)),
            models@,
            providers@,
            opt_view(*selected),
        ),
{
    let listed = filtered_models(models, providers, turns, answering, query);
    if selected.is_some() {
        match pick(&listed, models, providers, selected) {
            Some(k) => {
                return k;
            },
            None => {},
        }
    }
    match pick(&listed, models, providers, &None) {
        Some(k) => k,
        None => 0,
    }
}

/// The model a new conversation is created with: the model picked before any conversation
/// was open (only while none is), else the primary model; an error names what is missing.
pub open spec fn new_conversation_model(
    conversation_open: bool,
    draft: Option<Seq<char>>,
    primary: Option<Seq<char>>,
    models: Seq<Model>,
    providers: Seq<Provider>,
) -> Result<int, Seq<char>> {
    let wanted = if !conversation_open && draft is Some {
        draft
    } else {
        primary
    };
    match lookup(models, wanted) {
        None => Err("Choose a model before creating a conversation."@),
        Some(m) => match unavailability(models[m], providers) {
            Some(reason) => Err("Choose an available model before creating a conversation: "@ + reason + "."@),
            None => Ok(m),
        },
    }
}

/// The position of the model a new conversation is created with, or why none can be.
pub fn model_for_new_conversation(
    conversation_open: bool,
    draft: &Option<String>,
    primary: &Option<String>,
    models: &Vec<Model>,
    providers: &Vec<Provider>,
) -> (r: Result<usize, String>)
    ensures
        match new_conversation_model(conversation_open, opt_view(*draft), opt_view(*primary), models@, providers@) {
            Ok(m) => r == Ok::<usize, String>(m as usize) && m < models@.len(),
            Err(e) => r matches Err(s) && s@ == e,
        },
{
    let found = if !conversation_open && draft.is_some() {
        lookup_exec(models, draft)
    } else {
        lookup_exec(models, primary)
    };
    let m = match found {
        Some(m) => m,
        None => {
            return Err(String::from_str("Choose a model before creating a conversation."));
        },
    };
    match model_availability(&models[m], providers) {
        Err(reason) => Err(join3("Choose an available model before creating a conversation: ", reason, ".")),
        Ok(()) => Ok(m),
    }
}

} // verus!
