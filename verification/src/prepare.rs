//! Turning a conversation into a provider request, and fitting it into the model's context
//! window.
use vstd::prelude::*;

use crate::context_usage::{estimate_input_tokens, input_token_estimate, lemma_estimate_range, saturate};
use crate::domain::{
    message_views, opt_view, same_response, AssistantResponse, Attachment, Conversation,
    GenerationConfig, GenerationRequest, HistoryLimit, Message, MessageRole, MessageStatus,
    MessageView, Model, PromptVariableSource, Provider, RequestContextInfo, RequestInfo,
    RequestKind, Timestamp, ToolSelection, TokenUsage, Turn, UserMessage,
};
use crate::history::{
    available, context_of, conversion, expand_with_groups, expanded, groups_of, limited,
    requirements_of, response_total, select_history, turn_count, user_audio, user_audio_ms,
    user_requirements, InputRequirements, PreparedHistoryGroup,
};
use crate::prompt::{PromptContext, PromptRenderError};
use crate::rendering::{snapshot_view, unrendered};
use crate::domain::PromptSnapshot;

verus! {

/// How much history a request gets and how its user messages are sent. `user_messages` holds,
/// by user message id, the message prepared for a provider or the reason it could not be
/// prepared; a user message without an entry is sent as plain text.
pub struct ContextPolicy {
    pub history_limit: HistoryLimit,
    pub user_messages: Vec<(String, Result<Message, String>)>,
}

impl ContextPolicy {
    pub fn new(history_limit: HistoryLimit, user_messages: Vec<(String, Result<Message, String>)>) -> (r: Self)
        ensures
            r.history_limit == history_limit,
            r.user_messages@ == user_messages@,
    {
        ContextPolicy { history_limit, user_messages }
    }
}

/// The identifiers and the time a prepared generation is stamped with: a new turn takes
/// `turn_id`, a new response `response_id`, every request `request_id`.
pub struct GenerationIds {
    pub turn_id: String,
    pub response_id: String,
    pub request_id: String,
    pub now: Timestamp,
}

/// What a prepared generation does to the conversation when it starts.
#[derive(Debug)]
pub enum GenerationStart {
    NewTurn(Box<Turn>),
    AddResponse { turn_id: String },
    RetryResponse { turn_id: String },
    ContinueResponse { turn_id: String },
}

/// A request ready to be sent, with what is needed to trim it to the context window.
pub struct PreparedGeneration {
    pub start: GenerationStart,
    pub response: AssistantResponse,
    pub request_info: RequestInfo,
    pub provider_request: GenerationRequest,
    pub tool_selection: ToolSelection,
    pub new_attachments: Vec<Attachment>,
    pub continuation_baseline: Option<AssistantResponse>,
    pub history_groups: Vec<PreparedHistoryGroup>,
    pub current_message_requirements: InputRequirements,
    pub history_start_index: usize,
    pub current_tail_message_count: usize,
    pub assistant_opening_template: Option<String>,
    pub prompt_variables: Vec<(String, PromptVariableSource)>,
    pub prompt_context: PromptContext,
}

/// The message that opens a conversation, if it has an opening.
pub open spec fn opening_messages(opening: Seq<char>) -> Seq<MessageView> {
    if opening.len() == 0 {
        Seq::empty()
    } else {
        seq![
            MessageView {
                role: MessageRole::Assistant,
                text: opening,
                reasoning: Seq::empty(),
                images: Seq::empty(),
            },
        ]
    }
}

/// The ancestors a request answering `parent` is given.
pub open spec fn chosen(turns: Seq<Turn>, parent: Option<Seq<char>>, limit: HistoryLimit) -> Seq<(usize, usize)> {
    limited(available(turns, parent), limit)
}

/// The history messages and the current user message of a request, or the first reason a
/// user message could not be prepared.
pub open spec fn context_result(
    turns: Seq<Turn>,
    parent: Option<Seq<char>>,
    user: UserMessage,
    limit: HistoryLimit,
    conversions: Seq<(String, Result<Message, String>)>,
) -> Result<Seq<MessageView>, Seq<char>> {
    match expanded(turns, chosen(turns, parent, limit), conversions) {
        Err(e) => Err(e),
        Ok(history) => match conversion(conversions, user) {
            Err(e) => Err(e),
            Ok(u) => Ok(history + seq![u]),
        },
    }
}

pub open spec fn groups_audio(groups: Seq<PreparedHistoryGroup>) -> int
    decreases groups.len(),
{
    if groups.len() == 0 {
        0
    } else {
        groups_audio(groups.drop_last()) + groups.last().audio_duration_ms
    }
}

pub open spec fn groups_messages(groups: Seq<PreparedHistoryGroup>) -> int
    decreases groups.len(),
{
    if groups.len() == 0 {
        0
    } else {
        groups_messages(groups.drop_last()) + groups.last().message_count
    }
}

/// The recorded audio a request carries: that of its history and of its user message,
/// saturating.
pub open spec fn context_audio(turns: Seq<Turn>, ancestors: Seq<(usize, usize)>, user: UserMessage) -> u64 {
    saturate(groups_audio(groups_of(turns, ancestors)) + saturate(user_audio(user))) as u64
}

pub open spec fn opening_count(opening: Seq<char>) -> nat {
    if opening.len() == 0 {
        0
    } else {
        1
    }
}

/// A prepared context.
struct PreparedContext {
    messages: Vec<Message>,
    history_groups: Vec<PreparedHistoryGroup>,
    current: InputRequirements,
    audio_duration_ms: u64,
    request_context: RequestContextInfo,
    start_index: usize,
}

proof fn lemma_groups_audio_nonneg(groups: Seq<PreparedHistoryGroup>)
    ensures
        groups_audio(groups) >= 0,
    decreases groups.len(),
{
    if groups.len() > 0 {
        lemma_groups_audio_nonneg(groups.drop_last());
    }
}

fn sum_groups_audio(groups: &Vec<PreparedHistoryGroup>) -> (r: u64)
    ensures
        r == saturate(groups_audio(groups@)),
{
    let mut total: u64 = 0;
    let mut i: usize = 0;
    while i < groups.len()
        invariant
            0 <= i <= groups@.len(),
            total == saturate(groups_audio(groups@.subrange(0, i as int))),
        decreases groups.len() - i,
    {
        proof {
            assert(groups@.subrange(0, i + 1).drop_last() =~= groups@.subrange(0, i as int));
            lemma_groups_audio_nonneg(groups@.subrange(0, i as int));
        }
        total = total.saturating_add(groups[i].audio_duration_ms);
        i += 1;
    }
    assert(groups@.subrange(0, groups@.len() as int) =~= groups@);
    total
}

/// The messages of a request: the opening, the chosen history and the current user message.
fn prepare_context(
    turns: &[Turn],
    parent: &Option<String>,
    user: &UserMessage,
    policy: &ContextPolicy,
    opening: &String,
) -> (r: Result<PreparedContext, String>)
    requires
        response_total(turns@) < usize::MAX,
    ensures
        match context_result(turns@, opt_view(*parent), *user, policy.history_limit, policy.user_messages@) {
            Err(e) => r matches Err(s) && s@ == e,
            Ok(v) => r matches Ok(c) && {
                &&& message_views(c.messages@) == opening_messages(opening@) + v
                &&& c.history_groups@ == groups_of(turns@, chosen(turns@, opt_view(*parent), policy.history_limit))
                &&& c.current == requirements_of(*user)
                &&& c.audio_duration_ms == context_audio(
                    turns@,
                    chosen(turns@, opt_view(*parent), policy.history_limit),
                    *user,
                )
                &&& c.request_context == context_of(
                    policy.history_limit,
                    available(turns@, opt_view(*parent)).len(),
                    chosen(turns@, opt_view(*parent), policy.history_limit).len(),
                )
                &&& c.start_index == opening_count(opening@)
            },
        },
{
    let selection = select_history(turns, parent, policy.history_limit);
    let (history, groups) = match expand_with_groups(turns, &selection.ancestors, &policy.user_messages) {
        Ok(p) => p,
        Err(e) => {
            return Err(e);
        },
    };
    let current = match crate::history::convert_user_message(&policy.user_messages, user) {
        Ok(m) => m,
        Err(e) => {
            return Err(e);
        },
    };
    let mut messages: Vec<Message> = Vec::new();
    let mut start_index: usize = 0;
    if !opening.as_str().is_empty() {
        let m = Message::assistant(opening.clone());
        assert(m@.images =~= Seq::<crate::domain::ImageInput>::empty());
        assert(m@.reasoning =~= Seq::<char>::empty());
        messages.push(m);
        start_index = 1;
    }
    let ghost opened = messages@;
    assert(message_views(opened) =~= opening_messages(opening@));
    let mut history = history;
    let ghost hist = history@;
    messages.append(&mut history);
    let ghost cur = current@;
    messages.push(current);
    proof {
        assert(messages@ =~= opened + hist + seq![current]);
        assert(message_views(messages@) =~= message_views(opened) + message_views(hist) + seq![cur]);
    }
    let history_audio = sum_groups_audio(&groups);
    let audio_duration_ms = history_audio.saturating_add(user_audio_ms(user));
    proof {
        lemma_groups_audio_nonneg(groups@);
    }
    let request_context = RequestContextInfo {
        history_limit: selection.limit,
        available_history_turns: turn_count(selection.available),
        included_history_turns: turn_count(selection.ancestors.len()),
        limited_by_context_window: false,
    };
    Ok(
        PreparedContext {
            messages,
            history_groups: groups,
            current: user_requirements(user),
            audio_duration_ms,
            request_context,
            start_index,
        },
    )
}


/// A request record stamped for a prepared generation.
pub open spec fn prepared_request(
    info: RequestInfo,
    request_id: String,
    conversation_id: String,
    turn_id: String,
    response_id: String,
    provider: Provider,
    model: Model,
    kind: RequestKind,
    input_tokens: int,
    context: RequestContextInfo,
    now: Timestamp,
) -> bool {
    &&& info.id == request_id
    &&& info.conversation_id == conversation_id
    &&& info.turn_id == turn_id
    &&& info.response_id == response_id
    &&& info.kind == kind
    &&& info.provider_id == Some(provider.id)
    &&& info.model_id == Some(model.id)
    &&& info.status == crate::domain::RequestStatus::Streaming
    &&& info.usage == (TokenUsage {
        input_tokens: Some(input_tokens as u64),
        output_tokens: None,
        estimated: true,
    })
    &&& info.error is None
    &&& info.started_at == now
    &&& info.first_token_at is None
    &&& info.finished_at is None
    &&& info.ttft_ms is None
    &&& info.duration_ms is None
    &&& info.thinking_duration_ms is None
    &&& info.last_step_input_tokens is None
    &&& info.last_step_estimated_input_tokens is None
    &&& info.tool_call_count == 0
    &&& info.tool_duration_ms is None
    &&& info.context == Some(context)
    &&& info.system_prompt is None
    &&& info.assistant_opening is None
}

/// A response that keeps who wrote it and is now streaming for request `request_id`.
pub open spec fn response_streaming(r: AssistantResponse, from: AssistantResponse, request_id: String, now: Timestamp) -> bool {
    &&& r.id == from.id
    &&& r.model_id == from.model_id
    &&& r.model_name == from.model_name
    &&& r.provider_id == from.provider_id
    &&& r.provider_name == from.provider_name
    &&& r.created_at == from.created_at
    &&& r.request_id == Some(request_id)
    &&& r.status == MessageStatus::Streaming
    &&& r.updated_at == now
}

/// A response started over: its output is cleared.
pub open spec fn response_restarted(r: AssistantResponse, from: AssistantResponse, request_id: String, now: Timestamp) -> bool {
    &&& response_streaming(r, from, request_id, now)
    &&& r.content@.len() == 0
    &&& r.thinking@.len() == 0
    &&& r.blocks@.len() == 0
    &&& r.transcript@.len() == 0
    &&& r.tool_executions@.len() == 0
}

/// A response resumed: its output is kept.
pub open spec fn response_resumed(r: AssistantResponse, from: AssistantResponse, request_id: String, now: Timestamp) -> bool {
    &&& response_streaming(r, from, request_id, now)
    &&& r.content == from.content
    &&& r.thinking == from.thinking
    &&& r.blocks@ == from.blocks@
    &&& message_views(r.transcript@) == message_views(from.transcript@)
    &&& r.tool_executions@ == from.tool_executions@
}

/// The configuration a model is sent: without a reasoning preset when it does not reason.
pub open spec fn filtered_config(config: GenerationConfig, model: Model) -> GenerationConfig {
    GenerationConfig {
        reasoning_preset: if model.capabilities.reasoning {
            config.reasoning_preset
        } else {
            None
        },
        max_output_tokens: config.max_output_tokens,
    }
}

/// A provider request with these parts.
pub open spec fn request_for(
    p: GenerationRequest,
    provider: Provider,
    model: Model,
    system_prompt: String,
    config: GenerationConfig,
    messages: Seq<MessageView>,
    audio_duration_ms: u64,
) -> bool {
    &&& p.provider == provider
    &&& p.model == model
    &&& p.system_prompt == system_prompt
    &&& p.config == filtered_config(config, model)
    &&& message_views(p.messages@) == messages
    &&& p.audio_duration_ms == audio_duration_ms
}

/// A configuration with the conversation's reasoning preset.
pub open spec fn with_preset(config: GenerationConfig, conversation: Conversation) -> GenerationConfig {
    GenerationConfig {
        reasoning_preset: conversation.generation_config.reasoning_preset,
        max_output_tokens: config.max_output_tokens,
    }
}

impl PreparedGeneration {
    /// The messages are the opening, the groups of the history and the tail, in that order.
    pub open spec fn wf(&self) -> bool {
        &&& self.history_start_index <= 1
        &&& groups_messages(self.history_groups@) + self.history_start_index
            + self.current_tail_message_count == self.provider_request.messages@.len()
    }
}

/// The parts every prepared generation shares.
pub open spec fn generation_prepared(
    p: PreparedGeneration,
    conversation: Conversation,
    provider: Provider,
    model: Model,
    turns: Seq<Turn>,
    parent: Option<Seq<char>>,
    user: UserMessage,
    limit: HistoryLimit,
    config: GenerationConfig,
    messages: Seq<MessageView>,
    tail_count: nat,
) -> bool {
    let ancestors = chosen(turns, parent, limit);
    let audio = context_audio(turns, ancestors, user);
    &&& request_for(
        p.provider_request,
        provider,
        model,
        conversation.system_prompt,
        config,
        opening_messages(conversation.assistant_opening@) + messages,
        audio,
    )
    &&& p.tool_selection.overrides@ == conversation.tool_selection.overrides@
    &&& p.new_attachments@.len() == 0
    &&& p.history_groups@ == groups_of(turns, ancestors)
    &&& p.history_start_index == opening_count(conversation.assistant_opening@)
    &&& p.current_tail_message_count == tail_count
    &&& p.current_message_requirements == requirements_of(user)
    &&& opt_view(p.assistant_opening_template) == (if conversation.assistant_opening@.len() == 0 {
        None
    } else {
        Some(conversation.assistant_opening@)
    })
    &&& p.prompt_variables@.len() == 0
    &&& p.wf()
}

/// Starts a response over for a new request: streaming again, with no content, thinking,
/// transcript or tool executions. Its reasoning blocks describe the thinking that is cleared,
/// so they are cleared with it.
fn restart_response(response: &mut AssistantResponse, request_id: &String, now: Timestamp)
    ensures
        response_restarted(*final(response), *old(response), *request_id, now),
{
    response.status = MessageStatus::Streaming;
    response.content = String::new();
    response.thinking = String::new();
    response.blocks = Vec::new();
    response.transcript = Vec::new();
    response.tool_executions = Vec::new();
    response.updated_at = now;
    response.request_id = Some(request_id.clone());
}

fn resume_response(response: &mut AssistantResponse, request_id: &String, now: Timestamp)
    ensures
        response_resumed(*final(response), *old(response), *request_id, now),
{
    response.status = MessageStatus::Streaming;
    response.updated_at = now;
    response.request_id = Some(request_id.clone());
}

fn stamp_request(
    ids: &GenerationIds,
    conversation: &Conversation,
    turn_id: &String,
    response_id: &String,
    provider: &Provider,
    model: &Model,
    kind: RequestKind,
    messages: &Vec<Message>,
    audio_duration_ms: u64,
    context: RequestContextInfo,
) -> (r: RequestInfo)
    ensures
        prepared_request(
            r,
            ids.request_id,
            conversation.id,
            *turn_id,
            *response_id,
            *provider,
            *model,
            kind,
            input_token_estimate(conversation.system_prompt@, messages@, audio_duration_ms),
            context,
            ids.now,
        ),
{
    let mut request = RequestInfo::new(ids.request_id.clone(), &conversation.id, turn_id, response_id, ids.now);
    request.kind = kind;
    request.provider_id = Some(provider.id.clone());
    request.model_id = Some(model.id.clone());
    let tokens = estimate_input_tokens(conversation.system_prompt.as_str(), messages, audio_duration_ms);
    request.usage.input_tokens = Some(tokens);
    request.usage.estimated = true;
    request.context = Some(context);
    request
}

fn build_request(
    provider: &Provider,
    model: &Model,
    system_prompt: &String,
    config: &GenerationConfig,
    messages: Vec<Message>,
    audio_duration_ms: u64,
) -> (r: GenerationRequest)
    ensures
        request_for(r, *provider, *model, *system_prompt, *config, message_views(messages@), audio_duration_ms),
        r.messages@ == messages@,
{
    let filtered = config.filtered_for(&model.capabilities);
    GenerationRequest {
        provider: provider.clone(),
        model: model.clone(),
        system_prompt: system_prompt.clone(),
        config: filtered,
        messages,
        audio_duration_ms,
    }
}

/// A prompt context with every field empty; the real one is set when the prompt is
/// configured.
fn empty_prompt_context() -> (r: PromptContext)
    ensures
        r.conversation_id@ == Seq::<char>::empty(),
        r.conversation_title@ == Seq::<char>::empty(),
        r.model_name@ == Seq::<char>::empty(),
        r.provider_name@ == Seq::<char>::empty(),
{
    PromptContext {
        conversation_id: String::new(),
        conversation_title: String::new(),
        model_name: String::new(),
        provider_name: String::new(),
    }
}



/// A response just created by `model` of `provider`, streaming for request `request_id`.
pub open spec fn new_response_started(
    r: AssistantResponse,
    model: Model,
    provider: Provider,
    id: String,
    request_id: String,
    now: Timestamp,
) -> bool {
    &&& r.id == id
    &&& r.model_id == model.id
    &&& r.model_name == model.display_name
    &&& r.provider_id == provider.id
    &&& r.provider_name == provider.name
    &&& r.created_at == now
    &&& r.updated_at == now
    &&& r.request_id == Some(request_id)
    &&& r.status == MessageStatus::Streaming
    &&& r.content@.len() == 0
    &&& r.thinking@.len() == 0
    &&& r.blocks@.len() == 0
    &&& r.transcript@.len() == 0
    &&& r.tool_executions@.len() == 0
}

/// The request context of a request answering `parent`.
pub open spec fn request_context(turns: Seq<Turn>, parent: Option<Seq<char>>, limit: HistoryLimit) -> RequestContextInfo {
    context_of(limit, available(turns, parent).len(), chosen(turns, parent, limit).len())
}

impl PreparedGeneration {
    /// Prepares the first response to a new user message that answers `parent_response_id`.
    pub fn new(
        conversation: &Conversation,
        provider: &Provider,
        model: &Model,
        turns: &[Turn],
        parent_response_id: Option<String>,
        user: UserMessage,
        context_policy: &ContextPolicy,
        ids: &GenerationIds,
    ) -> (r: Result<PreparedGeneration, String>)
        requires
            response_total(turns@) < usize::MAX,
        ensures
            match context_result(
                turns@,
                opt_view(parent_response_id),
                user,
                context_policy.history_limit,
                context_policy.user_messages@,
            ) {
                Err(e) => r matches Err(s) && s@ == e,
                Ok(v) => r matches Ok(p) && {
                    &&& generation_prepared(
                        p,
                        *conversation,
                        *provider,
                        *model,
                        turns@,
                        opt_view(parent_response_id),
                        user,
                        context_policy.history_limit,
                        conversation.generation_config,
                        v,
                        1,
                    )
                    &&& new_response_started(
                        p.response,
                        *model,
                        *provider,
                        ids.response_id,
                        ids.request_id,
                        ids.now,
                    )
                    &&& prepared_request(
                        p.request_info,
                        ids.request_id,
                        conversation.id,
                        ids.turn_id,
                        ids.response_id,
                        *provider,
                        *model,
                        RequestKind::Initial,
                        input_token_estimate(
                            conversation.system_prompt@,
                            p.provider_request.messages@,
                            p.provider_request.audio_duration_ms,
                        ),
                        request_context(turns@, opt_view(parent_response_id), context_policy.history_limit),
                        ids.now,
                    )
                    &&& p.start matches GenerationStart::NewTurn(t) && {
                        &&& t.id == ids.turn_id
                        &&& t.conversation_id == conversation.id
                        &&& t.parent_response_id == parent_response_id
                        &&& t.user == user
                        &&& t.responses@.len() == 1
                        &&& same_response(t.responses@[0], p.response)
                        &&& t.continuation_response_id == Some(ids.response_id)
                        &&& t.generation_config == conversation.generation_config
                    }
                    &&& p.continuation_baseline is None
                },
            },
    {
        let mut response = AssistantResponse::new(model, provider, ids.response_id.clone(), ids.now);
        let context = match prepare_context(
            turns,
            &parent_response_id,
            &user,
            context_policy,
            &conversation.assistant_opening,
        ) {
            Ok(c) => c,
            Err(e) => {
                return Err(e);
            },
        };
        assert(context.messages@.len() == context.messages.len());
        proof {
            lemma_context_counts(
                turns@,
                opt_view(parent_response_id),
                user,
                context_policy.history_limit,
                context_policy.user_messages@,
                conversation.assistant_opening@,
                context.messages@,
            );
        }
        let ghost fresh = response;
        restart_response(&mut response, &ids.request_id, ids.now);
        let request_info = stamp_request(
            ids,
            conversation,
            &ids.turn_id,
            &ids.response_id,
            provider,
            model,
            RequestKind::Initial,
            &context.messages,
            context.audio_duration_ms,
            context.request_context,
        );
        let turn_response = response.clone();
        let turn = Turn::new(ids.turn_id.clone(), conversation, parent_response_id, user, turn_response);
        let opening_template = if context.start_index == 1 {
            Some(conversation.assistant_opening.clone())
        } else {
            None
        };
        let ghost msgs = context.messages@;
        let provider_request = build_request(
            provider,
            model,
            &conversation.system_prompt,
            &conversation.generation_config,
            context.messages,
            context.audio_duration_ms,
        );
        let p = PreparedGeneration {
            start: GenerationStart::NewTurn(Box::new(turn)),
            response,
            request_info,
            provider_request,
            tool_selection: conversation.tool_selection.clone(),
            new_attachments: Vec::new(),
            continuation_baseline: None,
            history_groups: context.history_groups,
            current_message_requirements: context.current,
            history_start_index: context.start_index,
            current_tail_message_count: 1,
            assistant_opening_template: opening_template,
            prompt_variables: Vec::new(),
            prompt_context: empty_prompt_context(),
        };
        assert(p.provider_request.messages@ == msgs);
        Ok(p)
    }
}

proof fn lemma_expanded_counts(
    turns: Seq<Turn>,
    ancestors: Seq<(usize, usize)>,
    conversions: Seq<(String, Result<Message, String>)>,
    history: Seq<MessageView>,
)
    requires
        expanded(turns, ancestors, conversions) == Ok::<Seq<MessageView>, Seq<char>>(history),
        history.len() <= usize::MAX,
    ensures
        groups_messages(groups_of(turns, ancestors)) == history.len(),
    decreases ancestors.len(),
{
    if ancestors.len() > 0 {
        match expanded(turns, ancestors.drop_last(), conversions) {
            Ok(before) => {
                assert(groups_of(turns, ancestors).drop_last() =~= groups_of(turns, ancestors.drop_last()));
                lemma_expanded_counts(turns, ancestors.drop_last(), conversions, before);
                let last = ancestors.len() - 1;
                assert(groups_of(turns, ancestors)[last] == crate::history::group_of(turns, ancestors.last()));
            },
            Err(_) => {},
        }
    }
}

/// The messages of a prepared context are the opening, the groups and the user message.
proof fn lemma_context_counts(
    turns: Seq<Turn>,
    parent: Option<Seq<char>>,
    user: UserMessage,
    limit: HistoryLimit,
    conversions: Seq<(String, Result<Message, String>)>,
    opening: Seq<char>,
    messages: Seq<Message>,
)
    requires
        context_result(turns, parent, user, limit, conversions) matches Ok(v) && message_views(messages)
            == opening_messages(opening) + v,
        messages.len() <= usize::MAX,
    ensures
        groups_messages(groups_of(turns, chosen(turns, parent, limit))) + opening_count(opening) + 1
            == messages.len(),
{
    let ancestors = chosen(turns, parent, limit);
    match expanded(turns, ancestors, conversions) {
        Ok(history) => {
            assert(message_views(messages).len() == messages.len());
            lemma_expanded_counts(turns, ancestors, conversions, history);
        },
        Err(_) => {},
    }
}


/// A configuration with the conversation's reasoning preset.
fn config_with_preset(config: &GenerationConfig, conversation: &Conversation) -> (r: GenerationConfig)
    ensures
        r == with_preset(*config, *conversation),
{
    GenerationConfig {
        reasoning_preset: crate::domain::clone_opt(&conversation.generation_config.reasoning_preset),
        max_output_tokens: config.max_output_tokens,
    }
}

pub open spec fn continuation_without_output() -> Seq<char> {
    "Only a response with output can be continued"@
}

pub open spec fn continuation_without_transcript() -> Seq<char> {
    "The response has no assistant transcript to continue"@
}

impl PreparedGeneration {
    /// The same generation, carrying the attachments stored for its new user message.
    pub fn with_new_attachments(self, attachments: Vec<Attachment>) -> (r: PreparedGeneration)
        ensures
            r.new_attachments@ == attachments@,
            r.start == self.start,
            r.response == self.response,
            r.request_info == self.request_info,
            r.provider_request == self.provider_request,
            r.history_groups@ == self.history_groups@,
            r.history_start_index == self.history_start_index,
            r.current_tail_message_count == self.current_tail_message_count,
    {
        let mut s = self;
        s.new_attachments = attachments;
        s
    }

    /// The templates rendered for this request: the system prompt, then the assistant opening
    /// when the request starts the conversation.
    pub fn prompt_templates(&self) -> (r: Vec<String>)
        ensures
            r@.len() == (if self.assistant_opening_template is Some { 2int } else { 1int }),
            r@[0] == self.provider_request.system_prompt,
            self.assistant_opening_template matches Some(t) ==> r@[1] == t,
    {
        let mut templates: Vec<String> = Vec::new();
        templates.push(self.provider_request.system_prompt.clone());
        match &self.assistant_opening_template {
            Some(t) => templates.push(t.clone()),
            None => {},
        }
        templates
    }

    /// Records how the prompt templates were rendered. On failure the request keeps its
    /// templates, recorded without a rendering. On success the system prompt becomes the
    /// first snapshot's text, a second snapshot becomes the opening message, and the input
    /// estimate is computed again.
    pub fn apply_prompt_snapshots(&mut self, rendered: Result<Vec<PromptSnapshot>, PromptRenderError>) -> (r: Result<(), PromptRenderError>)
        requires
            rendered matches Ok(v) ==> v@.len() >= 1 && (v@.len() >= 2 ==> old(self).provider_request.messages@.len() >= 1),
        ensures
            final(self).start == old(self).start,
            final(self).response == old(self).response,
            final(self).history_groups@ == old(self).history_groups@,
            final(self).history_start_index == old(self).history_start_index,
            final(self).current_tail_message_count == old(self).current_tail_message_count,
            final(self).assistant_opening_template == old(self).assistant_opening_template,
            final(self).provider_request.model == old(self).provider_request.model,
            final(self).provider_request.provider == old(self).provider_request.provider,
            final(self).provider_request.audio_duration_ms == old(self).provider_request.audio_duration_ms,
            final(self).provider_request.messages@.len() == old(self).provider_request.messages@.len(),
            final(self).request_info.context == old(self).request_info.context,
            final(self).request_info.id == old(self).request_info.id,
            match rendered {
                Err(e) => {
                    &&& r matches Err(x) && x@ == e@
                    &&& final(self).provider_request == old(self).provider_request
                    &&& final(self).request_info.usage == old(self).request_info.usage
                    &&& final(self).request_info.system_prompt matches Some(s)
                        && snapshot_view(s) == unrendered(old(self).provider_request.system_prompt@)
                    &&& match old(self).assistant_opening_template {
                        None => final(self).request_info.assistant_opening is None,
                        Some(t) => final(self).request_info.assistant_opening matches Some(s)
                            && snapshot_view(s) == unrendered(t@),
                    }
                },
                Ok(v) => {
                    &&& r is Ok
                    &&& final(self).provider_request.system_prompt == v@[0].resolved
                    &&& final(self).request_info.system_prompt == Some(v@[0])
                    &&& if v@.len() >= 2 {
                        &&& message_views(final(self).provider_request.messages@) == message_views(
                            old(self).provider_request.messages@,
                        ).update(
                            0,
                            MessageView {
                                role: MessageRole::Assistant,
                                text: v@.last().resolved@,
                                reasoning: Seq::empty(),
                                images: Seq::empty(),
                            },
                        )
                        &&& final(self).request_info.assistant_opening == Some(v@.last())
                    } else {
                        &&& final(self).provider_request.messages@ == old(self).provider_request.messages@
                        &&& final(self).request_info.assistant_opening == old(self).request_info.assistant_opening
                    }
                    &&& final(self).request_info.usage == (TokenUsage {
                        input_tokens: Some(
                            input_token_estimate(
                                final(self).provider_request.system_prompt@,
                                final(self).provider_request.messages@,
                                final(self).provider_request.audio_duration_ms,
                            ) as u64,
                        ),
                        estimated: true,
                        ..old(self).request_info.usage
                    })
                },
            },
    {
        match rendered {
            Err(error) => {
                let system = PromptSnapshot {
                    template: self.provider_request.system_prompt.clone(),
                    resolved: String::new(),
                    variables: Vec::new(),
                };
                self.request_info.system_prompt = Some(system);
                let opening = match &self.assistant_opening_template {
                    Some(t) => Some(PromptSnapshot { template: t.clone(), resolved: String::new(), variables: Vec::new() }),
                    None => None,
                };
                self.request_info.assistant_opening = opening;
                Err(error)
            },
            Ok(snapshots) => {
                let mut snapshots = snapshots;
                let ghost all = snapshots@;
                let system = snapshots.remove(0);
                self.provider_request.system_prompt = system.resolved.clone();
                self.request_info.system_prompt = Some(system);
                match snapshots.pop() {
                    Some(opening) => {
                        assert(opening == all.last());
                        let ghost before = message_views(self.provider_request.messages@);
                        let message = Message::assistant(opening.resolved.clone());
                        assert(message@ == (MessageView {
                            role: MessageRole::Assistant,
                            text: opening.resolved@,
                            reasoning: Seq::empty(),
                            images: Seq::empty(),
                        })) by {
                            assert(message.images@ =~= Seq::<crate::domain::ImageInput>::empty());
                            assert(message.reasoning@ =~= Seq::<char>::empty());
                        }
                        self.provider_request.messages.set(0, message);
                        proof {
                            assert(message_views(self.provider_request.messages@) =~= before.update(
                                0,
                                MessageView {
                                    role: MessageRole::Assistant,
                                    text: opening.resolved@,
                                    reasoning: Seq::empty(),
                                    images: Seq::empty(),
                                },
                            ));
                        }
                        self.request_info.assistant_opening = Some(opening);
                    },
                    None => {},
                }
                self.refresh_estimate();
                Ok(())
            },
        }
    }

    /// Sets the variables and values the prompt templates are rendered with.
    pub fn configure_prompt(&mut self, variables: Vec<(String, PromptVariableSource)>, context: PromptContext)
        ensures
            final(self).prompt_variables@ == variables@,
            final(self).prompt_context == context,
            final(self).start == old(self).start,
            final(self).response == old(self).response,
            final(self).request_info == old(self).request_info,
            final(self).provider_request == old(self).provider_request,
            final(self).history_groups@ == old(self).history_groups@,
            final(self).history_start_index == old(self).history_start_index,
            final(self).current_tail_message_count == old(self).current_tail_message_count,
            final(self).assistant_opening_template == old(self).assistant_opening_template,
    {
        self.prompt_variables = variables;
        self.prompt_context = context;
    }

    /// A new request for an existing turn.
    fn existing_turn(
        conversation: &Conversation,
        provider: &Provider,
        model: &Model,
        turns: &[Turn],
        turn: &Turn,
        response: AssistantResponse,
        config: GenerationConfig,
        start: GenerationStart,
        kind: RequestKind,
        context_policy: &ContextPolicy,
        ids: &GenerationIds,
    ) -> (r: Result<PreparedGeneration, String>)
        requires
            response_total(turns@) < usize::MAX,
        ensures
            match context_result(
                turns@,
                opt_view(turn.parent_response_id),
                turn.user,
                context_policy.history_limit,
                context_policy.user_messages@,
            ) {
                Err(e) => r matches Err(s) && s@ == e,
                Ok(v) => r matches Ok(p) && {
                    &&& generation_prepared(
                        p,
                        *conversation,
                        *provider,
                        *model,
                        turns@,
                        opt_view(turn.parent_response_id),
                        turn.user,
                        context_policy.history_limit,
                        config,
                        v,
                        1,
                    )
                    &&& response_restarted(p.response, response, ids.request_id, ids.now)
                    &&& prepared_request(
                        p.request_info,
                        ids.request_id,
                        conversation.id,
                        turn.id,
                        response.id,
                        *provider,
                        *model,
                        kind,
                        input_token_estimate(
                            conversation.system_prompt@,
                            p.provider_request.messages@,
                            p.provider_request.audio_duration_ms,
                        ),
                        request_context(turns@, opt_view(turn.parent_response_id), context_policy.history_limit),
                        ids.now,
                    )
                    &&& p.start == start
                    &&& p.continuation_baseline is None
                },
            },
    {
        let mut response = response;
        let context = match prepare_context(
            turns,
            &turn.parent_response_id,
            &turn.user,
            context_policy,
            &conversation.assistant_opening,
        ) {
            Ok(c) => c,
            Err(e) => {
                return Err(e);
            },
        };
        assert(context.messages@.len() == context.messages.len());
        proof {
            lemma_context_counts(
                turns@,
                opt_view(turn.parent_response_id),
                turn.user,
                context_policy.history_limit,
                context_policy.user_messages@,
                conversation.assistant_opening@,
                context.messages@,
            );
        }
        restart_response(&mut response, &ids.request_id, ids.now);
        let request_info = stamp_request(
            ids,
            conversation,
            &turn.id,
            &response.id,
            provider,
            model,
            kind,
            &context.messages,
            context.audio_duration_ms,
            context.request_context,
        );
        let opening_template = if context.start_index == 1 {
            Some(conversation.assistant_opening.clone())
        } else {
            None
        };
        let ghost msgs = context.messages@;
        let provider_request = build_request(
            provider,
            model,
            &conversation.system_prompt,
            &config,
            context.messages,
            context.audio_duration_ms,
        );
        let p = PreparedGeneration {
            start,
            response,
            request_info,
            provider_request,
            tool_selection: conversation.tool_selection.clone(),
            new_attachments: Vec::new(),
            continuation_baseline: None,
            history_groups: context.history_groups,
            current_message_requirements: context.current,
            history_start_index: context.start_index,
            current_tail_message_count: 1,
            assistant_opening_template: opening_template,
            prompt_variables: Vec::new(),
            prompt_context: empty_prompt_context(),
        };
        assert(p.provider_request.messages@ == msgs);
        Ok(p)
    }

    /// Prepares one more response to an existing turn, with the turn's configuration.
    pub fn additional(
        conversation: &Conversation,
        provider: &Provider,
        model: &Model,
        turns: &[Turn],
        turn: &Turn,
        context_policy: &ContextPolicy,
        ids: &GenerationIds,
    ) -> (r: Result<PreparedGeneration, String>)
        requires
            response_total(turns@) < usize::MAX,
        ensures
            match context_result(
                turns@,
                opt_view(turn.parent_response_id),
                turn.user,
                context_policy.history_limit,
                context_policy.user_messages@,
            ) {
                Err(e) => r matches Err(s) && s@ == e,
                Ok(v) => r matches Ok(p) && {
                    &&& generation_prepared(
                        p,
                        *conversation,
                        *provider,
                        *model,
                        turns@,
                        opt_view(turn.parent_response_id),
                        turn.user,
                        context_policy.history_limit,
                        turn.generation_config,
                        v,
                        1,
                    )
                    &&& new_response_started(
                        p.response,
                        *model,
                        *provider,
                        ids.response_id,
                        ids.request_id,
                        ids.now,
                    )
                    &&& prepared_request(
                        p.request_info,
                        ids.request_id,
                        conversation.id,
                        turn.id,
                        ids.response_id,
                        *provider,
                        *model,
                        RequestKind::Additional,
                        input_token_estimate(
                            conversation.system_prompt@,
                            p.provider_request.messages@,
                            p.provider_request.audio_duration_ms,
                        ),
                        request_context(turns@, opt_view(turn.parent_response_id), context_policy.history_limit),
                        ids.now,
                    )
                    &&& p.start matches GenerationStart::AddResponse { turn_id } && turn_id == turn.id
                    &&& p.continuation_baseline is None
                },
            },
    {
        let response = AssistantResponse::new(model, provider, ids.response_id.clone(), ids.now);
        PreparedGeneration::existing_turn(
            conversation,
            provider,
            model,
            turns,
            turn,
            response,
            turn.generation_config.clone(),
            GenerationStart::AddResponse { turn_id: turn.id.clone() },
            RequestKind::Additional,
            context_policy,
            ids,
        )
    }

    /// Prepares a response to be written again, with the conversation's reasoning preset.
    pub fn regenerate(
        conversation: &Conversation,
        provider: &Provider,
        model: &Model,
        turns: &[Turn],
        turn: &Turn,
        previous_response: &AssistantResponse,
        context_policy: &ContextPolicy,
        ids: &GenerationIds,
    ) -> (r: Result<PreparedGeneration, String>)
        requires
            response_total(turns@) < usize::MAX,
        ensures
            match context_result(
                turns@,
                opt_view(turn.parent_response_id),
                turn.user,
                context_policy.history_limit,
                context_policy.user_messages@,
            ) {
                Err(e) => r matches Err(s) && s@ == e,
                Ok(v) => r matches Ok(p) && {
                    &&& generation_prepared(
                        p,
                        *conversation,
                        *provider,
                        *model,
                        turns@,
                        opt_view(turn.parent_response_id),
                        turn.user,
                        context_policy.history_limit,
                        with_preset(turn.generation_config, *conversation),
                        v,
                        1,
                    )
                    &&& response_restarted(p.response, *previous_response, ids.request_id, ids.now)
                    &&& prepared_request(
                        p.request_info,
                        ids.request_id,
                        conversation.id,
                        turn.id,
                        previous_response.id,
                        *provider,
                        *model,
                        RequestKind::Regenerate,
                        input_token_estimate(
                            conversation.system_prompt@,
                            p.provider_request.messages@,
                            p.provider_request.audio_duration_ms,
                        ),
                        request_context(turns@, opt_view(turn.parent_response_id), context_policy.history_limit),
                        ids.now,
                    )
                    &&& p.start matches GenerationStart::RetryResponse { turn_id } && turn_id == turn.id
                    &&& p.continuation_baseline is None
                },
            },
    {
        let config = config_with_preset(&turn.generation_config, conversation);
        PreparedGeneration::existing_turn(
            conversation,
            provider,
            model,
            turns,
            turn,
            previous_response.clone(),
            config,
            GenerationStart::RetryResponse { turn_id: turn.id.clone() },
            RequestKind::Regenerate,
            context_policy,
            ids,
        )
    }
}


impl PreparedGeneration {
    /// Prepares the continuation of a response that has output: the request replays the
    /// response's transcript after the user message, and the response keeps its output.
    pub fn continuation(
        conversation: &Conversation,
        provider: &Provider,
        model: &Model,
        turns: &[Turn],
        turn: &Turn,
        previous_response: &AssistantResponse,
        context_policy: &ContextPolicy,
        ids: &GenerationIds,
    ) -> (r: Result<PreparedGeneration, String>)
        requires
            response_total(turns@) < usize::MAX,
        ensures
            previous_response.content@.len() == 0 ==> (r matches Err(s) && s@ == continuation_without_output()),
            previous_response.content@.len() > 0 ==> match context_result(
                turns@,
                opt_view(turn.parent_response_id),
                turn.user,
                context_policy.history_limit,
                context_policy.user_messages@,
            ) {
                Err(e) => r matches Err(s) && s@ == e,
                Ok(v) => if previous_response.transcript@.len() == 0 {
                    r matches Err(s) && s@ == continuation_without_transcript()
                } else {
                    r matches Ok(p) && {
                        &&& generation_prepared(
                            p,
                            *conversation,
                            *provider,
                            *model,
                            turns@,
                            opt_view(turn.parent_response_id),
                            turn.user,
                            context_policy.history_limit,
                            with_preset(turn.generation_config, *conversation),
                            v + message_views(previous_response.transcript@),
                            1 + previous_response.transcript@.len(),
                        )
                        &&& response_resumed(p.response, *previous_response, ids.request_id, ids.now)
                        &&& prepared_request(
                            p.request_info,
                            ids.request_id,
                            conversation.id,
                            turn.id,
                            previous_response.id,
                            *provider,
                            *model,
                            RequestKind::Continue,
                            input_token_estimate(
                                conversation.system_prompt@,
                                p.provider_request.messages@,
                                p.provider_request.audio_duration_ms,
                            ),
                            request_context(
                                turns@,
                                opt_view(turn.parent_response_id),
                                context_policy.history_limit,
                            ),
                            ids.now,
                        )
                        &&& p.start matches GenerationStart::ContinueResponse { turn_id } && turn_id
                            == turn.id
                        &&& p.continuation_baseline matches Some(b) && same_response(b, *previous_response)
                    }
                },
            },
    {
        if previous_response.content.as_str().is_empty() {
            return Err(String::from_str("Only a response with output can be continued"));
        }
        let baseline = previous_response.clone();
        let mut response = previous_response.clone();
        response.prepare_continuation();
        let context = match prepare_context(
            turns,
            &turn.parent_response_id,
            &turn.user,
            context_policy,
            &conversation.assistant_opening,
        ) {
            Ok(c) => c,
            Err(e) => {
                return Err(e);
            },
        };
        let mut continuation_messages = crate::domain::clone_messages(&response.transcript);
        proof {
            assert(message_views(continuation_messages@).len() == continuation_messages@.len());
            assert(message_views(response.transcript@).len() == response.transcript@.len());
            assert(message_views(previous_response.transcript@).len() == previous_response.transcript@.len());
        }
        if continuation_messages.len() == 0 {
            return Err(String::from_str("The response has no assistant transcript to continue"));
        }
        let added_len = continuation_messages.len();
        let mut messages = context.messages;
        let ghost before = messages@;
        let ghost added = continuation_messages@;
        assert(before.len() == messages.len());
        proof {
            lemma_context_counts(
                turns@,
                opt_view(turn.parent_response_id),
                turn.user,
                context_policy.history_limit,
                context_policy.user_messages@,
                conversation.assistant_opening@,
                before,
            );
            lemma_groups_messages_nonneg(groups_of(turns@, chosen(turns@, opt_view(turn.parent_response_id), context_policy.history_limit)));
        }
        messages.append(&mut continuation_messages);
        assert(messages@.len() == messages.len());
        let tail_count = 1 + added_len;
        proof {
            assert(messages@ =~= before + added);
            assert(message_views(messages@) =~= message_views(before) + message_views(added));
        }
        resume_response(&mut response, &ids.request_id, ids.now);
        let request_info = stamp_request(
            ids,
            conversation,
            &turn.id,
            &response.id,
            provider,
            model,
            RequestKind::Continue,
            &messages,
            context.audio_duration_ms,
            context.request_context,
        );
        let config = config_with_preset(&turn.generation_config, conversation);
        let opening_template = if context.start_index == 1 {
            Some(conversation.assistant_opening.clone())
        } else {
            None
        };
        let ghost msgs = messages@;
        let provider_request = build_request(
            provider,
            model,
            &conversation.system_prompt,
            &config,
            messages,
            context.audio_duration_ms,
        );
        let p = PreparedGeneration {
            start: GenerationStart::ContinueResponse { turn_id: turn.id.clone() },
            response,
            request_info,
            provider_request,
            tool_selection: conversation.tool_selection.clone(),
            new_attachments: Vec::new(),
            continuation_baseline: Some(baseline),
            history_groups: context.history_groups,
            current_message_requirements: context.current,
            history_start_index: context.start_index,
            current_tail_message_count: tail_count,
            assistant_opening_template: opening_template,
            prompt_variables: Vec::new(),
            prompt_context: empty_prompt_context(),
        };
        assert(p.provider_request.messages@ == msgs);
        proof {
            let v = context_result(
                turns@,
                opt_view(turn.parent_response_id),
                turn.user,
                context_policy.history_limit,
                context_policy.user_messages@,
            )->Ok_0;
            assert(message_views(msgs) =~= opening_messages(conversation.assistant_opening@) + (v
                + message_views(previous_response.transcript@)));
            assert(response_resumed(p.response, *previous_response, ids.request_id, ids.now));
            assert(p.wf());
        }
        Ok(p)
    }
}


proof fn lemma_groups_messages_nonneg(groups: Seq<PreparedHistoryGroup>)
    ensures
        groups_messages(groups) >= 0,
    decreases groups.len(),
{
    if groups.len() > 0 {
        lemma_groups_messages_nonneg(groups.drop_last());
    }
}


/// The messages left after the oldest `k` history groups are removed.
pub open spec fn messages_after(messages: Seq<Message>, start: int, groups: Seq<PreparedHistoryGroup>, k: int) -> Seq<Message> {
    messages.take(start) + messages.skip(start + groups_messages(groups.take(k)))
}

/// The audio left after the oldest `k` history groups are removed, at least zero.
pub open spec fn audio_after(audio: u64, groups: Seq<PreparedHistoryGroup>, k: int) -> u64 {
    if audio - groups_audio(groups.take(k)) < 0 {
        0
    } else {
        (audio - groups_audio(groups.take(k))) as u64
    }
}

/// The estimated input tokens after the oldest `k` history groups are removed.
pub open spec fn estimate_after(p: PreparedGeneration, k: int) -> int {
    input_token_estimate(
        p.provider_request.system_prompt@,
        messages_after(p.provider_request.messages@, p.history_start_index as int, p.history_groups@, k),
        audio_after(p.provider_request.audio_duration_ms, p.history_groups@, k),
    )
}

/// How many of the oldest history groups are removed to fit a window of `window` tokens:
/// groups are removed while the estimate exceeds the window and groups remain.
pub open spec fn drop_count(p: PreparedGeneration, window: u32, k: int) -> int
    decreases p.history_groups@.len() - k,
{
    if k >= p.history_groups@.len() || estimate_after(p, k) <= window {
        k
    } else {
        drop_count(p, window, k + 1)
    }
}

/// Whether a group needs what `audio` selects: audio input, or else vision.
pub open spec fn needs(r: InputRequirements, audio: bool) -> bool {
    if audio {
        r.audio
    } else {
        r.vision
    }
}

/// Why a model cannot take the request, for one kind of input.
pub open spec fn requirement_error(
    supported: bool,
    current: InputRequirements,
    groups: Seq<PreparedHistoryGroup>,
    audio: bool,
) -> Option<Seq<char>> {
    let in_current = needs(current, audio);
    let in_history = exists|k: int| 0 <= k < groups.len() && needs((#[trigger] groups[k]).requirements, audio);
    if supported || (!in_current && !in_history) {
        None
    } else {
        Some(
            "The selected model cannot read "@ + (if audio {
                "audio"@
            } else {
                "an image or PDF"@
            }) + " in "@ + (if in_current {
                "the current message"@
            } else {
                "the retained conversation context"@
            }),
        )
    }
}

pub open spec fn context_exceeded_message() -> Seq<char> {
    "Prompt setup and current message exceed the model context window"@
}

pub open spec fn context_exceeded_detail(estimate: int, window: u32) -> Seq<char> {
    "Estimated "@ + crate::text::decimal(estimate as nat) + " input tokens for a configured "@
        + crate::text::decimal(window as nat) + "-token context window"@
}

/// The request context after `k` groups were removed for the context window.
pub open spec fn trimmed_context(c: Option<RequestContextInfo>, remaining: nat, k: int) -> Option<RequestContextInfo> {
    if k == 0 {
        c
    } else {
        match c {
            Some(info) => Some(
                RequestContextInfo {
                    included_history_turns: crate::history::count_u32(remaining),
                    limited_by_context_window: true,
                    ..info
                },
            ),
            None => None,
        }
    }
}

/// The generation after its context was fitted: the oldest `k` groups removed and the
/// estimate brought up to date; the rest unchanged.
pub open spec fn fitted(old: PreparedGeneration, new: PreparedGeneration, k: int) -> bool {
    &&& new.provider_request.messages@ == messages_after(
        old.provider_request.messages@,
        old.history_start_index as int,
        old.history_groups@,
        k,
    )
    &&& new.history_groups@ == old.history_groups@.skip(k)
    &&& new.provider_request.audio_duration_ms == audio_after(
        old.provider_request.audio_duration_ms,
        old.history_groups@,
        k,
    )
    &&& new.request_info.usage == (TokenUsage {
        input_tokens: Some(estimate_after(old, k) as u64),
        estimated: true,
        ..old.request_info.usage
    })
    &&& new.request_info.context == trimmed_context(
        old.request_info.context,
        (old.history_groups@.len() - k) as nat,
        k,
    )
    &&& new.provider_request.provider == old.provider_request.provider
    &&& new.provider_request.model == old.provider_request.model
    &&& new.provider_request.system_prompt == old.provider_request.system_prompt
    &&& new.provider_request.config == old.provider_request.config
    &&& new.request_info.id == old.request_info.id
    &&& new.request_info.kind == old.request_info.kind
    &&& new.request_info.status == old.request_info.status
    &&& new.start == old.start
    &&& new.response == old.response
    &&& new.history_start_index == old.history_start_index
    &&& new.current_tail_message_count == old.current_tail_message_count
    &&& new.current_message_requirements == old.current_message_requirements
    &&& new.wf()
}

proof fn lemma_groups_split(groups: Seq<PreparedHistoryGroup>, k: int)
    requires
        0 <= k <= groups.len(),
    ensures
        groups_messages(groups) == groups_messages(groups.take(k)) + groups_messages(groups.skip(k)),
    decreases groups.len(),
{
    if k == groups.len() {
        assert(groups.take(k) =~= groups);
        assert(groups.skip(k) =~= Seq::<PreparedHistoryGroup>::empty());
    } else {
        lemma_groups_split(groups.drop_last(), k);
        assert(groups.drop_last().take(k) =~= groups.take(k));
        assert(groups.drop_last().skip(k) =~= groups.skip(k).drop_last());
        assert(groups.skip(k).last() == groups.last());
    }
}

impl PreparedGeneration {
    fn refresh_estimate(&mut self)
        ensures
            final(self).request_info.usage == (TokenUsage {
                input_tokens: Some(
                    input_token_estimate(
                        old(self).provider_request.system_prompt@,
                        old(self).provider_request.messages@,
                        old(self).provider_request.audio_duration_ms,
                    ) as u64,
                ),
                estimated: true,
                ..old(self).request_info.usage
            }),
            final(self).request_info.id == old(self).request_info.id,
            final(self).request_info.kind == old(self).request_info.kind,
            final(self).request_info.status == old(self).request_info.status,
            final(self).request_info.context == old(self).request_info.context,
            final(self).provider_request == old(self).provider_request,
            final(self).history_groups == old(self).history_groups,
            final(self).start == old(self).start,
            final(self).response == old(self).response,
            final(self).history_start_index == old(self).history_start_index,
            final(self).current_tail_message_count == old(self).current_tail_message_count,
            final(self).current_message_requirements == old(self).current_message_requirements,
            final(self).assistant_opening_template == old(self).assistant_opening_template,
            final(self).request_info.system_prompt == old(self).request_info.system_prompt,
            final(self).request_info.assistant_opening == old(self).request_info.assistant_opening,
    {
        let tokens = estimate_input_tokens(
            self.provider_request.system_prompt.as_str(),
            &self.provider_request.messages,
            self.provider_request.audio_duration_ms,
        );
        self.request_info.usage.input_tokens = Some(tokens);
        self.request_info.usage.estimated = true;
    }

    fn estimated_input_tokens(&self) -> (r: u64)
        ensures
            r == (match self.request_info.usage.input_tokens {
                Some(t) => t,
                None => 0,
            }),
    {
        match self.request_info.usage.input_tokens {
            Some(t) => t,
            None => 0,
        }
    }

    /// Checks that the model can read what the request carries of one kind of input.
    fn check_input_requirement(&self, supported: bool, audio: bool) -> (r: Result<(), crate::domain::GenerationError>)
        ensures
            match requirement_error(supported, self.current_message_requirements, self.history_groups@, audio) {
                None => r is Ok,
                Some(m) => r matches Err(e) && e.kind == crate::domain::GenerationErrorKind::UnsupportedParameter
                    && e.message@ == m && e.detail is None,
            },
    {
        if supported {
            return Ok(());
        }
        let current = if audio {
            self.current_message_requirements.audio
        } else {
            self.current_message_requirements.vision
        };
        let mut retained = false;
        let mut k: usize = 0;
        while k < self.history_groups.len()
            invariant
                0 <= k <= self.history_groups@.len(),
                retained == exists|j: int| 0 <= j < k && needs((#[trigger] self.history_groups@[j]).requirements, audio),
            decreases self.history_groups.len() - k,
        {
            let r = self.history_groups[k].requirements;
            if (audio && r.audio) || (!audio && r.vision) {
                retained = true;
            }
            k += 1;
        }
        if !current && !retained {
            return Ok(());
        }
        let mut message: Vec<char> = Vec::new();
        crate::text::push_str(&mut message, "The selected model cannot read ");
        if audio {
            crate::text::push_str(&mut message, "audio");
        } else {
            crate::text::push_str(&mut message, "an image or PDF");
        }
        crate::text::push_str(&mut message, " in ");
        if current {
            crate::text::push_str(&mut message, "the current message");
        } else {
            crate::text::push_str(&mut message, "the retained conversation context");
        }
        let ghost m = message@;
        assert(Some(m) == requirement_error(supported, self.current_message_requirements, self.history_groups@, audio));
        Err(
            crate::domain::GenerationError::new(
                crate::domain::GenerationErrorKind::UnsupportedParameter,
                crate::text::string_of(&message),
            ),
        )
    }
}


proof fn lemma_first_group_fits(groups: Seq<PreparedHistoryGroup>)
    requires
        groups.len() > 0,
    ensures
        groups_messages(groups) >= groups[0].message_count,
        groups_messages(groups.take(1)) == groups[0].message_count,
        groups_messages(groups) == groups[0].message_count + groups_messages(groups.skip(1)),
{
    lemma_groups_split(groups, 1);
    let one = groups.take(1);
    assert(one.len() == 1);
    assert(one.drop_last() =~= Seq::<PreparedHistoryGroup>::empty());
    assert(one.last() == groups[0]);
    assert(groups_messages(one) == groups_messages(one.drop_last()) + one.last().message_count);
    lemma_groups_messages_nonneg(groups.skip(1));
}

proof fn lemma_drop_count(p: PreparedGeneration, window: u32, i: int, j: int)
    requires
        0 <= i <= j <= p.history_groups@.len(),
        forall|t: int| i <= t < j ==> estimate_after(p, t) > window,
        j >= p.history_groups@.len() || estimate_after(p, j) <= window,
    ensures
        drop_count(p, window, i) == j,
    decreases j - i,
{
    if i < j {
        lemma_drop_count(p, window, i + 1, j);
    }
}

impl PreparedGeneration {
    /// Removes the oldest history group and its messages.
    fn drop_oldest_group(&mut self)
        requires
            old(self).wf(),
            old(self).history_groups@.len() > 0,
        ensures
            final(self).provider_request.messages@ == old(self).provider_request.messages@.take(
                old(self).history_start_index as int,
            ) + old(self).provider_request.messages@.skip(
                old(self).history_start_index + old(self).history_groups@[0].message_count,
            ),
            final(self).history_groups@ == old(self).history_groups@.skip(1),
            final(self).provider_request.audio_duration_ms == (if old(self).provider_request.audio_duration_ms
                < old(self).history_groups@[0].audio_duration_ms {
                0
            } else {
                old(self).provider_request.audio_duration_ms - old(self).history_groups@[0].audio_duration_ms
            }),
            final(self).request_info.context == (match old(self).request_info.context {
                Some(info) => Some(
                    RequestContextInfo {
                        included_history_turns: crate::history::count_u32(
                            (old(self).history_groups@.len() - 1) as nat,
                        ),
                        limited_by_context_window: true,
                        ..info
                    },
                ),
                None => None,
            }),
            final(self).request_info.usage == old(self).request_info.usage,
            final(self).request_info.id == old(self).request_info.id,
            final(self).request_info.kind == old(self).request_info.kind,
            final(self).request_info.status == old(self).request_info.status,
            final(self).provider_request.provider == old(self).provider_request.provider,
            final(self).provider_request.model == old(self).provider_request.model,
            final(self).provider_request.system_prompt == old(self).provider_request.system_prompt,
            final(self).provider_request.config == old(self).provider_request.config,
            final(self).start == old(self).start,
            final(self).response == old(self).response,
            final(self).history_start_index == old(self).history_start_index,
            final(self).current_tail_message_count == old(self).current_tail_message_count,
            final(self).current_message_requirements == old(self).current_message_requirements,
            final(self).wf(),
    {
        let ghost g = self.history_groups@;
        let ghost m = self.provider_request.messages@;
        proof {
            lemma_first_group_fits(g);
            lemma_groups_split(g, 1);
            assert(g.take(1).drop_last() =~= Seq::<PreparedHistoryGroup>::empty());
            lemma_groups_messages_nonneg(g.skip(1));
        }
        let group = self.history_groups.remove(0);
        assert(self.history_groups@ =~= g.skip(1));
        let start = self.history_start_index;
        let mut tail = self.provider_request.messages.split_off(start);
        let rest_len = tail.len();
        assert(group.message_count <= rest_len);
        let mut rest = tail.split_off(group.message_count);
        self.provider_request.messages.append(&mut rest);
        assert(self.provider_request.messages@ =~= m.take(start as int) + m.skip(start + group.message_count));
        self.provider_request.audio_duration_ms = self.provider_request.audio_duration_ms.saturating_sub(
            group.audio_duration_ms,
        );
        match self.request_info.context {
            Some(info) => {
                self.request_info.context = Some(
                    RequestContextInfo {
                        included_history_turns: turn_count(self.history_groups.len()),
                        limited_by_context_window: true,
                        ..info
                    },
                );
            },
            None => {},
        }
    }
}


proof fn lemma_take_next(groups: Seq<PreparedHistoryGroup>, j: int)
    requires
        0 <= j < groups.len(),
    ensures
        groups_messages(groups.take(j + 1)) == groups_messages(groups.take(j)) + groups[j].message_count,
        groups_audio(groups.take(j + 1)) == groups_audio(groups.take(j)) + groups[j].audio_duration_ms,
{
    let next = groups.take(j + 1);
    assert(next.drop_last() =~= groups.take(j));
    assert(next.last() == groups[j]);
}

/// Removing the oldest remaining group moves the state from `j` removed groups to `j + 1`.
proof fn lemma_fit_step(p: PreparedGeneration, j: int, messages: Seq<Message>)
    requires
        p.wf(),
        0 <= j < p.history_groups@.len(),
        messages == messages_after(
            p.provider_request.messages@,
            p.history_start_index as int,
            p.history_groups@,
            j,
        ),
    ensures
        messages.take(p.history_start_index as int) + messages.skip(
            p.history_start_index + p.history_groups@.skip(j)[0].message_count,
        ) == messages_after(
            p.provider_request.messages@,
            p.history_start_index as int,
            p.history_groups@,
            j + 1,
        ),
        p.history_groups@.skip(j).skip(1) == p.history_groups@.skip(j + 1),
{
    let g = p.history_groups@;
    let m = p.provider_request.messages@;
    let st = p.history_start_index as int;
    lemma_groups_split(g, j);
    lemma_groups_split(g, j + 1);
    lemma_groups_messages_nonneg(g.take(j));
    lemma_groups_messages_nonneg(g.skip(j));
    lemma_groups_messages_nonneg(g.skip(j + 1));
    lemma_take_next(g, j);
    assert(g.skip(j)[0] == g[j]);
    let pj = groups_messages(g.take(j));
    assert(st + pj <= m.len());
    assert(messages.take(st) =~= m.take(st));
    assert(messages.skip(st + g[j].message_count) =~= m.skip(st + pj + g[j].message_count));
    assert(g.skip(j).skip(1) =~= g.skip(j + 1));
}

impl PreparedGeneration {
    /// Fits the request into the model's context window and checks that the model can read
    /// what it carries. While the estimate exceeds the window, the oldest history turn is
    /// removed; when even the setup and the current message do not fit, or the model cannot
    /// read an image, PDF or audio the request carries, the request is refused.
    pub fn finalize_context(&mut self) -> (r: Result<(), crate::domain::GenerationError>)
        requires
            old(self).wf(),
        ensures
            match old(self).provider_request.model.context_window_tokens {
                Some(w) => {
                    let k = drop_count(*old(self), w, 0);
                    &&& fitted(*old(self), *final(self), k)
                    &&& if estimate_after(*old(self), k) > w {
                        r matches Err(e) && e.kind == crate::domain::GenerationErrorKind::ContextLengthExceeded
                            && e.message@ == context_exceeded_message() && e.detail == Some(
                            e.detail->Some_0,
                        ) && e.detail->Some_0@ == context_exceeded_detail(estimate_after(*old(self), k), w)
                    } else {
                        requirements_checked(*final(self), r)
                    }
                },
                None => fitted(*old(self), *final(self), 0) && requirements_checked(*final(self), r),
            },
    {
        let ghost p0 = *self;
        proof {
            assert(p0.history_groups@.take(0) =~= Seq::<PreparedHistoryGroup>::empty());
            assert(groups_messages(p0.history_groups@.take(0)) == 0);
            lemma_groups_messages_nonneg(p0.history_groups@);
            assert(p0.provider_request.messages@.take(p0.history_start_index as int) + p0.provider_request.messages@.skip(
                p0.history_start_index + groups_messages(p0.history_groups@.take(0)),
            ) =~= p0.provider_request.messages@);
            assert(p0.history_groups@.skip(0) =~= p0.history_groups@);
        }
        self.refresh_estimate();
        match self.provider_request.model.context_window_tokens {
            Some(window) => {
                self.trim_to_window(window, Ghost(p0));
                proof {
                    let k = drop_count(p0, window, 0);
                    lemma_estimate_range(
                        p0.provider_request.system_prompt@,
                        messages_after(p0.provider_request.messages@, p0.history_start_index as int, p0.history_groups@, k),
                        audio_after(p0.provider_request.audio_duration_ms, p0.history_groups@, k),
                    );
                }
                let estimate = self.estimated_input_tokens();
                if estimate > window as u64 {
                    return Err(context_exceeded(estimate, window));
                }
            },
            None => {},
        }
        self.check_requirements()
    }

    fn check_requirements(&self) -> (r: Result<(), crate::domain::GenerationError>)
        ensures
            requirements_checked(*self, r),
    {
        let vision = self.provider_request.model.capabilities.vision;
        let audio = self.provider_request.model.capabilities.audio_input;
        match self.check_input_requirement(vision, false) {
            Ok(()) => {},
            Err(e) => {
                return Err(e);
            },
        }
        self.check_input_requirement(audio, true)
    }
}

fn context_exceeded(estimate: u64, window: u32) -> (r: crate::domain::GenerationError)
    ensures
        r.kind == crate::domain::GenerationErrorKind::ContextLengthExceeded,
        r.message@ == context_exceeded_message(),
        r.detail == Some(r.detail->Some_0),
        r.detail->Some_0@ == context_exceeded_detail(estimate as int, window),
{
    let mut detail: Vec<char> = Vec::new();
    crate::text::push_str(&mut detail, "Estimated ");
    let digits = crate::text::u64_decimal(estimate);
    crate::text::push_all(&mut detail, &digits);
    crate::text::push_str(&mut detail, " input tokens for a configured ");
    let window_digits = crate::text::u64_decimal(window as u64);
    crate::text::push_all(&mut detail, &window_digits);
    crate::text::push_str(&mut detail, "-token context window");
    assert(detail@ =~= context_exceeded_detail(estimate as int, window));
    crate::domain::GenerationError::new(
        crate::domain::GenerationErrorKind::ContextLengthExceeded,
        String::from_str("Prompt setup and current message exceed the model context window"),
    ).with_detail(crate::text::string_of(&detail))
}

/// The result of the input checks of a fitted request: the first kind of input the model
/// cannot read, images and PDFs before audio, refuses it.
pub open spec fn requirements_checked(p: PreparedGeneration, r: Result<(), crate::domain::GenerationError>) -> bool {
    let caps = p.provider_request.model.capabilities;
    match requirement_error(caps.vision, p.current_message_requirements, p.history_groups@, false) {
        Some(m) => r matches Err(e) && e.kind == crate::domain::GenerationErrorKind::UnsupportedParameter
            && e.message@ == m && e.detail is None,
        None => match requirement_error(caps.audio_input, p.current_message_requirements, p.history_groups@, true) {
            Some(m) => r matches Err(e) && e.kind == crate::domain::GenerationErrorKind::UnsupportedParameter
                && e.message@ == m && e.detail is None,
            None => r is Ok,
        },
    }
}


impl PreparedGeneration {
    /// Removes the oldest history groups while the estimate exceeds `window`.
    fn trim_to_window(&mut self, window: u32, Ghost(p0): Ghost<PreparedGeneration>)
        requires
            p0.wf(),
            fitted(p0, *old(self), 0),
        ensures
            fitted(p0, *final(self), drop_count(p0, window, 0)),
    {
        let ghost mut j: int = 0;
        proof {
            lemma_estimate_range(
                p0.provider_request.system_prompt@,
                messages_after(p0.provider_request.messages@, p0.history_start_index as int, p0.history_groups@, 0),
                audio_after(p0.provider_request.audio_duration_ms, p0.history_groups@, 0),
            );
        }
        while self.estimated_input_tokens() > window as u64 && self.history_groups.len() > 0
            invariant
                0 <= j <= p0.history_groups@.len(),
                p0.wf(),
                fitted(p0, *self, j),
                0 <= estimate_after(p0, j) <= u64::MAX,
                forall|t: int| 0 <= t < j ==> estimate_after(p0, t) > window,
            ensures
                0 <= j <= p0.history_groups@.len(),
                fitted(p0, *self, j),
                forall|t: int| 0 <= t < j ==> estimate_after(p0, t) > window,
                j >= p0.history_groups@.len() || estimate_after(p0, j) <= window,
            decreases self.history_groups@.len(),
        {
            proof {
                assert(estimate_after(p0, j) > window);
                lemma_fit_step(p0, j, self.provider_request.messages@);
                lemma_take_next(p0.history_groups@, j);
                lemma_groups_audio_nonneg(p0.history_groups@.take(j));
                assert(self.history_groups@[0] == p0.history_groups@[j]);
            }
            self.drop_oldest_group();
            self.refresh_estimate();
            proof {
                j = j + 1;
                lemma_estimate_range(
                    p0.provider_request.system_prompt@,
                    messages_after(p0.provider_request.messages@, p0.history_start_index as int, p0.history_groups@, j),
                    audio_after(p0.provider_request.audio_duration_ms, p0.history_groups@, j),
                );
            }
        }
        proof {
            lemma_drop_count(p0, window, 0, j);
        }
    }
}


/// A request is refused for the context window only once every history turn was removed:
/// while history remains, removal stops as soon as the estimate fits.
pub proof fn lemma_refusal_only_without_history(p: PreparedGeneration, window: u32)
    ensures
        0 <= drop_count(p, window, 0) <= p.history_groups@.len(),
        estimate_after(p, drop_count(p, window, 0)) > window ==> drop_count(p, window, 0)
            == p.history_groups@.len(),
{
    lemma_drop_count_bounds(p, window, 0);
}

proof fn lemma_drop_count_bounds(p: PreparedGeneration, window: u32, k: int)
    requires
        0 <= k <= p.history_groups@.len(),
    ensures
        k <= drop_count(p, window, k) <= p.history_groups@.len(),
        estimate_after(p, drop_count(p, window, k)) > window ==> drop_count(p, window, k)
            == p.history_groups@.len(),
    decreases p.history_groups@.len() - k,
{
    if k < p.history_groups@.len() && estimate_after(p, k) > window {
        lemma_drop_count_bounds(p, window, k + 1);
    }
}

/// Fitting a request into the context window removes whole history turns only: the opening
/// before them and the current message after them are kept as they were.
pub proof fn lemma_fitting_keeps_opening_and_tail(p: PreparedGeneration, k: int)
    requires
        p.wf(),
        0 <= k <= p.history_groups@.len(),
    ensures
        ({
            let m = p.provider_request.messages@;
            let kept = messages_after(m, p.history_start_index as int, p.history_groups@, k);
            &&& kept.take(p.history_start_index as int) == m.take(p.history_start_index as int)
            &&& kept.skip(kept.len() - p.current_tail_message_count)
                == m.skip(m.len() - p.current_tail_message_count)
            &&& kept.len() == m.len() - groups_messages(p.history_groups@.take(k))
        }),
{
    let g = p.history_groups@;
    let m = p.provider_request.messages@;
    let st = p.history_start_index as int;
    lemma_groups_split(g, k);
    lemma_groups_messages_nonneg(g.take(k));
    lemma_groups_messages_nonneg(g.skip(k));
    let kept = messages_after(m, st, g, k);
    let pk = groups_messages(g.take(k));
    assert(st + pk <= m.len());
    assert(kept.take(st) =~= m.take(st));
    let tc = p.current_tail_message_count as int;
    assert(kept.skip(kept.len() - tc) =~= m.skip(m.len() - tc));
}

} // verus!
