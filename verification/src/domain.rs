//! The conversation model: conversations, turns, responses, requests and the events that
//! a provider stream delivers.
use vstd::prelude::*;
use crate::text::{chars_of, push_all, push_str, string_of, u64_decimal, decimal};

verus! {

/// Seconds since the Unix epoch.
pub type Timestamp = i64;

#[derive(Clone, Copy, Debug, PartialEq, Eq, Structural)]
pub enum MessageStatus {
    Pending,
    Streaming,
    Completed,
    Stopped,
    Failed,
    Interrupted,
}

pub open spec fn message_status_text(s: MessageStatus) -> Seq<char> {
    match s {
        MessageStatus::Pending => "pending"@,
        MessageStatus::Streaming => "streaming"@,
        MessageStatus::Completed => "completed"@,
        MessageStatus::Stopped => "stopped"@,
        MessageStatus::Failed => "failed"@,
        MessageStatus::Interrupted => "interrupted"@,
    }
}

impl MessageStatus {
    /// The stored name of the status.
    pub fn as_str(&self) -> (r: &'static str)
        ensures
            r@ == message_status_text(*self),
    {
        match self {
            MessageStatus::Pending => "pending",
            MessageStatus::Streaming => "streaming",
            MessageStatus::Completed => "completed",
            MessageStatus::Stopped => "stopped",
            MessageStatus::Failed => "failed",
            MessageStatus::Interrupted => "interrupted",
        }
    }
}

#[derive(Clone, Copy, Debug, PartialEq, Eq, Structural)]
pub enum RequestStatus {
    Sending,
    Streaming,
    Completed,
    Stopped,
    Failed,
    Interrupted,
}

pub open spec fn request_status_text(s: RequestStatus) -> Seq<char> {
    match s {
        RequestStatus::Sending => "sending"@,
        RequestStatus::Streaming => "streaming"@,
        RequestStatus::Completed => "completed"@,
        RequestStatus::Stopped => "stopped"@,
        RequestStatus::Failed => "failed"@,
        RequestStatus::Interrupted => "interrupted"@,
    }
}

impl RequestStatus {
    /// The stored name of the status.
    pub fn as_str(&self) -> (r: &'static str)
        ensures
            r@ == request_status_text(*self),
    {
        match self {
            RequestStatus::Sending => "sending",
            RequestStatus::Streaming => "streaming",
            RequestStatus::Completed => "completed",
            RequestStatus::Stopped => "stopped",
            RequestStatus::Failed => "failed",
            RequestStatus::Interrupted => "interrupted",
        }
    }
}

#[derive(Clone, Copy, Debug, PartialEq, Eq, Structural)]
pub enum MessageRole {
    User,
    Assistant,
}

/// An image inside a provider message, described by what the estimate needs.
#[derive(Clone, Copy, Debug, PartialEq, Eq, Structural)]
pub struct ImageInput {
    pub width: u32,
    pub height: u32,
    pub dimensions_known: bool,
    pub low_detail: bool,
}

/// A message as it is sent to a provider.
#[derive(Debug)]
pub struct Message {
    pub role: MessageRole,
    pub text: String,
    pub reasoning: String,
    pub images: Vec<ImageInput>,
}

/// Mathematical model of a [`Message`].
pub struct MessageView {
    pub role: MessageRole,
    pub text: Seq<char>,
    pub reasoning: Seq<char>,
    pub images: Seq<ImageInput>,
}

impl View for Message {
    type V = MessageView;

    open spec fn view(&self) -> MessageView {
        MessageView {
            role: self.role,
            text: self.text@,
            reasoning: self.reasoning@,
            images: self.images@,
        }
    }
}

/// The models of a list of messages.
pub open spec fn message_views(v: Seq<Message>) -> Seq<MessageView> {
    v.map_values(|m: Message| m@)
}

impl Clone for Message {
    fn clone(&self) -> (r: Self)
        ensures
            r@ == self@,
    {
        let images = self.images.clone();
        proof {
            assert forall|i: int| 0 <= i < self.images@.len() implies images@[i] == self.images@[i] by {
                assert(cloned::<ImageInput>(self.images[i], images[i]));
            }
            assert(images@ =~= self.images@);
        }
        Message {
            role: self.role,
            text: self.text.clone(),
            reasoning: self.reasoning.clone(),
            images,
        }
    }
}

impl Message {
    /// A user message holding plain text.
    pub fn user(text: String) -> (r: Message)
        ensures
            r.role == MessageRole::User,
            r.text == text,
            r.reasoning@ == Seq::<char>::empty(),
            r.images@.len() == 0,
    {
        Message { role: MessageRole::User, text, reasoning: String::new(), images: Vec::new() }
    }

    /// An assistant message holding plain text.
    pub fn assistant(text: String) -> (r: Message)
        ensures
            r.role == MessageRole::Assistant,
            r.text == text,
            r.reasoning@ == Seq::<char>::empty(),
            r.images@.len() == 0,
    {
        Message {
            role: MessageRole::Assistant,
            text,
            reasoning: String::new(),
            images: Vec::new(),
        }
    }
}

/// A copy of a list of messages.
pub fn clone_messages(v: &Vec<Message>) -> (r: Vec<Message>)
    ensures
        message_views(r@) == message_views(v@),
{
    let r = v.clone();
    proof {
        assert forall|i: int| 0 <= i < v.len() implies r@[i]@ == v@[i]@ by {
            assert(cloned::<Message>(v[i], r[i]));
        }
        assert(message_views(r@) =~= message_views(v@));
    }
    r
}

/// The text of a continued assistant message is added to the last assistant message of a
/// transcript, or the message is added when the transcript does not end with one.
/// Merges a continued assistant message into a transcript.
pub fn continue_last_assistant(transcript: &mut Vec<Message>, message: Message)
    ensures
        old(transcript)@.len() > 0 && old(transcript)@.last().role == MessageRole::Assistant
            ==> {
            &&& final(transcript)@.len() == old(transcript)@.len()
            &&& final(transcript)@.drop_last() == old(transcript)@.drop_last()
            &&& final(transcript)@.last().role == MessageRole::Assistant
            &&& final(transcript)@.last().text@ == old(transcript)@.last().text@ + message.text@
            &&& final(transcript)@.last().reasoning@ == old(transcript)@.last().reasoning@
                + message.reasoning@
            &&& final(transcript)@.last().images@ == old(transcript)@.last().images@
                + message.images@
        },
        !(old(transcript)@.len() > 0 && old(transcript)@.last().role == MessageRole::Assistant)
            ==> final(transcript)@ == old(transcript)@.push(message),
{
    let n = transcript.len();
    if n > 0 && transcript[n - 1].role == MessageRole::Assistant {
        let mut last = transcript.pop().unwrap();
        let mut text = chars_of(last.text.as_str());
        let extra = chars_of(message.text.as_str());
        push_all(&mut text, &extra);
        let mut reasoning = chars_of(last.reasoning.as_str());
        let extra_reasoning = chars_of(message.reasoning.as_str());
        push_all(&mut reasoning, &extra_reasoning);
        let mut images = message.images;
        let ghost added = images@;
        let mut all_images = last.images;
        all_images.append(&mut images);
        last = Message {
            role: MessageRole::Assistant,
            text: string_of(&text),
            reasoning: string_of(&reasoning),
            images: all_images,
        };
        transcript.push(last);
        proof {
            assert(final(transcript)@.drop_last() =~= old(transcript)@.drop_last());
        }
    } else {
        transcript.push(message);
    }
}

#[derive(Clone, Copy, Debug, PartialEq, Eq, Structural)]
pub enum AttachmentKind {
    Text,
    Image,
    Pdf,
    Audio,
    Document,
}

impl AttachmentKind {
    /// Images and PDF pages are sent as images.
    pub open spec fn spec_requires_vision(self) -> bool {
        self == AttachmentKind::Image || self == AttachmentKind::Pdf
    }

    pub fn requires_vision(&self) -> (r: bool)
        ensures
            r == self.spec_requires_vision(),
    {
        match self {
            AttachmentKind::Image | AttachmentKind::Pdf => true,
            _ => false,
        }
    }

    pub open spec fn spec_requires_audio(self) -> bool {
        self == AttachmentKind::Audio
    }

    pub fn requires_audio(&self) -> (r: bool)
        ensures
            r == self.spec_requires_audio(),
    {
        match self {
            AttachmentKind::Audio => true,
            _ => false,
        }
    }
}

#[derive(Clone, Copy, Debug, PartialEq, Eq, Structural)]
pub enum AttachmentFileKind {
    Text,
    Image,
    Audio,
}

#[derive(Clone, Copy, Debug, PartialEq, Eq, Structural)]
pub enum AudioAttachmentSource {
    Upload,
    Voice,
}

#[derive(Clone, Copy, Debug, PartialEq, Eq, Structural)]
pub struct AudioAttachmentMetadata {
    pub duration_ms: u64,
    pub source: AudioAttachmentSource,
}

/// A stored file of an attachment.
#[derive(Clone, Debug)]
pub struct AttachmentFile {
    pub name: String,
    pub kind: AttachmentFileKind,
    pub path: String,
    pub media_type: String,
}

/// A stored attachment of a user message.
#[derive(Clone, Debug)]
pub struct Attachment {
    pub id: String,
    pub name: String,
    pub kind: AttachmentKind,
    pub files: Vec<AttachmentFile>,
    pub audio: Option<AudioAttachmentMetadata>,
}

/// A file of an attachment that has not been stored yet.
#[derive(Clone, Debug)]
pub struct AttachmentDraftFile {
    pub name: String,
    pub kind: AttachmentFileKind,
    pub media_type: String,
    pub bytes: Vec<u8>,
}

/// An attachment that has been read and checked but not stored yet.
#[derive(Clone, Debug)]
pub struct AttachmentDraft {
    pub id: String,
    pub name: String,
    pub kind: AttachmentKind,
    pub files: Vec<AttachmentDraftFile>,
    pub audio: Option<AudioAttachmentMetadata>,
}

/// A message written by the user.
#[derive(Clone, Debug)]
pub struct UserMessage {
    pub id: String,
    pub content: String,
    pub attachments: Vec<Attachment>,
    pub created_at: Timestamp,
    pub updated_at: Timestamp,
}

#[derive(Clone, Copy, Debug, PartialEq, Eq, Structural)]
pub enum ToolExecutionStatus {
    Pending,
    Running,
    Completed,
    Failed,
    Stopped,
}

/// One call of an MCP tool during a response.
#[derive(Debug)]
pub struct ToolExecution {
    pub id: String,
    pub provider_call_id: Option<String>,
    pub server_id: String,
    pub tool_name: String,
    pub arguments: String,
    pub status: ToolExecutionStatus,
    pub result: Option<String>,
    pub error: Option<String>,
    pub started_at: Option<Timestamp>,
    pub finished_at: Option<Timestamp>,
    pub duration_ms: Option<u64>,
}

/// A span of reasoning text; open while `finished_ms` is `None`.
#[derive(Debug)]
pub struct ReasoningBlock {
    pub id: String,
    pub provider_id: Option<String>,
    pub text: String,
    pub started_ms: u64,
    pub finished_ms: Option<u64>,
}

/// An assistant response to a user message.
#[derive(Debug)]
pub struct AssistantResponse {
    pub id: String,
    pub model_id: String,
    pub model_name: String,
    pub provider_id: String,
    pub provider_name: String,
    pub request_id: Option<String>,
    pub status: MessageStatus,
    pub content: String,
    pub thinking: String,
    pub blocks: Vec<ReasoningBlock>,
    pub transcript: Vec<Message>,
    pub tool_executions: Vec<ToolExecution>,
    pub created_at: Timestamp,
    pub updated_at: Timestamp,
}

/// The identifier of the `index`-th reasoning block of a response.
pub open spec fn reasoning_block_id(response_id: Seq<char>, index: nat) -> Seq<char> {
    response_id + "-reasoning-"@ + decimal(index)
}

/// Whether the last reasoning block is still open.
pub open spec fn open_reasoning(blocks: Seq<ReasoningBlock>) -> bool {
    blocks.len() > 0 && blocks.last().finished_ms is None
}

/// The blocks after the open one has been closed at `elapsed`.
pub open spec fn closed_blocks(blocks: Seq<ReasoningBlock>, elapsed: u64) -> Seq<ReasoningBlock> {
    if open_reasoning(blocks) {
        blocks.update(
            blocks.len() - 1,
            ReasoningBlock { finished_ms: Some(elapsed), ..blocks.last() },
        )
    } else {
        blocks
    }
}

/// The identifier returned when the open block is closed.
pub open spec fn closed_id(blocks: Seq<ReasoningBlock>) -> Option<Seq<char>> {
    if open_reasoning(blocks) {
        Some(blocks.last().id@)
    } else {
        None
    }
}

pub open spec fn opt_view(o: Option<String>) -> Option<Seq<char>> {
    match o {
        Some(s) => Some(s@),
        None => None,
    }
}

/// The index of the first tool execution at or after `k` with the given identifier.
pub open spec fn index_from(executions: Seq<ToolExecution>, id: Seq<char>, k: int) -> Option<int>
    decreases executions.len() - k,
{
    if k < 0 || k >= executions.len() {
        None
    } else if executions[k].id@ == id {
        Some(k)
    } else {
        index_from(executions, id, k + 1)
    }
}

/// The index of the first tool execution with the given identifier.
pub open spec fn execution_index(executions: Seq<ToolExecution>, id: Seq<char>) -> Option<int> {
    index_from(executions, id, 0)
}

fn clone_opt_string(o: &Option<String>) -> (r: Option<String>)
    ensures
        r == *o,
{
    match o {
        Some(s) => Some(s.clone()),
        None => None,
    }
}

fn opt_string_eq(a: &Option<String>, b: &Option<String>) -> (r: bool)
    ensures
        r == (opt_view(*a) == opt_view(*b)),
{
    match a {
        Some(x) => match b {
            Some(y) => {
                let e = *x == *y;
                e
            },
            None => false,
        },
        None => b.is_none(),
    }
}

fn append_string(s: &String, extra: &String) -> (r: String)
    ensures
        r@ == s@ + extra@,
{
    let mut v = chars_of(s.as_str());
    let e = chars_of(extra.as_str());
    push_all(&mut v, &e);
    string_of(&v)
}

/// The parts of a response that none of the streaming updates touch.
pub open spec fn same_identity(a0: AssistantResponse, a1: AssistantResponse) -> bool {
    &&& a1.id == a0.id
    &&& a1.model_id == a0.model_id
    &&& a1.model_name == a0.model_name
    &&& a1.provider_id == a0.provider_id
    &&& a1.provider_name == a0.provider_name
    &&& a1.request_id == a0.request_id
    &&& a1.created_at == a0.created_at
    &&& a1.status == a0.status
}

/// The open reasoning block was closed at `elapsed`; nothing else changed.
pub open spec fn reasoning_closed(a0: AssistantResponse, a1: AssistantResponse, elapsed: u64) -> bool {
    &&& same_identity(a0, a1)
    &&& a1.blocks@ == closed_blocks(a0.blocks@, elapsed)
    &&& a1.content == a0.content
    &&& a1.thinking == a0.thinking
    &&& a1.transcript == a0.transcript
    &&& a1.tool_executions == a0.tool_executions
}

/// Output text was appended after closing open reasoning.
pub open spec fn output_appended(
    a0: AssistantResponse,
    a1: AssistantResponse,
    delta: Seq<char>,
    elapsed: u64,
) -> bool {
    &&& same_identity(a0, a1)
    &&& a1.blocks@ == closed_blocks(a0.blocks@, elapsed)
    &&& a1.content@ == a0.content@ + delta
    &&& a1.thinking == a0.thinking
    &&& a1.transcript == a0.transcript
    &&& a1.tool_executions == a0.tool_executions
}

/// Whether reasoning from `provider_id` continues the open block.
pub open spec fn continues_open_block(a0: AssistantResponse, provider_id: Option<String>) -> bool {
    open_reasoning(a0.blocks@) && opt_view(a0.blocks@.last().provider_id) == opt_view(provider_id)
}

/// The block identifier that appending reasoning reports as finished.
pub open spec fn reasoning_closed_id(a0: AssistantResponse, provider_id: Option<String>) -> Option<
    Seq<char>,
> {
    if continues_open_block(a0, provider_id) {
        None
    } else {
        closed_id(a0.blocks@)
    }
}

/// Reasoning text was appended: to the open block when it continues it, else to a new block
/// started at `elapsed` after the open one was closed.
pub open spec fn reasoning_appended(
    a0: AssistantResponse,
    a1: AssistantResponse,
    provider_id: Option<String>,
    delta: Seq<char>,
    elapsed: u64,
) -> bool {
    &&& same_identity(a0, a1)
    &&& a1.thinking@ == a0.thinking@ + delta
    &&& a1.content == a0.content
    &&& a1.transcript == a0.transcript
    &&& a1.tool_executions == a0.tool_executions
    &&& if continues_open_block(a0, provider_id) {
        &&& a1.blocks@.len() == a0.blocks@.len()
        &&& a1.blocks@.drop_last() == a0.blocks@.drop_last()
        &&& a1.blocks@.last().text@ == a0.blocks@.last().text@ + delta
        &&& a1.blocks@.last().id == a0.blocks@.last().id
        &&& a1.blocks@.last().provider_id == a0.blocks@.last().provider_id
        &&& a1.blocks@.last().started_ms == a0.blocks@.last().started_ms
        &&& a1.blocks@.last().finished_ms is None
    } else {
        &&& a1.blocks@.drop_last() == closed_blocks(a0.blocks@, elapsed)
        &&& a1.blocks@.len() == a0.blocks@.len() + 1
        &&& a1.blocks@.last().id@ == reasoning_block_id(a0.id@, a0.blocks@.len() + 1)
        &&& a1.blocks@.last().text@ == delta
        &&& a1.blocks@.last().provider_id == provider_id
        &&& a1.blocks@.last().started_ms == elapsed
        &&& a1.blocks@.last().finished_ms is None
    }
}

/// The provider's identifier of a tool call was recorded on the first execution with the
/// internal identifier, after closing open reasoning.
pub open spec fn tool_call_observed(
    a0: AssistantResponse,
    a1: AssistantResponse,
    internal_call_id: Seq<char>,
    provider_tool_call_id: Option<String>,
    elapsed: u64,
) -> bool {
    &&& same_identity(a0, a1)
    &&& a1.blocks@ == closed_blocks(a0.blocks@, elapsed)
    &&& a1.content == a0.content
    &&& a1.thinking == a0.thinking
    &&& a1.transcript == a0.transcript
    &&& match execution_index(a0.tool_executions@, internal_call_id) {
        None => a1.tool_executions == a0.tool_executions,
        Some(i) => a1.tool_executions@ == a0.tool_executions@.update(
            i,
            ToolExecution { provider_call_id: provider_tool_call_id, ..a0.tool_executions@[i] },
        ),
    }
}

/// The execution replaced the first one with its identifier, or was added, after closing open
/// reasoning.
pub open spec fn execution_upserted(
    a0: AssistantResponse,
    a1: AssistantResponse,
    execution: ToolExecution,
    elapsed: u64,
) -> bool {
    &&& same_identity(a0, a1)
    &&& a1.blocks@ == closed_blocks(a0.blocks@, elapsed)
    &&& a1.content == a0.content
    &&& a1.thinking == a0.thinking
    &&& a1.transcript == a0.transcript
    &&& match execution_index(a0.tool_executions@, execution.id@) {
        Some(i) => a1.tool_executions@ == a0.tool_executions@.update(i, execution),
        None => a1.tool_executions@ == a0.tool_executions@.push(execution),
    }
}

impl AssistantResponse {
    /// Closes the open reasoning block, if there is one, and returns its identifier.
    pub fn finish_reasoning(&mut self, elapsed_ms: u64) -> (r: Option<String>)
        ensures
            reasoning_closed(*old(self), *final(self), elapsed_ms),
            opt_view(r) == closed_id(old(self).blocks@),
            final(self).updated_at == old(self).updated_at,
    {
        let n = self.blocks.len();
        if n > 0 && self.blocks[n - 1].finished_ms.is_none() {
            let mut block = self.blocks.pop().unwrap();
            block.finished_ms = Some(elapsed_ms);
            let id = block.id.clone();
            self.blocks.push(block);
            proof {
                assert(self.blocks@ =~= closed_blocks(old(self).blocks@, elapsed_ms));
            }
            Some(id)
        } else {
            None
        }
    }

    /// Appends visible output; reasoning that was open is closed first.
    pub fn append_output(&mut self, delta: &String, elapsed_ms: u64) -> (r: Option<String>)
        ensures
            output_appended(*old(self), *final(self), delta@, elapsed_ms),
            opt_view(r) == closed_id(old(self).blocks@),
            final(self).updated_at == old(self).updated_at,
    {
        let finished = self.finish_reasoning(elapsed_ms);
        self.content = append_string(&self.content, delta);
        finished
    }

    /// Appends reasoning text. It continues the open block when that block came from the same
    /// provider item; otherwise the open block is closed and a new one is started.
    pub fn append_reasoning(
        &mut self,
        provider_id: Option<String>,
        delta: &String,
        elapsed_ms: u64,
    ) -> (r: Option<String>)
        requires
            old(self).blocks@.len() < u64::MAX,
        ensures
            reasoning_appended(*old(self), *final(self), provider_id, delta@, elapsed_ms),
            opt_view(r) == reasoning_closed_id(*old(self), provider_id),
            final(self).updated_at == old(self).updated_at,
    {
        self.thinking = append_string(&self.thinking, delta);
        let n = self.blocks.len();
        if n > 0 && self.blocks[n - 1].finished_ms.is_none() && opt_string_eq(
            &self.blocks[n - 1].provider_id,
            &provider_id,
        ) {
            let mut block = self.blocks.pop().unwrap();
            block.text = append_string(&block.text, delta);
            self.blocks.push(block);
            proof {
                assert(self.blocks@.drop_last() =~= old(self).blocks@.drop_last());
            }
            None
        } else {
            let finished = self.finish_reasoning(elapsed_ms);
            let mut id = chars_of(self.id.as_str());
            push_str(&mut id, "-reasoning-");
            let number = u64_decimal(n as u64 + 1);
            push_all(&mut id, &number);
            let block = ReasoningBlock {
                id: string_of(&id),
                provider_id,
                text: delta.clone(),
                started_ms: elapsed_ms,
                finished_ms: None,
            };
            let ghost before = self.blocks@;
            self.blocks.push(block);
            proof {
                assert(self.blocks@.drop_last() =~= before);
            }
            finished
        }
    }

    /// Records the provider's identifier of a tool call and closes open reasoning.
    pub fn observe_tool_call(
        &mut self,
        internal_call_id: &String,
        provider_tool_call_id: Option<String>,
        elapsed_ms: u64,
    ) -> (r: Option<String>)
        ensures
            tool_call_observed(
                *old(self),
                *final(self),
                internal_call_id@,
                provider_tool_call_id,
                elapsed_ms,
            ),
            opt_view(r) == closed_id(old(self).blocks@),
            final(self).updated_at == old(self).updated_at,
    {
        let finished = self.finish_reasoning(elapsed_ms);
        let ghost mid = *self;
        let mut i: usize = 0;
        let n = self.tool_executions.len();
        while i < n
            invariant
                0 <= i <= n,
                n == self.tool_executions@.len(),
                *self == mid,
                reasoning_closed(*old(self), mid, elapsed_ms),
                mid.updated_at == old(self).updated_at,
                opt_view(finished) == closed_id(old(self).blocks@),
                execution_index(old(self).tool_executions@, internal_call_id@) == index_from(
                    old(self).tool_executions@,
                    internal_call_id@,
                    i as int,
                ),
            decreases n - i,
        {
            if self.tool_executions[i].id == *internal_call_id {
                let ghost before = self.tool_executions@;
                let mut execution = self.tool_executions.remove(i);
                execution.provider_call_id = provider_tool_call_id;
                self.tool_executions.insert(i, execution);
                proof {
                    assert(self.tool_executions@ =~= before.update(i as int, execution));
                }
                return finished;
            }
            i += 1;
        }
        finished
    }

    /// Replaces the tool execution with the same identifier, or adds it.
    pub fn upsert_tool_execution(&mut self, execution: ToolExecution, elapsed_ms: u64) -> (r:
        Option<String>)
        ensures
            execution_upserted(*old(self), *final(self), execution, elapsed_ms),
            opt_view(r) == closed_id(old(self).blocks@),
            final(self).updated_at == old(self).updated_at,
    {
        let finished = self.finish_reasoning(elapsed_ms);
        let ghost mid = *self;
        let mut i: usize = 0;
        let n = self.tool_executions.len();
        while i < n
            invariant
                0 <= i <= n,
                n == self.tool_executions@.len(),
                *self == mid,
                reasoning_closed(*old(self), mid, elapsed_ms),
                mid.updated_at == old(self).updated_at,
                opt_view(finished) == closed_id(old(self).blocks@),
                execution_index(old(self).tool_executions@, execution.id@) == index_from(
                    old(self).tool_executions@,
                    execution.id@,
                    i as int,
                ),
            decreases n - i,
        {
            if self.tool_executions[i].id == execution.id {
                self.tool_executions.set(i, execution);
                return finished;
            }
            i += 1;
        }
        self.tool_executions.push(execution);
        finished
    }
}

/// Token counts of a request; `estimated` when they were not reported by the provider.
#[derive(Clone, Copy, Debug, Default, PartialEq, Eq, Structural)]
pub struct TokenUsage {
    pub input_tokens: Option<u64>,
    pub output_tokens: Option<u64>,
    pub estimated: bool,
}

/// What went wrong with a request, as it is stored.
#[derive(Debug)]
pub struct RequestError {
    pub kind: String,
    pub message: String,
    pub detail: Option<String>,
}

impl Clone for RequestError {
    fn clone(&self) -> (r: Self)
        ensures
            r == *self,
    {
        RequestError { kind: self.kind.clone(), message: self.message.clone(), detail: clone_opt(&self.detail) }
    }
}

/// How much conversation history goes into a request.
#[derive(Clone, Copy, Debug, PartialEq, Eq, Structural)]
pub enum HistoryLimit {
    All,
    Last(u32),
}

/// How the history of a request was selected.
#[derive(Clone, Copy, Debug, PartialEq, Eq, Structural)]
pub struct RequestContextInfo {
    pub history_limit: HistoryLimit,
    pub available_history_turns: u32,
    pub included_history_turns: u32,
    pub limited_by_context_window: bool,
}

#[derive(Clone, Copy, Debug, PartialEq, Eq, Structural)]
pub enum RequestKind {
    Initial,
    Additional,
    Regenerate,
    Continue,
}

/// How one prompt variable was evaluated.
#[derive(Debug)]
pub struct PromptEvaluation {
    pub name: String,
    pub source: String,
    pub duration_ms: u64,
}

impl Clone for PromptEvaluation {
    fn clone(&self) -> (r: Self)
        ensures
            r == *self,
    {
        PromptEvaluation { name: self.name.clone(), source: self.source.clone(), duration_ms: self.duration_ms }
    }
}

/// A prompt template together with its rendering.
#[derive(Debug, Default)]
pub struct PromptSnapshot {
    pub template: String,
    pub resolved: String,
    pub variables: Vec<PromptEvaluation>,
}

/// Two snapshots that hold the same texts and evaluations.
pub open spec fn same_snapshot(a: PromptSnapshot, b: PromptSnapshot) -> bool {
    a.template == b.template && a.resolved == b.resolved && a.variables@ == b.variables@
}

pub open spec fn same_opt_snapshot(a: Option<PromptSnapshot>, b: Option<PromptSnapshot>) -> bool {
    match (a, b) {
        (Some(x), Some(y)) => same_snapshot(x, y),
        (None, None) => true,
        _ => false,
    }
}

/// Two request records that hold the same values.
pub open spec fn same_request(a: RequestInfo, b: RequestInfo) -> bool {
    &&& a.id == b.id
    &&& a.conversation_id == b.conversation_id
    &&& a.turn_id == b.turn_id
    &&& a.response_id == b.response_id
    &&& a.kind == b.kind
    &&& a.provider_id == b.provider_id
    &&& a.model_id == b.model_id
    &&& a.status == b.status
    &&& a.usage == b.usage
    &&& a.error == b.error
    &&& a.started_at == b.started_at
    &&& a.first_token_at == b.first_token_at
    &&& a.finished_at == b.finished_at
    &&& a.ttft_ms == b.ttft_ms
    &&& a.duration_ms == b.duration_ms
    &&& a.thinking_duration_ms == b.thinking_duration_ms
    &&& a.last_step_input_tokens == b.last_step_input_tokens
    &&& a.last_step_estimated_input_tokens == b.last_step_estimated_input_tokens
    &&& a.tool_call_count == b.tool_call_count
    &&& a.tool_duration_ms == b.tool_duration_ms
    &&& a.context == b.context
    &&& same_opt_snapshot(a.system_prompt, b.system_prompt)
    &&& same_opt_snapshot(a.assistant_opening, b.assistant_opening)
}

impl Clone for PromptSnapshot {
    fn clone(&self) -> (r: Self)
        ensures
            same_snapshot(r, *self),
    {
        let variables = self.variables.clone();
        assert forall|i: int| 0 <= i < variables@.len() implies variables@[i] == self.variables@[i] by {
            assert(cloned::<PromptEvaluation>(self.variables[i], variables[i]));
        }
        assert(variables@ =~= self.variables@);
        PromptSnapshot { template: self.template.clone(), resolved: self.resolved.clone(), variables }
    }
}

fn clone_snapshot(o: &Option<PromptSnapshot>) -> (r: Option<PromptSnapshot>)
    ensures
        same_opt_snapshot(r, *o),
{
    match o {
        Some(s) => Some(s.clone()),
        None => None,
    }
}

fn clone_request_error(o: &Option<RequestError>) -> (r: Option<RequestError>)
    ensures
        r == *o,
{
    match o {
        Some(e) => Some(e.clone()),
        None => None,
    }
}

impl Clone for RequestInfo {
    fn clone(&self) -> (r: Self)
        ensures
            same_request(r, *self),
    {
        RequestInfo {
            id: self.id.clone(),
            conversation_id: self.conversation_id.clone(),
            turn_id: self.turn_id.clone(),
            response_id: self.response_id.clone(),
            kind: self.kind,
            provider_id: clone_opt(&self.provider_id),
            model_id: clone_opt(&self.model_id),
            status: self.status,
            usage: self.usage,
            error: clone_request_error(&self.error),
            started_at: self.started_at,
            first_token_at: self.first_token_at,
            finished_at: self.finished_at,
            ttft_ms: self.ttft_ms,
            duration_ms: self.duration_ms,
            thinking_duration_ms: self.thinking_duration_ms,
            last_step_input_tokens: self.last_step_input_tokens,
            last_step_estimated_input_tokens: self.last_step_estimated_input_tokens,
            tool_call_count: self.tool_call_count,
            tool_duration_ms: self.tool_duration_ms,
            context: self.context,
            system_prompt: clone_snapshot(&self.system_prompt),
            assistant_opening: clone_snapshot(&self.assistant_opening),
        }
    }
}

/// The record of one request to a provider.
#[derive(Debug)]
pub struct RequestInfo {
    pub id: String,
    pub conversation_id: String,
    pub turn_id: String,
    pub response_id: String,
    pub kind: RequestKind,
    pub provider_id: Option<String>,
    pub model_id: Option<String>,
    pub status: RequestStatus,
    pub usage: TokenUsage,
    pub error: Option<RequestError>,
    pub started_at: Timestamp,
    pub first_token_at: Option<Timestamp>,
    pub finished_at: Option<Timestamp>,
    pub ttft_ms: Option<u64>,
    pub duration_ms: Option<u64>,
    pub thinking_duration_ms: Option<u64>,
    pub last_step_input_tokens: Option<u64>,
    pub last_step_estimated_input_tokens: Option<u64>,
    pub tool_call_count: u64,
    pub tool_duration_ms: Option<u64>,
    pub context: Option<RequestContextInfo>,
    pub system_prompt: Option<PromptSnapshot>,
    pub assistant_opening: Option<PromptSnapshot>,
}

#[derive(Clone, Copy, Debug, PartialEq, Eq, Structural)]
pub enum GenerationErrorKind {
    UserCancelled,
    StreamInterrupted,
    ContextLengthExceeded,
    UnsupportedParameter,
    Unknown,
}

pub open spec fn error_kind_text(k: GenerationErrorKind) -> Seq<char> {
    match k {
        GenerationErrorKind::UserCancelled => "user_cancelled"@,
        GenerationErrorKind::StreamInterrupted => "stream_interrupted"@,
        GenerationErrorKind::ContextLengthExceeded => "context_length_exceeded"@,
        GenerationErrorKind::UnsupportedParameter => "unsupported_parameter"@,
        GenerationErrorKind::Unknown => "unknown"@,
    }
}

impl GenerationErrorKind {
    /// The stored name of the error kind.
    pub fn as_str(&self) -> (r: &'static str)
        ensures
            r@ == error_kind_text(*self),
    {
        match self {
            GenerationErrorKind::UserCancelled => "user_cancelled",
            GenerationErrorKind::StreamInterrupted => "stream_interrupted",
            GenerationErrorKind::ContextLengthExceeded => "context_length_exceeded",
            GenerationErrorKind::UnsupportedParameter => "unsupported_parameter",
            GenerationErrorKind::Unknown => "unknown",
        }
    }
}

pub open spec fn cancelled_message() -> Seq<char> {
    "Generation was cancelled"@
}

/// Why a generation did not complete.
#[derive(Clone, Debug)]
pub struct GenerationError {
    pub kind: GenerationErrorKind,
    pub message: String,
    pub detail: Option<String>,
}

impl GenerationError {
    pub fn new(kind: GenerationErrorKind, message: String) -> (r: GenerationError)
        ensures
            r.kind == kind,
            r.message == message,
            r.detail is None,
    {
        GenerationError { kind, message, detail: None }
    }

    /// The error of a generation the user stopped.
    pub fn cancelled() -> (r: GenerationError)
        ensures
            r.kind == GenerationErrorKind::UserCancelled,
            r.message@ == cancelled_message(),
            r.detail is None,
    {
        GenerationError::new(GenerationErrorKind::UserCancelled, String::from_str("Generation was cancelled"))
    }

    pub fn with_detail(self, detail: String) -> (r: GenerationError)
        ensures
            r.kind == self.kind,
            r.message == self.message,
            r.detail == Some(detail),
    {
        GenerationError { detail: Some(detail), ..self }
    }
}

/// What a provider stream reports.
#[derive(Debug)]
pub enum GenerationEvent {
    Started,
    TextDelta(String),
    ThinkingDelta { provider_id: Option<String>, delta: String },
    ToolCallObserved { internal_call_id: String, provider_tool_call_id: Option<String> },
    StepStarted { estimated_input_tokens: u64 },
    UsageUpdated(TokenUsage),
    ToolExecutionUpdated(ToolExecution),
    TranscriptAppended(Message),
    TranscriptContinued(Message),
    Completed,
    Failed(GenerationError),
}


/// Per-conversation parameters of a generation.
#[derive(Debug, Default)]
pub struct GenerationConfig {
    pub reasoning_preset: Option<String>,
    pub max_output_tokens: Option<u32>,
}

/// Per-conversation choices about MCP tools: an entry overrides a tool's global switch.
#[derive(Debug, Default)]
pub struct ToolSelection {
    pub overrides: Vec<(String, String, bool)>,
}

/// What a model accepts.
#[derive(Clone, Copy, Debug, Default, PartialEq, Eq, Structural)]
pub struct ModelCapabilities {
    pub vision: bool,
    pub audio_input: bool,
    pub tools: bool,
    pub reasoning: bool,
    pub streaming: bool,
}

/// A configured provider endpoint.
#[derive(Debug)]
pub struct Provider {
    pub id: String,
    pub name: String,
    pub enabled: bool,
}

/// A model offered by a provider.
#[derive(Debug)]
pub struct Model {
    pub id: String,
    pub provider_id: String,
    pub remote_id: String,
    pub display_name: String,
    pub context_window_tokens: Option<u32>,
    pub capabilities: ModelCapabilities,
}

/// How far a conversation's automatic title has come; the states only move forward.
#[derive(Clone, Copy, Debug, Default, PartialEq, Eq, Structural)]
pub enum AutoTitleState {
    #[default]
    Pending,
    Running,
    Finished,
}

/// The position of a state in the order the states are reached.
pub open spec fn title_progress(s: AutoTitleState) -> int {
    match s {
        AutoTitleState::Pending => 0,
        AutoTitleState::Running => 1,
        AutoTitleState::Finished => 2,
    }
}

impl AutoTitleState {
    /// The later of two states.
    pub fn later(self, other: AutoTitleState) -> (r: AutoTitleState)
        ensures
            r == (if title_progress(self) >= title_progress(other) {
                self
            } else {
                other
            }),
    {
        let rank = |s: AutoTitleState| -> (n: u8)
            ensures
                n == title_progress(s),
            {
                match s {
                    AutoTitleState::Pending => 0,
                    AutoTitleState::Running => 1,
                    AutoTitleState::Finished => 2,
                }
            };
        if rank(self) >= rank(other) {
            self
        } else {
            other
        }
    }
}

/// A conversation and its settings.
#[derive(Clone, Debug)]
pub struct Conversation {
    pub id: String,
    pub title: String,
    pub model_id: Option<String>,
    pub system_prompt: String,
    pub assistant_opening: String,
    pub generation_config: GenerationConfig,
    pub tool_selection: ToolSelection,
    pub history_limit_override: Option<HistoryLimit>,
    pub temporary: bool,
    pub auto_title_state: AutoTitleState,
    pub pinned: bool,
    pub created_at: Timestamp,
    pub updated_at: Timestamp,
}

/// A user message with the responses written to it. `parent_response_id` names the response
/// that the message answers; `continuation_response_id` the response that the conversation
/// continues from.
#[derive(Debug)]
pub struct Turn {
    pub id: String,
    pub conversation_id: String,
    pub parent_response_id: Option<String>,
    pub user: UserMessage,
    pub responses: Vec<AssistantResponse>,
    pub continuation_response_id: Option<String>,
    pub generation_config: GenerationConfig,
}


/// A copy of an optional text.
pub fn clone_opt(o: &Option<String>) -> (r: Option<String>)
    ensures
        r == *o,
{
    match o {
        Some(s) => Some(s.clone()),
        None => None,
    }
}

impl Clone for GenerationConfig {
    fn clone(&self) -> (r: Self)
        ensures
            r == *self,
    {
        GenerationConfig {
            reasoning_preset: clone_opt(&self.reasoning_preset),
            max_output_tokens: self.max_output_tokens,
        }
    }
}

impl GenerationConfig {
    /// The configuration a model can take: a reasoning preset only for a model that reasons.
    pub fn filtered_for(&self, capabilities: &ModelCapabilities) -> (r: GenerationConfig)
        ensures
            r.reasoning_preset == (if capabilities.reasoning {
                self.reasoning_preset
            } else {
                None
            }),
            r.max_output_tokens == self.max_output_tokens,
    {
        GenerationConfig {
            reasoning_preset: if capabilities.reasoning {
                clone_opt(&self.reasoning_preset)
            } else {
                None
            },
            max_output_tokens: self.max_output_tokens,
        }
    }
}

impl Clone for ToolSelection {
    fn clone(&self) -> (r: Self)
        ensures
            r.overrides@ == self.overrides@,
    {
        let mut overrides: Vec<(String, String, bool)> = Vec::new();
        let mut i: usize = 0;
        while i < self.overrides.len()
            invariant
                0 <= i <= self.overrides@.len(),
                overrides@ == self.overrides@.subrange(0, i as int),
            decreases self.overrides.len() - i,
        {
            let entry = &self.overrides[i];
            overrides.push((entry.0.clone(), entry.1.clone(), entry.2));
            i += 1;
            assert(overrides@ =~= self.overrides@.subrange(0, i as int));
        }
        assert(self.overrides@.subrange(0, self.overrides@.len() as int) =~= self.overrides@);
        ToolSelection { overrides }
    }
}

impl Clone for Provider {
    fn clone(&self) -> (r: Self)
        ensures
            r == *self,
    {
        Provider { id: self.id.clone(), name: self.name.clone(), enabled: self.enabled }
    }
}

impl Clone for Model {
    fn clone(&self) -> (r: Self)
        ensures
            r == *self,
    {
        Model {
            id: self.id.clone(),
            provider_id: self.provider_id.clone(),
            remote_id: self.remote_id.clone(),
            display_name: self.display_name.clone(),
            context_window_tokens: self.context_window_tokens,
            capabilities: self.capabilities,
        }
    }
}

impl Clone for ToolExecution {
    fn clone(&self) -> (r: Self)
        ensures
            r == *self,
    {
        ToolExecution {
            id: self.id.clone(),
            provider_call_id: clone_opt(&self.provider_call_id),
            server_id: self.server_id.clone(),
            tool_name: self.tool_name.clone(),
            arguments: self.arguments.clone(),
            status: self.status,
            result: clone_opt(&self.result),
            error: clone_opt(&self.error),
            started_at: self.started_at,
            finished_at: self.finished_at,
            duration_ms: self.duration_ms,
        }
    }
}

impl Clone for ReasoningBlock {
    fn clone(&self) -> (r: Self)
        ensures
            r == *self,
    {
        ReasoningBlock {
            id: self.id.clone(),
            provider_id: clone_opt(&self.provider_id),
            text: self.text.clone(),
            started_ms: self.started_ms,
            finished_ms: self.finished_ms,
        }
    }
}

/// Two responses that agree in everything, their transcripts compared by their models.
pub open spec fn same_response(a: AssistantResponse, b: AssistantResponse) -> bool {
    &&& a.id == b.id
    &&& a.model_id == b.model_id
    &&& a.model_name == b.model_name
    &&& a.provider_id == b.provider_id
    &&& a.provider_name == b.provider_name
    &&& a.request_id == b.request_id
    &&& a.status == b.status
    &&& a.content == b.content
    &&& a.thinking == b.thinking
    &&& a.blocks@ == b.blocks@
    &&& message_views(a.transcript@) == message_views(b.transcript@)
    &&& a.tool_executions@ == b.tool_executions@
    &&& a.created_at == b.created_at
    &&& a.updated_at == b.updated_at
}

impl Clone for AssistantResponse {
    fn clone(&self) -> (r: Self)
        ensures
            same_response(r, *self),
    {
        let blocks = self.blocks.clone();
        let tool_executions = self.tool_executions.clone();
        proof {
            assert forall|i: int| 0 <= i < self.blocks@.len() implies blocks@[i] == self.blocks@[i] by {
                assert(cloned::<ReasoningBlock>(self.blocks[i], blocks[i]));
            }
            assert(blocks@ =~= self.blocks@);
            assert forall|i: int| 0 <= i < self.tool_executions@.len() implies tool_executions@[i]
                == self.tool_executions@[i] by {
                assert(cloned::<ToolExecution>(self.tool_executions[i], tool_executions[i]));
            }
            assert(tool_executions@ =~= self.tool_executions@);
        }
        AssistantResponse {
            id: self.id.clone(),
            model_id: self.model_id.clone(),
            model_name: self.model_name.clone(),
            provider_id: self.provider_id.clone(),
            provider_name: self.provider_name.clone(),
            request_id: clone_opt(&self.request_id),
            status: self.status,
            content: self.content.clone(),
            thinking: self.thinking.clone(),
            blocks,
            transcript: clone_messages(&self.transcript),
            tool_executions,
            created_at: self.created_at,
            updated_at: self.updated_at,
        }
    }
}

impl AssistantResponse {
    /// A new, empty response by `model` of `provider`.
    pub fn new(model: &Model, provider: &Provider, id: String, now: Timestamp) -> (r: AssistantResponse)
        ensures
            r.id == id,
            r.model_id == model.id,
            r.model_name == model.display_name,
            r.provider_id == provider.id,
            r.provider_name == provider.name,
            r.request_id is None,
            r.status == MessageStatus::Pending,
            r.content@.len() == 0,
            r.thinking@.len() == 0,
            r.blocks@.len() == 0,
            r.transcript@.len() == 0,
            r.tool_executions@.len() == 0,
            r.created_at == now,
            r.updated_at == now,
    {
        AssistantResponse {
            id,
            model_id: model.id.clone(),
            model_name: model.display_name.clone(),
            provider_id: provider.id.clone(),
            provider_name: provider.name.clone(),
            request_id: None,
            status: MessageStatus::Pending,
            content: String::new(),
            thinking: String::new(),
            blocks: Vec::new(),
            transcript: Vec::new(),
            tool_executions: Vec::new(),
            created_at: now,
            updated_at: now,
        }
    }

    /// Readies a response that has output for being continued.
    pub fn prepare_continuation(&mut self)
        ensures
            final(self).status == MessageStatus::Streaming,
            final(self).id == old(self).id,
            final(self).model_id == old(self).model_id,
            final(self).model_name == old(self).model_name,
            final(self).provider_id == old(self).provider_id,
            final(self).provider_name == old(self).provider_name,
            final(self).request_id == old(self).request_id,
            final(self).content == old(self).content,
            final(self).thinking == old(self).thinking,
            final(self).blocks == old(self).blocks,
            final(self).transcript == old(self).transcript,
            final(self).tool_executions == old(self).tool_executions,
            final(self).created_at == old(self).created_at,
            final(self).updated_at == old(self).updated_at,
    {
        self.status = MessageStatus::Streaming;
    }
}

impl RequestInfo {
    /// A new request record for a response, started at `now`.
    pub fn new(
        id: String,
        conversation_id: &String,
        turn_id: &String,
        response_id: &String,
        now: Timestamp,
    ) -> (r: RequestInfo)
        ensures
            r.id == id,
            r.conversation_id == *conversation_id,
            r.turn_id == *turn_id,
            r.response_id == *response_id,
            r.kind == RequestKind::Initial,
            r.provider_id is None,
            r.model_id is None,
            r.status == RequestStatus::Streaming,
            r.usage == (TokenUsage { input_tokens: None, output_tokens: None, estimated: false }),
            r.error is None,
            r.started_at == now,
            r.first_token_at is None,
            r.finished_at is None,
            r.ttft_ms is None,
            r.duration_ms is None,
            r.thinking_duration_ms is None,
            r.last_step_input_tokens is None,
            r.last_step_estimated_input_tokens is None,
            r.tool_call_count == 0,
            r.tool_duration_ms is None,
            r.context is None,
            r.system_prompt is None,
            r.assistant_opening is None,
    {
        RequestInfo {
            id,
            conversation_id: conversation_id.clone(),
            turn_id: turn_id.clone(),
            response_id: response_id.clone(),
            kind: RequestKind::Initial,
            provider_id: None,
            model_id: None,
            status: RequestStatus::Streaming,
            usage: TokenUsage { input_tokens: None, output_tokens: None, estimated: false },
            error: None,
            started_at: now,
            first_token_at: None,
            finished_at: None,
            ttft_ms: None,
            duration_ms: None,
            thinking_duration_ms: None,
            last_step_input_tokens: None,
            last_step_estimated_input_tokens: None,
            tool_call_count: 0,
            tool_duration_ms: None,
            context: None,
            system_prompt: None,
            assistant_opening: None,
        }
    }
}

impl Turn {
    /// A new turn of `conversation` holding one response, which it continues from.
    pub fn new(
        id: String,
        conversation: &Conversation,
        parent_response_id: Option<String>,
        user: UserMessage,
        response: AssistantResponse,
    ) -> (r: Turn)
        ensures
            r.id == id,
            r.conversation_id == conversation.id,
            r.parent_response_id == parent_response_id,
            r.user == user,
            r.responses@ == seq![response],
            r.continuation_response_id == Some(response.id),
            r.generation_config == conversation.generation_config,
    {
        let continuation = Some(response.id.clone());
        let mut responses = Vec::new();
        responses.push(response);
        Turn {
            id,
            conversation_id: conversation.id.clone(),
            parent_response_id,
            user,
            responses,
            continuation_response_id: continuation,
            generation_config: conversation.generation_config.clone(),
        }
    }
}

/// Where a prompt variable takes its value from.
#[derive(Clone, Debug, PartialEq, Eq)]
pub enum PromptVariableSource {
    Text { value: String },
    Environment { variable: String },
    Command { script: String, cwd: Option<String>, timeout_ms: u64 },
}

/// A request as it goes to a provider.
#[derive(Debug)]
pub struct GenerationRequest {
    pub provider: Provider,
    pub model: Model,
    pub system_prompt: String,
    pub config: GenerationConfig,
    pub messages: Vec<Message>,
    pub audio_duration_ms: u64,
}


/// Mathematical model of an [`AttachmentDraftFile`].
pub struct DraftFileView {
    pub name: Seq<char>,
    pub kind: AttachmentFileKind,
    pub media_type: Seq<char>,
    pub bytes: Seq<u8>,
}

impl View for AttachmentDraftFile {
    type V = DraftFileView;

    open spec fn view(&self) -> DraftFileView {
        DraftFileView {
            name: self.name@,
            kind: self.kind,
            media_type: self.media_type@,
            bytes: self.bytes@,
        }
    }
}

pub open spec fn draft_file_views(files: Seq<AttachmentDraftFile>) -> Seq<DraftFileView> {
    files.map_values(|f: AttachmentDraftFile| f@)
}

/// Mathematical model of an [`AttachmentDraft`].
pub struct DraftView {
    pub id: Seq<char>,
    pub name: Seq<char>,
    pub kind: AttachmentKind,
    pub files: Seq<DraftFileView>,
    pub audio: Option<AudioAttachmentMetadata>,
}

impl View for AttachmentDraft {
    type V = DraftView;

    open spec fn view(&self) -> DraftView {
        DraftView {
            id: self.id@,
            name: self.name@,
            kind: self.kind,
            files: draft_file_views(self.files@),
            audio: self.audio,
        }
    }
}

pub open spec fn draft_views(drafts: Seq<AttachmentDraft>) -> Seq<DraftView> {
    drafts.map_values(|d: AttachmentDraft| d@)
}


/// Which model writes automatic titles.
#[derive(Debug)]
pub enum TitleModelSource {
    Current,
    Primary,
    Model(String),
}

/// The settings of the application.
#[derive(Debug)]
pub struct AppSettings {
    pub primary_model_id: Option<String>,
    pub title_generation_model: TitleModelSource,
    pub title_generation_reasoning_preset: Option<String>,
    pub auto_title_enabled: bool,
    pub history_limit: HistoryLimit,
    pub current_conversation_id: Option<String>,
}

impl Default for AppSettings {
    fn default() -> (r: Self)
        ensures
            r.primary_model_id is None,
            r.title_generation_model is Current,
            r.title_generation_reasoning_preset is None,
            r.auto_title_enabled,
            r.history_limit == HistoryLimit::All,
            r.current_conversation_id is None,
    {
        AppSettings {
            primary_model_id: None,
            title_generation_model: TitleModelSource::Current,
            title_generation_reasoning_preset: None,
            auto_title_enabled: true,
            history_limit: HistoryLimit::All,
            current_conversation_id: None,
        }
    }
}

/// Why the files of an attachment are not well formed, if they are not: an attachment has
/// at least one file, every file has a name and a media type, and audio metadata comes with
/// audio attachments only.
pub open spec fn draft_files_problem(d: DraftView) -> Option<Seq<char>> {
    if d.files.len() == 0 {
        Some("Attachment has no files"@)
    } else if exists|k: int| 0 <= k < d.files.len() && (#[trigger] d.files[k]).name.len() == 0 {
        Some("Attachment file has no name"@)
    } else if exists|k: int| 0 <= k < d.files.len() && (#[trigger] d.files[k]).media_type.len() == 0 {
        Some("Attachment file has no media type"@)
    } else if (d.kind == AttachmentKind::Audio) != (d.audio is Some) {
        Some("Audio metadata does not match the attachment kind"@)
    } else {
        None
    }
}

impl AttachmentDraft {
    /// Checks that the files of the attachment are well formed.
    pub fn validate_files(&self) -> (r: Result<(), String>)
        ensures
            match draft_files_problem(self@) {
                None => r is Ok,
                Some(m) => r matches Err(e) && e@ == m,
            },
    {
        if self.files.len() == 0 {
            return Err(String::from_str("Attachment has no files"));
        }
        let mut k: usize = 0;
        while k < self.files.len()
            invariant
                0 <= k <= self.files@.len(),
                forall|j: int| 0 <= j < k ==> (#[trigger] self.files@[j]).name@.len() > 0,
            decreases self.files.len() - k,
        {
            if self.files[k].name.as_str().is_empty() {
                assert(self@.files[k as int].name.len() == 0);
                return Err(String::from_str("Attachment file has no name"));
            }
            k += 1;
        }
        assert(forall|j: int| 0 <= j < self@.files.len() ==> (#[trigger] self@.files[j]).name.len() > 0);
        let mut k: usize = 0;
        while k < self.files.len()
            invariant
                0 <= k <= self.files@.len(),
                forall|j: int| 0 <= j < self@.files.len() ==> (#[trigger] self@.files[j]).name.len() > 0,
                forall|j: int| 0 <= j < k ==> (#[trigger] self.files@[j]).media_type@.len() > 0,
            decreases self.files.len() - k,
        {
            if self.files[k].media_type.as_str().is_empty() {
                assert(self@.files[k as int].media_type.len() == 0);
                return Err(String::from_str("Attachment file has no media type"));
            }
            k += 1;
        }
        assert(forall|j: int| 0 <= j < self@.files.len() ==> (#[trigger] self@.files[j]).media_type.len() > 0);
        let is_audio = match self.kind {
            AttachmentKind::Audio => true,
            _ => false,
        };
        if is_audio != self.audio.is_some() {
            return Err(String::from_str("Audio metadata does not match the attachment kind"));
        }
        Ok(())
    }
}


/// Whether a tool is used in a conversation: an override for the server and tool decides,
/// the first one if there are several; without one, the tool's global switch does.
pub open spec fn resolves_from(overrides: Seq<(String, String, bool)>, server: Seq<char>, tool: Seq<char>, enabled: bool, k: int) -> bool
    decreases overrides.len() - k,
{
    if k < 0 || k >= overrides.len() {
        enabled
    } else if overrides[k].0@ == server && overrides[k].1@ == tool {
        overrides[k].2
    } else {
        resolves_from(overrides, server, tool, enabled, k + 1)
    }
}

impl ToolSelection {
    /// Whether the tool `tool_name` of `server_id`, globally `enabled` or not, is used.
    pub fn resolves(&self, server_id: &String, tool_name: &String, enabled: bool) -> (r: bool)
        ensures
            r == resolves_from(self.overrides@, server_id@, tool_name@, enabled, 0),
    {
        let mut k: usize = 0;
        while k < self.overrides.len()
            invariant
                0 <= k <= self.overrides@.len(),
                resolves_from(self.overrides@, server_id@, tool_name@, enabled, 0) == resolves_from(
                    self.overrides@,
                    server_id@,
                    tool_name@,
                    enabled,
                    k as int,
                ),
            decreases self.overrides.len() - k,
        {
            let entry = &self.overrides[k];
            if entry.0 == *server_id && entry.1 == *tool_name {
                return entry.2;
            }
            k += 1;
        }
        enabled
    }
}

} // verus!
