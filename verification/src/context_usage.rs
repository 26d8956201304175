//! Estimates of how much of a model's context window a request uses.
use vstd::prelude::*;

use crate::domain::{ImageInput, Message};
use crate::text::chars_of;
use base64::Engine;

verus! {

pub const AUDIO_INPUT_TOKENS_PER_SECOND: u64 = 32;

pub const PIXELS_PER_IMAGE_TOKEN: u64 = 750;

pub const MIN_IMAGE_TOKENS: u64 = 85;

pub const MAX_IMAGE_TOKENS: u64 = 1536;

pub const UNKNOWN_IMAGE_TOKENS: u64 = 1024;

/// Whether a token count was estimated locally or anchored to what a provider reported.
#[derive(Clone, Copy, Debug, PartialEq, Eq, Structural)]
pub enum ContextUsageSource {
    Estimated,
    ProviderAnchored,
}

/// What a provider reported for a request, beside the local estimate of the same request.
#[derive(Clone, Copy, Debug, PartialEq, Eq, Structural)]
pub struct ContextUsageReference {
    pub input_tokens: u64,
    pub estimated_input_tokens: u64,
}

/// `x` saturated to the range of `u64`.
pub open spec fn saturate(x: int) -> int {
    if x > u64::MAX {
        u64::MAX as int
    } else {
        x
    }
}

/// `a / b` rounded up, for `a >= 0` and `b > 0`.
pub open spec fn ceil_div(a: int, b: int) -> int {
    (a + b - 1) / b
}

pub open spec fn clamp(x: int, lo: int, hi: int) -> int {
    if x < lo {
        lo
    } else if x > hi {
        hi
    } else {
        x
    }
}

/// Tokens of an image of the given size: one per 750 pixels, rounded up, within 85..=1536.
pub open spec fn image_tokens(width: u32, height: u32) -> int {
    clamp(ceil_div(width * height, PIXELS_PER_IMAGE_TOKEN as int), MIN_IMAGE_TOKENS as int, MAX_IMAGE_TOKENS as int)
}

/// Tokens of one image input: the low-detail cost, the cost of an image whose size is
/// unknown, or the cost by size.
pub open spec fn image_input_tokens(image: ImageInput) -> int {
    if image.low_detail {
        MIN_IMAGE_TOKENS as int
    } else if !image.dimensions_known {
        UNKNOWN_IMAGE_TOKENS as int
    } else {
        image_tokens(image.width, image.height)
    }
}

pub open spec fn images_tokens(images: Seq<ImageInput>) -> int
    decreases images.len(),
{
    if images.len() == 0 {
        0
    } else {
        images_tokens(images.drop_last()) + image_input_tokens(images.last())
    }
}

/// The characters of a message that count towards its text tokens.
pub open spec fn message_characters(message: Message) -> int {
    message.text@.len() + message.reasoning@.len() as int
}

pub open spec fn messages_characters(messages: Seq<Message>) -> int
    decreases messages.len(),
{
    if messages.len() == 0 {
        0
    } else {
        messages_characters(messages.drop_last()) + message_characters(messages.last())
    }
}

pub open spec fn messages_image_tokens(messages: Seq<Message>) -> int
    decreases messages.len(),
{
    if messages.len() == 0 {
        0
    } else {
        messages_image_tokens(messages.drop_last()) + images_tokens(messages.last().images@)
    }
}

/// Tokens of an audio input: 32 per second, rounded up.
pub open spec fn audio_tokens(audio_duration_ms: u64) -> int {
    ceil_div(saturate(audio_duration_ms * AUDIO_INPUT_TOKENS_PER_SECOND), 1000)
}

/// The estimated input tokens of a request: a token per four characters of the system prompt
/// and the messages, rounded up, plus the image and audio tokens, each sum saturating.
pub open spec fn input_token_estimate(
    system_prompt: Seq<char>,
    messages: Seq<Message>,
    audio_duration_ms: u64,
) -> int {
    saturate(
        ceil_div(saturate(system_prompt.len() + messages_characters(messages)), 4) + saturate(
            messages_image_tokens(messages),
        ) + audio_tokens(audio_duration_ms),
    )
}

proof fn lemma_images_tokens_nonneg(images: Seq<ImageInput>)
    ensures
        images_tokens(images) >= 0,
    decreases images.len(),
{
    if images.len() > 0 {
        lemma_images_tokens_nonneg(images.drop_last());
    }
}

proof fn lemma_messages_nonneg(messages: Seq<Message>)
    ensures
        messages_characters(messages) >= 0,
        messages_image_tokens(messages) >= 0,
    decreases messages.len(),
{
    if messages.len() > 0 {
        lemma_messages_nonneg(messages.drop_last());
        lemma_images_tokens_nonneg(messages.last().images@);
    }
}

/// An estimate is a token count within the range of `u64`.
pub proof fn lemma_estimate_range(system_prompt: Seq<char>, messages: Seq<Message>, audio_duration_ms: u64)
    ensures
        0 <= input_token_estimate(system_prompt, messages, audio_duration_ms) <= u64::MAX,
{
    lemma_messages_nonneg(messages);
}

/// Tokens of an image of `width` by `height` pixels.
pub fn image_tokens_for_dimensions(width: u32, height: u32) -> (r: u64)
    ensures
        r == image_tokens(width, height),
        MIN_IMAGE_TOKENS <= r <= MAX_IMAGE_TOKENS,
{
    let w = width as u64;
    let h = height as u64;
    assert(w * h <= 0xffff_fffe_0000_0001) by (nonlinear_arith)
        requires
            w <= 0xffff_ffff,
            h <= 0xffff_ffff,
    ;
    let pixels = w * h;
    let tokens = pixels / PIXELS_PER_IMAGE_TOKEN + if pixels % PIXELS_PER_IMAGE_TOKEN == 0 {
        0
    } else {
        1
    };
    assert(tokens == ceil_div(width * height, PIXELS_PER_IMAGE_TOKEN as int));
    if tokens < MIN_IMAGE_TOKENS {
        MIN_IMAGE_TOKENS
    } else if tokens > MAX_IMAGE_TOKENS {
        MAX_IMAGE_TOKENS
    } else {
        tokens
    }
}

fn image_input_token_count(image: &ImageInput) -> (r: u64)
    ensures
        r == image_input_tokens(*image),
{
    if image.low_detail {
        MIN_IMAGE_TOKENS
    } else if !image.dimensions_known {
        UNKNOWN_IMAGE_TOKENS
    } else {
        image_tokens_for_dimensions(image.width, image.height)
    }
}

fn char_count(s: &str) -> (r: u64)
    ensures
        r == s@.len(),
{
    let v = chars_of(s);
    v.len() as u64
}

/// The estimated input tokens of a request with this system prompt, these messages and
/// this much audio.
pub fn estimate_input_tokens(system_prompt: &str, messages: &Vec<Message>, audio_duration_ms: u64) -> (r: u64)
    ensures
        r == input_token_estimate(system_prompt@, messages@, audio_duration_ms),
{
    let mut characters: u64 = char_count(system_prompt);
    let mut image_total: u64 = 0;
    let mut i: usize = 0;
    while i < messages.len()
        invariant
            0 <= i <= messages@.len(),
            characters == saturate(
                system_prompt@.len() + messages_characters(messages@.subrange(0, i as int)),
            ),
            image_total == saturate(messages_image_tokens(messages@.subrange(0, i as int))),
        decreases messages.len() - i,
    {
        proof {
            let prefix = messages@.subrange(0, i + 1);
            assert(prefix.drop_last() =~= messages@.subrange(0, i as int));
            lemma_messages_nonneg(messages@.subrange(0, i as int));
        }
        let message = &messages[i];
        let count = char_count(message.text.as_str());
        let reasoning = char_count(message.reasoning.as_str());
        characters = characters.saturating_add(count);
        characters = characters.saturating_add(reasoning);
        let mut j: usize = 0;
        let ghost image_before = image_total;
        while j < message.images.len()
            invariant
                0 <= j <= message.images@.len(),
                image_before == saturate(messages_image_tokens(messages@.subrange(0, i as int))),
                messages_image_tokens(messages@.subrange(0, i as int)) >= 0,
                image_total == saturate(
                    messages_image_tokens(messages@.subrange(0, i as int)) + images_tokens(
                        message.images@.subrange(0, j as int),
                    ),
                ),
            decreases message.images.len() - j,
        {
            proof {
                assert(message.images@.subrange(0, j + 1).drop_last() =~= message.images@.subrange(
                    0,
                    j as int,
                ));
                lemma_images_tokens_nonneg(message.images@.subrange(0, j as int));
            }
            let tokens = image_input_token_count(&message.images[j]);
            image_total = image_total.saturating_add(tokens);
            j += 1;
        }
        proof {
            assert(message.images@.subrange(0, message.images@.len() as int) =~= message.images@);
        }
        i += 1;
    }
    proof {
        assert(messages@.subrange(0, messages@.len() as int) =~= messages@);
        lemma_messages_nonneg(messages@);
    }
    let text_tokens = characters / 4 + if characters % 4 == 0 {
        0
    } else {
        1
    };
    let audio = match audio_duration_ms.checked_mul(AUDIO_INPUT_TOKENS_PER_SECOND) {
        Some(v) => v,
        None => u64::MAX,
    };
    let audio_total = audio / 1000 + if audio % 1000 == 0 {
        0
    } else {
        1
    };
    text_tokens.saturating_add(image_total).saturating_add(audio_total)
}

/// A provider reference for a request whose provider reported `input_tokens`, when both that
/// count and the local estimate are positive.
pub fn provider_usage_reference(
    input_tokens: u64,
    system_prompt: &str,
    messages: &Vec<Message>,
    audio_duration_ms: u64,
) -> (r: Option<ContextUsageReference>)
    ensures
        r == (if input_tokens > 0 && input_token_estimate(
            system_prompt@,
            messages@,
            audio_duration_ms,
        ) > 0 {
            Some(
                ContextUsageReference {
                    input_tokens,
                    estimated_input_tokens: input_token_estimate(
                        system_prompt@,
                        messages@,
                        audio_duration_ms,
                    ) as u64,
                },
            )
        } else {
            None
        }),
{
    let estimated_input_tokens = estimate_input_tokens(system_prompt, messages, audio_duration_ms);
    if input_tokens > 0 && estimated_input_tokens > 0 {
        Some(ContextUsageReference { input_tokens, estimated_input_tokens })
    } else {
        None
    }
}

/// The input tokens of a request estimated at `estimated` tokens: the estimate itself, or,
/// given a usable reference, the provider's count moved by the change of the estimate,
/// kept within the range of `u64`.
pub open spec fn projected_tokens(estimated: u64, reference: Option<ContextUsageReference>) -> (
    u64,
    ContextUsageSource,
) {
    match reference {
        Some(r) => if r.input_tokens > 0 && r.estimated_input_tokens > 0 {
            (
                clamp(
                    r.input_tokens + (estimated - r.estimated_input_tokens),
                    0,
                    u64::MAX as int,
                ) as u64,
                ContextUsageSource::ProviderAnchored,
            )
        } else {
            (estimated, ContextUsageSource::Estimated)
        },
        None => (estimated, ContextUsageSource::Estimated),
    }
}

/// The input tokens to show for a request estimated at `estimated` tokens.
pub fn project_input_tokens(estimated: u64, reference: Option<ContextUsageReference>) -> (r: (
    u64,
    ContextUsageSource,
))
    ensures
        r == projected_tokens(estimated, reference),
{
    match reference {
        Some(reference) => {
            if reference.input_tokens > 0 && reference.estimated_input_tokens > 0 {
                let delta = estimated as i128 - reference.estimated_input_tokens as i128;
                let projected = reference.input_tokens as i128 + delta;
                let clamped: u64 = if projected < 0 {
                    0
                } else if projected > u64::MAX as i128 {
                    u64::MAX
                } else {
                    projected as u64
                };
                (clamped, ContextUsageSource::ProviderAnchored)
            } else {
                (estimated, ContextUsageSource::Estimated)
            }
        },
        None => (estimated, ContextUsageSource::Estimated),
    }
}

/// What is left of a context window of `window` tokens after `input_tokens`, at least zero;
/// nothing when the window is unknown.
pub fn remaining_tokens(input_tokens: u64, window: Option<u32>) -> (r: Option<u64>)
    ensures
        r == (match window {
            Some(w) => Some(if input_tokens >= w { 0u64 } else { (w - input_tokens) as u64 }),
            None => None,
        }),
{
    match window {
        Some(w) => Some((w as u64).saturating_sub(input_tokens)),
        None => None,
    }
}

/// Whether a message replays reasoning to the provider.
pub open spec fn replays_reasoning(messages: Seq<Message>) -> bool {
    exists|i: int| 0 <= i < messages.len() && (#[trigger] messages[i]).reasoning@.len() > 0
}

/// Whether any message replays reasoning.
pub fn messages_replay_reasoning(messages: &Vec<Message>) -> (r: bool)
    ensures
        r == replays_reasoning(messages@),
{
    let mut i: usize = 0;
    while i < messages.len()
        invariant
            0 <= i <= messages@.len(),
            forall|j: int| 0 <= j < i ==> (#[trigger] messages@[j]).reasoning@.len() == 0,
        decreases messages.len() - i,
    {
        if !messages[i].reasoning.as_str().is_empty() {
            assert(messages@[i as int].reasoning@.len() > 0);
            return true;
        }
        i += 1;
    }
    false
}

/// Where the data of an image comes from.
#[derive(Debug)]
pub enum ImageSource {
    /// Base64 text of the encoded image.
    Base64(String),
    /// The encoded image bytes.
    Raw(Vec<u8>),
    /// A reference (such as a URL) whose data is not at hand.
    Unavailable,
}

/// What the standard base64 engine decodes a text to, if it is valid base64.
pub uninterp spec fn base64_decoded(text: Seq<char>) -> Option<Seq<u8>>;

/// Decodes with `base64::engine::general_purpose::STANDARD`. The result is named: a function
/// of the text.
#[verifier::external_body]
fn decode_base64(text: &str) -> (r: Option<Vec<u8>>)
    ensures
        match r {
            Some(b) => base64_decoded(text@) == Some(b@),
            None => base64_decoded(text@) is None,
        },
{
    base64::engine::general_purpose::STANDARD.decode(text).ok()
}

/// The width and height that `image::ImageReader` reads from the header of encoded image
/// bytes, after guessing their format.
pub uninterp spec fn header_dimensions(bytes: Seq<u8>) -> Option<(u32, u32)>;

/// Reads the dimensions with `ImageReader::with_guessed_format` and `into_dimensions`. The
/// result is named: a function of the bytes.
#[verifier::external_body]
fn read_dimensions(bytes: &[u8]) -> (r: Option<(u32, u32)>)
    ensures
        r == header_dimensions(bytes@),
{
    image::ImageReader::new(std::io::Cursor::new(bytes)).with_guessed_format().ok()?.into_dimensions().ok()
}

/// The dimensions of an image, when its data is at hand and readable.
pub open spec fn source_dimensions(source: ImageSource) -> Option<(u32, u32)> {
    match source {
        ImageSource::Base64(text) => match base64_decoded(text@) {
            Some(bytes) => header_dimensions(bytes),
            None => None,
        },
        ImageSource::Raw(bytes) => header_dimensions(bytes@),
        ImageSource::Unavailable => None,
    }
}

/// What the estimate needs to know of an image: a low-detail image has a fixed cost and its
/// data is not read; otherwise its dimensions, when they can be read.
pub fn image_input(source: &ImageSource, low_detail: bool) -> (r: ImageInput)
    ensures
        r.low_detail == low_detail,
        !low_detail ==> match source_dimensions(*source) {
            Some(d) => r.dimensions_known && r.width == d.0 && r.height == d.1,
            None => !r.dimensions_known,
        },
{
    let unknown = ImageInput { width: 0, height: 0, dimensions_known: false, low_detail };
    if low_detail {
        return unknown;
    }
    let dimensions = match source {
        ImageSource::Base64(text) => match decode_base64(text.as_str()) {
            Some(bytes) => read_dimensions(bytes.as_slice()),
            None => None,
        },
        ImageSource::Raw(bytes) => read_dimensions(bytes.as_slice()),
        ImageSource::Unavailable => None,
    };
    match dimensions {
        Some((width, height)) => ImageInput { width, height, dimensions_known: true, low_detail },
        None => unknown,
    }
}

} // verus!
