//! The command palette, moving a selection through a picker, and the neighbours a swipe
//! moves to.
use vstd::prelude::*;

use crate::text::{ascii_lower, chars_of, matches_at, trim, trim_str};

verus! {

/// A command offered by the command palette.
#[derive(Clone, Copy, Debug, PartialEq, Eq, Structural)]
pub enum PaletteCommand {
    NewConversation,
    ChooseModel,
    FocusConversationSearch,
    ToggleSidebar,
    ToggleInspector,
    EditSystemPrompt,
    OpenChat,
    OpenTextToSpeech,
    OpenSettings,
}

pub open spec fn command_label(c: PaletteCommand) -> Seq<char> {
    match c {
        PaletteCommand::NewConversation => "New conversation"@,
        PaletteCommand::ChooseModel => "Choose model"@,
        PaletteCommand::FocusConversationSearch => "Search conversations"@,
        PaletteCommand::ToggleSidebar => "Toggle sidebar"@,
        PaletteCommand::ToggleInspector => "Toggle Inspector"@,
        PaletteCommand::EditSystemPrompt => "Edit System Prompt"@,
        PaletteCommand::OpenChat => "Open chat"@,
        PaletteCommand::OpenTextToSpeech => "Open Text to Speech"@,
        PaletteCommand::OpenSettings => "Open settings"@,
    }
}

pub open spec fn command_detail(c: PaletteCommand) -> Seq<char> {
    match c {
        PaletteCommand::NewConversation => "Start a local conversation"@,
        PaletteCommand::ChooseModel => "Choose a conversation model or change the primary model"@,
        PaletteCommand::FocusConversationSearch => "Filter conversations by title"@,
        PaletteCommand::ToggleSidebar => "Expand or collapse conversation navigation"@,
        PaletteCommand::ToggleInspector => "Show or hide model, context, and request info"@,
        PaletteCommand::EditSystemPrompt => "Customize instructions for this conversation"@,
        PaletteCommand::OpenChat => "Return to the current conversation"@,
        PaletteCommand::OpenTextToSpeech => "Open the audio.cpp TTS Playground"@,
        PaletteCommand::OpenSettings => "Manage providers, models, and appearance"@,
    }
}

pub open spec fn command_keywords(c: PaletteCommand) -> Seq<char> {
    match c {
        PaletteCommand::NewConversation => "new create conversation chat"@,
        PaletteCommand::ChooseModel => "model provider llm select choose"@,
        PaletteCommand::FocusConversationSearch => "search find conversation title"@,
        PaletteCommand::ToggleSidebar => "sidebar navigation collapse expand"@,
        PaletteCommand::ToggleInspector => "inspector parameters context info"@,
        PaletteCommand::EditSystemPrompt => "system prompt instructions edit"@,
        PaletteCommand::OpenChat => "chat conversation messages"@,
        PaletteCommand::OpenTextToSpeech => "tts text speech voice audio playground audio.cpp"@,
        PaletteCommand::OpenSettings => "settings provider model appearance preferences"@,
    }
}

/// `pattern` occurs somewhere in `s`.
pub open spec fn contains_text(s: Seq<char>, pattern: Seq<char>) -> bool {
    exists|i: int| #[trigger] matches_at(s, i, pattern)
}

/// What `str::to_lowercase` makes of a text.
pub uninterp spec fn lowercase(s: Seq<char>) -> Seq<char>;

/// Every character is ASCII.
pub open spec fn all_ascii(s: Seq<char>) -> bool {
    forall|i: int| 0 <= i < s.len() ==> (#[trigger] s[i] as u32) < 0x80
}

/// `str::to_lowercase`: the Unicode lower case of a text, named here. On ASCII text it lowers
/// the letters `A` to `Z` and keeps every other character.
#[verifier::external_body]
pub(crate) fn to_lowercase(s: &str) -> (r: String)
    ensures
        r@ == lowercase(s@),
        all_ascii(s@) ==> r@ == ascii_lower(s@),
{
    s.to_lowercase()
}

/// The query a command is filtered by: trimmed and in lower case.
pub open spec fn normalized_query(query: Seq<char>) -> Seq<char> {
    lowercase(trim(query))
}

/// A command matches an empty query, and a query found in its lower-cased label or in its
/// keywords.
pub open spec fn command_matches(c: PaletteCommand, query: Seq<char>) -> bool {
    let q = normalized_query(query);
    q.len() == 0 || contains_text(lowercase(command_label(c)), q) || contains_text(command_keywords(c), q)
}

pub(crate) fn contains(s: &str, pattern: &Vec<char>) -> (r: bool)
    ensures
        r == contains_text(s@, pattern@),
{
    let text = chars_of(s);
    let mut i: usize = 0;
    while i < text.len()
        invariant
            i <= text@.len(),
            text@ == s@,
            forall|j: int| 0 <= j < i ==> !matches_at(s@, j, pattern@),
        decreases text.len() - i,
    {
        if crate::text::match_at(&text, i, pattern) {
            return true;
        }
        i += 1;
    }
    if crate::text::match_at(&text, i, pattern) {
        return true;
    }
    assert forall|j: int| !matches_at(s@, j, pattern@) by {
        if 0 <= j <= i {
        }
    }
    false
}

impl PaletteCommand {
    /// The name shown for the command.
    pub fn label(self) -> (r: &'static str)
        ensures
            r@ == command_label(self),
    {
        match self {
            PaletteCommand::NewConversation => "New conversation",
            PaletteCommand::ChooseModel => "Choose model",
            PaletteCommand::FocusConversationSearch => "Search conversations",
            PaletteCommand::ToggleSidebar => "Toggle sidebar",
            PaletteCommand::ToggleInspector => "Toggle Inspector",
            PaletteCommand::EditSystemPrompt => "Edit System Prompt",
            PaletteCommand::OpenChat => "Open chat",
            PaletteCommand::OpenTextToSpeech => "Open Text to Speech",
            PaletteCommand::OpenSettings => "Open settings",
        }
    }

    /// The line shown under the name.
    pub fn detail(self) -> (r: &'static str)
        ensures
            r@ == command_detail(self),
    {
        match self {
            PaletteCommand::NewConversation => "Start a local conversation",
            PaletteCommand::ChooseModel => "Choose a conversation model or change the primary model",
            PaletteCommand::FocusConversationSearch => "Filter conversations by title",
            PaletteCommand::ToggleSidebar => "Expand or collapse conversation navigation",
            PaletteCommand::ToggleInspector => "Show or hide model, context, and request info",
            PaletteCommand::EditSystemPrompt => "Customize instructions for this conversation",
            PaletteCommand::OpenChat => "Return to the current conversation",
            PaletteCommand::OpenTextToSpeech => "Open the audio.cpp TTS Playground",
            PaletteCommand::OpenSettings => "Manage providers, models, and appearance",
        }
    }

    /// The words the command is also found by.
    pub fn keywords(self) -> (r: &'static str)
        ensures
            r@ == command_keywords(self),
    {
        match self {
            PaletteCommand::NewConversation => "new create conversation chat",
            PaletteCommand::ChooseModel => "model provider llm select choose",
            PaletteCommand::FocusConversationSearch => "search find conversation title",
            PaletteCommand::ToggleSidebar => "sidebar navigation collapse expand",
            PaletteCommand::ToggleInspector => "inspector parameters context info",
            PaletteCommand::EditSystemPrompt => "system prompt instructions edit",
            PaletteCommand::OpenChat => "chat conversation messages",
            PaletteCommand::OpenTextToSpeech => "tts text speech voice audio playground audio.cpp",
            PaletteCommand::OpenSettings => "settings provider model appearance preferences",
        }
    }

    /// Whether the command is listed for a query.
    pub fn matches(self, query: &str) -> (r: bool)
        ensures
            r == command_matches(self, query@),
    {
        let trimmed = trim_str(query);
        let q = to_lowercase(trimmed.as_str());
        let needle = chars_of(q.as_str());
        if needle.len() == 0 {
            return true;
        }
        let label = to_lowercase(self.label());
        contains(label.as_str(), &needle) || contains(self.keywords(), &needle)
    }
}

/// Every palette command, in the order the palette lists them.
pub fn all_commands() -> (r: Vec<PaletteCommand>)
    ensures
        r@ == seq![
            PaletteCommand::NewConversation,
            PaletteCommand::ChooseModel,
            PaletteCommand::FocusConversationSearch,
            PaletteCommand::ToggleSidebar,
            PaletteCommand::ToggleInspector,
            PaletteCommand::EditSystemPrompt,
            PaletteCommand::OpenChat,
            PaletteCommand::OpenTextToSpeech,
            PaletteCommand::OpenSettings,
        ],
{
    let r = vec![
        PaletteCommand::NewConversation,
        PaletteCommand::ChooseModel,
        PaletteCommand::FocusConversationSearch,
        PaletteCommand::ToggleSidebar,
        PaletteCommand::ToggleInspector,
        PaletteCommand::EditSystemPrompt,
        PaletteCommand::OpenChat,
        PaletteCommand::OpenTextToSpeech,
        PaletteCommand::OpenSettings,
    ];
    assert(r@ =~= seq![
        PaletteCommand::NewConversation,
        PaletteCommand::ChooseModel,
        PaletteCommand::FocusConversationSearch,
        PaletteCommand::ToggleSidebar,
        PaletteCommand::ToggleInspector,
        PaletteCommand::EditSystemPrompt,
        PaletteCommand::OpenChat,
        PaletteCommand::OpenTextToSpeech,
        PaletteCommand::OpenSettings,
    ]);
    r
}

/// The commands listed for a query, in palette order.
pub fn filtered_commands(query: &str) -> (r: Vec<PaletteCommand>)
    ensures
        r@ == all_commands_seq().filter(|c: PaletteCommand| command_matches(c, query@)),
{
    let all = all_commands();
    let mut r: Vec<PaletteCommand> = Vec::new();
    let mut i: usize = 0;
    assert(all@.take(0).filter(|c: PaletteCommand| command_matches(c, query@)) =~= Seq::<PaletteCommand>::empty());
    while i < all.len()
        invariant
            i <= all@.len(),
            all@ == all_commands_seq(),
            r@ == all@.take(i as int).filter(|c: PaletteCommand| command_matches(c, query@)),
        decreases all.len() - i,
    {
        let c = all[i];
        proof {
            reveal(Seq::filter);
            assert(all@.take(i as int + 1).drop_last() =~= all@.take(i as int));
        }
        if c.matches(query) {
            r.push(c);
        }
        i += 1;
    }
    assert(all@.take(all@.len() as int) =~= all@);
    r
}

pub open spec fn all_commands_seq() -> Seq<PaletteCommand> {
    seq![
        PaletteCommand::NewConversation,
        PaletteCommand::ChooseModel,
        PaletteCommand::FocusConversationSearch,
        PaletteCommand::ToggleSidebar,
        PaletteCommand::ToggleInspector,
        PaletteCommand::EditSystemPrompt,
        PaletteCommand::OpenChat,
        PaletteCommand::OpenTextToSpeech,
        PaletteCommand::OpenSettings,
    ]
}

/// Which way a picker's selection moves.
#[derive(Clone, Copy, Debug, PartialEq, Eq, Structural)]
pub enum PickerDirection {
    Previous,
    Next,
}

/// The selection after a move through `len` items: it wraps at both ends, and an empty list
/// selects the first place.
pub open spec fn moved(current: usize, len: usize, direction: PickerDirection) -> usize {
    if len == 0 {
        0
    } else {
        match direction {
            PickerDirection::Previous => if current == 0 {
                (len - 1) as usize
            } else {
                (current - 1) as usize
            },
            PickerDirection::Next => ((current + 1) % (len as int)) as usize,
        }
    }
}

/// Moves a picker's selection one step.
pub fn moved_selection(current: usize, len: usize, direction: PickerDirection) -> (r: usize)
    requires
        direction == PickerDirection::Next ==> current < usize::MAX,
    ensures
        r == moved(current, len, direction),
        len > 0 && current < len ==> r < len,
{
    if len == 0 {
        return 0;
    }
    match direction {
        PickerDirection::Previous => if current == 0 {
            len - 1
        } else {
            current - 1
        },
        PickerDirection::Next => (current + 1) % len,
    }
}

/// The items before and after the current one.
#[derive(Clone, Debug, PartialEq, Eq)]
pub struct SwipeNeighbors {
    pub previous: Option<String>,
    pub next: Option<String>,
}

/// The neighbours of the current item in display order, without wrapping; no neighbours when
/// the current item is not listed.
pub fn swipe_neighbors(ids: &Vec<String>, current_id: &str) -> (r: Option<SwipeNeighbors>)
    ensures
        match r {
            None => forall|i: int| 0 <= i < ids@.len() ==> ids@[i]@ != current_id@,
            Some(n) => exists|i: int|
                #![trigger ids@[i]]
                0 <= i < ids@.len() && ids@[i]@ == current_id@ && (forall|j: int| 0 <= j < i ==> ids@[j]@ != current_id@)
                    && (if i == 0 {
                        n.previous is None
                    } else {
                        n.previous matches Some(p) && p@ == ids@[i - 1]@
                    }) && (if i + 1 < ids@.len() {
                        n.next matches Some(x) && x@ == ids@[i + 1]@
                    } else {
                        n.next is None
                    }),
        },
{
    let key = chars_of(current_id);
    let mut i: usize = 0;
    while i < ids.len()
        invariant
            i <= ids@.len(),
            key@ == current_id@,
            forall|j: int| 0 <= j < i ==> ids@[j]@ != current_id@,
        decreases ids.len() - i,
    {
        let candidate = chars_of(ids[i].as_str());
        if crate::text::chars_equal(&candidate, &key) {
            let previous = if i == 0 {
                None
            } else {
                Some(ids[i - 1].clone())
            };
            let next = if i + 1 < ids.len() {
                Some(ids[i + 1].clone())
            } else {
                None
            };
            let n = SwipeNeighbors { previous, next };
            assert(ids@[i as int]@ == current_id@);
            return Some(n);
        }
        i += 1;
    }
    None
}

} // verus!
