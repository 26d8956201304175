//! Where the window is, how the conversation list is grouped, and the peek preview of a
//! conversation.
use vstd::prelude::*;

use crate::domain::{opt_view, Conversation, Timestamp};

verus! {

/// The page the window shows.
#[derive(Clone, Copy, Debug, PartialEq, Eq, Structural)]
pub enum Page {
    Chat,
    Settings,
}

impl Page {
    /// The page a window opens on.
    pub fn initial() -> (r: Page)
        ensures
            r == Page::Chat,
    {
        Page::Chat
    }
}

/// A section of the conversation list.
#[derive(Clone, Copy, Debug, PartialEq, Eq, Structural)]
pub enum ConversationGroup {
    Pinned,
    Today,
    Yesterday,
    PreviousSevenDays,
    Older,
}

pub open spec fn group_label(group: ConversationGroup) -> Seq<char> {
    match group {
        ConversationGroup::Pinned => "Pinned"@,
        ConversationGroup::Today => "Today"@,
        ConversationGroup::Yesterday => "Yesterday"@,
        ConversationGroup::PreviousSevenDays => "Previous 7 days"@,
        ConversationGroup::Older => "Older"@,
    }
}

/// A count of local calendar days from `then` to `now` as the machine's clock gives it:
/// within two of the UTC days between them, or none when a time is outside the calendar.
pub open spec fn day_count_near(days: Option<i64>, now: i64, then: i64) -> bool {
    match days {
        Some(d) => crate::time::rfc3339_utc(now) is Some && crate::time::rfc3339_utc(then) is Some
            && crate::time::utc_day(now) - crate::time::utc_day(then) - 2 <= d
            <= crate::time::utc_day(now) - crate::time::utc_day(then) + 2,
        None => crate::time::rfc3339_utc(now) is None || crate::time::rfc3339_utc(then) is None,
    }
}

/// An unpinned conversation goes by how long ago it changed: nine or more UTC days ago it is
/// listed under Older, four days ago under the previous seven days, and two or more days in
/// the future (a clock set back) under Today; a time outside the calendar puts it under Older.
/// The group is any that `for_conversation` may give for it.
pub proof fn lemma_group_follows_elapsed_days(group: ConversationGroup, now: i64, then: i64)
    requires
        exists|days: Option<i64>| day_count_near(days, now, then) && group == #[trigger] group_for(days),
    ensures
        crate::time::rfc3339_utc(now) is None || crate::time::rfc3339_utc(then) is None
            ==> group == ConversationGroup::Older,
        crate::time::rfc3339_utc(now) is Some && crate::time::rfc3339_utc(then) is Some ==> {
            &&& crate::time::utc_day(now) - crate::time::utc_day(then) >= 9 ==> group == ConversationGroup::Older
            &&& crate::time::utc_day(now) - crate::time::utc_day(then) == 4 ==> group
                == ConversationGroup::PreviousSevenDays
            &&& crate::time::utc_day(now) - crate::time::utc_day(then) <= -2 ==> group == ConversationGroup::Today
        },
{
    let days = choose|days: Option<i64>| day_count_near(days, now, then) && group == #[trigger] group_for(days);
    assert(day_count_near(days, now, then) && group == group_for(days));
}

/// The group of an unpinned conversation last changed `days` calendar days ago; `None` when
/// the day could not be told.
pub open spec fn group_for(days: Option<i64>) -> ConversationGroup {
    match days {
        None => ConversationGroup::Older,
        Some(d) => if d <= 0 {
            ConversationGroup::Today
        } else if d == 1 {
            ConversationGroup::Yesterday
        } else if d <= 6 {
            ConversationGroup::PreviousSevenDays
        } else {
            ConversationGroup::Older
        },
    }
}

impl ConversationGroup {
    /// The heading of the group.
    pub fn label(self) -> (r: &'static str)
        ensures
            r@ == group_label(self),
    {
        match self {
            ConversationGroup::Pinned => "Pinned",
            ConversationGroup::Today => "Today",
            ConversationGroup::Yesterday => "Yesterday",
            ConversationGroup::PreviousSevenDays => "Previous 7 days",
            ConversationGroup::Older => "Older",
        }
    }

    /// The group of an unpinned conversation last changed `days` calendar days ago.
    pub fn for_days(days: Option<i64>) -> (r: ConversationGroup)
        ensures
            r == group_for(days),
    {
        match days {
            None => ConversationGroup::Older,
            Some(d) => if d <= 0 {
                ConversationGroup::Today
            } else if d == 1 {
                ConversationGroup::Yesterday
            } else if d <= 6 {
                ConversationGroup::PreviousSevenDays
            } else {
                ConversationGroup::Older
            },
        }
    }

    /// The group of a conversation at time `now`: pinned conversations have their own group,
    /// the others go by the calendar days, in the machine's time zone, since they changed.
    pub fn for_conversation(conversation: &Conversation, now: Timestamp) -> (r: ConversationGroup)
        ensures
            conversation.pinned ==> r == ConversationGroup::Pinned,
            !conversation.pinned ==> exists|days: Option<i64>|
                day_count_near(days, now, conversation.updated_at) && r == #[trigger] group_for(days),
    {
        if conversation.pinned {
            return ConversationGroup::Pinned;
        }
        let days = crate::time::local_days_between(now, conversation.updated_at);
        ConversationGroup::for_days(days)
    }
}

/// What the peek preview shows.
#[derive(Debug)]
pub enum ConversationPeekContent<T> {
    Loading,
    Ready(Vec<T>),
    Failed(String),
}

/// The peek preview of a conversation. Every opening and closing starts a new revision; a
/// load that finishes for an earlier revision is dropped.
#[derive(Debug)]
pub struct ConversationPeekState<T> {
    pub revision: u64,
    pub conversation_id: Option<String>,
    pub content: ConversationPeekContent<T>,
}

/// The revision after `r`, wrapping.
pub open spec fn next_revision(r: u64) -> u64 {
    if r == u64::MAX {
        0
    } else {
        (r + 1) as u64
    }
}

impl<T> ConversationPeekState<T> {
    /// A closed preview.
    pub fn new() -> (r: Self)
        ensures
            r.revision == 0,
            r.conversation_id is None,
            r.content is Loading,
    {
        ConversationPeekState { revision: 0, conversation_id: None, content: ConversationPeekContent::Loading }
    }

    /// Opens the preview of a conversation and returns the new revision.
    pub fn open(&mut self, conversation_id: String, content: ConversationPeekContent<T>) -> (r: u64)
        ensures
            r == next_revision(old(self).revision),
            final(self).revision == r,
            final(self).conversation_id == Some(conversation_id),
            final(self).content == content,
    {
        self.revision = if self.revision == u64::MAX {
            0
        } else {
            self.revision + 1
        };
        self.conversation_id = Some(conversation_id);
        self.content = content;
        self.revision
    }

    /// Closes the preview.
    pub fn close(&mut self)
        ensures
            final(self).revision == next_revision(old(self).revision),
            final(self).conversation_id is None,
            final(self).content is Loading,
    {
        self.revision = if self.revision == u64::MAX {
            0
        } else {
            self.revision + 1
        };
        self.conversation_id = None;
        self.content = ConversationPeekContent::Loading;
    }

    /// Shows what a load for `conversation_id` at `revision` found, if the preview still shows
    /// that conversation at that revision; tells whether it did.
    pub fn complete(&mut self, conversation_id: &str, revision: u64, content: ConversationPeekContent<T>) -> (r: bool)
        ensures
            r == (old(self).revision == revision && crate::domain::opt_view(old(self).conversation_id)
                == Some(conversation_id@)),
            r ==> final(self).content == content,
            !r ==> final(self).content == old(self).content,
            final(self).revision == old(self).revision,
            final(self).conversation_id == old(self).conversation_id,
    {
        if self.revision != revision {
            return false;
        }
        let same = match &self.conversation_id {
            Some(id) => crate::attachments::same_str(id.as_str(), conversation_id),
            None => false,
        };
        if !same {
            return false;
        }
        self.content = content;
        true
    }
}

/// The revision after `n` openings and closings from revision `r`.
pub open spec fn revision_after(r: u64, n: nat) -> u64
    decreases n,
{
    if n == 0 {
        r
    } else {
        next_revision(revision_after(r, (n - 1) as nat))
    }
}

proof fn lemma_revision_after(r: u64, n: nat)
    ensures
        revision_after(r, n) == (r + n) % 0x1_0000_0000_0000_0000,
    decreases n,
{
    if n > 0 {
        lemma_revision_after(r, (n - 1) as nat);
        let prev = revision_after(r, (n - 1) as nat);
        assert(prev == (r + n - 1) % 0x1_0000_0000_0000_0000);
        if prev == u64::MAX {
            assert((r + n) % 0x1_0000_0000_0000_0000 == 0) by (nonlinear_arith)
                requires
                    (r + n - 1) % 0x1_0000_0000_0000_0000 == 0xffff_ffff_ffff_ffff,
            ;
        } else {
            assert((r + n) % 0x1_0000_0000_0000_0000 == prev + 1) by (nonlinear_arith)
                requires
                    (r + n - 1) % 0x1_0000_0000_0000_0000 == prev,
                    prev < 0xffff_ffff_ffff_ffff,
            ;
        }
    }
}

/// A load started for an earlier opening never replaces what a later opening shows: once
/// the preview was opened or closed again, fewer than 2^64 times, the revision a load was
/// started for is no longer the preview's, so `complete` refuses it.
pub proof fn lemma_stale_load_is_dropped(started: u64, changes: nat)
    requires
        0 < changes < 0x1_0000_0000_0000_0000,
    ensures
        revision_after(started, changes) != started,
{
    lemma_revision_after(started, changes);
    assert((started + changes) % 0x1_0000_0000_0000_0000 != started) by (nonlinear_arith)
        requires
            0 < changes < 0x1_0000_0000_0000_0000,
            started < 0x1_0000_0000_0000_0000,
    ;
}

/// The groups of the conversation list, in the order they are shown.
pub open spec fn group_order() -> Seq<ConversationGroup> {
    seq![
        ConversationGroup::Pinned,
        ConversationGroup::Today,
        ConversationGroup::Yesterday,
        ConversationGroup::PreviousSevenDays,
        ConversationGroup::Older,
    ]
}

/// A conversation is listed unless it is temporary or the one being tried out.
pub open spec fn listed(c: Conversation, transient: Option<Seq<char>>) -> bool {
    !c.temporary && transient != Some(c.id@)
}

/// The positions, in order, of the listed conversations of group `g`.
pub open spec fn members(
    conversations: Seq<Conversation>,
    groups: Seq<ConversationGroup>,
    transient: Option<Seq<char>>,
    g: ConversationGroup,
) -> Seq<usize>
    decreases conversations.len(),
{
    if conversations.len() == 0 || groups.len() != conversations.len() {
        Seq::empty()
    } else {
        let before = members(conversations.drop_last(), groups.drop_last(), transient, g);
        if listed(conversations.last(), transient) && groups.last() == g {
            before.push((conversations.len() - 1) as usize)
        } else {
            before
        }
    }
}

/// The non-empty groups from `k` on, each with its members.
pub open spec fn grouped_from(
    conversations: Seq<Conversation>,
    groups: Seq<ConversationGroup>,
    transient: Option<Seq<char>>,
    k: int,
) -> Seq<(ConversationGroup, Seq<usize>)>
    decreases 5 - k,
{
    if k < 0 || k >= 5 {
        Seq::empty()
    } else {
        let g = group_order()[k];
        let m = members(conversations, groups, transient, g);
        let rest = grouped_from(conversations, groups, transient, k + 1);
        if m.len() == 0 {
            rest
        } else {
            seq![(g, m)] + rest
        }
    }
}

/// Each conversation's group at `now`: its own for a pinned one, else one told by calendar days.
pub open spec fn plausible_groups(conversations: Seq<Conversation>, groups: Seq<ConversationGroup>) -> bool {
    &&& groups.len() == conversations.len()
    &&& forall|i: int|
        0 <= i < conversations.len() ==> (if conversations[i].pinned {
            groups[i] == ConversationGroup::Pinned
        } else {
            exists|days: Option<i64>| #[trigger] group_for(days) == groups[i]
        })
}

/// The conversation list as it is shown: the listed conversations by group, the groups in
/// their order and each with its conversations in list order, leaving out empty groups.
pub fn conversation_groups(conversations: &Vec<Conversation>, now: Timestamp, transient: &Option<String>) -> (r: Vec<(ConversationGroup, Vec<usize>)>)
    ensures
        exists|groups: Seq<ConversationGroup>|
            #[trigger] plausible_groups(conversations@, groups) && r@.map_values(
                |p: (ConversationGroup, Vec<usize>)| (p.0, p.1@),
            ) == grouped_from(conversations@, groups, opt_view(*transient), 0),
{
    let ghost tid = opt_view(*transient);
    let mut groups: Vec<ConversationGroup> = Vec::new();
    let mut i: usize = 0;
    while i < conversations.len()
        invariant
            i <= conversations@.len(),
            groups@.len() == i,
            forall|j: int|
                0 <= j < i ==> (if conversations@[j].pinned {
                    groups@[j] == ConversationGroup::Pinned
                } else {
                    exists|days: Option<i64>| #[trigger] group_for(days) == groups@[j]
                }),
        decreases conversations.len() - i,
    {
        let g = ConversationGroup::for_conversation(&conversations[i], now);
        groups.push(g);
        i += 1;
    }
    let order = vec![
        ConversationGroup::Pinned,
        ConversationGroup::Today,
        ConversationGroup::Yesterday,
        ConversationGroup::PreviousSevenDays,
        ConversationGroup::Older,
    ];
    assert(order@ =~= group_order());
    let mut result: Vec<(ConversationGroup, Vec<usize>)> = Vec::new();
    let mut k: usize = 5;
    while k > 0
        invariant
            k <= 5,
            order@ == group_order(),
            groups@.len() == conversations@.len(),
            result@.map_values(|p: (ConversationGroup, Vec<usize>)| (p.0, p.1@)) == grouped_from(
                conversations@,
                groups@,
                tid,
                k as int,
            ),
            tid == opt_view(*transient),
        decreases k,
    {
        k -= 1;
        let g = order[k];
        let mut listed_here: Vec<usize> = Vec::new();
        let mut j: usize = 0;
        assert(conversations@.take(0) =~= Seq::<Conversation>::empty());
        assert(groups@.take(0) =~= Seq::<ConversationGroup>::empty());
        while j < conversations.len()
            invariant
                j <= conversations@.len(),
                groups@.len() == conversations@.len(),
                tid == opt_view(*transient),
                listed_here@ == members(conversations@.take(j as int), groups@.take(j as int), tid, g),
            decreases conversations.len() - j,
        {
            assert(conversations@.take(j as int + 1).drop_last() =~= conversations@.take(j as int));
            assert(groups@.take(j as int + 1).drop_last() =~= groups@.take(j as int));
            assert(conversations@.take(j as int + 1).last() == conversations@[j as int]);
            assert(groups@.take(j as int + 1).last() == groups@[j as int]);
            let c = &conversations[j];
            let transient_here = match transient {
                Some(id) => crate::attachments::same_str(id.as_str(), c.id.as_str()),
                None => false,
            };
            if !c.temporary && !transient_here && groups[j] == g {
                listed_here.push(j);
            }
            j += 1;
        }
        assert(conversations@.take(conversations@.len() as int) =~= conversations@);
        assert(groups@.take(groups@.len() as int) =~= groups@);
        let ghost before = result@.map_values(|p: (ConversationGroup, Vec<usize>)| (p.0, p.1@));
        if listed_here.len() > 0 {
            result.insert(0, (g, listed_here));
            assert(result@.map_values(|p: (ConversationGroup, Vec<usize>)| (p.0, p.1@)) =~= seq![
                (g, members(conversations@, groups@, tid, g)),
            ] + before);
        }
    }
    assert(plausible_groups(conversations@, groups@));
    result
}

} // verus!
