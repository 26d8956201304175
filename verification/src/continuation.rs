//! When a response is continued, providers may stream the prefilled text and reasoning again
//! before the new part. The normalizer removes exactly that replay from the stream.
use vstd::prelude::*;
use crate::domain::{opt_view, GenerationEvent, Message, MessageRole};
use crate::text::{chars_of, has_prefix, push_all, string_of};

verus! {

/// Whether `a` and `b` differ at a position that both have.
pub open spec fn diverged(a: Seq<char>, b: Seq<char>) -> bool {
    exists|i: int| 0 <= i < a.len() && i < b.len() && a[i] != b[i]
}

/// A stream with the replayed `prefix` removed: the part after the prefix when the stream
/// starts with it, else the whole stream.
pub open spec fn without_replay(stream: Seq<char>, prefix: Seq<char>) -> Seq<char> {
    if has_prefix(stream, prefix) {
        stream.skip(prefix.len() as int)
    } else {
        stream
    }
}

proof fn lemma_neither_prefix_diverges(a: Seq<char>, b: Seq<char>)
    requires
        !has_prefix(a, b),
        !has_prefix(b, a),
    ensures
        diverged(a, b),
{
    if a.len() <= b.len() {
        assert(!(b.take(a.len() as int) =~= a));
        let i = choose|i: int| 0 <= i < a.len() && b.take(a.len() as int)[i] != a[i];
        assert(b.take(a.len() as int)[i] == b[i]);
        assert(a[i] != b[i]);
    } else {
        assert(!(a.take(b.len() as int) =~= b));
        let i = choose|i: int| 0 <= i < b.len() && a.take(b.len() as int)[i] != b[i];
        assert(a.take(b.len() as int)[i] == a[i]);
        assert(a[i] != b[i]);
    }
}

proof fn lemma_diverged_extends(a: Seq<char>, d: Seq<char>, b: Seq<char>)
    requires
        diverged(a, b),
    ensures
        diverged(a + d, b),
        !has_prefix(a + d, b),
{
    let i = choose|i: int| 0 <= i < a.len() && i < b.len() && a[i] != b[i];
    assert((a + d)[i] == a[i]);
    if has_prefix(a + d, b) {
        assert((a + d).take(b.len() as int)[i] == b[i]);
    }
}

/// What a filter on track shows of the stream it took: the part after the prefix once the
/// stream has replayed it; the whole stream once it has left the prefix (or when there is no
/// prefix); nothing while it is still a proper start of the prefix.
pub open spec fn shown(consumed: Seq<char>, prefix: Seq<char>) -> Seq<char> {
    if has_prefix(consumed, prefix) {
        consumed.skip(prefix.len() as int)
    } else if prefix.len() == 0 || diverged(consumed, prefix) {
        consumed
    } else {
        Seq::empty()
    }
}

/// Removes a known prefix from a stream of text deltas.
pub struct PrefixFilter {
    prefix: Vec<char>,
    pending: Vec<char>,
    replayed: bool,
    passthrough: bool,
    consumed: Ghost<Seq<char>>,
    emitted: Ghost<Seq<char>>,
}

impl PrefixFilter {
    /// Everything pushed so far.
    pub closed spec fn consumed_view(&self) -> Seq<char> {
        self.consumed@
    }

    /// Everything returned so far.
    pub closed spec fn emitted_view(&self) -> Seq<char> {
        self.emitted@
    }

    pub closed spec fn prefix_view(&self) -> Seq<char> {
        self.prefix@
    }

    /// The filter is still on track to remove the prefix exactly.
    pub closed spec fn good(&self) -> bool {
        if self.replayed {
            &&& self.pending@.len() == 0
            &&& has_prefix(self.consumed_view(), self.prefix@)
            &&& self.emitted_view() == self.consumed_view().skip(self.prefix@.len() as int)
        } else if self.passthrough {
            &&& self.pending@.len() == 0
            &&& self.emitted_view() == self.consumed_view()
            &&& (self.prefix@.len() == 0 || diverged(self.consumed_view(), self.prefix@))
        } else {
            &&& self.prefix@.len() > 0
            &&& self.pending@ == self.consumed_view()
            &&& self.emitted_view().len() == 0
            &&& self.consumed_view().len() < self.prefix@.len()
            &&& self.prefix@.take(self.consumed_view().len() as int) == self.consumed_view()
        }
    }

    /// What was shown is the whole stream, or the stream after an exact replay of the prefix;
    /// anything held back is a proper start of the prefix. Nothing else is ever dropped.
    pub closed spec fn sound(&self) -> bool {
        if self.replayed {
            &&& self.pending@.len() == 0
            &&& has_prefix(self.consumed_view(), self.prefix@)
            &&& self.emitted_view() == self.consumed_view().skip(self.prefix@.len() as int)
        } else if self.passthrough {
            &&& self.pending@.len() == 0
            &&& self.emitted_view() == self.consumed_view()
        } else {
            &&& self.prefix@.len() > 0
            &&& self.pending@ == self.consumed_view()
            &&& self.emitted_view().len() == 0
            &&& self.consumed_view().len() < self.prefix@.len()
            &&& self.prefix@.take(self.consumed_view().len() as int) == self.consumed_view()
        }
    }

    /// A filter that is on track has shown the whole stream, or the stream after an exact
    /// replay of the prefix, and holds back nothing but a proper start of the prefix.
    pub proof fn lemma_good_is_sound(&self)
        ensures
            self.good() ==> self.sound(),
    {
    }

    /// A filter that is on track has shown exactly `shown` of what it took: every delta's
    /// output is what this adds to it.
    pub proof fn lemma_good_shows(&self)
        ensures
            self.good() ==> self.emitted_view() == shown(self.consumed_view(), self.prefix_view()),
    {
        if self.good() {
            if !self.replayed && self.passthrough && self.prefix@.len() > 0 {
                lemma_diverged_extends(self.consumed@, Seq::empty(), self.prefix@);
                assert(self.consumed@ + Seq::<char>::empty() =~= self.consumed@);
            }
            if !self.replayed && self.passthrough && self.prefix@.len() == 0 {
                assert(self.consumed@.take(0) =~= Seq::<char>::empty());
                assert(self.consumed@.skip(0) =~= self.consumed@);
            }
            if !self.replayed && !self.passthrough {
                assert(!has_prefix(self.consumed@, self.prefix@));
                if diverged(self.consumed@, self.prefix@) {
                    let i = choose|i: int| 0 <= i < self.consumed@.len() && i < self.prefix@.len()
                        && self.consumed@[i] != self.prefix@[i];
                    assert(self.prefix@.take(self.consumed@.len() as int)[i] == self.prefix@[i]);
                }
            }
        }
    }

    /// Characters held back because they may still turn out to be the replay.
    pub closed spec fn pending_view(&self) -> Seq<char> {
        self.pending@
    }

    pub closed spec fn wf(&self) -> bool {
        (self.replayed || self.passthrough) ==> self.pending@.len() == 0
    }

    /// A filter for a stream that may begin with `prefix`.
    pub fn new(prefix: Vec<char>) -> (r: PrefixFilter)
        ensures
            r.prefix_view() == prefix@,
            r.good(),
            r.wf(),
            r.consumed_view() == Seq::<char>::empty(),
            r.emitted_view() == Seq::<char>::empty(),
            r.pending_view().len() == 0,
    {
        let passthrough = prefix.len() == 0;
        let r = PrefixFilter {
            prefix,
            pending: Vec::new(),
            replayed: false,
            passthrough,
            consumed: Ghost(Seq::empty()),
            emitted: Ghost(Seq::empty()),
        };
        assert(r.prefix@.take(0) =~= Seq::<char>::empty());
        r
    }

    /// Takes the next delta and returns what may be shown of it, if anything.
    pub fn push(&mut self, delta: String) -> (r: Option<String>)
        requires
            old(self).wf(),
        ensures
            final(self).wf(),
            final(self).prefix_view() == old(self).prefix_view(),
            final(self).consumed_view() == old(self).consumed_view() + delta@,
            final(self).emitted_view() == old(self).emitted_view() + match r {
                Some(s) => s@,
                None => Seq::<char>::empty(),
            },
            r matches Some(s) ==> s@.len() > 0,
            old(self).good() ==> final(self).good(),
            old(self).sound() ==> final(self).sound(),
    {
        let d = chars_of(delta.as_str());
        proof {
            if self.replayed && self.good() {
                assert(has_prefix(self.consumed@ + d@, self.prefix@)) by {
                    assert((self.consumed@ + d@).take(self.prefix@.len() as int)
                        =~= self.consumed@.take(self.prefix@.len() as int));
                }
                assert((self.consumed@ + d@).skip(self.prefix@.len() as int) =~= self.consumed@.skip(
                    self.prefix@.len() as int,
                ) + d@);
            }
            if !self.replayed && self.passthrough && self.good() && self.prefix@.len() > 0 {
                lemma_diverged_extends(self.consumed@, d@, self.prefix@);
            }
            if self.replayed && self.sound() {
                assert(has_prefix(self.consumed@ + d@, self.prefix@)) by {
                    assert((self.consumed@ + d@).take(self.prefix@.len() as int)
                        =~= self.consumed@.take(self.prefix@.len() as int));
                }
                assert((self.consumed@ + d@).skip(self.prefix@.len() as int) =~= self.consumed@.skip(
                    self.prefix@.len() as int,
                ) + d@);
            }
        }
        if self.replayed || self.passthrough {
            self.consumed = Ghost(self.consumed@ + d@);
            if d.len() == 0 {
                assert(self.emitted@ + Seq::<char>::empty() =~= self.emitted@);
                return None;
            }
            self.emitted = Ghost(self.emitted@ + delta@);
            return Some(delta);
        }
        push_all(&mut self.pending, &d);
        self.consumed = Ghost(self.consumed@ + d@);
        let n = self.prefix.len();
        let m = self.pending.len();
        if m <= n && crate::text::match_at(&self.prefix, 0, &self.pending) {
            proof {
                assert(self.prefix@.subrange(0, m as int) =~= self.prefix@.take(m as int));
            }
            if m == n {
                proof {
                    assert(self.pending@ =~= self.prefix@);
                    if self.pending@ == self.consumed@ {
                        assert(self.consumed@.skip(n as int) =~= Seq::<char>::empty());
                    }
                }
                self.pending = Vec::new();
                self.replayed = true;
            }
            assert(self.emitted@ + Seq::<char>::empty() =~= self.emitted@);
            return None;
        }
        if n <= m && crate::text::match_at(&self.pending, 0, &self.prefix) {
            let suffix = crate::text::slice_chars(&self.pending, n, m);
            proof {
                assert(self.pending@.subrange(0, n as int) =~= self.pending@.take(n as int));
                if self.pending@ == self.consumed@ {
                    assert(suffix@ =~= self.consumed@.skip(n as int));
                }
            }
            self.pending = Vec::new();
            self.replayed = true;
            if suffix.len() == 0 {
                assert(self.emitted@ + Seq::<char>::empty() =~= self.emitted@);
                return None;
            }
            self.emitted = Ghost(self.emitted@ + suffix@);
            return Some(string_of(&suffix));
        }
        proof {
            if m == 0 {
                assert(self.prefix@.subrange(0, 0) =~= self.pending@);
            }
            if m <= n {
                assert(self.prefix@.subrange(0, m as int) =~= self.prefix@.take(m as int));
            }
            if n <= m {
                assert(self.pending@.subrange(0, n as int) =~= self.pending@.take(n as int));
            }
            if self.pending@ == self.consumed@ {
                lemma_neither_prefix_diverges(self.consumed@, self.prefix@);
            }
            assert(self.emitted@.len() == 0 ==> self.emitted@ + self.pending@ =~= self.pending@);
        }
        self.passthrough = true;
        let out = string_of(&self.pending);
        self.emitted = Ghost(self.emitted@ + self.pending@);
        self.pending = Vec::new();
        Some(out)
    }

    /// Releases what was held back; the stream has ended or moved on.
    pub fn finish(&mut self) -> (r: Option<String>)
        requires
            old(self).wf(),
        ensures
            final(self).wf(),
            final(self).prefix_view() == old(self).prefix_view(),
            final(self).consumed_view() == old(self).consumed_view(),
            final(self).emitted_view() == old(self).emitted_view() + match r {
                Some(s) => s@,
                None => Seq::<char>::empty(),
            },
            r matches Some(s) ==> s@.len() > 0,
            final(self).pending_view().len() == 0,
            old(self).good() ==> final(self).emitted_view() == without_replay(
                final(self).consumed_view(),
                final(self).prefix_view(),
            ),
            old(self).good() && old(self).pending_view().len() == 0 ==> final(self).good(),
            old(self).sound() ==> final(self).sound(),
    {
        proof {
            if self.good() && !self.replayed && self.passthrough && self.prefix@.len() > 0 {
                lemma_diverged_extends(self.consumed@, Seq::empty(), self.prefix@);
                assert(self.consumed@ + Seq::<char>::empty() =~= self.consumed@);
            }
            if self.good() && !self.replayed && self.passthrough && self.prefix@.len() == 0 {
                assert(self.consumed@.take(0) =~= Seq::<char>::empty());
                assert(self.consumed@.skip(0) =~= self.consumed@);
            }
            if self.good() && !self.replayed && !self.passthrough {
                assert(!has_prefix(self.consumed@, self.prefix@));
            }
        }
        if self.pending.len() == 0 {
            assert(self.emitted@ + Seq::<char>::empty() =~= self.emitted@);
            return None;
        }
        self.passthrough = true;
        let out = string_of(&self.pending);
        proof {
            if self.emitted@.len() == 0 {
                assert(self.emitted@ + self.pending@ =~= self.pending@);
            }
        }
        self.emitted = Ghost(self.emitted@ + self.pending@);
        self.pending = Vec::new();
        Some(out)
    }

    pub fn has_pending(&self) -> (r: bool)
        ensures
            r == (self.pending_view().len() > 0),
    {
        self.pending.len() > 0
    }
}

/// The visible text and the reasoning text of an assistant message.
pub open spec fn prefill_parts(m: Option<&Message>) -> (Seq<char>, Seq<char>) {
    match m {
        Some(m) => if m.role == MessageRole::Assistant {
            (m.text@, m.reasoning@)
        } else {
            (Seq::empty(), Seq::empty())
        },
        None => (Seq::empty(), Seq::empty()),
    }
}

/// The text carried by a sequence of events.
pub open spec fn text_of(events: Seq<GenerationEvent>) -> Seq<char>
    decreases events.len(),
{
    if events.len() == 0 {
        Seq::empty()
    } else {
        text_of(events.drop_last()) + match events.last() {
            GenerationEvent::TextDelta(d) => d@,
            _ => Seq::empty(),
        }
    }
}

/// The reasoning carried by a sequence of events.
pub open spec fn reasoning_of(events: Seq<GenerationEvent>) -> Seq<char>
    decreases events.len(),
{
    if events.len() == 0 {
        Seq::empty()
    } else {
        reasoning_of(events.drop_last()) + match events.last() {
            GenerationEvent::ThinkingDelta { delta, .. } => delta@,
            _ => Seq::empty(),
        }
    }
}

proof fn lemma_of_push(events: Seq<GenerationEvent>, e: GenerationEvent)
    ensures
        text_of(events.push(e)) == text_of(events) + match e {
            GenerationEvent::TextDelta(d) => d@,
            _ => Seq::empty(),
        },
        reasoning_of(events.push(e)) == reasoning_of(events) + match e {
            GenerationEvent::ThinkingDelta { delta, .. } => delta@,
            _ => Seq::empty(),
        },
{
    assert(events.push(e).drop_last() =~= events);
}

/// A text or thinking delta carries some text; other events need nothing.
pub open spec fn delta_nonempty(e: GenerationEvent) -> bool {
    match e {
        GenerationEvent::TextDelta(d) => d@.len() > 0,
        GenerationEvent::ThinkingDelta { delta, .. } => delta@.len() > 0,
        _ => true,
    }
}

/// No event of the sequence is an empty delta.
pub open spec fn deltas_nonempty(events: Seq<GenerationEvent>) -> bool {
    forall|i: int| 0 <= i < events.len() ==> delta_nonempty(#[trigger] events[i])
}

/// At most one thinking delta, then at most one text delta.
pub open spec fn thinking_then_text(events: Seq<GenerationEvent>) -> bool {
    &&& events.len() <= 2
    &&& forall|i: int| 0 <= i < events.len() ==> (#[trigger] events[i] is ThinkingDelta || events[i] is TextDelta)
    &&& events.len() == 2 ==> events[0] is ThinkingDelta && events[1] is TextDelta
}

/// Every thinking delta of the sequence names this provider.
pub open spec fn thinking_from(events: Seq<GenerationEvent>, provider_id: Option<String>) -> bool {
    forall|i: int| 0 <= i < events.len() && #[trigger] events[i] is ThinkingDelta ==> events[i]->provider_id == provider_id
}

/// At most one text delta first, then thinking deltas only, three events at most.
pub open spec fn text_then_thinking(events: Seq<GenerationEvent>) -> bool {
    &&& events.len() <= 3
    &&& forall|i: int| 0 <= i < events.len() ==> (#[trigger] events[i] is ThinkingDelta || (i == 0 && events[i] is TextDelta))
}

/// Whether an event ends the part of the stream in which a replay can appear.
pub open spec fn ends_replay(e: GenerationEvent) -> bool {
    match e {
        GenerationEvent::ToolCallObserved { .. } | GenerationEvent::TranscriptAppended(_)
        | GenerationEvent::TranscriptContinued(_) | GenerationEvent::Completed
        | GenerationEvent::Failed(_) => true,
        _ => false,
    }
}

/// What one call of `ContinuationNormalizer::normalize` does: from the normalizer `before`,
/// the event `event` leaves the normalizer `after` and the events `out` to apply.
pub open spec fn normalize_step(
    before: ContinuationNormalizer,
    event: GenerationEvent,
    after: ContinuationNormalizer,
    out: Seq<GenerationEvent>,
) -> bool {
    &&& after.wf()
    &&& !before.is_active() ==> out == seq![event] && after == before
    &&& before.is_active() ==> {
        &&& after.text_filter().prefix_view() == before.text_filter().prefix_view()
        &&& after.reasoning_filter().prefix_view() == before.reasoning_filter().prefix_view()
        &&& after.text_filter().consumed_view() == before.text_filter().consumed_view() + text_of(seq![event])
        &&& after.reasoning_filter().consumed_view() == before.reasoning_filter().consumed_view()
            + reasoning_of(seq![event])
        &&& after.text_filter().emitted_view() == before.text_filter().emitted_view() + text_of(out)
        &&& after.reasoning_filter().emitted_view() == before.reasoning_filter().emitted_view() + reasoning_of(
            out,
        )
        &&& before.text_filter().sound() ==> after.text_filter().sound()
        &&& before.reasoning_filter().sound() ==> after.reasoning_filter().sound()
        &&& event is TextDelta ==> (before.text_filter().good() ==> after.text_filter().good())
        &&& event is TextDelta ==> (before.reasoning_filter().good() && before.reasoning_filter().pending_view().len() == 0
            ==> after.reasoning_filter().good() && after.reasoning_filter().pending_view().len() == 0)
        &&& event is ThinkingDelta ==> (before.reasoning_filter().good()
            && before.reasoning_filter().pending_view().len() == 0 ==> after.reasoning_filter().good())
        &&& (event is TextDelta || ends_replay(event)) ==> (before.reasoning_filter().good()
            ==> after.reasoning_filter().emitted_view() == without_replay(
            after.reasoning_filter().consumed_view(),
            after.reasoning_filter().prefix_view(),
        ))
        &&& (event is ThinkingDelta || ends_replay(event)) ==> (before.text_filter().good()
            ==> after.text_filter().emitted_view() == without_replay(
            after.text_filter().consumed_view(),
            after.text_filter().prefix_view(),
        ))
        &&& ends_replay(event) ==> out.last() == event
        &&& (event is Completed || event is Failed || event is TranscriptContinued)
            ==> !after.is_active()
        &&& !(event is Completed || event is Failed || event is TranscriptContinued) ==> after.is_active()
    }
    &&& before.is_active() ==> deltas_nonempty(out)
    &&& before.is_active() && event is TextDelta ==> thinking_then_text(out)
    &&& before.is_active() && event is ThinkingDelta ==> text_then_thinking(out)
    &&& before.is_active() && ends_replay(event) ==> out.len() >= 1 && thinking_then_text(out.drop_last())
    &&& before.is_active() && event is ThinkingDelta && before.reasoning_filter().pending_view().len() == 0
        ==> thinking_from(out, event->provider_id)
    &&& before.is_active() && !(event is TextDelta || event is ThinkingDelta || ends_replay(event))
        ==> out == seq![event] && after == before
}

/// Removes the replayed prefill from the text and reasoning of a continued response.
pub struct ContinuationNormalizer {
    text: PrefixFilter,
    reasoning: PrefixFilter,
    reasoning_provider_id: Option<Option<String>>,
    active: bool,
}

impl ContinuationNormalizer {
    /// The filter of the visible text.
    pub closed spec fn text_filter(&self) -> PrefixFilter {
        self.text
    }

    /// The filter of the reasoning text.
    pub closed spec fn reasoning_filter(&self) -> PrefixFilter {
        self.reasoning
    }

    pub closed spec fn is_active(&self) -> bool {
        self.active
    }

    pub closed spec fn wf(&self) -> bool {
        &&& self.text.wf()
        &&& self.reasoning.wf()
        &&& self.reasoning.pending_view().len() == 0 ==> self.reasoning_provider_id is None
    }

    /// A normalizer for a stream that continues `prefill`.
    pub fn new(prefill: Option<&Message>) -> (r: ContinuationNormalizer)
        ensures
            r.wf(),
            r.is_active(),
            r.text_filter().good(),
            r.reasoning_filter().good(),
            r.text_filter().prefix_view() == prefill_parts(prefill).0,
            r.reasoning_filter().prefix_view() == prefill_parts(prefill).1,
            r.text_filter().consumed_view().len() == 0 && r.text_filter().emitted_view().len() == 0,
            r.reasoning_filter().consumed_view().len() == 0 && r.reasoning_filter().emitted_view().len() == 0,
            r.text_filter().pending_view().len() == 0 && r.reasoning_filter().pending_view().len() == 0,
            fresh(r),
    {
        let (text, reasoning) = match prefill {
            Some(m) => if m.role == MessageRole::Assistant {
                (chars_of(m.text.as_str()), chars_of(m.reasoning.as_str()))
            } else {
                (Vec::new(), Vec::new())
            },
            None => (Vec::new(), Vec::new()),
        };
        ContinuationNormalizer {
            text: PrefixFilter::new(text),
            reasoning: PrefixFilter::new(reasoning),
            reasoning_provider_id: None,
            active: true,
        }
    }

    fn flush_text(&mut self) -> (r: Vec<GenerationEvent>)
        requires
            old(self).wf(),
        ensures
            final(self).wf(),
            final(self).reasoning_filter() == old(self).reasoning,
            final(self).active == old(self).active,
            final(self).reasoning_provider_id == old(self).reasoning_provider_id,
            final(self).text_filter().prefix_view() == old(self).text_filter().prefix_view(),
            final(self).text_filter().consumed_view() == old(self).text_filter().consumed_view(),
            final(self).text_filter().emitted_view() == old(self).text_filter().emitted_view() + text_of(r@),
            reasoning_of(r@).len() == 0,
            final(self).text_filter().pending_view().len() == 0,
            old(self).text_filter().good() ==> final(self).text_filter().emitted_view() == without_replay(
                final(self).text_filter().consumed_view(),
                final(self).text_filter().prefix_view(),
            ),
            old(self).text_filter().good() && old(self).text_filter().pending_view().len() == 0 ==> final(self).text_filter().good(),
            old(self).text_filter().sound() ==> final(self).text_filter().sound(),
            forall|i: int| 0 <= i < r@.len() ==> #[trigger] r@[i] is TextDelta,
            r@.len() <= 1,
            deltas_nonempty(r@),
    {
        let mut r: Vec<GenerationEvent> = Vec::new();
        match self.text.finish() {
            Some(d) => {
                r.push(GenerationEvent::TextDelta(d));
                proof {
                    lemma_of_push(Seq::empty(), r@[0]);
                    assert(r@ =~= Seq::<GenerationEvent>::empty().push(r@[0]));
                }
            },
            None => {},
        }
        r
    }

    fn flush_reasoning(&mut self) -> (r: Vec<GenerationEvent>)
        requires
            old(self).wf(),
        ensures
            final(self).wf(),
            final(self).text_filter() == old(self).text,
            final(self).active == old(self).active,
            final(self).reasoning_provider_id is None,
            final(self).reasoning_filter().prefix_view() == old(self).reasoning_filter().prefix_view(),
            final(self).reasoning_filter().consumed_view() == old(self).reasoning_filter().consumed_view(),
            final(self).reasoning_filter().emitted_view() == old(self).reasoning_filter().emitted_view() + reasoning_of(r@),
            text_of(r@).len() == 0,
            final(self).reasoning_filter().pending_view().len() == 0,
            old(self).reasoning_filter().good() ==> final(self).reasoning_filter().emitted_view() == without_replay(
                final(self).reasoning_filter().consumed_view(),
                final(self).reasoning_filter().prefix_view(),
            ),
            old(self).reasoning_filter().good() && old(self).reasoning_filter().pending_view().len() == 0 ==> final(self).reasoning_filter().good(),
            old(self).reasoning_filter().sound() ==> final(self).reasoning_filter().sound(),
            forall|i: int| 0 <= i < r@.len() ==> #[trigger] r@[i] is ThinkingDelta,
            r@.len() <= 1,
            deltas_nonempty(r@),
    {
        let provider_id = match self.reasoning_provider_id.take() {
            Some(p) => p,
            None => None,
        };
        let mut r: Vec<GenerationEvent> = Vec::new();
        match self.reasoning.finish() {
            Some(delta) => {
                r.push(GenerationEvent::ThinkingDelta { provider_id, delta });
                proof {
                    lemma_of_push(Seq::empty(), r@[0]);
                    assert(r@ =~= Seq::<GenerationEvent>::empty().push(r@[0]));
                }
            },
            None => {},
        }
        r
    }

    /// Rewrites one event of the stream into the events to apply in its place.
    pub fn normalize(&mut self, event: GenerationEvent) -> (r: Vec<GenerationEvent>)
        requires
            old(self).wf(),
        ensures
            normalize_step(*old(self), event, *final(self), r@),
    {
        self.normalize_each(event)
    }

    /// The events to apply in place of `event`, one clause at a time.
    fn normalize_each(&mut self, event: GenerationEvent) -> (r: Vec<GenerationEvent>)
        requires
            old(self).wf(),
        ensures
            final(self).wf(),
            !old(self).is_active() ==> r@ == seq![event] && *final(self) == *old(self),
            old(self).is_active() ==> {
                &&& final(self).text_filter().prefix_view() == old(self).text_filter().prefix_view()
                &&& final(self).reasoning_filter().prefix_view() == old(self).reasoning_filter().prefix_view()
                &&& final(self).text_filter().consumed_view() == old(self).text_filter().consumed_view() + text_of(seq![event])
                &&& final(self).reasoning_filter().consumed_view() == old(self).reasoning_filter().consumed_view()
                    + reasoning_of(seq![event])
                &&& final(self).text_filter().emitted_view() == old(self).text_filter().emitted_view() + text_of(r@)
                &&& final(self).reasoning_filter().emitted_view() == old(self).reasoning_filter().emitted_view() + reasoning_of(
                    r@,
                )
                &&& old(self).text_filter().sound() ==> final(self).text_filter().sound()
                &&& old(self).reasoning_filter().sound() ==> final(self).reasoning_filter().sound()
                &&& event is TextDelta ==> (old(self).text_filter().good() ==> final(self).text_filter().good())
                &&& event is TextDelta ==> (old(self).reasoning_filter().good() && old(self).reasoning_filter().pending_view().len() == 0
                    ==> final(self).reasoning_filter().good() && final(self).reasoning_filter().pending_view().len() == 0)
                &&& event is ThinkingDelta ==> (old(self).reasoning_filter().good()
                    && old(self).reasoning_filter().pending_view().len() == 0 ==> final(self).reasoning_filter().good())
                &&& (event is TextDelta || ends_replay(event)) ==> (old(self).reasoning_filter().good()
                    ==> final(self).reasoning_filter().emitted_view() == without_replay(
                    final(self).reasoning_filter().consumed_view(),
                    final(self).reasoning_filter().prefix_view(),
                ))
                &&& (event is ThinkingDelta || ends_replay(event)) ==> (old(self).text_filter().good()
                    ==> final(self).text_filter().emitted_view() == without_replay(
                    final(self).text_filter().consumed_view(),
                    final(self).text_filter().prefix_view(),
                ))
                &&& ends_replay(event) ==> r@.last() == event
                &&& (event is Completed || event is Failed || event is TranscriptContinued)
                    ==> !final(self).is_active()
                &&& !(event is Completed || event is Failed || event is TranscriptContinued) ==> final(self).is_active()
            },
            old(self).is_active() ==> deltas_nonempty(r@),
            old(self).is_active() && event is TextDelta ==> thinking_then_text(r@),
            old(self).is_active() && event is ThinkingDelta ==> text_then_thinking(r@),
            old(self).is_active() && ends_replay(event) ==> r@.len() >= 1 && thinking_then_text(r@.drop_last()),
            old(self).is_active() && event is ThinkingDelta && old(self).reasoning_filter().pending_view().len() == 0
                ==> thinking_from(r@, event->provider_id),
            old(self).is_active() && !(event is TextDelta || event is ThinkingDelta || ends_replay(event))
                ==> r@ == seq![event] && *final(self) == *old(self),
    {
        if !self.active {
            let mut r = Vec::new();
            r.push(event);
            assert(r@ =~= seq![event]);
            return r;
        }
        proof {
            assert(seq![event].drop_last() =~= Seq::<GenerationEvent>::empty());
            lemma_of_push(Seq::empty(), event);
            assert(seq![event] =~= Seq::<GenerationEvent>::empty().push(event));
        }
        match event {
            GenerationEvent::TextDelta(delta) => {
                let mut events = self.flush_reasoning();
                let ghost flushed = events@;
                match self.text.push(delta) {
                    Some(d) => {
                        events.push(GenerationEvent::TextDelta(d));
                        proof {
                            lemma_of_push(flushed, events@.last());
                            assert(events@ == flushed.push(events@.last()));
                        }
                    },
                    None => {},
                }
                proof {
                    lemma_only_thinking_has_no_text(flushed);
                    assert(thinking_then_text(events@));
                    assert(deltas_nonempty(events@));
                }
                events
            },
            GenerationEvent::ThinkingDelta { provider_id, delta } => {
                let mut events = self.flush_text();
                let ghost after_text = events@;
                if self.reasoning.has_pending() && !same_provider(
                    &self.reasoning_provider_id,
                    &provider_id,
                ) {
                    let more = self.flush_reasoning();
                    let ghost before = events@;
                    let mut more = more;
                    let ghost m = more@;
                    events.append(&mut more);
                    proof {
                        lemma_of_append(before, m);
                    }
                }
                let ghost before_push = events@;
                let output_provider_id = match &self.reasoning_provider_id {
                    Some(p) => clone_provider(p),
                    None => clone_provider(&provider_id),
                };
                if !self.reasoning.has_pending() {
                    self.reasoning_provider_id = Some(provider_id);
                }
                match self.reasoning.push(delta) {
                    Some(d) => {
                        events.push(
                            GenerationEvent::ThinkingDelta { provider_id: output_provider_id, delta: d },
                        );
                        proof {
                            lemma_of_push(before_push, events@.last());
                            assert(events@ == before_push.push(events@.last()));
                        }
                    },
                    None => {},
                }
                if !self.reasoning.has_pending() {
                    self.reasoning_provider_id = None;
                }
                proof {
                    lemma_only_text_has_no_reasoning(after_text);
                    assert(text_then_thinking(events@));
                    assert(deltas_nonempty(events@));
                }
                events
            },
            GenerationEvent::TranscriptContinued(m) => {
                let mut events = self.flush_content();
                let ghost before = events@;
                let e = GenerationEvent::TranscriptContinued(m);
                let ghost ge = e;
                events.push(e);
                proof {
                    lemma_of_push(before, ge);
                }
                self.active = false;
                events
            },
            GenerationEvent::ToolCallObserved { .. } | GenerationEvent::TranscriptAppended(_)
            | GenerationEvent::Completed | GenerationEvent::Failed(_) => {
                let ghost ge = event;
                let terminal = match &event {
                    GenerationEvent::Completed | GenerationEvent::Failed(_) => true,
                    _ => false,
                };
                let mut events = self.flush_content();
                let ghost before = events@;
                events.push(event);
                proof {
                    lemma_of_push(before, ge);
                }
                if terminal {
                    self.active = false;
                }
                events
            },
            _ => {
                let ghost ge = event;
                let mut r = Vec::new();
                r.push(event);
                proof {
                    lemma_of_push(Seq::empty(), ge);
                    assert(r@ =~= Seq::<GenerationEvent>::empty().push(ge));
                }
                r
            },
        }
    }

    fn flush_content(&mut self) -> (r: Vec<GenerationEvent>)
        requires
            old(self).wf(),
        ensures
            final(self).wf(),
            final(self).active == old(self).active,
            final(self).text_filter().prefix_view() == old(self).text_filter().prefix_view(),
            final(self).reasoning_filter().prefix_view() == old(self).reasoning_filter().prefix_view(),
            final(self).text_filter().consumed_view() == old(self).text_filter().consumed_view(),
            final(self).reasoning_filter().consumed_view() == old(self).reasoning_filter().consumed_view(),
            final(self).text_filter().emitted_view() == old(self).text_filter().emitted_view() + text_of(r@),
            final(self).reasoning_filter().emitted_view() == old(self).reasoning_filter().emitted_view() + reasoning_of(r@),
            old(self).text_filter().good() ==> final(self).text_filter().emitted_view() == without_replay(
                final(self).text_filter().consumed_view(),
                final(self).text_filter().prefix_view(),
            ),
            old(self).reasoning_filter().good() ==> final(self).reasoning_filter().emitted_view() == without_replay(
                final(self).reasoning_filter().consumed_view(),
                final(self).reasoning_filter().prefix_view(),
            ),
            old(self).text_filter().sound() ==> final(self).text_filter().sound(),
            old(self).reasoning_filter().sound() ==> final(self).reasoning_filter().sound(),
            thinking_then_text(r@),
            deltas_nonempty(r@),
    {
        let mut events = self.flush_reasoning();
        let mut more = self.flush_text();
        let ghost a = events@;
        let ghost b = more@;
        events.append(&mut more);
        proof {
            lemma_of_append(a, b);
            lemma_only_thinking_has_no_text(a);
            lemma_only_text_has_no_reasoning(b);
        }
        events
    }
}

proof fn lemma_of_append(a: Seq<GenerationEvent>, b: Seq<GenerationEvent>)
    ensures
        text_of(a + b) == text_of(a) + text_of(b),
        reasoning_of(a + b) == reasoning_of(a) + reasoning_of(b),
    decreases b.len(),
{
    if b.len() == 0 {
        assert(a + b =~= a);
    } else {
        lemma_of_append(a, b.drop_last());
        assert((a + b).drop_last() =~= a + b.drop_last());
    }
}

proof fn lemma_only_thinking_has_no_text(a: Seq<GenerationEvent>)
    requires
        forall|i: int| 0 <= i < a.len() ==> #[trigger] a[i] is ThinkingDelta,
    ensures
        text_of(a).len() == 0,
    decreases a.len(),
{
    if a.len() > 0 {
        lemma_only_thinking_has_no_text(a.drop_last());
    }
}

proof fn lemma_only_text_has_no_reasoning(a: Seq<GenerationEvent>)
    requires
        forall|i: int| 0 <= i < a.len() ==> #[trigger] a[i] is TextDelta,
    ensures
        reasoning_of(a).len() == 0,
    decreases a.len(),
{
    if a.len() > 0 {
        lemma_only_text_has_no_reasoning(a.drop_last());
    }
}

/// Whether a provider was recorded and it is `provider_id` (both absent counts as the same).
fn same_provider(stored: &Option<Option<String>>, provider_id: &Option<String>) -> (r: bool)
    ensures
        r == (match *stored {
            Some(p) => opt_view(p) == opt_view(*provider_id),
            None => false,
        }),
{
    match stored {
        None => false,
        Some(p) => match (p, provider_id) {
            (Some(a), Some(b)) => {
                let e = *a == *b;
                e
            },
            (None, None) => true,
            _ => false,
        },
    }
}

/// A copy of a provider id.
fn clone_provider(p: &Option<String>) -> (r: Option<String>)
    ensures
        r == *p,
{
    match p {
        Some(s) => Some(s.clone()),
        None => None,
    }
}

/// The events of the sequences, one sequence after another.
pub open spec fn flatten(outputs: Seq<Seq<GenerationEvent>>) -> Seq<GenerationEvent>
    decreases outputs.len(),
{
    if outputs.len() == 0 {
        Seq::empty()
    } else {
        flatten(outputs.drop_last()) + outputs.last()
    }
}

/// The normalizer takes the events one by one: from `states[i]`, the event `events[i]` gives
/// `outputs[i]` and leaves `states[i + 1]`, as `ContinuationNormalizer::normalize` states.
pub open spec fn normalizer_chain(
    events: Seq<GenerationEvent>,
    states: Seq<ContinuationNormalizer>,
    outputs: Seq<Seq<GenerationEvent>>,
) -> bool {
    &&& states.len() == events.len() + 1
    &&& outputs.len() == events.len()
    &&& forall|i: int| 0 <= i < events.len() ==> #[trigger] normalize_step(states[i], events[i], states[i + 1], outputs[i])
}

/// A normalizer as `ContinuationNormalizer::new` leaves it: active, on track, and with nothing
/// taken, shown or held back.
pub open spec fn fresh(n: ContinuationNormalizer) -> bool {
    &&& n.wf()
    &&& n.is_active()
    &&& n.text_filter().good()
    &&& n.reasoning_filter().good()
    &&& n.text_filter().consumed_view().len() == 0 && n.text_filter().emitted_view().len() == 0
    &&& n.reasoning_filter().consumed_view().len() == 0 && n.reasoning_filter().emitted_view().len() == 0
    &&& n.text_filter().pending_view().len() == 0 && n.reasoning_filter().pending_view().len() == 0
}

/// Every event is a text delta with some text.
pub open spec fn nonempty_text_deltas(events: Seq<GenerationEvent>) -> bool {
    forall|i: int| 0 <= i < events.len() ==> #[trigger] events[i] is TextDelta && delta_nonempty(events[i])
}

proof fn lemma_no_thinking(out: Seq<GenerationEvent>)
    requires
        deltas_nonempty(out),
        reasoning_of(out).len() == 0,
    ensures
        forall|i: int| 0 <= i < out.len() ==> !(#[trigger] out[i] is ThinkingDelta),
    decreases out.len(),
{
    if out.len() > 0 {
        let front = out.drop_last();
        assert(deltas_nonempty(front)) by {
            assert forall|i: int| 0 <= i < front.len() implies delta_nonempty(#[trigger] front[i]) by {
                assert(front[i] == out[i]);
            }
        }
        assert(delta_nonempty(out[out.len() - 1]));
        lemma_no_thinking(front);
        assert forall|i: int| 0 <= i < out.len() implies !(#[trigger] out[i] is ThinkingDelta) by {
            if i < out.len() - 1 {
                assert(out[i] == front[i]);
            }
        }
    }
}

proof fn lemma_flatten_take(outputs: Seq<Seq<GenerationEvent>>, k: int)
    requires
        0 < k <= outputs.len(),
    ensures
        flatten(outputs.take(k)) == flatten(outputs.take(k - 1)) + outputs[k - 1],
{
    assert(outputs.take(k).drop_last() =~= outputs.take(k - 1));
}

proof fn lemma_text_deltas_only(out: Seq<GenerationEvent>)
    requires
        thinking_then_text(out),
        deltas_nonempty(out),
        reasoning_of(out).len() == 0,
    ensures
        nonempty_text_deltas(out),
{
    lemma_no_thinking(out);
    assert forall|i: int| 0 <= i < out.len() implies #[trigger] out[i] is TextDelta && delta_nonempty(out[i]) by {
        assert(out[i] is ThinkingDelta || out[i] is TextDelta);
    }
}

proof fn lemma_text_deltas_join(a: Seq<GenerationEvent>, b: Seq<GenerationEvent>)
    requires
        nonempty_text_deltas(a),
        nonempty_text_deltas(b),
    ensures
        nonempty_text_deltas(a + b),
{
    assert forall|i: int| 0 <= i < (a + b).len() implies #[trigger] (a + b)[i] is TextDelta && delta_nonempty((a + b)[i]) by {
        if i < a.len() {
            assert((a + b)[i] == a[i]);
        } else {
            assert((a + b)[i] == b[i - a.len()]);
        }
    }
}

/// Over a run of text deltas, a fresh normalizer stays on track, shows no reasoning, and has
/// shown only text deltas with some text, carrying all the text it has shown.
proof fn lemma_text_prefix(events: Seq<GenerationEvent>, states: Seq<ContinuationNormalizer>, outputs: Seq<Seq<GenerationEvent>>, k: int)
    requires
        normalizer_chain(events, states, outputs),
        fresh(states[0]),
        0 <= k <= events.len(),
        forall|i: int| 0 <= i < k ==> #[trigger] events[i] is TextDelta,
    ensures
        states[k].is_active(),
        states[k].wf(),
        states[k].text_filter().good(),
        states[k].reasoning_filter().good(),
        states[k].reasoning_filter().pending_view().len() == 0,
        states[k].reasoning_filter().consumed_view().len() == 0,
        states[k].reasoning_filter().emitted_view().len() == 0,
        states[k].text_filter().prefix_view() == states[0].text_filter().prefix_view(),
        states[k].text_filter().consumed_view() == text_of(events.take(k)),
        states[k].text_filter().emitted_view() == text_of(flatten(outputs.take(k))),
        nonempty_text_deltas(flatten(outputs.take(k))),
    decreases k,
{
    if k == 0 {
        assert(events.take(0) =~= Seq::<GenerationEvent>::empty());
        assert(outputs.take(0) =~= Seq::<Seq<GenerationEvent>>::empty());
    } else {
        lemma_text_prefix(events, states, outputs, k - 1);
        let i = k - 1;
        let before = states[i];
        let after = states[i + 1];
        let event = events[i];
        let out = outputs[i];
        assert(normalize_step(states[i], events[i], states[i + 1], outputs[i]));
        lemma_of_push(Seq::empty(), event);
        assert(seq![event] =~= Seq::<GenerationEvent>::empty().push(event));
        assert(events.take(k) =~= events.take(k - 1).push(event));
        lemma_of_push(events.take(k - 1), event);
        assert(reasoning_of(seq![event]).len() == 0);
        assert(after.reasoning_filter().consumed_view() =~= Seq::<char>::empty());
        assert(after.reasoning_filter().emitted_view() =~= Seq::<char>::empty()) by {
            assert(has_prefix(Seq::<char>::empty(), after.reasoning_filter().prefix_view())
                ==> after.reasoning_filter().prefix_view().len() == 0);
            assert(Seq::<char>::empty().skip(0) =~= Seq::<char>::empty());
        }
        assert(reasoning_of(out).len() == 0);
        lemma_text_deltas_only(out);
        lemma_flatten_take(outputs, k);
        lemma_of_append(flatten(outputs.take(k - 1)), out);
        lemma_text_deltas_join(flatten(outputs.take(k - 1)), out);
    }
}

/// A continued stream of text deltas that ends in completion comes out as text deltas, each
/// with some text, followed by the completion; together they carry the stream's text without
/// the replayed prefill, and afterwards the normalizer passes every event through unchanged.
pub proof fn lemma_text_stream(events: Seq<GenerationEvent>, states: Seq<ContinuationNormalizer>, outputs: Seq<Seq<GenerationEvent>>)
    requires
        normalizer_chain(events, states, outputs),
        fresh(states[0]),
        events.len() >= 1,
        events.last() is Completed,
        forall|i: int| 0 <= i < events.len() - 1 ==> #[trigger] events[i] is TextDelta,
    ensures
        flatten(outputs).len() >= 1,
        flatten(outputs).last() is Completed,
        nonempty_text_deltas(flatten(outputs).drop_last()),
        text_of(flatten(outputs)) == without_replay(text_of(events), states[0].text_filter().prefix_view()),
        !states.last().is_active(),
{
    let n = events.len() - 1;
    lemma_text_prefix(events, states, outputs, n);
    let before = states[n];
    let after = states[n + 1];
    let event = events[n];
    let out = outputs[n];
    assert(normalize_step(before, event, after, out));
    assert(ends_replay(event));
    lemma_of_push(Seq::empty(), event);
    assert(seq![event] =~= Seq::<GenerationEvent>::empty().push(event));
    assert(events =~= events.take(n).push(event));
    lemma_of_push(events.take(n), event);
    assert(after.reasoning_filter().emitted_view() =~= Seq::<char>::empty()) by {
        assert(after.reasoning_filter().consumed_view() =~= Seq::<char>::empty());
        assert(Seq::<char>::empty().skip(0) =~= Seq::<char>::empty());
    }
    let front = out.drop_last();
    assert(out =~= front.push(event));
    lemma_of_push(front, event);
    assert(deltas_nonempty(front)) by {
        assert forall|i: int| 0 <= i < front.len() implies delta_nonempty(#[trigger] front[i]) by {
            assert(front[i] == out[i]);
        }
    }
    lemma_text_deltas_only(front);
    assert(outputs.take(n + 1) =~= outputs);
    lemma_flatten_take(outputs, n + 1);
    let all = flatten(outputs);
    let earlier = flatten(outputs.take(n));
    assert(all == earlier + front.push(event));
    assert(all == (earlier + front).push(event));
    assert(all.drop_last() =~= earlier + front);
    lemma_text_deltas_join(earlier, front);
    lemma_of_append(earlier, out);
    assert(states.last() == after);
}

} // verus!
