//! The hot-reload state and the rule that turns one watcher event into a
//! change of that state and an action for the embedding program.
//!
//! The watcher delivers its events one at a time and in order. A template
//! update is cached first and published second, so that whoever sees a
//! template on the channel finds it in the cache. A shutdown request ends
//! everything: the program is told to exit, and the state takes no further
//! event.

use crate::cache::TemplateCache;
use crate::channel::{ChannelView, Cursor, PublishFailure, UpdateChannel};
use dioxus::prelude::Template;
use vstd::prelude::*;

verus! {

/// What the watcher reports.
#[derive(Clone, Copy, Debug)]
pub enum HotReloadEvent {
    /// A template was recompiled.
    TemplateUpdated(Template<'static>),
    /// The program has to be rebuilt: stop now.
    Shutdown,
}

/// What the embedding program has to do after an event was handled.
#[derive(Clone, Copy, Debug, PartialEq, Eq, Structural)]
pub enum BridgeAction {
    /// The template is cached and published: wake the waiting subscribers.
    WakeSubscribers,
    /// The template is cached but could not be published: log it and go on.
    ReportFailure(PublishFailure),
    /// End the process at once, with a success status.
    ExitProcess,
}

/// What a hot-reload state is: the templates cached, the channel, and whether
/// a shutdown request was taken.
pub struct HotReloadView {
    /// The templates cached.
    pub templates: Set<Template<'static>>,
    /// The channel on which the latest template is published.
    pub channel: ChannelView,
    /// Whether a shutdown request was taken.
    pub halted: bool,
}

impl HotReloadView {
    /// The channel is in step with itself, and what it shows is cached.
    pub open spec fn wf(self) -> bool {
        &&& self.channel.wf()
        &&& self.channel.latest matches Some(template) ==> self.templates.contains(template)
    }

    /// The state before the first event.
    pub open spec fn initial() -> HotReloadView {
        HotReloadView {
            templates: Set::<Template<'static>>::empty(),
            channel: ChannelView::initial(),
            halted: false,
        }
    }

    /// The action that handling `event` in this state asks for.
    pub open spec fn action_for(self, event: HotReloadEvent) -> BridgeAction {
        if self.halted {
            BridgeAction::ExitProcess
        } else {
            match event {
                HotReloadEvent::Shutdown => BridgeAction::ExitProcess,
                HotReloadEvent::TemplateUpdated(_) => match self.channel.send_result() {
                    Ok(_) => BridgeAction::WakeSubscribers,
                    Err(failure) => BridgeAction::ReportFailure(failure),
                },
            }
        }
    }

    /// The state after `event` was handled.
    pub open spec fn after(self, event: HotReloadEvent) -> HotReloadView {
        if self.halted {
            self
        } else {
            match event {
                HotReloadEvent::Shutdown => HotReloadView {
                    templates: self.templates,
                    channel: self.channel,
                    halted: true,
                },
                HotReloadEvent::TemplateUpdated(template) => HotReloadView {
                    templates: self.templates.insert(template),
                    channel: self.channel.after_send(template),
                    halted: false,
                },
            }
        }
    }

    /// The state after the channel was torn down.
    pub open spec fn after_close(self) -> HotReloadView {
        HotReloadView {
            templates: self.templates,
            channel: self.channel.after_close(),
            halted: self.halted,
        }
    }

    /// The state after each of `events` was handled in turn.
    pub open spec fn after_all(self, events: Seq<HotReloadEvent>) -> HotReloadView
        decreases events.len(),
    {
        if events.len() == 0 {
            self
        } else {
            self.after_all(events.drop_last()).after(events.last())
        }
    }
}

/// The cache and the channel, owned together.
pub struct HotReloadState {
    templates: TemplateCache,
    channel: UpdateChannel,
    halted: bool,
}

impl View for HotReloadState {
    type V = HotReloadView;

    closed spec fn view(&self) -> HotReloadView {
        HotReloadView { templates: self.templates@, channel: self.channel@, halted: self.halted }
    }
}

impl HotReloadState {
    /// The cache holds nothing twice, and the state is as
    /// [`HotReloadView::wf`] says.
    pub closed spec fn wf(&self) -> bool {
        &&& self.templates.wf()
        &&& self@.wf()
    }

    /// What [`HotReloadState::wf`] says of the view.
    pub proof fn lemma_view_wf(&self)
        requires
            self.wf(),
        ensures
            self@.wf(),
            self@.templates.finite(),
    {
        self.templates.lemma_finite();
    }

    /// An empty cache and an open channel with nothing published.
    pub fn new() -> (state: Self)
        ensures
            state.wf(),
            state@ == HotReloadView::initial(),
    {
        HotReloadState { templates: TemplateCache::new(), channel: UpdateChannel::new(), halted: false }
    }

    /// Handles one watcher event and says what the embedding program has to
    /// do next.
    ///
    /// A template update is inserted into the cache, then published on the
    /// channel; the publish is tried whether or not the cache already held the
    /// template. A shutdown request halts the state. A halted state changes no
    /// more, whatever arrives.
    pub fn handle(&mut self, event: HotReloadEvent) -> (action: BridgeAction)
        requires
            old(self).wf(),
        ensures
            final(self).wf(),
            action == old(self)@.action_for(event),
            final(self)@ == old(self)@.after(event),
    {
        if self.halted {
            return BridgeAction::ExitProcess;
        }
        match event {
            HotReloadEvent::Shutdown => {
                self.halted = true;
                BridgeAction::ExitProcess
            },
            HotReloadEvent::TemplateUpdated(template) => {
                self.templates.insert(template);
                match self.channel.send(template) {
                    Ok(_) => BridgeAction::WakeSubscribers,
                    Err(failure) => BridgeAction::ReportFailure(failure),
                }
            },
        }
    }

    /// Tears the channel down. Updates that arrive later are still cached;
    /// their publish fails. The latest template stays readable.
    pub fn close_channel(&mut self)
        requires
            old(self).wf(),
        ensures
            final(self).wf(),
            final(self)@ == old(self)@.after_close(),
    {
        self.channel.close();
    }

    /// The cache, to read.
    pub fn templates(&self) -> (cache: &TemplateCache)
        requires
            self.wf(),
        ensures
            cache.wf(),
            cache@ == self@.templates,
    {
        &self.templates
    }

    /// The channel, to read.
    pub fn channel(&self) -> (channel: &UpdateChannel)
        ensures
            channel@ == self@.channel,
    {
        &self.channel
    }

    /// A cursor for a new subscriber. It has seen nothing, so its first step
    /// of waiting hands out the latest template if there is one.
    pub fn subscribe(&self) -> (cursor: Cursor)
        ensures
            cursor@ == 0,
    {
        Cursor::new()
    }

    /// Whether a shutdown request was taken.
    pub fn is_halted(&self) -> (halted: bool)
        ensures
            halted == self@.halted,
    {
        self.halted
    }
}

impl Default for HotReloadState {
    fn default() -> (state: Self)
        ensures
            state.wf(),
            state@ == HotReloadView::initial(),
    {
        HotReloadState::new()
    }
}

/// Handling an event, or tearing the channel down, keeps the state well
/// formed.
pub proof fn lemma_after_keeps_wf(state: HotReloadView, event: HotReloadEvent)
    requires
        state.wf(),
    ensures
        state.after(event).wf(),
        state.after_close().wf(),
{
}

/// Every state that a run of events leads to from the initial state is well
/// formed.
pub proof fn lemma_reachable_is_wf(events: Seq<HotReloadEvent>)
    ensures
        HotReloadView::initial().after_all(events).wf(),
    decreases events.len(),
{
    if events.len() > 0 {
        lemma_reachable_is_wf(events.drop_last());
        lemma_after_keeps_wf(
            HotReloadView::initial().after_all(events.drop_last()),
            events.last(),
        );
    }
}

/// Cached before published: in a well-formed state, and so after any run of
/// events, the template that a cursor is handed, by a step of waiting or by a
/// peek, is already in the cache.
pub proof fn lemma_observed_template_is_cached(state: HotReloadView, seen: nat)
    requires
        state.wf(),
    ensures
        state.channel.next_for(seen) matches Some(template) ==> state.templates.contains(template),
        state.channel.latest matches Some(template) ==> state.templates.contains(template),
{
}

/// An update ends up in the cache whether or not it could be published.
pub proof fn lemma_update_is_cached(state: HotReloadView, template: Template<'static>)
    requires
        !state.halted,
    ensures
        ({
            let update = HotReloadEvent::TemplateUpdated(template);
            &&& state.after(update).templates.contains(template)
            &&& state.action_for(update) == BridgeAction::WakeSubscribers
                ==> state.after(update).channel.latest == Some(template)
            &&& state.action_for(update) != BridgeAction::WakeSubscribers
                ==> state.after(update).channel == state.channel
        }),
{
}

/// The publish does not depend on the cache: an update whose template is
/// cached already leaves the cache as it is, and is published all the same.
pub proof fn lemma_publish_is_unconditional(state: HotReloadView, template: Template<'static>)
    requires
        !state.halted,
        state.channel.live(),
        state.templates.contains(template),
    ensures
        ({
            let update = HotReloadEvent::TemplateUpdated(template);
            &&& state.after(update).templates == state.templates
            &&& state.after(update).channel.latest == Some(template)
            &&& state.after(update).channel.version == state.channel.version + 1
            &&& state.action_for(update) == BridgeAction::WakeSubscribers
        }),
{
    assert(state.templates.insert(template) =~= state.templates);
}

/// Handling one run of events and then another is handling them all in turn.
pub proof fn lemma_after_all_concat(
    state: HotReloadView,
    first: Seq<HotReloadEvent>,
    rest: Seq<HotReloadEvent>,
)
    ensures
        state.after_all(first + rest) == state.after_all(first).after_all(rest),
    decreases rest.len(),
{
    if rest.len() == 0 {
        assert(first + rest =~= first);
    } else {
        lemma_after_all_concat(state, first, rest.drop_last());
        assert((first + rest).drop_last() =~= first + rest.drop_last());
        assert((first + rest).last() == rest.last());
    }
}

/// The cache only grows: whatever is handled, nothing that was cached is
/// dropped.
pub proof fn lemma_cache_only_grows(state: HotReloadView, events: Seq<HotReloadEvent>)
    ensures
        state.templates.subset_of(state.after_all(events).templates),
        state.templates.subset_of(state.after_close().templates),
    decreases events.len(),
{
    if events.len() > 0 {
        lemma_cache_only_grows(state, events.drop_last());
    }
}

/// A halted state takes no further event.
pub proof fn lemma_halted_takes_no_event(state: HotReloadView, events: Seq<HotReloadEvent>)
    requires
        state.halted,
    ensures
        state.after_all(events) == state,
    decreases events.len(),
{
    if events.len() > 0 {
        lemma_halted_takes_no_event(state, events.drop_last());
    }
}

/// A run of updates leaves the state running, with each of its templates
/// cached.
pub proof fn lemma_updates_are_cached(
    state: HotReloadView,
    updates: Seq<HotReloadEvent>,
    template: Template<'static>,
)
    requires
        !state.halted,
        forall|i: int| 0 <= i < updates.len() ==> updates[i] is TemplateUpdated,
    ensures
        !state.after_all(updates).halted,
        updates.contains(HotReloadEvent::TemplateUpdated(template)) ==> state.after_all(
            updates,
        ).templates.contains(template),
    decreases updates.len(),
{
    if updates.len() > 0 {
        let earlier = updates.drop_last();
        lemma_updates_are_cached(state, earlier, template);
        if updates.contains(HotReloadEvent::TemplateUpdated(template)) && updates.last()
            != HotReloadEvent::TemplateUpdated(template) {
            let i: int = choose|i: int|
                0 <= i < updates.len() && updates[i] == HotReloadEvent::TemplateUpdated(template);
            assert(earlier[i] == HotReloadEvent::TemplateUpdated(template));
        }
    }
}

/// Shutdown ordering: of a run of updates, a shutdown request, and anything
/// delivered after it, the updates before the request are all cached, the
/// request halts the state, and what follows the request changes nothing.
pub proof fn lemma_shutdown_ordering(
    state: HotReloadView,
    before: Seq<HotReloadEvent>,
    after: Seq<HotReloadEvent>,
    template: Template<'static>,
)
    requires
        !state.halted,
        forall|i: int| 0 <= i < before.len() ==> before[i] is TemplateUpdated,
    ensures
        ({
            let end = state.after_all(before + seq![HotReloadEvent::Shutdown] + after);
            &&& end == state.after_all(before).after(HotReloadEvent::Shutdown)
            &&& end.halted
            &&& end.templates == state.after_all(before).templates
            &&& before.contains(HotReloadEvent::TemplateUpdated(template))
                ==> end.templates.contains(template)
        }),
{
    let stop = seq![HotReloadEvent::Shutdown];
    lemma_updates_are_cached(state, before, template);
    lemma_after_all_concat(state, before + stop, after);
    lemma_after_all_concat(state, before, stop);
    let running = state.after_all(before);
    assert(running.after_all(stop) == running.after(HotReloadEvent::Shutdown)) by {
        assert(stop.drop_last() =~= Seq::<HotReloadEvent>::empty());
        assert(running.after_all(stop) == running.after_all(stop.drop_last()).after(stop.last()));
    }
    lemma_halted_takes_no_event(running.after(HotReloadEvent::Shutdown), after);
}

} // verus!
