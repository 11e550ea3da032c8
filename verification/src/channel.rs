//! The update channel: one slot that holds the latest template, stamped with
//! a version, and any number of cursors that each remember the version they
//! saw last.
//!
//! The channel keeps no list of its readers and no queue of past values. A
//! reader that stayed away for several updates finds the latest one only.

use dioxus::prelude::Template;
use vstd::prelude::*;

verus! {

/// A template could not be published: the channel is no longer live.
#[derive(Clone, Copy, Debug, PartialEq, Eq, Structural)]
pub struct PublishFailure;

/// What a channel is: the latest template, how many were published, and
/// whether publishing is still possible.
pub struct ChannelView {
    /// The template published last, if any was.
    pub latest: Option<Template<'static>>,
    /// The number of templates published so far.
    pub version: nat,
    /// Whether the channel was left open, that is, not torn down.
    pub open: bool,
}

impl ChannelView {
    /// The slot is empty exactly as long as nothing was published.
    pub open spec fn wf(self) -> bool {
        (self.version == 0) == (self.latest is None)
    }

    /// The channel before the first publish.
    pub open spec fn initial() -> ChannelView {
        ChannelView { latest: None, version: 0, open: true }
    }

    /// Whether the channel takes another publish: it was not torn down, and
    /// it has a version stamp left to hand out.
    pub open spec fn live(self) -> bool {
        self.open && self.version < u64::MAX
    }

    /// What a publish answers in this state.
    pub open spec fn send_result(self) -> Result<(), PublishFailure> {
        if self.live() {
            Ok(())
        } else {
            Err(PublishFailure)
        }
    }

    /// The channel after a publish of `template` was tried: a new latest value
    /// and the next version, or no change at all where the publish fails.
    pub open spec fn after_send(self, template: Template<'static>) -> ChannelView {
        if self.live() {
            ChannelView { latest: Some(template), version: self.version + 1, open: true }
        } else {
            self
        }
    }

    /// The channel after each of `templates` was published in turn.
    pub open spec fn after_sends(self, templates: Seq<Template<'static>>) -> ChannelView
        decreases templates.len(),
    {
        if templates.len() == 0 {
            self
        } else {
            self.after_sends(templates.drop_last()).after_send(templates.last())
        }
    }

    /// The channel after it was torn down: the latest value stays readable.
    pub open spec fn after_close(self) -> ChannelView {
        ChannelView { latest: self.latest, version: self.version, open: false }
    }

    /// What a cursor that last saw version `seen` is handed when it asks for
    /// the next value: the latest one if it is newer, else nothing yet.
    pub open spec fn next_for(self, seen: nat) -> Option<Template<'static>> {
        if self.version > seen {
            self.latest
        } else {
            None
        }
    }

    /// The version that such a cursor has seen after asking.
    pub open spec fn seen_after(self, seen: nat) -> nat {
        if self.version > seen {
            self.version
        } else {
            seen
        }
    }
}

/// The slot and its version counter.
pub struct UpdateChannel {
    slot: Option<Template<'static>>,
    version: u64,
    open: bool,
}

impl View for UpdateChannel {
    type V = ChannelView;

    closed spec fn view(&self) -> ChannelView {
        ChannelView { latest: self.slot, version: self.version as nat, open: self.open }
    }
}

impl UpdateChannel {
    /// The version counter is a machine integer.
    pub proof fn lemma_version_fits(&self)
        ensures
            self@.version <= u64::MAX,
    {
    }

    /// An open channel on which nothing was published yet.
    pub fn new() -> (channel: Self)
        ensures
            channel@ == ChannelView::initial(),
    {
        UpdateChannel { slot: None, version: 0, open: true }
    }

    /// Publishes `template`: it becomes the latest value and the version
    /// advances by one. On a channel that is no longer live nothing changes and
    /// the failure is returned.
    pub fn send(&mut self, template: Template<'static>) -> (sent: Result<(), PublishFailure>)
        ensures
            sent == old(self)@.send_result(),
            final(self)@ == old(self)@.after_send(template),
    {
        if self.open && self.version < u64::MAX {
            self.slot = Some(template);
            self.version = self.version + 1;
            Ok(())
        } else {
            Err(PublishFailure)
        }
    }

    /// Tears the channel down. Later publishes fail; readers keep the latest
    /// value.
    pub fn close(&mut self)
        ensures
            final(self)@ == old(self)@.after_close(),
    {
        self.open = false;
    }

    /// The latest template, if any was published.
    pub fn latest(&self) -> (latest: Option<Template<'static>>)
        ensures
            latest == self@.latest,
    {
        self.slot
    }

    /// The number of templates published so far.
    pub fn version(&self) -> (version: u64)
        ensures
            version == self@.version,
    {
        self.version
    }

    /// Whether the channel was left open, that is, not torn down.
    pub fn is_open(&self) -> (open: bool)
        ensures
            open == self@.open,
    {
        self.open
    }

    /// Whether the channel takes another publish.
    pub fn is_live(&self) -> (live: bool)
        ensures
            live == self@.live(),
    {
        self.open && self.version < u64::MAX
    }
}

/// A reader's own record of the last version it saw.
#[derive(Clone, Copy, Debug)]
pub struct Cursor {
    seen: u64,
}

impl View for Cursor {
    type V = nat;

    closed spec fn view(&self) -> nat {
        self.seen as nat
    }
}

impl Cursor {
    /// The version that a cursor remembers is a machine integer.
    pub proof fn lemma_version_fits(&self)
        ensures
            self@ <= u64::MAX,
    {
    }

    /// A cursor that has seen nothing.
    pub fn new() -> (cursor: Self)
        ensures
            cursor@ == 0,
    {
        Cursor { seen: 0 }
    }

    /// The latest template, whether or not this cursor has seen it. The cursor
    /// does not move.
    pub fn peek(&self, channel: &UpdateChannel) -> (latest: Option<Template<'static>>)
        ensures
            latest == channel@.latest,
    {
        channel.latest()
    }

    /// Whether the channel holds a value that this cursor has not seen.
    pub fn has_changed(&self, channel: &UpdateChannel) -> (changed: bool)
        ensures
            changed == (channel@.version > self@),
    {
        channel.version() > self.seen
    }

    /// One step of waiting for the next value: hands out the latest template
    /// and moves the cursor to its version if that is newer than what the cursor
    /// saw; otherwise reports that the caller has to wait, and leaves the
    /// cursor where it is.
    pub fn poll_next(&mut self, channel: &UpdateChannel) -> (next: Option<Template<'static>>)
        ensures
            next == channel@.next_for(old(self)@),
            final(self)@ == channel@.seen_after(old(self)@),
    {
        if channel.version() > self.seen {
            self.seen = channel.version();
            channel.latest()
        } else {
            None
        }
    }
}

/// Publishing keeps the slot and the version counter in step.
pub proof fn lemma_send_keeps_wf(channel: ChannelView, template: Template<'static>)
    requires
        channel.wf(),
    ensures
        channel.after_send(template).wf(),
        channel.after_close().wf(),
{
}

/// What a run of successful publishes leaves behind: the last template, and a
/// version higher by their number.
pub proof fn lemma_after_sends(channel: ChannelView, templates: Seq<Template<'static>>)
    requires
        channel.open,
        channel.version + templates.len() <= u64::MAX,
    ensures
        channel.after_sends(templates).open,
        channel.after_sends(templates).version == channel.version + templates.len(),
        templates.len() > 0 ==> channel.after_sends(templates).latest == Some(templates.last()),
    decreases templates.len(),
{
    if templates.len() > 0 {
        lemma_after_sends(channel, templates.drop_last());
    }
}

/// Only the latest update is delivered: after one or more publishes that a
/// cursor did not watch, its next step hands out the last of them, and the
/// step after that has nothing more to hand out.
pub proof fn lemma_only_latest_is_delivered(
    channel: ChannelView,
    templates: Seq<Template<'static>>,
    seen: nat,
)
    requires
        channel.open,
        channel.version + templates.len() <= u64::MAX,
        templates.len() >= 1,
        seen <= channel.version,
    ensures
        ({
            let now = channel.after_sends(templates);
            &&& now.next_for(seen) == Some(templates.last())
            &&& now.next_for(now.seen_after(seen)) is None
        }),
{
    lemma_after_sends(channel, templates);
}

/// Every cursor sees the same update: after a publish, two cursors that were
/// there before it are both handed the published template, whichever of them
/// asks first and whether it asks by a step of waiting or by a peek.
pub proof fn lemma_fan_out(
    channel: ChannelView,
    template: Template<'static>,
    seen_a: nat,
    seen_b: nat,
)
    requires
        channel.live(),
        seen_a <= channel.version,
        seen_b <= channel.version,
    ensures
        channel.after_send(template).next_for(seen_a) == Some(template),
        channel.after_send(template).next_for(seen_b) == Some(template),
        channel.after_send(template).latest == Some(template),
{
}

} // verus!
