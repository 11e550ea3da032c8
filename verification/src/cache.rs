//! The template cache: every template reported so far, each content once.

use crate::template::same_template;
use dioxus::prelude::Template;
use vstd::prelude::*;

verus! {

/// A set of templates that only grows.
///
/// The templates are kept in the order in which they first arrived; the order
/// is not part of the cache's meaning, which is the set [`TemplateCache::view`].
pub struct TemplateCache {
    items: Vec<Template<'static>>,
}

impl View for TemplateCache {
    type V = Set<Template<'static>>;

    closed spec fn view(&self) -> Set<Template<'static>> {
        self.items@.to_set()
    }
}

impl TemplateCache {
    /// No content is stored twice.
    pub closed spec fn wf(&self) -> bool {
        self.items@.no_duplicates()
    }

    /// A cache is a finite set.
    pub proof fn lemma_finite(&self)
        ensures
            self@.finite(),
    {
        vstd::seq_lib::seq_to_set_is_finite(self.items@);
    }

    proof fn lemma_one_entry_per_member(&self)
        requires
            self.wf(),
        ensures
            self@.len() == self.items@.len(),
    {
        self.items@.unique_seq_to_set();
    }

    /// The empty cache.
    pub fn new() -> (cache: Self)
        ensures
            cache.wf(),
            cache@ == Set::<Template<'static>>::empty(),
    {
        let cache = TemplateCache { items: Vec::new() };
        assert(cache.items@.to_set() =~= Set::<Template<'static>>::empty());
        cache
    }

    /// The number of distinct templates held.
    pub fn len(&self) -> (n: usize)
        requires
            self.wf(),
        ensures
            n == self@.len(),
    {
        proof {
            self.lemma_one_entry_per_member();
        }
        self.items.len()
    }

    /// Whether nothing has been inserted yet.
    pub fn is_empty(&self) -> (empty: bool)
        requires
            self.wf(),
        ensures
            empty == (self@ == Set::<Template<'static>>::empty()),
    {
        proof {
            if self.items@.len() == 0 {
                assert(self@ =~= Set::<Template<'static>>::empty());
            } else {
                assert(self@.contains(self.items@[0]));
            }
        }
        self.items.len() == 0
    }

    /// Whether a template with this content is held.
    pub fn contains(&self, template: &Template<'static>) -> (found: bool)
        ensures
            found == self@.contains(*template),
    {
        let mut i: usize = 0;
        while i < self.items.len()
            invariant
                i <= self.items.len(),
                forall|j: int| 0 <= j < i ==> self.items@[j] != *template,
            decreases self.items.len() - i,
        {
            if same_template(&self.items[i], template) {
                assert(self.items@.contains(*template));
                return true;
            }
            i += 1;
        }
        false
    }

    /// Adds a template unless its content is already held, and says whether it
    /// was added. Nothing is ever removed.
    pub fn insert(&mut self, template: Template<'static>) -> (newly_added: bool)
        requires
            old(self).wf(),
        ensures
            final(self).wf(),
            final(self)@ == old(self)@.insert(template),
            newly_added == !old(self)@.contains(template),
    {
        if self.contains(&template) {
            assert(self@.insert(template) =~= self@);
            false
        } else {
            proof {
                self.items@.lemma_push_to_set_commute(template);
            }
            self.items.push(template);
            true
        }
    }

    /// The templates held, each once, in no promised order.
    pub fn to_vec(&self) -> (all: Vec<Template<'static>>)
        requires
            self.wf(),
        ensures
            all@.no_duplicates(),
            all@.to_set() == self@,
    {
        let mut all: Vec<Template<'static>> = Vec::new();
        let mut i: usize = 0;
        while i < self.items.len()
            invariant
                i <= self.items.len(),
                all@ == self.items@.take(i as int),
            decreases self.items.len() - i,
        {
            all.push(self.items[i]);
            i += 1;
        }
        assert(all@ == self.items@);
        all
    }
}

/// The set held after each of `templates` was inserted in turn.
pub open spec fn after_inserts(
    held: Set<Template<'static>>,
    templates: Seq<Template<'static>>,
) -> Set<Template<'static>>
    decreases templates.len(),
{
    if templates.len() == 0 {
        held
    } else {
        after_inserts(held, templates.drop_last()).insert(templates.last())
    }
}

/// How many of these insertions, made in turn, report `template` as newly
/// added.
pub open spec fn times_newly_added(
    held: Set<Template<'static>>,
    templates: Seq<Template<'static>>,
    template: Template<'static>,
) -> nat
    decreases templates.len(),
{
    if templates.len() == 0 {
        0
    } else {
        let earlier = templates.drop_last();
        let this_one: nat = if templates.last() == template && !after_inserts(
            held,
            earlier,
        ).contains(template) {
            1
        } else {
            0
        };
        times_newly_added(held, earlier, template) + this_one
    }
}

/// Inserting the same content a second time changes neither the cache nor its
/// size, and is not reported as new.
pub proof fn lemma_insert_is_idempotent(held: Set<Template<'static>>, template: Template<'static>)
    ensures
        held.insert(template).insert(template) == held.insert(template),
        held.insert(template).len() == held.insert(template).insert(template).len(),
        held.insert(template).contains(template),
{
    assert(held.insert(template).insert(template) =~= held.insert(template));
}

/// A run of insertions holds what was held before and what was inserted.
pub proof fn lemma_after_inserts(
    held: Set<Template<'static>>,
    templates: Seq<Template<'static>>,
    template: Template<'static>,
)
    ensures
        after_inserts(held, templates).contains(template) <==> held.contains(template)
            || templates.contains(template),
    decreases templates.len(),
{
    if templates.len() > 0 {
        let earlier = templates.drop_last();
        lemma_after_inserts(held, earlier, template);
        if earlier.contains(template) {
            let i: int = choose|i: int| 0 <= i < earlier.len() && earlier[i] == template;
            assert(templates[i] == template);
        }
        if templates.contains(template) && templates.last() != template {
            let i: int = choose|i: int| 0 <= i < templates.len() && templates[i] == template;
            assert(earlier[i] == template);
        }
    }
}

/// Each content is reported as newly added exactly once: over any run of
/// insertions, a template that was not held before and occurs in the run is
/// reported once, however often it occurs; any other template is never
/// reported.
pub proof fn lemma_newly_added_exactly_once(
    held: Set<Template<'static>>,
    templates: Seq<Template<'static>>,
    template: Template<'static>,
)
    ensures
        times_newly_added(held, templates, template) == (if !held.contains(template)
            && templates.contains(template) {
            1nat
        } else {
            0nat
        }),
    decreases templates.len(),
{
    if templates.len() > 0 {
        let earlier = templates.drop_last();
        lemma_newly_added_exactly_once(held, earlier, template);
        lemma_after_inserts(held, earlier, template);
        if earlier.contains(template) {
            let i: int = choose|i: int| 0 <= i < earlier.len() && earlier[i] == template;
            assert(templates[i] == template);
        }
        if templates.contains(template) && templates.last() != template {
            let i: int = choose|i: int| 0 <= i < templates.len() && templates[i] == template;
            assert(earlier[i] == template);
        }
    }
}

} // verus!
