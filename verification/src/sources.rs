//! The append-only registry of sources.
//!
//! Client code hands raw text to a [`Sources`] registry and receives an
//! integer identity; the registered [`Source`] answers every later query. A
//! registered source is identified by its index, identities stay valid for
//! the registry's whole lifetime, and the sources of distinct identities
//! never compare as one — so spans from different registered sources never
//! merge by accident.

use vstd::prelude::*;

use crate::error::NotASourceError;
use crate::source::Source;

verus! {

use vstd::utf8::encode_utf8;

/// A database of source files, the only mutable state of this crate. The
/// intended pattern is build-then-freeze: sources are added during setup and
/// only read after that, except through the explicit [`Sources::update`]
/// path.
pub struct Sources {
    sources: Vec<Source>,
}

impl Sources {
    /// The registered sources, in registration order.
    pub closed spec fn sources_view(self) -> Seq<Source> {
        self.sources@
    }

    /// Every registered source is well formed and carries its registry index
    /// as its identity.
    pub open spec fn wf(self) -> bool {
        forall|i: int|
            0 <= i < self.sources_view().len() ==> (#[trigger] self.sources_view()[i]).wf()
                && self.sources_view()[i].spec_id() == i
    }

    /// An empty registry.
    pub fn new() -> (r: Sources)
        ensures
            r.wf(),
            r.sources_view().len() == 0,
    {
        Sources { sources: Vec::new() }
    }

    /// How many sources are registered. Identities below this are valid.
    pub fn len(&self) -> (r: usize)
        ensures
            r == self.sources_view().len(),
    {
        self.sources.len()
    }

    /// Register a new source, returning the stable identity under which the
    /// registry (and every span of the source) will refer to it. Costs one
    /// scan of the text.
    pub fn add(&mut self, name: String, text: String) -> (r: usize)
        requires
            old(self).wf(),
            encode_utf8(text@).len() < u32::MAX,
        ensures
            final(self).wf(),
            r == old(self).sources_view().len(),
            final(self).sources_view().len() == old(self).sources_view().len() + 1,
            forall|i: int|
                0 <= i < old(self).sources_view().len() ==> final(self).sources_view()[i] == old(
                    self,
                ).sources_view()[i],
            final(self).sources_view()[r as int].wf(),
            final(self).sources_view()[r as int].name_view() == name@,
            final(self).sources_view()[r as int].text_view() == text@,
            final(self).sources_view()[r as int].spec_id() == r,
    {
        let id: usize = self.sources.len();
        let source = Source::new(name, text, id);
        self.sources.push(source);
        id
    }

    /// The source registered under `source_id`, without the option for the
    /// hot path: the caller must know that `source_id` was returned by this
    /// registry.
    pub fn get_unchecked(&self, source_id: usize) -> (r: &Source)
        requires
            source_id < self.sources_view().len(),
        ensures
            *r == self.sources_view()[source_id as int],
    {
        &self.sources[source_id]
    }

    /// The source registered under `source_id`, if there is one.
    pub fn get(&self, source_id: usize) -> (r: Option<&Source>)
        ensures
            match r {
                Some(s) => source_id < self.sources_view().len() && *s == self.sources_view()[source_id as int],
                None => source_id >= self.sources_view().len(),
            },
    {
        if source_id < self.sources.len() {
            Some(&self.sources[source_id])
        } else {
            None
        }
    }

    /// Replace the text of the source registered under `source_id`,
    /// recomputing its line starts. Spans and byte indices previously
    /// obtained against the old text may no longer mean anything; the caller
    /// must stop using them, which this registry does not check. Errs exactly
    /// when `source_id` is unknown, naming the registry's length as the
    /// bound, and then changes nothing.
    pub fn update(&mut self, source_id: usize, text: String) -> (r: Result<(), NotASourceError>)
        requires
            old(self).wf(),
            encode_utf8(text@).len() < u32::MAX,
        ensures
            final(self).wf(),
            final(self).sources_view().len() == old(self).sources_view().len(),
            r is Ok <==> source_id < old(self).sources_view().len(),
            r is Ok ==> forall|i: int|
                0 <= i < old(self).sources_view().len() && i != source_id ==> #[trigger] final(self).sources_view()[i] == old(self).sources_view()[i],
            r is Ok ==> final(self).sources_view()[source_id as int].text_view() == text@,
            r is Ok ==> final(self).sources_view()[source_id as int].name_view() == old(self).sources_view()[source_id as int].name_view(),
            r is Ok ==> final(self).sources_view()[source_id as int].spec_id() == source_id,
            r matches Err(e) ==> e == (NotASourceError {
                given: source_id,
                max: old(self).sources_view().len() as usize,
            }) && final(self).sources_view() == old(self).sources_view(),
    {
        if source_id >= self.sources.len() {
            return Err(NotASourceError { given: source_id, max: self.sources.len() });
        }
        let mut source: Source = self.sources.remove(source_id);
        source.set_text(text);
        self.sources.insert(source_id, source);
        proof {
            assert(self.sources@ =~= old(self).sources@.update(source_id as int, source));
        }
        Ok(())
    }
}

impl Default for Sources {
    /// The same empty registry as [`Sources::new`].
    fn default() -> (r: Sources)
        ensures
            r.wf(),
            r.sources_view().len() == 0,
    {
        Sources { sources: Vec::new() }
    }
}

} // verus!
