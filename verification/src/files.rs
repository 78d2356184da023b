//! The image collection builder: accumulates validated sources in order,
//! then yields an immutable, non-empty collection.

use vstd::prelude::*;
use crate::error::StitchError;
use crate::source::ImageSource;

verus! {

/// A mutable accumulator of validated sources, insertion order kept.
#[derive(Debug)]
pub struct ImageFilesBuilder {
    list: Vec<ImageSource>,
}

/// An immutable, non-empty, ordered collection of validated sources.
/// Construct it through `ImageFilesBuilder`; it is never mutated after.
#[derive(Debug)]
pub struct ImageFiles {
    list: Vec<ImageSource>,
}

impl ImageFilesBuilder {
    /// The sources accumulated so far, in insertion order.
    pub closed spec fn sources(self) -> Seq<ImageSource> {
        self.list@
    }

    /// An empty accumulator.
    pub fn new() -> (r: ImageFilesBuilder)
        ensures
            r.sources() == Seq::<ImageSource>::empty(),
    {
        ImageFilesBuilder { list: Vec::new() }
    }

    /// Appends one validated source, keeping insertion order.
    pub fn add(self, source: ImageSource) -> (r: ImageFilesBuilder)
        ensures
            r.sources() == self.sources().push(source),
    {
        let mut list = self.list;
        list.push(source);
        ImageFilesBuilder { list }
    }

    /// Seals the collection. Fails with `EmptyInput` if and only if no
    /// source was added; otherwise the collection holds exactly the
    /// accumulated sources, in order.
    pub fn build(self) -> (r: Result<ImageFiles, StitchError>)
        ensures
            (r is Err) <==> self.sources().len() == 0,
            r matches Err(e) ==> e is EmptyInput,
            r matches Ok(f) ==> f.sources() == self.sources() && f.wf(),
    {
        if self.list.len() == 0 {
            Err(StitchError::EmptyInput)
        } else {
            Ok(ImageFiles { list: self.list })
        }
    }
}

impl ImageFiles {
    /// The collected sources, in insertion order.
    pub closed spec fn sources(self) -> Seq<ImageSource> {
        self.list@
    }

    /// A built collection is never empty.
    pub open spec fn wf(self) -> bool {
        self.sources().len() >= 1
    }

    /// The number of sources in the collection.
    pub fn count(&self) -> (r: usize)
        ensures
            r == self.sources().len(),
    {
        self.list.len()
    }

    /// The source at position `i`.
    pub fn get(&self, i: usize) -> (r: &ImageSource)
        requires
            i < self.sources().len(),
        ensures
            *r == self.sources()[i as int],
    {
        &self.list[i]
    }
}

} // verus!
