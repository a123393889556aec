//! Access descriptors: what data a unit of work reads and writes.
//!
//! A scheduler compares the descriptors of two units to decide whether they
//! may run at the same time. A descriptor holds, for each data category
//! (an index), whether the unit reads it or writes it, plus two flags for
//! units that read or write everything.

use bevy::ecs::query::Access;
use vstd::prelude::*;

verus! {

/// How a unit touches one data category.
#[derive(Clone, Copy, Debug, PartialEq, Eq, Structural)]
pub enum AccessMode {
    /// Shared access.
    Read,
    /// Exclusive access.
    Write,
}

/// The mathematical content of an [`AccessDescriptor`].
pub struct AccessView {
    /// Every category that is accessed by name, whether read or written.
    pub reads_and_writes: Set<usize>,
    /// The categories that are written by name.
    pub writes: Set<usize>,
    /// Whether every category is read.
    pub reads_all: bool,
    /// Whether every category is written.
    pub writes_all: bool,
}

impl AccessView {
    /// The descriptor of a unit that touches nothing.
    pub open spec fn empty() -> AccessView {
        AccessView {
            reads_and_writes: Set::empty(),
            writes: Set::empty(),
            reads_all: false,
            writes_all: false,
        }
    }

    /// Whether the unit may read `category`.
    pub open spec fn can_read(self, category: usize) -> bool {
        self.reads_all || self.reads_and_writes.contains(category)
    }

    /// Whether the unit may write `category`.
    pub open spec fn can_write(self, category: usize) -> bool {
        self.writes_all || self.writes.contains(category)
    }

    /// The strongest way in which the unit touches `category`, if it does.
    pub open spec fn mode(self, category: usize) -> Option<AccessMode> {
        if self.can_write(category) {
            Some(AccessMode::Write)
        } else if self.can_read(category) {
            Some(AccessMode::Read)
        } else {
            None
        }
    }

    /// This descriptor with `category` added as read.
    pub open spec fn with_read(self, category: usize) -> AccessView {
        AccessView { reads_and_writes: self.reads_and_writes.insert(category), ..self }
    }

    /// This descriptor with `category` added as written.
    pub open spec fn with_write(self, category: usize) -> AccessView {
        AccessView {
            reads_and_writes: self.reads_and_writes.insert(category),
            writes: self.writes.insert(category),
            ..self
        }
    }

    /// This descriptor, reading every category.
    pub open spec fn with_read_all(self) -> AccessView {
        AccessView { reads_all: true, ..self }
    }

    /// This descriptor, writing (and so reading) every category.
    pub open spec fn with_write_all(self) -> AccessView {
        AccessView { reads_all: true, writes_all: true, ..self }
    }

    /// The union of two descriptors: a category is accessed if either side
    /// accesses it, and written if either side writes it.
    pub open spec fn merge(self, other: AccessView) -> AccessView {
        AccessView {
            reads_and_writes: self.reads_and_writes.union(other.reads_and_writes),
            writes: self.writes.union(other.writes),
            reads_all: self.reads_all || other.reads_all,
            writes_all: self.writes_all || other.writes_all,
        }
    }

    /// The stronger of two modes, where no access is the weakest and
    /// `Write` the strongest.
    pub open spec fn stronger(a: Option<AccessMode>, b: Option<AccessMode>) -> Option<AccessMode> {
        if a == Some(AccessMode::Write) || b == Some(AccessMode::Write) {
            Some(AccessMode::Write)
        } else if a == Some(AccessMode::Read) || b == Some(AccessMode::Read) {
            Some(AccessMode::Read)
        } else {
            None
        }
    }
}

/// A unit's declared data access, kept in a `bevy::ecs::query::Access` over
/// plain category indices.
///
/// Trusted: the field is hidden from the verifier. What it holds is named by
/// [`descriptor_reads_and_writes`], [`descriptor_writes`],
/// [`descriptor_reads_all`] and [`descriptor_writes_all`].
#[verifier::external_body]
pub struct AccessDescriptor {
    inner: Access<usize>,
}

/// The categories that `descriptor` accesses by name, read or written.
pub uninterp spec fn descriptor_reads_and_writes(descriptor: AccessDescriptor) -> Set<usize>;

/// The categories that `descriptor` writes by name.
pub uninterp spec fn descriptor_writes(descriptor: AccessDescriptor) -> Set<usize>;

/// Whether `descriptor` reads every category.
pub uninterp spec fn descriptor_reads_all(descriptor: AccessDescriptor) -> bool;

/// Whether `descriptor` writes every category.
pub uninterp spec fn descriptor_writes_all(descriptor: AccessDescriptor) -> bool;

impl View for AccessDescriptor {
    type V = AccessView;

    open spec fn view(&self) -> AccessView {
        AccessView {
            reads_and_writes: descriptor_reads_and_writes(*self),
            writes: descriptor_writes(*self),
            reads_all: descriptor_reads_all(*self),
            writes_all: descriptor_writes_all(*self),
        }
    }
}

/// Trusted: `Access::new` gives a descriptor with no category and both flags
/// unset.
#[verifier::external_body]
fn access_new() -> (descriptor: AccessDescriptor)
    ensures
        descriptor_reads_and_writes(descriptor) == Set::<usize>::empty(),
        descriptor_writes(descriptor) == Set::<usize>::empty(),
        !descriptor_reads_all(descriptor),
        !descriptor_writes_all(descriptor),
{
    AccessDescriptor { inner: Access::new() }
}

/// Trusted: `Access::add_read` adds `category` to the accessed categories and
/// changes nothing else. The bit set behind it grows to `category + 1` bits,
/// so `category` must be below `usize::MAX`.
#[verifier::external_body]
fn access_add_read(descriptor: &mut AccessDescriptor, category: usize)
    requires
        category < usize::MAX,
    ensures
        descriptor_reads_and_writes(*final(descriptor)) == descriptor_reads_and_writes(
            *old(descriptor),
        ).insert(category),
        descriptor_writes(*final(descriptor)) == descriptor_writes(*old(descriptor)),
        descriptor_reads_all(*final(descriptor)) == descriptor_reads_all(*old(descriptor)),
        descriptor_writes_all(*final(descriptor)) == descriptor_writes_all(*old(descriptor)),
{
    descriptor.inner.add_read(category);
}

/// Trusted: `Access::add_write` adds `category` both to the accessed and to
/// the written categories and leaves the flags alone. The bit sets behind it
/// grow to `category + 1` bits, so `category` must be below `usize::MAX`.
#[verifier::external_body]
fn access_add_write(descriptor: &mut AccessDescriptor, category: usize)
    requires
        category < usize::MAX,
    ensures
        descriptor_reads_and_writes(*final(descriptor)) == descriptor_reads_and_writes(
            *old(descriptor),
        ).insert(category),
        descriptor_writes(*final(descriptor)) == descriptor_writes(*old(descriptor)).insert(
            category,
        ),
        descriptor_reads_all(*final(descriptor)) == descriptor_reads_all(*old(descriptor)),
        descriptor_writes_all(*final(descriptor)) == descriptor_writes_all(*old(descriptor)),
{
    descriptor.inner.add_write(category);
}

/// Trusted: `Access::read_all` sets the read-everything flag and changes
/// nothing else.
#[verifier::external_body]
fn access_read_all(descriptor: &mut AccessDescriptor)
    ensures
        descriptor_reads_and_writes(*final(descriptor)) == descriptor_reads_and_writes(
            *old(descriptor),
        ),
        descriptor_writes(*final(descriptor)) == descriptor_writes(*old(descriptor)),
        descriptor_reads_all(*final(descriptor)),
        descriptor_writes_all(*final(descriptor)) == descriptor_writes_all(*old(descriptor)),
{
    descriptor.inner.read_all();
}

/// Trusted: `Access::write_all` sets both flags and leaves the named
/// categories alone.
#[verifier::external_body]
fn access_write_all(descriptor: &mut AccessDescriptor)
    ensures
        descriptor_reads_and_writes(*final(descriptor)) == descriptor_reads_and_writes(
            *old(descriptor),
        ),
        descriptor_writes(*final(descriptor)) == descriptor_writes(*old(descriptor)),
        descriptor_reads_all(*final(descriptor)),
        descriptor_writes_all(*final(descriptor)),
{
    descriptor.inner.write_all();
}

/// Trusted: `Access::extend` unites the accessed categories and the written
/// categories of the two descriptors and takes the disjunction of each flag.
#[verifier::external_body]
fn access_extend(descriptor: &mut AccessDescriptor, other: &AccessDescriptor)
    ensures
        descriptor_reads_and_writes(*final(descriptor)) == descriptor_reads_and_writes(
            *old(descriptor),
        ).union(descriptor_reads_and_writes(*other)),
        descriptor_writes(*final(descriptor)) == descriptor_writes(*old(descriptor)).union(
            descriptor_writes(*other),
        ),
        descriptor_reads_all(*final(descriptor)) == (descriptor_reads_all(*old(descriptor))
            || descriptor_reads_all(*other)),
        descriptor_writes_all(*final(descriptor)) == (descriptor_writes_all(*old(descriptor))
            || descriptor_writes_all(*other)),
{
    descriptor.inner.extend(&other.inner);
}

/// Trusted: `Access::has_read` holds when the read-everything flag is set or
/// `category` is among the accessed categories.
#[verifier::external_body]
fn access_has_read(descriptor: &AccessDescriptor, category: usize) -> (found: bool)
    ensures
        found == (descriptor_reads_all(*descriptor) || descriptor_reads_and_writes(
            *descriptor,
        ).contains(category)),
{
    descriptor.inner.has_read(category)
}

/// Trusted: `Access::has_write` holds when the write-everything flag is set
/// or `category` is among the written categories.
#[verifier::external_body]
fn access_has_write(descriptor: &AccessDescriptor, category: usize) -> (found: bool)
    ensures
        found == (descriptor_writes_all(*descriptor) || descriptor_writes(*descriptor).contains(
            category,
        )),
{
    descriptor.inner.has_write(category)
}

/// Trusted: `Access::has_read_all` returns the read-everything flag.
#[verifier::external_body]
fn access_has_read_all(descriptor: &AccessDescriptor) -> (flag: bool)
    ensures
        flag == descriptor_reads_all(*descriptor),
{
    descriptor.inner.has_read_all()
}

/// Trusted: `Access::has_write_all` returns the write-everything flag.
#[verifier::external_body]
fn access_has_write_all(descriptor: &AccessDescriptor) -> (flag: bool)
    ensures
        flag == descriptor_writes_all(*descriptor),
{
    descriptor.inner.has_write_all()
}

/// Trusted: `Access::reads_and_writes` walks the accessed categories, each
/// once.
#[verifier::external_body]
fn access_reads_and_writes(descriptor: &AccessDescriptor) -> (categories: Vec<usize>)
    ensures
        categories@.to_set() == descriptor_reads_and_writes(*descriptor),
        categories@.no_duplicates(),
{
    descriptor.inner.reads_and_writes().collect()
}

/// Trusted: `Access::writes` walks the written categories, each once.
#[verifier::external_body]
fn access_writes(descriptor: &AccessDescriptor) -> (categories: Vec<usize>)
    ensures
        categories@.to_set() == descriptor_writes(*descriptor),
        categories@.no_duplicates(),
{
    descriptor.inner.writes().collect()
}

impl AccessDescriptor {
    /// A descriptor that accesses nothing.
    pub fn new() -> (descriptor: AccessDescriptor)
        ensures
            descriptor@ == AccessView::empty(),
    {
        access_new()
    }

    /// Declares that `category` is read.
    pub fn add_read(&mut self, category: usize)
        requires
            category < usize::MAX,
        ensures
            final(self)@ == old(self)@.with_read(category),
    {
        access_add_read(self, category);
    }

    /// Declares that `category` is written.
    pub fn add_write(&mut self, category: usize)
        requires
            category < usize::MAX,
        ensures
            final(self)@ == old(self)@.with_write(category),
    {
        access_add_write(self, category);
    }

    /// Declares that every category is read.
    pub fn read_all(&mut self)
        ensures
            final(self)@ == old(self)@.with_read_all(),
    {
        access_read_all(self);
    }

    /// Declares that every category is written.
    pub fn write_all(&mut self)
        ensures
            final(self)@ == old(self)@.with_write_all(),
    {
        access_write_all(self);
    }

    /// Merges `other` into this descriptor.
    pub fn extend(&mut self, other: &AccessDescriptor)
        ensures
            final(self)@ == old(self)@.merge(other@),
    {
        access_extend(self, other);
    }

    /// Whether `category` may be read.
    pub fn has_read(&self, category: usize) -> (found: bool)
        ensures
            found == self@.can_read(category),
    {
        access_has_read(self, category)
    }

    /// Whether `category` may be written.
    pub fn has_write(&self, category: usize) -> (found: bool)
        ensures
            found == self@.can_write(category),
    {
        access_has_write(self, category)
    }

    /// Whether every category is read.
    pub fn has_read_all(&self) -> (flag: bool)
        ensures
            flag == self@.reads_all,
    {
        access_has_read_all(self)
    }

    /// Whether every category is written.
    pub fn has_write_all(&self) -> (flag: bool)
        ensures
            flag == self@.writes_all,
    {
        access_has_write_all(self)
    }

    /// The categories accessed by name, each once.
    pub fn reads_and_writes(&self) -> (categories: Vec<usize>)
        ensures
            categories@.to_set() == self@.reads_and_writes,
            categories@.no_duplicates(),
    {
        access_reads_and_writes(self)
    }

    /// The categories written by name, each once.
    pub fn writes(&self) -> (categories: Vec<usize>)
        ensures
            categories@.to_set() == self@.writes,
            categories@.no_duplicates(),
    {
        access_writes(self)
    }

    /// The strongest way in which `category` is touched, if it is.
    pub fn mode(&self, category: usize) -> (mode: Option<AccessMode>)
        ensures
            mode == self@.mode(category),
    {
        if self.has_write(category) {
            Some(AccessMode::Write)
        } else if self.has_read(category) {
            Some(AccessMode::Read)
        } else {
            None
        }
    }
}


/// Merging is commutative: the order of two descriptors does not matter.
pub proof fn lemma_merge_commutative(a: AccessView, b: AccessView)
    ensures
        a.merge(b) == b.merge(a),
{
    assert(a.reads_and_writes.union(b.reads_and_writes) =~= b.reads_and_writes.union(
        a.reads_and_writes,
    ));
    assert(a.writes.union(b.writes) =~= b.writes.union(a.writes));
}

/// Merging is associative: descriptors may be merged in any grouping.
pub proof fn lemma_merge_associative(a: AccessView, b: AccessView, c: AccessView)
    ensures
        a.merge(b).merge(c) == a.merge(b.merge(c)),
{
    assert(a.reads_and_writes.union(b.reads_and_writes).union(c.reads_and_writes)
        =~= a.reads_and_writes.union(b.reads_and_writes.union(c.reads_and_writes)));
    assert(a.writes.union(b.writes).union(c.writes) =~= a.writes.union(b.writes.union(c.writes)));
}

/// The empty descriptor is neutral for merging, on either side.
pub proof fn lemma_merge_empty(a: AccessView)
    ensures
        AccessView::empty().merge(a) == a,
        a.merge(AccessView::empty()) == a,
{
    assert(Set::<usize>::empty().union(a.reads_and_writes) =~= a.reads_and_writes);
    assert(Set::<usize>::empty().union(a.writes) =~= a.writes);
    assert(a.reads_and_writes.union(Set::<usize>::empty()) =~= a.reads_and_writes);
    assert(a.writes.union(Set::<usize>::empty()) =~= a.writes);
}

/// Merging a descriptor with itself changes nothing.
pub proof fn lemma_merge_idempotent(a: AccessView)
    ensures
        a.merge(a) == a,
{
    assert(a.reads_and_writes.union(a.reads_and_writes) =~= a.reads_and_writes);
    assert(a.writes.union(a.writes) =~= a.writes);
}

/// Merging is the union of what the two sides may read and of what they may
/// write. In particular a category that either side writes is written in
/// the merged descriptor, whatever the other side says of it.
pub proof fn lemma_merge_is_union(a: AccessView, b: AccessView, category: usize)
    ensures
        a.merge(b).can_read(category) == (a.can_read(category) || b.can_read(category)),
        a.merge(b).can_write(category) == (a.can_write(category) || b.can_write(category)),
        a.can_write(category) || b.can_write(category) ==> a.merge(b).mode(category) == Some(
            AccessMode::Write,
        ),
{
}

/// The mode of a category in a merged descriptor is the stronger of its
/// modes on the two sides.
pub proof fn lemma_merge_keeps_stronger_mode(a: AccessView, b: AccessView, category: usize)
    ensures
        a.merge(b).mode(category) == AccessView::stronger(a.mode(category), b.mode(category)),
{
}

} // verus!
