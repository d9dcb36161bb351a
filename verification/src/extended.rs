//! Fields that exist in a table only from a certain format revision onward.

use vstd::prelude::*;

verus! {

/// A field of a table overlay that is only present when the owning table's
/// declared `revision` is at least `MIN_REVISION`. The value is fixed when
/// the overlay is parsed, so reading it is always safe; `access` merely
/// decides whether the field is meaningful for the given revision.
pub struct ExtendedField<T: Copy, const MIN_REVISION: u8> {
    value: T,
}

impl<T: Copy, const MIN_REVISION: u8> ExtendedField<T, MIN_REVISION> {
    /// The value the field was built from.
    pub closed spec fn stored(self) -> T {
        self.value
    }

    /// What `access` returns: the stored value exactly when the revision
    /// reaches `MIN_REVISION`.
    pub open spec fn spec_access(self, revision: u8) -> Option<T> {
        if revision >= MIN_REVISION {
            Some(self.stored())
        } else {
            None
        }
    }

    pub fn new(value: T) -> (field: Self)
        ensures
            field.stored() == value,
    {
        ExtendedField { value }
    }

    /// Access the field if it is present for the given revision of the table.
    ///
    /// `revision` must be the revision read from the `SdtHeader` of the same
    /// table instance that embeds this field; the result is meaningful only
    /// then.
    pub fn access(&self, revision: u8) -> (result: Option<T>)
        ensures
            result == self.spec_access(revision),
    {
        if revision >= MIN_REVISION {
            Some(self.value)
        } else {
            None
        }
    }
}

/// Law: `access` is empty strictly below `MIN_REVISION` and yields the stored
/// value at `MIN_REVISION` and at every revision above it.
pub proof fn lemma_access_revision_gate<T: Copy, const MIN_REVISION: u8>(
    field: ExtendedField<T, MIN_REVISION>,
    revision: u8,
)
    ensures
        revision < MIN_REVISION ==> field.spec_access(revision) is None,
        revision >= MIN_REVISION ==> field.spec_access(revision) == Some(field.stored()),
{
}

} // verus!
