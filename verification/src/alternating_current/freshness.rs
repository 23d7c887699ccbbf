//! A value tagged with whether it still reflects the state it was computed from.

use vstd::prelude::*;

verus! {

/// A cached value together with its freshness tag.
///
/// `Old` keeps the last computed value for inspection although it no longer
/// reflects the state it was derived from; `UpToDate` marks a value that does.
#[derive(Debug)]
pub enum OldOrUpToDate<T> {
    Old(T),
    UpToDate(T),
}

impl<T> OldOrUpToDate<T> {
    /// The cached value, whatever its tag.
    pub open spec fn inner(self) -> T {
        match self {
            OldOrUpToDate::Old(x) => x,
            OldOrUpToDate::UpToDate(x) => x,
        }
    }

    /// Marks the value as stale, keeping the value itself.
    pub fn into_old(self) -> (r: Self)
        ensures
            r == OldOrUpToDate::Old(self.inner()),
    {
        OldOrUpToDate::Old(self.into_inner())
    }

    /// Marks the value as fresh, keeping the value itself.
    pub fn into_up_to_date(self) -> (r: Self)
        ensures
            r == OldOrUpToDate::UpToDate(self.inner()),
    {
        OldOrUpToDate::UpToDate(self.into_inner())
    }

    /// Whether the value is tagged stale.
    pub fn is_old(&self) -> (b: bool)
        ensures
            b == (*self is Old),
    {
        match self {
            OldOrUpToDate::Old(_) => true,
            OldOrUpToDate::UpToDate(_) => false,
        }
    }

    /// Whether the value is tagged fresh.
    pub fn is_up_to_date(&self) -> (b: bool)
        ensures
            b == (*self is UpToDate),
    {
        match self {
            OldOrUpToDate::Old(_) => false,
            OldOrUpToDate::UpToDate(_) => true,
        }
    }

    /// Drops the tag and returns the value.
    pub fn into_inner(self) -> (x: T)
        ensures
            x == self.inner(),
    {
        match self {
            OldOrUpToDate::Old(x) => x,
            OldOrUpToDate::UpToDate(x) => x,
        }
    }
}

} // verus!
