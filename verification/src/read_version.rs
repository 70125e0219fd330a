//! The cached read version of a transactional key-value store: the newest
//! version seen, when it was obtained, and whether a refresh is under way.
//!
//! The version only moves forward: every update keeps the larger of the
//! version held and the one offered.

use vstd::prelude::*;
use std::time::Instant;

verus! {

#[verifier::external_type_specification]
#[verifier::external_body]
pub struct ExInstant(std::time::Instant);

/// Calls `Instant::now`: the current instant; nothing is promised of it.
#[verifier::external_body]
fn instant_now() -> Instant {
    Instant::now()
}

/// Calls `Instant::elapsed` on `base` and takes its nanoseconds, cut to 64
/// bits: the time since `base`, which depends on the clock, so nothing is
/// promised of it.
#[verifier::external_body]
fn elapsed_nanos(base: &Instant) -> u64 {
    base.elapsed().as_nanos() as u64
}

/// Nanoseconds after which the read version is refreshed.
pub const REFRESH_READ_VERSION_AFTER_NANOS: u64 = 1_000_000_000;

/// Nanoseconds after which a read version is too old to use.
pub const MAX_READ_VERSION_AGE_NANOS: u64 = 4_000_000_000;

/// The cached read version.
pub struct ReadVersion {
    base: Instant,
    version: i64,
    obtained: u64,
    refreshing: bool,
}

/// What is left of `a` after taking `b`, or zero.
pub open spec fn saturating_sub(a: u64, b: u64) -> u64 {
    if a >= b {
        (a - b) as u64
    } else {
        0
    }
}

impl ReadVersion {
    /// The version held.
    pub closed spec fn version_held(&self) -> i64 {
        self.version
    }

    /// When the version held was obtained, in nanoseconds since the cache
    /// was made (zero: never, or expired).
    pub closed spec fn obtained_at(&self) -> u64 {
        self.obtained
    }

    /// Whether a refresh is under way.
    pub closed spec fn is_refreshing(&self) -> bool {
        self.refreshing
    }

    /// A cache that holds version zero, obtained never, with no refresh
    /// under way.
    pub fn new() -> (r: ReadVersion)
        ensures
            r.version_held() == 0,
            r.obtained_at() == 0,
            !r.is_refreshing(),
    {
        ReadVersion { base: instant_now(), version: 0, obtained: 0, refreshing: false }
    }

    /// Nanoseconds since the cache was made, read from the clock.
    pub fn now(&self) -> u64 {
        elapsed_nanos(&self.base)
    }

    /// The version held.
    pub fn current(&self) -> (r: i64)
        ensures
            r == self.version_held(),
    {
        self.version
    }

    /// The age of the version held at the instant `now`: the time since it
    /// was obtained, or zero when `now` is earlier.
    pub fn age_at(&self, now: u64) -> (r: u64)
        ensures
            r == saturating_sub(now, self.obtained_at()),
    {
        if now >= self.obtained {
            now - self.obtained
        } else {
            0
        }
    }

    /// The age of the version held, read from the clock (see [`Self::age_at`]).
    pub fn age(&self) -> (r: u64)
        ensures
            r <= u64::MAX - self.obtained_at(),
    {
        let now = self.now();
        self.age_at(now)
    }

    /// Keeps the larger of the version held and `version`.
    pub fn store_max(&mut self, version: i64)
        ensures
            final(self).version_held() == if version > old(self).version_held() {
                version
            } else {
                old(self).version_held()
            },
            final(self).obtained_at() == old(self).obtained_at(),
            final(self).is_refreshing() == old(self).is_refreshing(),
    {
        if version > self.version {
            self.version = version;
        }
    }

    /// Records a version just obtained at the instant `now`.
    pub fn refreshed_at(&mut self, version: i64, now: u64)
        ensures
            final(self).version_held() == if version > old(self).version_held() {
                version
            } else {
                old(self).version_held()
            },
            final(self).obtained_at() == now,
            final(self).is_refreshing() == old(self).is_refreshing(),
    {
        self.store_max(version);
        self.obtained = now;
    }

    /// Records a version just obtained, at the instant read from the clock.
    pub fn refreshed(&mut self, version: i64)
        ensures
            final(self).version_held() == if version > old(self).version_held() {
                version
            } else {
                old(self).version_held()
            },
            final(self).is_refreshing() == old(self).is_refreshing(),
    {
        let now = self.now();
        self.refreshed_at(version, now);
    }

    /// Raises the version held to at least `version` (a version that a
    /// write committed at), leaving when it was obtained.
    pub fn raise_floor(&mut self, version: i64)
        ensures
            final(self).version_held() == if version > old(self).version_held() {
                version
            } else {
                old(self).version_held()
            },
            final(self).obtained_at() == old(self).obtained_at(),
            final(self).is_refreshing() == old(self).is_refreshing(),
    {
        self.store_max(version);
    }

    /// Marks the version held as too old, so that the next read refreshes
    /// it.
    pub fn expire(&mut self)
        ensures
            final(self).version_held() == old(self).version_held(),
            final(self).obtained_at() == 0,
            final(self).is_refreshing() == old(self).is_refreshing(),
    {
        self.obtained = 0;
    }

    /// Starts a refresh unless one is under way; says whether it started.
    pub fn try_begin_refresh(&mut self) -> (r: bool)
        ensures
            r == !old(self).is_refreshing(),
            final(self).is_refreshing(),
            final(self).version_held() == old(self).version_held(),
            final(self).obtained_at() == old(self).obtained_at(),
    {
        if self.refreshing {
            false
        } else {
            self.refreshing = true;
            true
        }
    }

    /// Ends the refresh under way.
    pub fn end_refresh(&mut self)
        ensures
            !final(self).is_refreshing(),
            final(self).version_held() == old(self).version_held(),
            final(self).obtained_at() == old(self).obtained_at(),
    {
        self.refreshing = false;
    }
}

} // verus!
