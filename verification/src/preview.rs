//! Leases that keep a late hover from showing a preview.
//!
//! The window asks for a lease before it shows a preview and hands it along with the
//! request; the request is honoured only while its lease is the newest one seen.
//! Hiding the preview retires every lease handed out so far; a request to hide that
//! carries a lease spends it, and hides only when that lease is the newest. A request
//! without a lease (token 0) is always honoured.
use vstd::prelude::*;

verus! {

/// The newest lease handed out or seen.
#[derive(Debug, Clone, Copy, PartialEq, Eq, Structural)]
pub struct PreviewLease {
    pub latest: u64,
}

/// One more than `n`, wrapping as an atomic counter does.
pub open spec fn next_token(n: u64) -> u64 {
    if n == u64::MAX {
        0
    } else {
        (n + 1) as u64
    }
}

/// The newest lease after a request with `token` is seen.
pub open spec fn promoted(s: PreviewLease, token: u64) -> PreviewLease {
    PreviewLease {
        latest: if token > s.latest {
            token
        } else {
            s.latest
        },
    }
}

/// `n + 1`, saturating at `u64::MAX`.
pub open spec fn saturating_next(n: u64) -> u64 {
    if n == u64::MAX {
        n
    } else {
        (n + 1) as u64
    }
}

/// The newest lease after a request to hide with `token` (0 for none): a lease pushes
/// the newest lease past itself, so that a late show with it is refused.
pub open spec fn after_hide(s: PreviewLease, token: u64) -> PreviewLease {
    if token == 0 {
        s
    } else {
        PreviewLease {
            latest: if saturating_next(token) > s.latest {
                saturating_next(token)
            } else {
                s.latest
            },
        }
    }
}

/// Whether a request with `token` is honoured in state `s`.
pub open spec fn honoured(s: PreviewLease, token: u64) -> bool {
    token == 0 || s.latest == token
}

impl PreviewLease {
    /// No lease handed out yet.
    pub fn new() -> (s: Self)
        ensures
            s.latest == 0,
    {
        PreviewLease { latest: 0 }
    }

    /// Hands out a new lease.
    pub fn allocate(&mut self) -> (token: u64)
        ensures
            final(self).latest == next_token(old(self).latest),
            token == final(self).latest,
    {
        self.latest = self.latest.wrapping_add(1);
        self.latest
    }

    /// Records a request with `token`; whether it is the newest one seen.
    pub fn promote(&mut self, token: u64) -> (newest: bool)
        ensures
            *final(self) == promoted(*old(self), token),
            newest == (final(self).latest == token),
    {
        if token > self.latest {
            self.latest = token;
        }
        self.latest == token
    }

    /// Whether `token` is still the newest lease.
    pub fn is_current(&self, token: u64) -> (b: bool)
        ensures
            b == (self.latest == token),
    {
        self.latest == token
    }

    /// Retires every lease handed out so far.
    pub fn invalidate(&mut self)
        ensures
            final(self).latest == next_token(old(self).latest),
    {
        self.latest = self.latest.wrapping_add(1);
    }

    /// Whether a request to show, with `token` (0 for none), goes ahead; a lease is
    /// recorded as seen.
    pub fn admits(&mut self, token: u64) -> (go: bool)
        ensures
            token == 0 ==> *final(self) == *old(self) && go,
            token != 0 ==> *final(self) == promoted(*old(self), token) && go == honoured(
                promoted(*old(self), token),
                token,
            ),
    {
        if token == 0 {
            true
        } else {
            self.promote(token)
        }
    }

    /// A request to hide with `token` (0 for none): records that the lease is spent,
    /// and says whether the preview is hidden, which it is without a lease or when the
    /// lease was the newest one (a newer preview is left alone).
    pub fn hide_request(&mut self, token: u64) -> (hide: bool)
        ensures
            hide == (token == 0 || old(self).latest == token),
            *final(self) == after_hide(*old(self), token),
    {
        if token == 0 {
            return true;
        }
        let prev = self.latest;
        let next = token.saturating_add(1);
        if next > self.latest {
            self.latest = next;
        }
        prev == token
    }

    /// Whether a request to show, with `token` (0 for none), may still go on.
    pub fn still_current(&self, token: u64) -> (go: bool)
        ensures
            go == honoured(*self, token),
    {
        token == 0 || self.is_current(token)
    }
}

/// A lease just handed out is honoured.
pub proof fn lemma_fresh_lease_honoured(s: PreviewLease)
    ensures
        honoured(PreviewLease { latest: next_token(s.latest) }, next_token(s.latest)),
{
}

/// Once a newer lease has been seen, an older one is never honoured again, and the
/// newest lease never goes back.
pub proof fn lemma_older_lease_loses(s: PreviewLease, older: u64, newer: u64)
    requires
        0 < older < newer,
    ensures
        !honoured(promoted(promoted(s, newer), older), older),
        promoted(s, newer).latest >= s.latest,
{
}

/// A request to hide with a lease blocks a late request to show with the same lease,
/// and hides the preview only when that lease was the newest one.
pub proof fn lemma_hide_blocks_late_show(s: PreviewLease, token: u64)
    requires
        0 < token < u64::MAX,
    ensures
        !honoured(promoted(after_hide(s, token), token), token),
        after_hide(s, token).latest >= s.latest,
{
}

/// Hiding the preview retires every lease handed out before it (while the counter has
/// room).
pub proof fn lemma_invalidate_retires_leases(s: PreviewLease, token: u64)
    requires
        s.latest < u64::MAX,
        0 < token <= s.latest,
    ensures
        !honoured(PreviewLease { latest: next_token(s.latest) }, token),
        !honoured(promoted(PreviewLease { latest: next_token(s.latest) }, token), token),
{
}

} // verus!
