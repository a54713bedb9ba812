//! Reputation and earnings of a courier: what a confirmed and what a
//! cancelled delivery do to the profile.
//!
//! Reputation and ratings are counted in thousandths of a star, from 0 to
//! `MAX_REPUTATION`. A confirmed delivery moves the reputation by the
//! weighted-average rule.

use vstd::prelude::*;
use crate::model::{ProfileView, UserProfile, MAX_REPUTATION};
use crate::text::copy_opt_text;

verus! {

/// The approach rule: the reputation closes a tenth of its distance to five
/// stars and moves a tenth of the way towards the rating, which comes to
/// half a star plus eight tenths of the old reputation plus one tenth of
/// the rating, rounded down to the thousandth.
pub open spec fn approached_reputation(old_rep: u32, rating: u32) -> int {
    (5000 + 8 * old_rep + rating) / 10
}

/// The weighted-average rule: the first rating is the reputation; later the
/// reputation is the mean of the ratings so far, the old reputation
/// counting once for each delivery completed before, rounded down to the
/// thousandth.
pub open spec fn averaged_reputation(old_rep: u32, completed_before: u32, rating: u32) -> int {
    if completed_before == 0 {
        rating as int
    } else {
        (old_rep * completed_before + rating) / (completed_before + 1)
    }
}

/// The reputation after a rating, by the approach rule. It stays within
/// five stars where the old reputation and the rating do.
pub fn calculate_new_reputation(old_rep: u32, rating: u32) -> (r: u32)
    ensures
        r == approached_reputation(old_rep, rating),
        old_rep <= MAX_REPUTATION && rating <= MAX_REPUTATION ==> 500 <= r <= MAX_REPUTATION,
{
    let sum: u64 = 5000 + 8 * (old_rep as u64) + (rating as u64);
    (sum / 10) as u32
}

/// The weighted average lies between the lesser and the greater of the old
/// reputation and the rating.
pub proof fn lemma_averaged_reputation_bounds(old_rep: u32, completed_before: u32, rating: u32)
    ensures
        averaged_reputation(old_rep, completed_before, rating) <= if old_rep >= rating {
            old_rep
        } else {
            rating
        },
        averaged_reputation(old_rep, completed_before, rating) >= if old_rep <= rating {
            old_rep
        } else {
            rating
        },
{
    if completed_before > 0 {
        let n = completed_before as int;
        let hi: int = if old_rep >= rating {
            old_rep as int
        } else {
            rating as int
        };
        let lo: int = if old_rep <= rating {
            old_rep as int
        } else {
            rating as int
        };
        let total = old_rep * n + rating;
        assert(total <= hi * (n + 1) && total >= lo * (n + 1)) by (nonlinear_arith)
            requires
                total == old_rep * n + rating,
                lo <= old_rep <= hi,
                lo <= rating <= hi,
                n > 0,
        ;
        assert(total / (n + 1) <= hi && total / (n + 1) >= lo) by (nonlinear_arith)
            requires
                total <= hi * (n + 1),
                total >= lo * (n + 1),
                n > 0,
        ;
    }
}

/// The reputation after a rating, by the weighted-average rule.
pub fn weighted_reputation(old_rep: u32, completed_before: u32, rating: u32) -> (r: u32)
    ensures
        r == averaged_reputation(old_rep, completed_before, rating),
        old_rep <= MAX_REPUTATION && rating <= MAX_REPUTATION ==> r <= MAX_REPUTATION,
{
    proof {
        lemma_averaged_reputation_bounds(old_rep, completed_before, rating);
    }
    if completed_before == 0 {
        rating
    } else {
        assert((old_rep as u64) * (completed_before as u64) + (rating as u64) <= u64::MAX)
            by (nonlinear_arith)
            requires
                old_rep <= u32::MAX,
                completed_before <= u32::MAX,
                rating <= u32::MAX,
        ;
        let total: u64 = (old_rep as u64) * (completed_before as u64) + (rating as u64);
        (total / (completed_before as u64 + 1)) as u32
    }
}

/// The profile of a courier after a delivery of theirs was confirmed: one
/// more completed delivery, the payment added to the earnings, and, where
/// the sender gave a rating, the reputation moved by the weighted-average
/// rule over the deliveries completed before.
pub open spec fn profile_after_confirmation(
    p: ProfileView,
    amount: u64,
    rating: Option<u32>,
) -> ProfileView {
    ProfileView {
        reputation: match rating {
            Some(stars) => averaged_reputation(p.reputation, p.completed_deliveries, stars) as u32,
            None => p.reputation,
        },
        completed_deliveries: (p.completed_deliveries + 1) as u32,
        total_earnings: (p.total_earnings + amount) as u64,
        ..p
    }
}

/// The profile of a courier after a delivery of theirs was cancelled: the
/// payment added to the earnings and nothing else changed.
pub open spec fn profile_after_cancellation(p: ProfileView, amount: u64) -> ProfileView {
    ProfileView { total_earnings: (p.total_earnings + amount) as u64, ..p }
}

/// `p` with the name and the payment address replaced where new ones are given.
pub open spec fn profile_with_details(
    p: ProfileView,
    display_name: Option<Seq<char>>,
    lightning_address: Option<Seq<char>>,
) -> ProfileView {
    ProfileView {
        display_name: if display_name is Some {
            display_name
        } else {
            p.display_name
        },
        lightning_address: if lightning_address is Some {
            lightning_address
        } else {
            p.lightning_address
        },
        ..p
    }
}

impl UserProfile {
    /// Whether a confirmed delivery paying `amount` can be credited: the
    /// counters have room for it.
    pub fn can_credit_confirmation(&self, amount: u64) -> (r: bool)
        ensures
            r == (self.completed_deliveries < u32::MAX && self.total_earnings + amount
                <= u64::MAX),
    {
        self.completed_deliveries < u32::MAX && amount <= u64::MAX - self.total_earnings
    }

    /// Whether a cancelled delivery paying `amount` can be credited.
    pub fn can_credit_cancellation(&self, amount: u64) -> (r: bool)
        ensures
            r == (self.total_earnings + amount <= u64::MAX),
    {
        amount <= u64::MAX - self.total_earnings
    }

    /// Credits a confirmed delivery to its courier. The count of completed
    /// deliveries grows by exactly one and the earnings by exactly
    /// `amount`; the reputation stays within five stars where it was
    /// within them and the rating is.
    pub fn credit_confirmation(&mut self, amount: u64, rating: Option<u32>)
        requires
            old(self).completed_deliveries < u32::MAX,
            old(self).total_earnings + amount <= u64::MAX,
        ensures
            final(self)@ == profile_after_confirmation(old(self)@, amount, rating),
            final(self).completed_deliveries == old(self).completed_deliveries + 1,
            final(self).total_earnings == old(self).total_earnings + amount,
            rating is None ==> final(self).reputation == old(self).reputation,
            old(self).reputation <= MAX_REPUTATION && (rating matches Some(stars) ==> stars
                <= MAX_REPUTATION) ==> final(self).reputation <= MAX_REPUTATION,
    {
        match rating {
            Some(stars) => {
                self.reputation = weighted_reputation(
                    self.reputation,
                    self.completed_deliveries,
                    stars,
                );
            },
            None => {},
        }
        self.completed_deliveries = self.completed_deliveries + 1;
        self.total_earnings = self.total_earnings + amount;
    }

    /// Credits a cancelled delivery to its courier: the payment is added to
    /// the earnings; the count of completed deliveries and the reputation
    /// stay as they are.
    pub fn credit_cancellation(&mut self, amount: u64)
        requires
            old(self).total_earnings + amount <= u64::MAX,
        ensures
            final(self)@ == profile_after_cancellation(old(self)@, amount),
            final(self).total_earnings == old(self).total_earnings + amount,
            final(self).completed_deliveries == old(self).completed_deliveries,
            final(self).reputation == old(self).reputation,
    {
        self.total_earnings = self.total_earnings + amount;
    }

    /// Replaces the name and the payment address where new ones are given.
    pub fn update_details(&mut self, display_name: &Option<String>, lightning_address: &Option<String>)
        ensures
            final(self)@ == profile_with_details(
                old(self)@,
                display_name.deep_view(),
                lightning_address.deep_view(),
            ),
    {
        if display_name.is_some() {
            self.display_name = copy_opt_text(display_name);
        }
        if lightning_address.is_some() {
            self.lightning_address = copy_opt_text(lightning_address);
        }
    }
}

} // verus!
