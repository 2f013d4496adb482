use vstd::prelude::*;

use crate::system::{bought_by, owned_by, TicketingSystem};
use crate::types::{Purchase, Ticket, UserId, UserProfile};

verus! {

impl TicketingSystem {
    /// The profile of `user`, stored first with the defaults if it was not.
    /// What any user's profile reads as does not change.
    pub fn get_or_create_user_profile(&mut self, user: &UserId) -> (r: UserProfile)
        requires
            old(self).wf(),
        ensures
            final(self).wf(),
            old(self).used_kept(final(self)),
            r@ == old(self).profile_of(user@),
            final(self).has_profile(user@),
            forall|u: Seq<u8>| #[trigger] final(self).profile_of(u) == old(self).profile_of(u),
            forall|u: Seq<u8>| u != user@ ==> #[trigger] final(self).has_profile(u) == old(self).has_profile(u),
            old(self).has_profile(user@) ==> final(self).profiles == old(self).profiles,
            !old(self).has_profile(user@) ==> final(self).profiles@ == old(self).profiles@.push(final(self).profiles@.last())
                && final(self).profiles@.last()@ == crate::types::default_profile(user@),
            final(self).events == old(self).events,
            final(self).tickets == old(self).tickets,
            final(self).purchases == old(self).purchases,
            final(self).counts == old(self).counts,
    {
        let ghost pre = *self;
        match self.profile_position(user) {
            Some(i) => {
                proof {
                    let c = choose|j: int| 0 <= j < pre.profiles@.len() && #[trigger] pre.profiles@[j].user_principal@ == user@;
                    assert(c == i);
                }
                self.profiles[i].duplicate()
            },
            None => {
                let profile = UserProfile::new(user);
                let r = profile.duplicate();
                self.profiles.push(profile);
                proof {
                    let fin = *self;
                    let last = pre.profiles@.len() as int;
                    assert(fin.profiles@[last].user_principal@ == user@);
                    assert(fin.profiles_wf());
                    assert forall|u: Seq<u8>| #[trigger] fin.profile_of(u) == pre.profile_of(u) by {
                        if pre.has_profile(u) {
                            let j = choose|j: int| 0 <= j < pre.profiles@.len() && #[trigger] pre.profiles@[j].user_principal@ == u;
                            assert(fin.profiles@[j] == pre.profiles@[j]);
                            let j2 = choose|j: int| 0 <= j < fin.profiles@.len() && #[trigger] fin.profiles@[j].user_principal@ == u;
                            assert(j2 == j);
                        } else if fin.has_profile(u) {
                            let j2 = choose|j: int| 0 <= j < fin.profiles@.len() && #[trigger] fin.profiles@[j].user_principal@ == u;
                            if j2 < last {
                                assert(pre.profiles@[j2] == fin.profiles@[j2]);
                            }
                            assert(j2 == last);
                        }
                    }
                    assert(fin.has_profile(user@));
                    assert forall|u: Seq<u8>| u != user@ implies #[trigger] fin.has_profile(u) == pre.has_profile(u) by {
                        if pre.has_profile(u) {
                            let j = choose|j: int| 0 <= j < pre.profiles@.len() && #[trigger] pre.profiles@[j].user_principal@ == u;
                            assert(fin.profiles@[j] == pre.profiles@[j]);
                        }
                        if fin.has_profile(u) {
                            let j2 = choose|j: int| 0 <= j < fin.profiles@.len() && #[trigger] fin.profiles@[j].user_principal@ == u;
                            if j2 < last {
                                assert(pre.profiles@[j2] == fin.profiles@[j2]);
                            }
                        }
                    }
                    assert(fin.profiles@ =~= pre.profiles@.push(fin.profiles@.last()));
                    pre.lemma_wf_profiles_only(&fin);
                }
                r
            },
        }
    }

    /// The profile of `user`: the stored one, or the defaults if there is
    /// none. Nothing is stored.
    pub fn get_user_profile(&self, user: &UserId) -> (r: UserProfile)
        requires
            self.profiles_wf(),
        ensures
            r@ == self.profile_of(user@),
    {
        match self.profile_position(user) {
            Some(i) => {
                proof {
                    let c = choose|j: int| 0 <= j < self.profiles@.len() && #[trigger] self.profiles@[j].user_principal@ == user@;
                    assert(c == i);
                }
                self.profiles[i].duplicate()
            },
            None => UserProfile::new(user),
        }
    }

    /// The tickets owned by `user`, in order of id.
    pub fn get_user_tickets(&self, user: &UserId) -> (r: Vec<Ticket>)
        ensures
            r@.map_values(|t: Ticket| t@) == owned_by(self.tickets@, user@),
    {
        let mut r: Vec<Ticket> = Vec::new();
        let mut i: usize = 0;
        while i < self.tickets.len()
            invariant
                i <= self.tickets@.len(),
                r@.map_values(|t: Ticket| t@) == owned_by(self.tickets@.subrange(0, i as int), user@),
            decreases self.tickets@.len() - i,
        {
            let t = &self.tickets[i];
            if t.owner.same_as(user) {
                r.push(t.duplicate());
            }
            proof {
                let s = self.tickets@.subrange(0, i + 1);
                assert(s.drop_last() =~= self.tickets@.subrange(0, i as int));
                assert(r@.map_values(|t: Ticket| t@) =~= owned_by(s, user@));
            }
            i = i + 1;
        }
        assert(self.tickets@.subrange(0, self.tickets@.len() as int) =~= self.tickets@);
        r
    }

    /// The purchases made by `user`, in order of id.
    pub fn get_user_purchases(&self, user: &UserId) -> (r: Vec<Purchase>)
        ensures
            r@.map_values(|p: Purchase| p@) == bought_by(self.purchases@, user@),
    {
        let mut r: Vec<Purchase> = Vec::new();
        let mut i: usize = 0;
        while i < self.purchases.len()
            invariant
                i <= self.purchases@.len(),
                r@.map_values(|p: Purchase| p@) == bought_by(self.purchases@.subrange(0, i as int), user@),
            decreases self.purchases@.len() - i,
        {
            let p = &self.purchases[i];
            if p.buyer.same_as(user) {
                r.push(p.duplicate());
            }
            proof {
                let s = self.purchases@.subrange(0, i + 1);
                assert(s.drop_last() =~= self.purchases@.subrange(0, i as int));
                assert(r@.map_values(|p: Purchase| p@) =~= bought_by(s, user@));
            }
            i = i + 1;
        }
        assert(self.purchases@.subrange(0, self.purchases@.len() as int) =~= self.purchases@);
        r
    }
}

} // verus!
