use crate::manga::Init;
use crate::model::MangaEntry;
use crate::protocol::{DbError, EntryOutcome, Progress, Reply};
use vstd::prelude::*;

verus! {

/// `seed_db`: runs `init` on each of the given series in turn, stopping at the first failure.
pub struct SeedDb<P> {
    pub current: Init<P>,
    pub rest: Vec<MangaEntry<P>>,
}

impl<P: Copy> SeedDb<P> {
    /// With the series in `rest` still to initialize: success once none is left, else the
    /// next series' `init` begins.
    pub open spec fn continues(rest: Seq<MangaEntry<P>>, r: Progress<SeedDb<P>, Result<(), DbError>, P>) -> bool {
        if rest.len() == 0 {
            r == Progress::<SeedDb<P>, Result<(), DbError>, P>::Finished(Ok(()))
        } else {
            r matches Progress::Perform(SeedDb { current, rest: rv }, a)
                && Progress::<Init<P>, EntryOutcome<P, ()>, P>::Perform(current, a) == rest[0].init_first()
                && rv@ == rest.drop_first()
        }
    }

    /// The current `init` goes on; when it succeeds the next series begins, when it fails
    /// seeding stops with its failure.
    pub open spec fn next_is(self, reply: Reply<P>, r: Progress<SeedDb<P>, Result<(), DbError>, P>) -> bool {
        exists|c: Progress<Init<P>, EntryOutcome<P, ()>, P>| #[trigger] self.current.next_is(reply, c) && match c {
            Progress::Perform(current, a) => r matches Progress::Perform(SeedDb { current: i, rest: rv }, a2)
                && i == current && a2 == a && rv@ == self.rest@,
            Progress::Finished((_, Ok(()))) => Self::continues(self.rest@, r),
            Progress::Finished((_, Err(e))) => r == Progress::<SeedDb<P>, Result<(), DbError>, P>::Finished(Err(e)),
        }
    }

    fn continue_with(rest: Vec<MangaEntry<P>>) -> (r: Progress<SeedDb<P>, Result<(), DbError>, P>)
        ensures
            Self::continues(rest@, r),
    {
        if rest.len() == 0 {
            Progress::Finished(Ok(()))
        } else {
            let mut rest = rest;
            let ghost all = rest@;
            let next = rest.remove(0);
            proof {
                assert(rest@ == all.drop_first());
            }
            match next.init() {
                Progress::Perform(current, a) => Progress::Perform(SeedDb { current, rest }, a),
                Progress::Finished(_) => {
                    // `init` always begins with the existence check of `save`.
                    assert(false);
                    Progress::Finished(Ok(()))
                },
            }
        }
    }

    /// `seed_db` over `entries`, in order.
    pub fn start(entries: Vec<MangaEntry<P>>) -> (r: Progress<SeedDb<P>, Result<(), DbError>, P>)
        ensures
            Self::continues(entries@, r),
    {
        Self::continue_with(entries)
    }

    pub fn resume(self, reply: Reply<P>) -> (r: Progress<SeedDb<P>, Result<(), DbError>, P>)
        ensures
            self.next_is(reply, r),
    {
        let SeedDb { current, rest } = self;
        let c = current.resume(reply);
        match c {
            Progress::Perform(current, a) => Progress::Perform(SeedDb { current, rest }, a),
            Progress::Finished((_, Ok(()))) => Self::continue_with(rest),
            Progress::Finished((_, Err(e))) => Progress::Finished(Err(e)),
        }
    }
}

} // verus!
