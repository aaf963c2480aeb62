use vstd::prelude::*;
use crate::errors::Errors;
use crate::state::{job_wf, Address, Job};

verus! {

/// Whether `j` is the record stored for (maker, seed).
pub open spec fn job_has_key(j: Job, maker: Address, seed: u64) -> bool {
    j.maker == maker && j.seed == seed
}

/// The first record for (maker, seed) in `s`, scanning from the front.
spec fn find_job(s: Seq<Job>, maker: Address, seed: u64) -> Option<Job>
    decreases s.len(),
{
    if s.len() == 0 {
        None
    } else if job_has_key(s[0], maker, seed) {
        Some(s[0])
    } else {
        find_job(s.drop_first(), maker, seed)
    }
}

proof fn lemma_find_job_update(s: Seq<Job>, i: int, j2: Job, m: Address, sd: u64)
    requires
        0 <= i < s.len(),
        job_has_key(s[i], j2.maker, j2.seed),
        forall|k: int| 0 <= k < i ==> !job_has_key(s[k], j2.maker, j2.seed),
    ensures
        find_job(s.update(i, j2), j2.maker, j2.seed) == Some(j2),
        !job_has_key(j2, m, sd) ==> find_job(s.update(i, j2), m, sd) == find_job(s, m, sd),
    decreases i,
{
    let t = s.update(i, j2);
    if i == 0 {
        assert(t[0] == j2);
        assert(t.drop_first() =~= s.drop_first());
        if !job_has_key(j2, m, sd) && !job_has_key(s[0], m, sd) {
            assert(find_job(t, m, sd) == find_job(s.drop_first(), m, sd));
        }
    } else {
        assert(t[0] == s[0]);
        assert(t.drop_first() =~= s.drop_first().update(i - 1, j2));
        lemma_find_job_update(s.drop_first(), i - 1, j2, m, sd);
    }
}

proof fn lemma_find_job_push(s: Seq<Job>, j2: Job, m: Address, sd: u64)
    requires
        find_job(s, j2.maker, j2.seed) is None,
    ensures
        find_job(s.push(j2), j2.maker, j2.seed) == Some(j2),
        !job_has_key(j2, m, sd) ==> find_job(s.push(j2), m, sd) == find_job(s, m, sd),
    decreases s.len(),
{
    let t = s.push(j2);
    if s.len() == 0 {
        assert(t[0] == j2);
        assert(t.drop_first() =~= Seq::<Job>::empty());
        assert(find_job(Seq::<Job>::empty(), m, sd) is None);
        assert(find_job(Seq::<Job>::empty(), j2.maker, j2.seed) is None);
    } else {
        assert(t[0] == s[0]);
        assert(t.drop_first() =~= s.drop_first().push(j2));
        lemma_find_job_push(s.drop_first(), j2, m, sd);
        assert(!job_has_key(s[0], j2.maker, j2.seed));
        assert(find_job(t, j2.maker, j2.seed) == find_job(t.drop_first(), j2.maker, j2.seed));
        if !job_has_key(j2, m, sd) && !job_has_key(s[0], m, sd) {
            assert(find_job(t, m, sd) == find_job(t.drop_first(), m, sd));
            assert(find_job(s, m, sd) == find_job(s.drop_first(), m, sd));
        }
    }
}

/// The canonical store of job records, keyed by (maker, seed). The
/// surrounding host serializes operations on it; the store itself keeps one
/// record per key and every record well formed.
pub struct JobRegistry {
    jobs: Vec<Job>,
}

impl JobRegistry {
    /// One record per (maker, seed), and every record meets the job
    /// invariant.
    pub closed spec fn wf(&self) -> bool {
        &&& forall|i: int, j: int|
            0 <= i < j < self.jobs@.len() ==> !job_has_key(
                self.jobs@[j],
                self.jobs@[i].maker,
                self.jobs@[i].seed,
            )
        &&& forall|i: int| 0 <= i < self.jobs@.len() ==> job_wf(#[trigger] self.jobs@[i])
    }

    /// The record stored for (maker, seed), if any.
    pub closed spec fn lookup(&self, maker: Address, seed: u64) -> Option<Job> {
        find_job(self.jobs@, maker, seed)
    }

    /// An empty store.
    pub fn new() -> (r: JobRegistry)
        ensures
            r.wf(),
            forall|m: Address, sd: u64| r.lookup(m, sd) is None,
    {
        JobRegistry { jobs: Vec::new() }
    }

    /// Look up the record for (maker, seed); `JobNotFound` if absent.
    pub fn get(&self, maker: &Address, seed: u64) -> (r: Result<Job, Errors>)
        ensures
            r == (match self.lookup(*maker, seed) {
                Some(j) => Ok::<Job, Errors>(j),
                None => Err::<Job, Errors>(Errors::JobNotFound),
            }),
    {
        let n = self.jobs.len();
        let mut i: usize = 0;
        proof {
            assert(self.jobs@.skip(0) =~= self.jobs@);
        }
        while i < n
            invariant
                n == self.jobs@.len(),
                i <= n,
                find_job(self.jobs@.skip(i as int), *maker, seed) == self.lookup(*maker, seed),
            decreases n - i,
        {
            let j = self.jobs[i];
            proof {
                assert(self.jobs@.skip(i as int)[0] == self.jobs@[i as int]);
            }
            if j.maker == *maker && j.seed == seed {
                return Ok(j);
            }
            proof {
                assert(self.jobs@.skip(i as int).drop_first() =~= self.jobs@.skip(i as int + 1));
            }
            i += 1;
        }
        proof {
            assert(self.jobs@.skip(n as int) =~= Seq::<Job>::empty());
        }
        Err(Errors::JobNotFound)
    }

    /// Record a newly created job. Returns `false`, changing nothing, when a
    /// record for its (maker, seed) already exists; otherwise stores it and
    /// touches no other key. (The creation path that mints the record and
    /// funds the vault lives outside this store.)
    pub fn insert(&mut self, job: Job) -> (r: bool)
        requires
            old(self).wf(),
            job_wf(job),
        ensures
            final(self).wf(),
            r == (old(self).lookup(job.maker, job.seed) is None),
            !r ==> *final(self) == *old(self),
            r ==> final(self).lookup(job.maker, job.seed) == Some(job),
            r ==> forall|m: Address, sd: u64|
                !job_has_key(job, m, sd) ==> final(self).lookup(m, sd) == old(self).lookup(m, sd),
    {
        match self.get(&job.maker, job.seed) {
            Ok(_) => false,
            Err(_) => {
                proof {
                    lemma_find_none_no_key(self.jobs@, job.maker, job.seed);
                }
                self.jobs.push(job);
                proof {
                    assert forall|m: Address, sd: u64| !job_has_key(job, m, sd) implies find_job(
                        old(self).jobs@.push(job),
                        m,
                        sd,
                    ) == find_job(old(self).jobs@, m, sd) by {
                        lemma_find_job_push(old(self).jobs@, job, m, sd);
                    }
                    lemma_find_job_push(old(self).jobs@, job, job.maker, job.seed);
                }
                true
            },
        }
    }

    /// Persist the post-payout state of a job: replace the record with its
    /// (maker, seed). Returns `JobNotFound`, changing nothing, when no such
    /// record exists; otherwise touches no other key.
    pub fn save(&mut self, job: Job) -> (r: Result<(), Errors>)
        requires
            old(self).wf(),
            job_wf(job),
        ensures
            final(self).wf(),
            (r is Ok <==> old(self).lookup(job.maker, job.seed) is Some),
            r is Err ==> r == Err::<(), Errors>(Errors::JobNotFound) && *final(self) == *old(
                self,
            ),
            r is Ok ==> final(self).lookup(job.maker, job.seed) == Some(job),
            r is Ok ==> forall|m: Address, sd: u64|
                !job_has_key(job, m, sd) ==> final(self).lookup(m, sd) == old(self).lookup(m, sd),
    {
        let n = self.jobs.len();
        let mut i: usize = 0;
        proof {
            assert(self.jobs@.skip(0) =~= self.jobs@);
        }
        while i < n
            invariant
                *self == *old(self),
                old(self).wf(),
                job_wf(job),
                n == self.jobs@.len(),
                i <= n,
                forall|k: int| 0 <= k < i ==> !job_has_key(self.jobs@[k], job.maker, job.seed),
                find_job(self.jobs@.skip(i as int), job.maker, job.seed) == self.lookup(
                    job.maker,
                    job.seed,
                ),
            decreases n - i,
        {
            let cur = self.jobs[i];
            proof {
                assert(self.jobs@.skip(i as int)[0] == self.jobs@[i as int]);
            }
            if cur.maker == job.maker && cur.seed == job.seed {
                proof {
                    lemma_find_job_update_all(self.jobs@, i as int, job);
                    lemma_wf_update(self.jobs@, i as int, job);
                }
                self.jobs[i] = job;
                proof {
                    assert(self.jobs@ =~= old(self).jobs@.update(i as int, job));
                }
                return Ok(());
            }
            proof {
                assert(self.jobs@.skip(i as int).drop_first() =~= self.jobs@.skip(i as int + 1));
            }
            i += 1;
        }
        proof {
            assert(self.jobs@.skip(n as int) =~= Seq::<Job>::empty());
        }
        Err(Errors::JobNotFound)
    }

    /// Every record the store hands out carries the key it was looked up
    /// under, and satisfies the job invariant whenever the store does.
    pub proof fn lemma_lookup_props(&self, maker: Address, seed: u64)
        requires
            self.lookup(maker, seed) is Some,
        ensures
            job_has_key(self.lookup(maker, seed).unwrap(), maker, seed),
            self.wf() ==> job_wf(self.lookup(maker, seed).unwrap()),
    {
        lemma_find_job_props(self.jobs@, maker, seed);
    }
}

proof fn lemma_find_none_no_key(s: Seq<Job>, m: Address, sd: u64)
    requires
        find_job(s, m, sd) is None,
    ensures
        forall|k: int| 0 <= k < s.len() ==> !job_has_key(#[trigger] s[k], m, sd),
    decreases s.len(),
{
    if s.len() > 0 {
        lemma_find_none_no_key(s.drop_first(), m, sd);
        assert forall|k: int| 0 <= k < s.len() implies !job_has_key(#[trigger] s[k], m, sd) by {
            if k > 0 {
                assert(s.drop_first()[k - 1] == s[k]);
            }
        }
    }
}

proof fn lemma_find_job_update_all(s: Seq<Job>, i: int, j2: Job)
    requires
        0 <= i < s.len(),
        job_has_key(s[i], j2.maker, j2.seed),
        forall|k: int| 0 <= k < i ==> !job_has_key(s[k], j2.maker, j2.seed),
    ensures
        find_job(s.update(i, j2), j2.maker, j2.seed) == Some(j2),
        forall|m: Address, sd: u64|
            !job_has_key(j2, m, sd) ==> find_job(s.update(i, j2), m, sd) == find_job(s, m, sd),
{
    assert forall|m: Address, sd: u64| !job_has_key(j2, m, sd) implies find_job(
        s.update(i, j2),
        m,
        sd,
    ) == find_job(s, m, sd) by {
        lemma_find_job_update(s, i, j2, m, sd);
    }
    lemma_find_job_update(s, i, j2, j2.maker, j2.seed);
}

proof fn lemma_wf_update(s: Seq<Job>, i: int, j2: Job)
    requires
        0 <= i < s.len(),
        job_has_key(s[i], j2.maker, j2.seed),
        job_wf(j2),
        forall|a: int, b: int|
            0 <= a < b < s.len() ==> !job_has_key(s[b], s[a].maker, s[a].seed),
        forall|k: int| 0 <= k < s.len() ==> job_wf(#[trigger] s[k]),
    ensures
        forall|a: int, b: int|
            0 <= a < b < s.update(i, j2).len() ==> !job_has_key(
                s.update(i, j2)[b],
                s.update(i, j2)[a].maker,
                s.update(i, j2)[a].seed,
            ),
        forall|k: int| 0 <= k < s.update(i, j2).len() ==> job_wf(#[trigger] s.update(i, j2)[k]),
{
    let t = s.update(i, j2);
    assert forall|a: int, b: int| 0 <= a < b < t.len() implies !job_has_key(
        t[b],
        t[a].maker,
        t[a].seed,
    ) by {
        assert(!job_has_key(s[b], s[a].maker, s[a].seed));
    }
}

proof fn lemma_find_job_props(s: Seq<Job>, m: Address, sd: u64)
    requires
        find_job(s, m, sd) is Some,
    ensures
        job_has_key(find_job(s, m, sd).unwrap(), m, sd),
        exists|k: int| 0 <= k < s.len() && s[k] == find_job(s, m, sd).unwrap(),
    decreases s.len(),
{
    if job_has_key(s[0], m, sd) {
        assert(s[0] == find_job(s, m, sd).unwrap());
    } else {
        lemma_find_job_props(s.drop_first(), m, sd);
        let j = find_job(s, m, sd).unwrap();
        let k = choose|k: int| 0 <= k < s.drop_first().len() && s.drop_first()[k] == j;
        assert(s[k + 1] == j);
    }
}

} // verus!
