use vstd::prelude::*;

use crate::certificate::{Certificate, CertificateView, RegistryError, spec_revoked};
use crate::ident::{cert_id, spec_cert_id};

verus! {

/// No two records in `s` carry the same id.
pub open spec fn distinct_ids(s: Seq<CertificateView>) -> bool {
    forall|i: int, j: int|
        0 <= i < s.len() && 0 <= j < s.len() && i != j ==> s[i].id != s[j].id
}

/// The keyed store that a sequence of records denotes: each record filed
/// under its own id, later records overriding earlier ones.
pub open spec fn map_of(s: Seq<CertificateView>) -> Map<Seq<char>, CertificateView>
    decreases s.len(),
{
    if s.len() == 0 {
        Map::empty()
    } else {
        map_of(s.drop_last()).insert(s.last().id, s.last())
    }
}

/// Whether `id` passes verification against the store `m`: a record for it
/// exists and that record is not revoked.
pub open spec fn spec_verify(m: Map<Seq<char>, CertificateView>, id: Seq<char>) -> bool {
    m.contains_key(id) && !m[id].revoked
}

proof fn lemma_distinct_drop_last(s: Seq<CertificateView>)
    requires
        s.len() > 0,
        distinct_ids(s),
    ensures
        distinct_ids(s.drop_last()),
{
    assert forall|i: int, j: int|
        0 <= i < s.drop_last().len() && 0 <= j < s.drop_last().len() && i != j
        implies s.drop_last()[i].id != s.drop_last()[j].id by {
        assert(s.drop_last()[i] == s[i]);
        assert(s.drop_last()[j] == s[j]);
    }
}

proof fn lemma_map_of_contains(s: Seq<CertificateView>, id: Seq<char>)
    ensures
        map_of(s).contains_key(id) <==> (exists|i: int| 0 <= i < s.len() && s[i].id == id),
    decreases s.len(),
{
    if s.len() == 0 {
    } else {
        lemma_map_of_contains(s.drop_last(), id);
        if s.last().id == id {
            assert(s[s.len() - 1].id == id);
        } else {
            if map_of(s).contains_key(id) {
                let i = choose|i: int| 0 <= i < s.drop_last().len() && s.drop_last()[i].id == id;
                assert(s[i].id == id);
            }
            if exists|i: int| 0 <= i < s.len() && s[i].id == id {
                let i = choose|i: int| 0 <= i < s.len() && s[i].id == id;
                assert(i != s.len() - 1);
                assert(s.drop_last()[i].id == id);
            }
        }
    }
}

proof fn lemma_map_of_index(s: Seq<CertificateView>, i: int)
    requires
        distinct_ids(s),
        0 <= i < s.len(),
    ensures
        map_of(s).contains_key(s[i].id),
        map_of(s)[s[i].id] == s[i],
    decreases s.len(),
{
    if i == s.len() - 1 {
    } else {
        lemma_distinct_drop_last(s);
        lemma_map_of_index(s.drop_last(), i);
        assert(s.drop_last()[i] == s[i]);
        assert(s.last().id != s[i].id);
    }
}

proof fn lemma_map_of_push(s: Seq<CertificateView>, c: CertificateView)
    ensures
        map_of(s.push(c)) == map_of(s).insert(c.id, c),
{
    assert(s.push(c).drop_last() =~= s);
    assert(s.push(c).last() == c);
}

proof fn lemma_map_of_update(s: Seq<CertificateView>, i: int, c: CertificateView)
    requires
        distinct_ids(s),
        0 <= i < s.len(),
        c.id == s[i].id,
    ensures
        map_of(s.update(i, c)) == map_of(s).insert(c.id, c),
    decreases s.len(),
{
    if i == s.len() - 1 {
        assert(s.update(i, c).drop_last() =~= s.drop_last());
        assert(s.update(i, c).last() == c);
        assert(map_of(s.drop_last()).insert(c.id, c) =~= map_of(s).insert(c.id, c));
    } else {
        lemma_distinct_drop_last(s);
        assert(s.drop_last()[i] == s[i]);
        lemma_map_of_update(s.drop_last(), i, c);
        assert(s.update(i, c).drop_last() =~= s.drop_last().update(i, c));
        assert(s.update(i, c).last() == s.last());
        assert(c.id != s.last().id);
        assert(map_of(s.drop_last()).insert(c.id, c).insert(s.last().id, s.last())
            =~= map_of(s.drop_last()).insert(s.last().id, s.last()).insert(c.id, c));
    }
}

proof fn lemma_map_of_key(s: Seq<CertificateView>, id: Seq<char>)
    requires
        map_of(s).contains_key(id),
    ensures
        map_of(s)[id].id == id,
    decreases s.len(),
{
    if s.len() == 0 {
    } else if s.last().id == id {
    } else {
        lemma_map_of_key(s.drop_last(), id);
    }
}

proof fn lemma_map_of_len(s: Seq<CertificateView>)
    requires
        distinct_ids(s),
    ensures
        map_of(s).dom().finite(),
        map_of(s).dom().len() == s.len(),
    decreases s.len(),
{
    if s.len() == 0 {
        assert(map_of(s).dom() =~= Set::<Seq<char>>::empty());
    } else {
        lemma_distinct_drop_last(s);
        lemma_map_of_len(s.drop_last());
        lemma_map_of_contains(s.drop_last(), s.last().id);
        assert forall|i: int| 0 <= i < s.drop_last().len()
            implies s.drop_last()[i].id != s.last().id by {
            assert(s.drop_last()[i] == s[i]);
            assert(s[i].id != s[s.len() - 1].id);
        }
        assert(!map_of(s.drop_last()).contains_key(s.last().id));
        assert(map_of(s).dom() =~= map_of(s.drop_last()).dom().insert(s.last().id));
        vstd::set::axiom_set_insert_len(map_of(s.drop_last()).dom(), s.last().id);
    }
}

/// The certificate registry: every record ever issued, filed under its id.
/// Records are only added or flagged revoked, never removed.
pub struct Registry {
    certs: Vec<Certificate>,
}

impl View for Registry {
    type V = Map<Seq<char>, CertificateView>;

    closed spec fn view(&self) -> Map<Seq<char>, CertificateView> {
        map_of(self.cert_views())
    }
}

impl Registry {
    /// The stored records, in storage order, as mathematical values.
    pub closed spec fn cert_views(&self) -> Seq<CertificateView> {
        self.certs@.map(|i: int, c: Certificate| c@)
    }

    /// Internal consistency: the stored records carry pairwise distinct ids,
    /// so the registry really is a mapping from id to record.
    pub closed spec fn wf(&self) -> bool {
        distinct_ids(self.cert_views())
    }

    /// Every stored record carries the id it is filed under: a record found
    /// under key `id` has `id` as its own id field.
    pub proof fn lemma_stored_under_own_id(&self, id: Seq<char>)
        requires
            self@.contains_key(id),
        ensures
            self@[id].id == id,
    {
        lemma_map_of_key(self.cert_views(), id);
    }

    /// A registry with nothing issued yet.
    pub fn new() -> (r: Registry)
        ensures
            r.wf(),
            r@ == Map::<Seq<char>, CertificateView>::empty(),
            r@.dom().len() == 0,
    {
        let r = Registry { certs: Vec::new() };
        proof {
            assert(r.cert_views().len() == 0);
            assert(r@.dom() =~= Set::<Seq<char>>::empty());
        }
        r
    }

    fn find_index(&self, certificate_id: &String) -> (r: Option<usize>)
        ensures
            match r {
                Some(i) => i < self.cert_views().len()
                    && self.cert_views()[i as int].id == certificate_id@,
                None => forall|i: int|
                    0 <= i < self.cert_views().len()
                        ==> self.cert_views()[i].id != certificate_id@,
            },
    {
        let mut k: usize = 0;
        while k < self.certs.len()
            invariant
                k <= self.cert_views().len(),
                forall|i: int| 0 <= i < k ==> self.cert_views()[i].id != certificate_id@,
            decreases self.cert_views().len() - k,
        {
            if self.certs[k].id == *certificate_id {
                return Some(k);
            }
            k += 1;
        }
        None
    }

    /// Issues a new certificate: builds an unrevoked record for `name`,
    /// `course` and `date` under the id derived from `timestamp`, stores it
    /// (replacing any record already filed under that id, which happens only
    /// if the host hands out the same timestamp twice), and returns it.
    pub fn issue_certificate(
        &mut self,
        name: String,
        course: String,
        date: String,
        timestamp: u64,
    ) -> (r: Certificate)
        requires
            old(self).wf(),
        ensures
            final(self).wf(),
            r@ == (CertificateView {
                id: spec_cert_id(timestamp),
                name: name@,
                course: course@,
                date: date@,
                revoked: false,
            }),
            !r@.revoked,
            final(self)@ == old(self)@.insert(spec_cert_id(timestamp), r@),
            final(self)@.dom().len() == old(self)@.dom().len()
                + (if old(self)@.contains_key(spec_cert_id(timestamp)) { 0int } else { 1int }),
    {
        let id = cert_id(timestamp);
        let found = self.find_index(&id);
        let certificate = Certificate { id, name, course, date, revoked: false };
        let ghost s0: Seq<CertificateView> = self.cert_views();
        match found {
            Some(i) => {
                proof {
                    lemma_map_of_len(s0);
                    lemma_map_of_index(s0, i as int);
                    lemma_map_of_update(s0, i as int, certificate@);
                }
                self.certs.set(i, certificate.clone());
                proof {
                    assert(self.cert_views() =~= s0.update(i as int, certificate@));
                    assert forall|a: int, b: int|
                        0 <= a < self.cert_views().len() && 0 <= b < self.cert_views().len()
                            && a != b
                        implies self.cert_views()[a].id != self.cert_views()[b].id by {
                        assert(s0[a].id != s0[b].id);
                    }
                    assert(old(self)@.dom().insert(certificate@.id) =~= old(self)@.dom());
                }
                certificate
            },
            None => {
                proof {
                    lemma_map_of_len(s0);
                    lemma_map_of_contains(s0, certificate@.id);
                    assert(!old(self)@.contains_key(certificate@.id));
                }
                self.certs.push(certificate.clone());
                proof {
                    assert(self.cert_views() =~= s0.push(certificate@));
                    lemma_map_of_push(s0, certificate@);
                    assert forall|a: int, b: int|
                        0 <= a < self.cert_views().len() && 0 <= b < self.cert_views().len()
                            && a != b
                        implies self.cert_views()[a].id != self.cert_views()[b].id by {
                        if a < s0.len() && b < s0.len() {
                            assert(s0[a].id != s0[b].id);
                        }
                    }
                    vstd::set::axiom_set_insert_len(old(self)@.dom(), certificate@.id);
                    assert(final(self)@.dom() =~= old(self)@.dom().insert(certificate@.id));
                }
                certificate
            },
        }
    }

    /// Whether `certificate_id` names a stored record that has not been
    /// revoked.  An unknown id and a revoked record both answer `false`.
    pub fn verify_certificate(&self, certificate_id: String) -> (r: bool)
        requires
            self.wf(),
        ensures
            r == spec_verify(self@, certificate_id@),
    {
        match self.find_index(&certificate_id) {
            Some(i) => {
                proof {
                    lemma_map_of_index(self.cert_views(), i as int);
                }
                !self.certs[i].revoked
            },
            None => {
                proof {
                    lemma_map_of_contains(self.cert_views(), certificate_id@);
                }
                false
            },
        }
    }

    /// Marks the record under `certificate_id` revoked and returns it; once a
    /// record is revoked it stays revoked, and revoking again has no further
    /// effect.  Fails, changing nothing, exactly when the id is unknown.
    pub fn revoke_certificate(&mut self, certificate_id: String) -> (r: Result<
        Certificate,
        RegistryError,
    >)
        requires
            old(self).wf(),
        ensures
            final(self).wf(),
            old(self)@.contains_key(certificate_id@) ==> (
                r matches Ok(c)
                && c@ == spec_revoked(old(self)@[certificate_id@])
                && final(self)@ == old(self)@.insert(certificate_id@, c@)
            ),
            !old(self)@.contains_key(certificate_id@) ==> (
                r matches Err(e)
                && e == RegistryError::NotFound
                && final(self)@ == old(self)@
            ),
            final(self)@.dom() == old(self)@.dom(),
    {
        let ghost s0: Seq<CertificateView> = self.cert_views();
        match self.find_index(&certificate_id) {
            Some(i) => {
                let mut c = self.certs[i].clone();
                c.revoked = true;
                proof {
                    lemma_map_of_index(s0, i as int);
                    assert(c@ == spec_revoked(s0[i as int]));
                    lemma_map_of_update(s0, i as int, c@);
                }
                self.certs.set(i, c.clone());
                proof {
                    assert(self.cert_views() =~= s0.update(i as int, c@));
                    assert forall|a: int, b: int|
                        0 <= a < self.cert_views().len() && 0 <= b < self.cert_views().len()
                            && a != b
                        implies self.cert_views()[a].id != self.cert_views()[b].id by {
                        assert(s0[a].id != s0[b].id);
                    }
                    assert(old(self)@.dom().insert(c@.id) =~= old(self)@.dom());
                }
                Ok(c)
            },
            None => {
                proof {
                    lemma_map_of_contains(s0, certificate_id@);
                }
                Err(RegistryError::NotFound)
            },
        }
    }

    /// Returns a copy of every stored record, revoked or not.  The order of
    /// the result is not part of the contract: callers get exactly one record
    /// per stored id, with the stored contents, and must not rely on where in
    /// the sequence each one sits.
    pub fn get_all_certificates(&self) -> (r: Vec<Certificate>)
        requires
            self.wf(),
        ensures
            r@.len() == self@.dom().len(),
            forall|i: int| 0 <= i < r@.len()
                ==> self@.contains_key(r@[i]@.id) && self@[r@[i]@.id] == r@[i]@,
            forall|id: Seq<char>| self@.contains_key(id)
                ==> exists|i: int| 0 <= i < r@.len() && r@[i]@.id == id,
            forall|i: int, j: int|
                0 <= i < r@.len() && 0 <= j < r@.len() && i != j ==> r@[i]@.id != r@[j]@.id,
    {
        let mut out: Vec<Certificate> = Vec::new();
        let mut k: usize = 0;
        while k < self.certs.len()
            invariant
                k <= self.cert_views().len(),
                out@.len() == k,
                forall|i: int| 0 <= i < k ==> out@[i]@ == self.cert_views()[i],
            decreases self.cert_views().len() - k,
        {
            out.push(self.certs[k].clone());
            k += 1;
        }
        proof {
            lemma_map_of_len(self.cert_views());
            assert forall|i: int| 0 <= i < out@.len()
                implies self@.contains_key(out@[i]@.id) && self@[out@[i]@.id] == out@[i]@ by {
                lemma_map_of_index(self.cert_views(), i);
            }
            assert forall|id: Seq<char>| self@.contains_key(id)
                implies exists|i: int| 0 <= i < out@.len() && out@[i]@.id == id by {
                lemma_map_of_contains(self.cert_views(), id);
                let j = choose|j: int| 0 <= j < self.cert_views().len()
                    && self.cert_views()[j].id == id;
                assert(out@[j]@.id == id);
            }
            assert forall|i: int, j: int|
                0 <= i < out@.len() && 0 <= j < out@.len() && i != j
                implies out@[i]@.id != out@[j]@.id by {
                assert(out@[i]@ == self.cert_views()[i]);
                assert(out@[j]@ == self.cert_views()[j]);
            }
        }
        out
    }

    /// Returns a copy of the record under `certificate_id`, or `None` when no
    /// record carries that id.
    pub fn get_certificate(&self, certificate_id: String) -> (r: Option<Certificate>)
        requires
            self.wf(),
        ensures
            match r {
                Some(c) => self@.contains_key(certificate_id@)
                    && c@ == self@[certificate_id@]
                    && c@.id == certificate_id@,
                None => !self@.contains_key(certificate_id@),
            },
    {
        match self.find_index(&certificate_id) {
            Some(i) => {
                proof {
                    lemma_map_of_index(self.cert_views(), i as int);
                }
                Some(self.certs[i].clone())
            },
            None => {
                proof {
                    lemma_map_of_contains(self.cert_views(), certificate_id@);
                }
                None
            },
        }
    }
}

} // verus!
