use vstd::prelude::*;

use crate::certificate::{CertificateView, spec_revoked};
use crate::registry::spec_verify;

verus! {

/// Issuance is immediately visible: once an issuance has stored its returned
/// record `r` (whose id is the key it is filed under), looking that id up
/// finds exactly `r`.
pub proof fn lemma_issue_then_get(m: Map<Seq<char>, CertificateView>, r: CertificateView)
    ensures
        m.insert(r.id, r).contains_key(r.id),
        m.insert(r.id, r)[r.id] == r,
{
}

/// A successful revocation takes effect: after the record under `id` is
/// replaced by its revoked version, `id` no longer passes verification and
/// the stored record's flag reads revoked.
pub proof fn lemma_revoke_then_verify(m: Map<Seq<char>, CertificateView>, id: Seq<char>)
    requires
        m.contains_key(id),
    ensures
        !spec_verify(m.insert(id, spec_revoked(m[id])), id),
        m.insert(id, spec_revoked(m[id]))[id].revoked,
{
}

/// Revocation is idempotent: revoking an id a second time returns the same
/// record as the first revocation and leaves the store unchanged.
pub proof fn lemma_revoke_idempotent(m: Map<Seq<char>, CertificateView>, id: Seq<char>)
    requires
        m.contains_key(id),
    ensures
        spec_revoked(m.insert(id, spec_revoked(m[id]))[id]) == spec_revoked(m[id]),
        m.insert(id, spec_revoked(m[id])).insert(
            id,
            spec_revoked(m.insert(id, spec_revoked(m[id]))[id]),
        ) == m.insert(id, spec_revoked(m[id])),
{
    let m1 = m.insert(id, spec_revoked(m[id]));
    assert(m1[id] == spec_revoked(m[id]));
    assert(m1.insert(id, spec_revoked(m1[id])) =~= m1);
}

} // verus!
