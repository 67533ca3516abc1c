use vstd::prelude::*;

verus! {

/// A certificate record: `name` completed `course` on `date`.  The record is
/// immutable after issuance except for `revoked`, which starts out `false`
/// and can only ever be switched to `true`.
#[derive(Debug, PartialEq, Eq)]
pub struct Certificate {
    pub id: String,
    pub name: String,
    pub course: String,
    pub date: String,
    pub revoked: bool,
}

/// The mathematical value of a certificate record: each string field as a
/// character sequence, plus the revocation flag.
#[verifier::ext_equal]
pub struct CertificateView {
    pub id: Seq<char>,
    pub name: Seq<char>,
    pub course: Seq<char>,
    pub date: Seq<char>,
    pub revoked: bool,
}

impl View for Certificate {
    type V = CertificateView;

    open spec fn view(&self) -> CertificateView {
        CertificateView {
            id: self.id@,
            name: self.name@,
            course: self.course@,
            date: self.date@,
            revoked: self.revoked,
        }
    }
}

impl Clone for Certificate {
    fn clone(&self) -> (r: Self)
        ensures
            r@ == self@,
    {
        Certificate {
            id: self.id.clone(),
            name: self.name.clone(),
            course: self.course.clone(),
            date: self.date.clone(),
            revoked: self.revoked,
        }
    }
}

/// `c` with its revocation flag set; every other field is kept.
pub open spec fn spec_revoked(c: CertificateView) -> CertificateView {
    CertificateView {
        id: c.id,
        name: c.name,
        course: c.course,
        date: c.date,
        revoked: true,
    }
}

/// The one failure the registry can report: the given id names no stored
/// record.
#[derive(Clone, Copy, Debug, PartialEq, Eq)]
pub enum RegistryError {
    NotFound,
}

impl RegistryError {
    /// The human-readable description carried by the error.
    pub fn message(&self) -> (r: String)
        ensures
            r@ == "Certificate not found"@,
    {
        String::from_str("Certificate not found")
    }
}

} // verus!
