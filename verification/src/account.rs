use vstd::prelude::*;

verus! {

/// The kind of a user account.
#[derive(Clone, Copy, Debug, PartialEq, Eq, Structural)]
pub enum AccountType {
    Anonymous,
    Registered,
}

/// Two strings hold the same characters.
fn same_text(a: &str, b: &str) -> (r: bool)
    ensures
        r == (a@ == b@),
{
    let n = a.unicode_len();
    if n != b.unicode_len() {
        return false;
    }
    let mut i: usize = 0;
    while i < n
        invariant
            n == a@.len(),
            n == b@.len(),
            i <= n,
            forall|j: int| 0 <= j < i ==> a@[j] == b@[j],
        decreases n - i,
    {
        if a.get_char(i) != b.get_char(i) {
            return false;
        }
        i = i + 1;
    }
    assert(a@ =~= b@);
    true
}

impl AccountType {
    /// The account kind stored as `status`: `registered` is a registered
    /// account, anything else an anonymous one.
    pub fn from_status(status: &str) -> (r: Self)
        ensures
            r == (if status@ == "registered"@ {
                AccountType::Registered
            } else {
                AccountType::Anonymous
            }),
    {
        if same_text(status, "registered") {
            Self::Registered
        } else {
            Self::Anonymous
        }
    }
}

} // verus!
