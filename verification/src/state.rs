use vstd::prelude::*;

verus! {

use crate::word::Word;

/// One account of the global state: a balance and contract code.
pub struct AccountState {
    pub balance: Word,
    pub code: Vec<u8>,
}

/// Lookup by key in an association sequence; the first entry wins.
pub open spec fn assoc_get(s: Seq<(Word, AccountState)>, addr: Word) -> Option<AccountState>
    decreases s.len(),
{
    if s.len() == 0 {
        None
    } else if s[0].0 == addr {
        Some(s[0].1)
    } else {
        assoc_get(s.drop_first(), addr)
    }
}

/// The address-to-account snapshot visible to a running execution; the
/// engine only reads it.
pub struct GlobalState {
    pub accounts: Vec<(Word, AccountState)>,
}

impl GlobalState {
    /// The account recorded under `addr`, if any.
    pub open spec fn spec_get(self, addr: Word) -> Option<AccountState> {
        assoc_get(self.accounts@, addr)
    }

    pub fn new() -> (r: GlobalState)
        ensures
            forall|a: Word| r.spec_get(a) is None,
    {
        let r = GlobalState { accounts: Vec::new() };
        proof {
            assert(forall|a: Word| r.spec_get(a) is None);
        }
        r
    }

    /// Look an address up in the snapshot.
    pub fn get(&self, addr: &Word) -> (r: Option<&AccountState>)
        ensures
            r matches Some(a) ==> self.spec_get(*addr) == Some(*a),
            r is None ==> self.spec_get(*addr) is None,
    {
        let n = self.accounts.len();
        let mut i: usize = 0;
        proof {
            assert(self.accounts@.skip(0) =~= self.accounts@);
        }
        while i < n
            invariant
                i <= n,
                n == self.accounts@.len(),
                assoc_get(self.accounts@, *addr) == assoc_get(
                    self.accounts@.skip(i as int),
                    *addr,
                ),
            decreases n - i,
        {
            if self.accounts[i].0 == *addr {
                proof {
                    assert(self.accounts@.skip(i as int)[0] == self.accounts@[i as int]);
                }
                return Some(&self.accounts[i].1);
            }
            proof {
                assert(self.accounts@.skip(i as int).drop_first() =~= self.accounts@.skip(
                    i as int + 1,
                ));
            }
            i = i + 1;
        }
        None
    }

    /// Record an account under an address, shadowing any earlier entry.
    pub fn insert(&mut self, addr: Word, account: AccountState)
        ensures
            final(self).spec_get(addr) == Some(account),
            forall|a: Word| a != addr ==> final(self).spec_get(a) == old(self).spec_get(a),
    {
        self.accounts.insert(0, (addr, account));
        proof {
            assert(self.accounts@.drop_first() =~= old(self).accounts@);
        }
    }
}

/// The balance the engine observes for an address: the account's balance,
/// or zero when the address is absent from the snapshot.
pub open spec fn balance_of(gs: GlobalState, a: Word) -> Word {
    match gs.spec_get(a) {
        Some(acct) => acct.balance,
        None => crate::word::spec_zero(),
    }
}

/// The code the engine observes for an address: the account's code, or the
/// empty sequence when the address is absent.
pub open spec fn code_of(gs: GlobalState, a: Word) -> Seq<u8> {
    match gs.spec_get(a) {
        Some(acct) => acct.code@,
        None => Seq::empty(),
    }
}

/// The write-once side-effect log of one execution: the set of addresses
/// whose account data the running code has read.
pub struct AccruedSubstate {
    pub accessed_accounts: Vec<Word>,
}

impl AccruedSubstate {
    /// No address is ever recorded twice: set semantics absorb duplicates.
    pub open spec fn wf(self) -> bool {
        forall|i: int, j: int|
            0 <= i < j < self.accessed_accounts@.len() ==> self.accessed_accounts@[i]
                != self.accessed_accounts@[j]
    }

    /// Whether an address has been recorded as accessed.
    pub open spec fn has_accessed(self, a: Word) -> bool {
        self.accessed_accounts@.contains(a)
    }

    pub fn new() -> (r: AccruedSubstate)
        ensures
            r.wf(),
            r.accessed_accounts@.len() == 0,
    {
        AccruedSubstate { accessed_accounts: Vec::new() }
    }

    /// Record an address as accessed; recording an address already present
    /// changes nothing.
    pub fn mark(&mut self, a: Word)
        requires
            old(self).wf(),
        ensures
            final(self).wf(),
            final(self).has_accessed(a),
            old(self).has_accessed(a) ==> final(self).accessed_accounts@ == old(
                self,
            ).accessed_accounts@,
            !old(self).has_accessed(a) ==> final(self).accessed_accounts@ == old(
                self,
            ).accessed_accounts@.push(a),
    {
        let n = self.accessed_accounts.len();
        let mut i: usize = 0;
        while i < n
            invariant
                i <= n,
                *self == *old(self),
                n == self.accessed_accounts@.len(),
                old(self).wf(),
                forall|k: int| 0 <= k < i ==> self.accessed_accounts@[k] != a,
            decreases n - i,
        {
            if self.accessed_accounts[i] == a {
                return ;
            }
            i = i + 1;
        }
        proof {
            assert(!self.accessed_accounts@.contains(a));
        }
        self.accessed_accounts.push(a);
        proof {
            assert(self.accessed_accounts@.last() == a);
            assert(self.accessed_accounts@.contains(a));
        }
    }
}

/// The substate transition of recording one access: the address is present
/// afterwards, and nothing else changed.
pub open spec fn marked(pre: AccruedSubstate, post: AccruedSubstate, a: Word) -> bool {
    post.has_accessed(a) && (if pre.has_accessed(a) {
        post.accessed_accounts@ == pre.accessed_accounts@
    } else {
        post.accessed_accounts@ == pre.accessed_accounts@.push(a)
    })
}

} // verus!
