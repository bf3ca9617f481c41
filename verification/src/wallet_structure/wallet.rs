use vstd::prelude::*;

use super::account::Account;

verus! {

/// The wallet: its accounts in creation order, names unique, and the index
/// of the selected one, `None` while none is.
#[derive(Debug, Clone)]
pub struct Wallet {
    pub accounts: Vec<Account>,
    pub selected: Option<usize>,
}

impl Wallet {
    /// Every name appears once and the selection points at an account.
    pub open spec fn wf(&self) -> bool {
        &&& (forall|i: int, j: int|
            0 <= i < j < self.accounts@.len() ==> (#[trigger] self.accounts@[i]).account_name@
                != (#[trigger] self.accounts@[j]).account_name@)
        &&& (self.selected matches Some(k) ==> k < self.accounts@.len())
    }

    /// An empty wallet with nothing selected.
    pub fn new() -> (r: Wallet)
        ensures
            r.wf(),
            r.accounts@.len() == 0,
            r.selected is None,
    {
        Wallet { accounts: Vec::new(), selected: None }
    }

    /// Adds an account and selects it; a second account under the same name
    /// is refused and nothing changes.
    pub fn add_account(&mut self, account: Account) -> (r: bool)
        requires
            old(self).wf(),
        ensures
            final(self).wf(),
            r == !exists|i: int|
                0 <= i < old(self).accounts@.len() && (#[trigger] old(self).accounts@[
                i]).account_name@ == account.account_name@,
            r ==> final(self).accounts@ == old(self).accounts@.push(account) && final(self).selected == Some((old(self).accounts@.len()) as usize),
            !r ==> *final(self) == *old(self),
    {
        let mut i: usize = 0;
        while i < self.accounts.len()
            invariant
                old(self).wf(),
                *self == *old(self),
                i <= self.accounts@.len(),
                forall|j: int|
                    0 <= j < i ==> (#[trigger] self.accounts@[j]).account_name@
                        != account.account_name@,
            decreases self.accounts@.len() - i,
        {
            if strings_equal(&self.accounts[i].account_name, &account.account_name) {
                return false;
            }
            i = i + 1;
        }
        let position = self.accounts.len();
        self.accounts.push(account);
        self.selected = Some(position);
        true
    }

    /// The accounts, oldest first.
    pub fn get_accounts(&self) -> (r: &Vec<Account>)
        ensures
            r == &self.accounts,
    {
        &self.accounts
    }

    /// The selected account, when one is.
    pub fn get_selected_account(&self) -> (r: Option<&Account>)
        requires
            self.wf(),
        ensures
            r matches Some(a) ==> self.selected matches Some(k) && a == &self.accounts@[k as int],
            r is None <==> self.selected is None,
    {
        match self.selected {
            Some(k) => Some(&self.accounts[k]),
            None => None,
        }
    }

    /// Selects the first account with the given name; an unknown name
    /// changes nothing.
    pub fn select_account(&mut self, name: &str) -> (r: bool)
        requires
            old(self).wf(),
        ensures
            final(self).wf(),
            final(self).accounts@ == old(self).accounts@,
            r == exists|i: int|
                0 <= i < old(self).accounts@.len() && (#[trigger] old(self).accounts@[
                i]).account_name@ == name@,
            r ==> (final(self).selected matches Some(k) && k < old(self).accounts@.len() && old(
                self,
            ).accounts@[k as int].account_name@ == name@ && (forall|j: int|
                0 <= j < k ==> (#[trigger] old(self).accounts@[j]).account_name@ != name@)),
            !r ==> *final(self) == *old(self),
    {
        let mut i: usize = 0;
        while i < self.accounts.len()
            invariant
                old(self).wf(),
                *self == *old(self),
                i <= self.accounts@.len(),
                forall|j: int|
                    0 <= j < i ==> (#[trigger] self.accounts@[j]).account_name@ != name@,
            decreases self.accounts@.len() - i,
        {
            if str_equals_string(name, &self.accounts[i].account_name) {
                self.selected = Some(i);
                return true;
            }
            i = i + 1;
        }
        false
    }

    /// Removes the first account with the given name and clears the
    /// selection; an unknown name changes nothing.
    pub fn remove_account(&mut self, name: &str) -> (r: bool)
        requires
            old(self).wf(),
        ensures
            final(self).wf(),
            r == exists|i: int|
                0 <= i < old(self).accounts@.len() && (#[trigger] old(self).accounts@[
                i]).account_name@ == name@,
            r ==> exists|i: int|
                {
                    &&& 0 <= i < old(self).accounts@.len()
                    &&& (#[trigger] old(self).accounts@[i]).account_name@ == name@
                    &&& (forall|j: int|
                        0 <= j < i ==> (#[trigger] old(self).accounts@[j]).account_name@ != name@)
                    &&& final(self).accounts@ == old(self).accounts@.remove(i)
                    &&& final(self).selected is None
                },
            !r ==> *final(self) == *old(self),
    {
        let mut i: usize = 0;
        while i < self.accounts.len()
            invariant
                old(self).wf(),
                *self == *old(self),
                i <= self.accounts@.len(),
                forall|j: int|
                    0 <= j < i ==> (#[trigger] self.accounts@[j]).account_name@ != name@,
            decreases self.accounts@.len() - i,
        {
            if str_equals_string(name, &self.accounts[i].account_name) {
                let _ = self.accounts.remove(i);
                self.selected = None;
                return true;
            }
            i = i + 1;
        }
        false
    }
}

/// Whether two strings hold the same characters.
pub fn strings_equal(left: &String, right: &String) -> (r: bool)
    ensures
        r == (left@ == right@),
{
    left.eq(right)
}

/// Whether the text equals the string.
pub fn str_equals_string(left: &str, right: &String) -> (r: bool)
    ensures
        r == (left@ == right@),
{
    strings_equal(&left.to_owned(), right)
}

} // verus!
