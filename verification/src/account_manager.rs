//! The list of stored accounts and the choice of the active one.
//!
//! The list lives in the configuration file. The caller reads it into an
//! `AccountBook`, lets one of these functions change the book, and writes back
//! what changed.

use vstd::prelude::*;

verus! {

/// One stored account.
#[derive(Debug, Clone)]
pub struct Account {
    /// The account's name, by which accounts are told apart.
    pub account: String,
    /// The stored password, where there is one.
    pub password: Option<String>,
}

/// The accounts of the configuration file.
#[derive(Debug)]
pub struct AccountBook {
    /// The entries in file order. An entry without a name is kept as `None`.
    pub accounts: Vec<Option<Account>>,
    /// The index of the active account as the file gives it, if it gives one.
    pub active_account_index: Option<u64>,
}

/// Whether one of `entries` is an account called `name`.
pub open spec fn has_account_named(entries: Seq<Option<Account>>, name: Seq<char>) -> bool {
    exists|i: int| 0 <= i < entries.len() && is_named(#[trigger] entries[i], name)
}

/// The index that the file means: the one it gives, or the first.
pub open spec fn stated_index(index: Option<u64>) -> nat {
    match index {
        Some(i) => i as nat,
        None => 0,
    }
}

/// The active index once it has been checked against `count` accounts: an
/// index that is missing or past the end becomes the first; with no accounts
/// at all nothing is touched.
pub open spec fn repaired_index(index: Option<u64>, count: nat) -> Option<u64> {
    if count == 0 {
        index
    } else if index matches Some(i) && i < count {
        index
    } else {
        Some(0)
    }
}

/// The active index once the account at `removed` is gone: an active account
/// at or behind it moves one place forward, the first stays the first.
pub open spec fn index_after_delete(index: Option<u64>, removed: nat) -> Option<u64> {
    let active = stated_index(index);
    if active >= removed && active > 0 {
        Some((active - 1) as u64)
    } else {
        index
    }
}

/// Whether `entry` is an account called `name`.
pub open spec fn is_named(entry: Option<Account>, name: Seq<char>) -> bool {
    entry matches Some(account) && account.account@ == name
}

/// The index of the first of `entries` that is an account called `name`, or
/// their number where none is.
pub open spec fn first_named(entries: Seq<Option<Account>>, name: Seq<char>) -> nat
    decreases entries.len(),
{
    if entries.len() == 0 || is_named(entries[0], name) {
        0
    } else {
        1 + first_named(entries.drop_first(), name)
    }
}

/// `first_named` is the one index before which no entry has the name and at
/// which one has, unless it is the end.
pub proof fn lemma_first_named(entries: Seq<Option<Account>>, name: Seq<char>, n: int)
    requires
        0 <= n <= entries.len(),
        forall|j: int| 0 <= j < n ==> !is_named(entries[j], name),
        n < entries.len() ==> is_named(entries[n], name),
    ensures
        first_named(entries, name) == n,
    decreases entries.len(),
{
    if n > 0 {
        let rest = entries.drop_first();
        assert forall|j: int| 0 <= j < n - 1 implies !is_named(rest[j], name) by {
            assert(rest[j] == entries[j + 1]);
        }
        lemma_first_named(rest, name, n - 1);
    }
}

/// Finds the account called `name`: the index of the first entry of that
/// name, if there is one.
pub fn find_account(accounts: &Vec<Option<Account>>, name: &str) -> (found: Option<usize>)
    ensures
        found == if first_named(accounts@, name@) < accounts@.len() {
            Some(first_named(accounts@, name@) as usize)
        } else {
            None
        },
        found is Some == has_account_named(accounts@, name@),
{
    let wanted = name.to_owned();
    let mut i: usize = 0;
    while i < accounts.len()
        invariant
            i <= accounts.len(),
            wanted@ == name@,
            forall|j: int| 0 <= j < i ==> !is_named(#[trigger] accounts@[j], name@),
        decreases accounts.len() - i,
    {
        if let Some(entry) = &accounts[i] {
            if entry.account == wanted {
                proof {
                    lemma_first_named(accounts@, name@, i as int);
                }
                return Some(i);
            }
        }
        i += 1;
    }
    proof {
        lemma_first_named(accounts@, name@, i as int);
    }
    None
}

/// Whether the book holds an account called `name`.
fn contains_name(accounts: &Vec<Option<Account>>, name: &String) -> (found: bool)
    ensures
        found == has_account_named(accounts@, name@),
{
    find_account(accounts, name.as_str()).is_some()
}

/// Makes sure that a book with accounts names one of them as active, and
/// tells whether the index had to be repaired. The accounts stay as they are.
pub fn get_accounts(book: &mut AccountBook) -> (repaired: bool)
    ensures
        final(book).accounts == old(book).accounts,
        final(book).active_account_index == repaired_index(
            old(book).active_account_index,
            old(book).accounts@.len(),
        ),
        repaired == (final(book).active_account_index != old(book).active_account_index),
{
    if book.accounts.len() == 0 {
        return false;
    }
    match book.active_account_index {
        Some(index) if index < book.accounts.len() as u64 => false,
        _ => {
            book.active_account_index = Some(0);
            true
        },
    }
}

/// Adds an account unless the book has one of the same name already. An entry
/// without a name is always added.
pub fn add_account(book: &mut AccountBook, account: Option<Account>) -> (added: bool)
    ensures
        added == !(account matches Some(entry) && has_account_named(
            old(book).accounts@,
            entry.account@,
        )),
        added ==> final(book).accounts@ == old(book).accounts@.push(account),
        !added ==> final(book).accounts == old(book).accounts,
        final(book).active_account_index == old(book).active_account_index,
{
    if let Some(entry) = &account {
        if contains_name(&book.accounts, &entry.account) {
            return false;
        }
    }
    book.accounts.push(account);
    true
}

/// Deletes the account at `idx`, if there is one, and moves the active index
/// along with the accounts behind it.
pub fn delete_account(book: &mut AccountBook, idx: usize) -> (deleted: bool)
    ensures
        deleted == (idx < old(book).accounts@.len()),
        deleted ==> final(book).accounts@ == old(book).accounts@.remove(idx as int),
        deleted ==> final(book).active_account_index == index_after_delete(
            old(book).active_account_index,
            idx as nat,
        ),
        !deleted ==> *final(book) == *old(book),
{
    if idx >= book.accounts.len() {
        return false;
    }
    book.accounts.remove(idx);
    let active = match book.active_account_index {
        Some(index) => index,
        None => 0,
    };
    if active >= idx as u64 && active > 0 {
        book.active_account_index = Some(active - 1);
    }
    true
}

/// Makes the account at `idx` the active one, if there is one.
pub fn set_active_account(book: &mut AccountBook, idx: usize) -> (changed: bool)
    ensures
        changed == (idx < old(book).accounts@.len()),
        final(book).accounts == old(book).accounts,
        changed ==> final(book).active_account_index == Some(idx as u64),
        !changed ==> final(book).active_account_index == old(book).active_account_index,
{
    if idx < book.accounts.len() {
        book.active_account_index = Some(idx as u64);
        true
    } else {
        false
    }
}

/// The index of the active account, where the book has an account there.
pub fn get_active_account(book: &AccountBook) -> (active: Option<usize>)
    ensures
        active == if stated_index(book.active_account_index) < book.accounts@.len() {
            Some(stated_index(book.active_account_index) as usize)
        } else {
            None
        },
{
    let index = match book.active_account_index {
        Some(index) => index,
        None => 0,
    };
    if index < book.accounts.len() as u64 {
        Some(index as usize)
    } else {
        None
    }
}

} // verus!
