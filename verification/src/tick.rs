//! The debit tick: once per block, subscriptions that have ended are renewed
//! or deleted, and every account pays for the capacity it uses.

use crate::error::ActorError;
use crate::ids;
use crate::ids::ExpiryKey;
use crate::index::ByKey;
use crate::index::BySubscriber;
use crate::index::Expiries;
use crate::key::Key;
use crate::model::AccountView;
use crate::model::AUTO_TTL;
use crate::num::big_add;
use crate::num::big_sub;
use crate::num::big_value;
use crate::num::span_times;
use crate::state::accounts_view;
use crate::state::accounts_wf;
use crate::state::Accounts;
use crate::state::State;
use crate::sum::lemma_sum_empty;
use crate::sum::lemma_sum_insert;
use crate::sum::sum_of;
use crate::transitions;
use crate::transitions::debited;
use crate::transitions::due;
use crate::transitions::dues;
use crate::transitions::expire_all;
use crate::transitions::expire_one;
use crate::transitions::Expired;
use fvm_shared::address::Address;
use fvm_shared::bigint::BigInt;
use vstd::prelude::*;

verus! {

/// An entry taken from the expiry index: subscriber, blob and subscription
/// id, and whether the subscription renews by itself.
pub type ExpiredEntry = (Address, ExpiryKey, bool);

/// What an entry says.
pub open spec fn entry_view(e: ExpiredEntry) -> Expired {
    (e.0, e.1.hash, e.1.id.ident(), e.2)
}

/// What the entries say, in order.
pub open spec fn entries_view(v: Seq<ExpiredEntry>) -> Seq<Expired> {
    v.map_values(|e: ExpiredEntry| entry_view(e))
}

/// The first `n` entries of one subscriber under one epoch, in index order.
pub open spec fn keys_listed(m: ByKey, subscriber: Address, n: int) -> Seq<Expired>
    decreases n,
{
    if n <= 0 {
        Seq::empty()
    } else {
        keys_listed(m, subscriber, n - 1).push(
            (subscriber, m.entries@[n - 1].0.hash, m.entries@[n - 1].0.id.ident(), m.entries@[n - 1].1),
        )
    }
}

/// The entries of the first `n` subscribers under one epoch, in index order.
pub open spec fn subscribers_listed(m: BySubscriber, n: int) -> Seq<Expired>
    decreases n,
{
    if n <= 0 {
        Seq::empty()
    } else {
        subscribers_listed(m, n - 1) + keys_listed(
            m.entries@[n - 1].1,
            m.entries@[n - 1].0,
            m.entries@[n - 1].1.entries@.len() as int,
        )
    }
}

/// The entries under those of the first `n` epochs of the index that are not
/// after `epoch`, in index order.
pub open spec fn epochs_listed(x: Expiries, epoch: int, n: int) -> Seq<Expired>
    decreases n,
{
    if n <= 0 {
        Seq::empty()
    } else if x.map.entries@[n - 1].0 <= epoch {
        epochs_listed(x, epoch, n - 1) + subscribers_listed(
            x.map.entries@[n - 1].1,
            x.map.entries@[n - 1].1.entries@.len() as int,
        )
    } else {
        epochs_listed(x, epoch, n - 1)
    }
}

/// The subscriptions that have ended by `epoch`: the entries of the index up
/// to that epoch, by ascending epoch, and under one epoch in the order in
/// which the index holds them.
pub open spec fn expired(x: Expiries, epoch: int) -> Seq<Expired> {
    epochs_listed(x, epoch, x.map.entries@.len() as int)
}

/// Appends the entries of one subscriber under one epoch.
pub fn list_keys(out: &mut Vec<ExpiredEntry>, m: &ByKey, subscriber: Address)
    ensures
        entries_view(final(out)@) == entries_view(old(out)@) + keys_listed(
            *m,
            subscriber,
            m.entries@.len() as int,
        ),
{
    let n = m.len();
    let mut i: usize = 0;
    assert(entries_view(out@) =~= entries_view(old(out)@) + keys_listed(*m, subscriber, 0));
    while i < n
        invariant
            i <= n,
            n == m.entries@.len(),
            entries_view(out@) == entries_view(old(out)@) + keys_listed(*m, subscriber, i as int),
        decreases n - i,
    {
        let ghost before = out@;
        let entry = (subscriber, m.key_at(i).dup(), *m.value_at(i));
        out.push(entry);
        proof {
            assert(entry_view(entry) == (
                subscriber,
                m.entries@[i as int].0.hash,
                m.entries@[i as int].0.id.ident(),
                m.entries@[i as int].1,
            ));
            assert(entries_view(out@) =~= entries_view(before).push(entry_view(entry)));
            assert(entries_view(out@) =~= entries_view(old(out)@) + keys_listed(
                *m,
                subscriber,
                i + 1,
            ));
        }
        i += 1;
    }
}

/// Appends the entries under one epoch.
pub fn list_subscribers(out: &mut Vec<ExpiredEntry>, m: &BySubscriber)
    ensures
        entries_view(final(out)@) == entries_view(old(out)@) + subscribers_listed(
            *m,
            m.entries@.len() as int,
        ),
{
    let n = m.len();
    let mut i: usize = 0;
    assert(entries_view(out@) =~= entries_view(old(out)@) + subscribers_listed(*m, 0));
    while i < n
        invariant
            i <= n,
            n == m.entries@.len(),
            entries_view(out@) == entries_view(old(out)@) + subscribers_listed(*m, i as int),
        decreases n - i,
    {
        list_keys(out, m.value_at(i), *m.key_at(i));
        proof {
            assert(entries_view(out@) =~= entries_view(old(out)@) + subscribers_listed(*m, i + 1));
        }
        i += 1;
    }
}

/// The subscriptions that have ended by `epoch`, in the order in which the
/// tick goes through them.
pub fn list_expired(x: &Expiries, epoch: i64) -> (r: Vec<ExpiredEntry>)
    ensures
        entries_view(r@) == expired(*x, epoch as int),
{
    let n = x.len();
    let mut out: Vec<ExpiredEntry> = Vec::new();
    let mut i: usize = 0;
    assert(entries_view(out@) =~= epochs_listed(*x, epoch as int, 0));
    while i < n
        invariant
            i <= n,
            n == x.map.entries@.len(),
            entries_view(out@) == epochs_listed(*x, epoch as int, i as int),
        decreases n - i,
    {
        if *x.key_at(i) <= epoch {
            list_subscribers(&mut out, x.value_at(i));
        }
        i += 1;
    }
    out
}

/// Whether the list holds the hash.
pub fn holds_hash(list: &Vec<ids::Hash>, hash: &ids::Hash) -> (r: bool)
    ensures
        r == list@.contains(*hash),
{
    let n = list.len();
    let mut i: usize = 0;
    while i < n
        invariant
            i <= n,
            n == list@.len(),
            forall|j: int| 0 <= j < i ==> list@[j] != *hash,
        decreases n - i,
    {
        if list[i].same(hash) {
            return true;
        }
        i += 1;
    }
    false
}

/// Debits every account at `epoch`, and hands out what was debited in all.
pub fn debit_everyone(accounts: &mut Accounts, epoch: i64) -> (total: BigInt)
    requires
        accounts_wf(*old(accounts)),
    ensures
        accounts_wf(*final(accounts)),
        accounts_view(*final(accounts)) == accounts_view(*old(accounts)).map_values(
            |a: AccountView| debited(a, epoch as int),
        ),
        big_value(total) == sum_of(dues(accounts_view(*old(accounts)), epoch as int)),
{
    let ghost before = *accounts;
    let ghost ids = before.ids();
    let ghost owed = dues(accounts_view(before), epoch as int);
    let n = accounts.len();
    let mut total = crate::num::big_zero();
    let mut i: usize = 0;
    proof {
        lemma_sum_empty::<Address>();
        assert(owed.restrict(ids.take(0).to_set()) =~= Map::<Address, int>::empty());
        assert(owed.dom() =~= before@.dom());
    }
    while i < n
        invariant
            i <= n,
            n == before.entries@.len(),
            n == accounts.entries@.len(),
            before.wf(),
            accounts_wf(before),
            ids == before.ids(),
            accounts.ids() == ids,
            owed == dues(accounts_view(before), epoch as int),
            owed.dom() == before@.dom(),
            big_value(total) == sum_of(owed.restrict(ids.take(i as int).to_set())),
            forall|j: int|
                0 <= j < i ==> (#[trigger] accounts.entries@[j]).1.wf() && accounts.entries@[j].1@
                    == debited(before.entries@[j].1@, epoch as int),
            forall|j: int| i <= j < n ==> (#[trigger] accounts.entries@[j]).1 == before.entries@[j].1,
        decreases n - i,
    {
        proof {
            before.lemma_entry(i as int);
        }
        let debit = span_times(
            epoch,
            accounts.entries[i].1.last_debit_epoch,
            &accounts.entries[i].1.capacity_used,
        );
        let left = big_sub(&accounts.entries[i].1.credit_committed, &debit);
        accounts.entries[i].1.credit_committed = left;
        accounts.entries[i].1.last_debit_epoch = epoch;
        total = big_add(&total, &debit);
        proof {
            let done = owed.restrict(ids.take(i as int).to_set());
            let id = ids[i as int];
            assert(accounts.ids() =~= ids);
            assert(!done.contains_key(id)) by {
                if ids.take(i as int).contains(id) {
                    let j = ids.take(i as int).index_of(id);
                    assert(ids[j] == ids[i as int]);
                }
            }
            assert(owed.contains_key(id));
            assert(owed[id] == due(before.entries@[i as int].1@, epoch as int));
            assert(done.dom().finite()) by {
                broadcast use vstd::seq_lib::seq_to_set_is_finite;

                assert(done.dom() =~= ids.take(i as int).to_set().intersect(owed.dom()));
            }
            lemma_sum_insert(done, id, owed[id]);
            assert(owed.restrict(ids.take(i + 1).to_set()) =~= done.insert(id, owed[id])) by {
                assert(ids.take(i + 1) =~= ids.take(i as int).push(id));
                assert forall|k: Address|
                    ids.take(i + 1).to_set().contains(k) <==> (ids.take(i as int).to_set().contains(
                        k,
                    ) || k == id) by {
                    if ids.take(i + 1).contains(k) {
                        let j = ids.take(i + 1).index_of(k);
                        if j < i {
                            assert(ids.take(i as int)[j] == k);
                        }
                    }
                    if ids.take(i as int).contains(k) {
                        let j = ids.take(i as int).index_of(k);
                        assert(ids.take(i + 1)[j] == k);
                    }
                    if k == id {
                        assert(ids.take(i + 1)[i as int] == k);
                    }
                }
            }
            assert(accounts.entries@[i as int].1@ =~= debited(
                before.entries@[i as int].1@,
                epoch as int,
            ));
        }
        i += 1;
    }
    proof {
        assert(ids.take(n as int) =~= ids);
        assert(owed.restrict(ids.to_set()) =~= owed) by {
            assert forall|k: Address| owed.contains_key(k) implies ids.to_set().contains(k) by {
                before.lemma_key(k);
            }
        }
        assert(accounts.wf());
        let after = accounts_view(*accounts);
        let want = accounts_view(before).map_values(|a: AccountView| debited(a, epoch as int));
        assert(after.dom() =~= want.dom());
        assert forall|k: Address| #[trigger] after.contains_key(k) implies after[k] == want[k]
            && accounts@[k].wf() by {
            accounts.lemma_key(k);
            let j = accounts.ids().index_of(k);
            before.lemma_entry(j);
            accounts.lemma_entry(j);
        }
        assert(after =~= want);
    }
    total
}

impl State {
    /// The debit tick at `current_epoch`. Every subscription that has ended
    /// is renewed, where it renews by itself and that is allowed, or else
    /// deleted; one that can be neither is left. Then every account is debited
    /// for the capacity it uses. Returns the blobs that are gone, so that
    /// their bytes can be deleted.
    pub fn debit_accounts(&mut self, current_epoch: i64) -> (r: Result<Vec<ids::Hash>, ActorError>)
        requires
            old(self).wf(),
            current_epoch + AUTO_TTL <= i64::MAX,
        ensures
            final(self).wf(),
            r matches Ok(gone) && gone@.no_duplicates() && (final(self)@, gone@.to_set())
                == transitions::debit_accounts(
                old(self)@,
                expired(old(self).expiries, current_epoch as int),
                current_epoch as int,
            ),
    {
        let entries = list_expired(&self.expiries, current_epoch);
        let ghost listed = entries_view(entries@);
        let mut gone: Vec<ids::Hash> = Vec::new();
        let n = entries.len();
        let mut i: usize = 0;
        proof {
            assert(listed.take(0) =~= Seq::<Expired>::empty());
            assert(gone@.to_set() =~= Set::<ids::Hash>::empty());
        }
        while i < n
            invariant
                i <= n,
                n == entries@.len(),
                n == listed.len(),
                listed == entries_view(entries@),
                self.wf(),
                current_epoch + AUTO_TTL <= i64::MAX,
                gone@.no_duplicates(),
                (self@, gone@.to_set()) == expire_all(
                    old(self)@,
                    listed.take(i as int),
                    current_epoch as int,
                ),
            decreases n - i,
        {
            let ghost before = self@;
            let ghost gone_before = gone@;
            let subscriber = entries[i].0;
            let hash = entries[i].1.hash;
            let auto_renew = entries[i].2;
            let ghost e = listed[i as int];
            proof {
                assert(e == (subscriber, hash, entries@[i as int].1.id.ident(), auto_renew));
                assert(listed.take(i + 1).drop_last() =~= listed.take(i as int));
                assert(listed.take(i + 1).last() == e);
            }
            let mut renewed = false;
            if auto_renew {
                if self.renew_blob(subscriber, current_epoch, hash, entries[i].1.id.dup()).is_ok() {
                    renewed = true;
                }
            }
            if !renewed {
                match self.delete_blob(
                    subscriber,
                    subscriber,
                    subscriber,
                    current_epoch,
                    hash,
                    entries[i].1.id.dup(),
                ) {
                    Ok(true) => {
                        if !holds_hash(&gone, &hash) {
                            gone.push(hash);
                        }
                        proof {
                            if !gone_before.contains(hash) {
                                assert(gone@ =~= gone_before.push(hash));
                                assert forall|h: ids::Hash| #[trigger]
                                    gone@.to_set().contains(h) <==> (gone_before.to_set().insert(
                                        hash,
                                    ).contains(h)) by {
                                    if gone@.contains(h) {
                                        let j = gone@.index_of(h);
                                        if j < gone_before.len() {
                                            assert(gone_before[j] == h);
                                        }
                                    }
                                    if gone_before.contains(h) {
                                        let j = gone_before.index_of(h);
                                        assert(gone@[j] == h);
                                    }
                                    if h == hash {
                                        assert(gone@[gone_before.len() as int] == h);
                                    }
                                }
                                assert(gone@.to_set() =~= gone_before.to_set().insert(hash));
                            } else {
                                assert(gone@ == gone_before);
                                assert(gone_before.to_set().contains(hash));
                                assert(gone@.to_set() =~= gone_before.to_set().insert(hash));
                            }
                        }
                    },
                    _ => {},
                }
            }
            proof {
                assert((self@, gone@.to_set()) == (
                    expire_one(before, e, current_epoch as int).0,
                    if expire_one(before, e, current_epoch as int).1 {
                        gone_before.to_set().insert(hash)
                    } else {
                        gone_before.to_set()
                    },
                ));
            }
            i += 1;
        }
        proof {
            assert(listed.take(n as int) =~= listed);
        }
        let ghost middle = self@;
        let total = debit_everyone(&mut self.accounts, current_epoch);
        self.credit_debited = big_add(&self.credit_debited, &total);
        self.credit_committed = big_sub(&self.credit_committed, &total);
        proof {
            assert(self@ =~~= transitions::debit_all(middle, current_epoch as int));
        }
        Ok(gone)
    }
}

} // verus!
