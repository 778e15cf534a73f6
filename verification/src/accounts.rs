//! Accounts referenced by an instruction, and their canonical order.
//!
//! The remote program expects the accounts of an instruction in one exact
//! order: oracles first, then spot markets, then perp markets, and within
//! each group ascending by account key bytes. Reordering or renumbering
//! breaks transaction validity remotely, not here, so the order is pinned
//! down as a spec-level total preorder and the sort is proved against it.

use vstd::multiset::Multiset;
use vstd::prelude::*;

use crate::keys::{lemma_lex_le_total, lemma_lex_le_trans, lex_le, pubkey_le, Pubkey};

verus! {

/// An account referenced by an instruction, tagged by its role.
///
/// The role tags carry fixed numeric ranks (oracle, then spot, then perp)
/// that the canonical order sorts by first.
#[derive(Copy, Clone, Debug, PartialEq, Eq)]
pub enum AccountType {
    Oracle { pubkey: Pubkey },
    Spot { pubkey: Pubkey, writable: bool },
    Perp { pubkey: Pubkey, writable: bool },
}

/// An entry of an instruction's account list.
#[derive(Copy, Clone, Debug, PartialEq, Eq)]
pub struct AccountMeta {
    pub pubkey: Pubkey,
    pub is_signer: bool,
    pub is_writable: bool,
}

impl AccountType {
    /// The rank of the role tag in the canonical order.
    pub open spec fn spec_rank(self) -> int {
        match self {
            AccountType::Oracle { .. } => 0,
            AccountType::Spot { .. } => 1,
            AccountType::Perp { .. } => 2,
        }
    }

    /// The account key, whatever the role.
    pub open spec fn spec_pubkey(self) -> Pubkey {
        match self {
            AccountType::Oracle { pubkey } => pubkey,
            AccountType::Spot { pubkey, .. } => pubkey,
            AccountType::Perp { pubkey, .. } => pubkey,
        }
    }

    /// Whether the instruction may write the account; an oracle is never
    /// writable.
    pub open spec fn spec_writable(self) -> bool {
        match self {
            AccountType::Oracle { .. } => false,
            AccountType::Spot { writable, .. } => writable,
            AccountType::Perp { writable, .. } => writable,
        }
    }

    /// The account key, whatever the role.
    pub fn pubkey(&self) -> (r: &Pubkey)
        ensures
            *r == self.spec_pubkey(),
    {
        match self {
            AccountType::Oracle { pubkey } => pubkey,
            AccountType::Spot { pubkey, .. } => pubkey,
            AccountType::Perp { pubkey, .. } => pubkey,
        }
    }

    /// The account key and writability, as the instruction layer needs them.
    pub fn parts(self) -> (r: (Pubkey, bool))
        ensures
            r == (self.spec_pubkey(), self.spec_writable()),
    {
        match self {
            AccountType::Oracle { pubkey } => (pubkey, false),
            AccountType::Spot { pubkey, writable } => (pubkey, writable),
            AccountType::Perp { pubkey, writable } => (pubkey, writable),
        }
    }

    /// Pure projection to an instruction account-list entry. Signer status
    /// is never inferred here: signers are attached by the
    /// transaction-building layer, so `is_signer` is always false.
    pub fn to_account_meta(self) -> (r: AccountMeta)
        ensures
            r == (AccountMeta {
                pubkey: self.spec_pubkey(),
                is_signer: false,
                is_writable: self.spec_writable(),
            }),
    {
        let (pubkey, is_writable) = self.parts();
        AccountMeta { pubkey, is_signer: false, is_writable }
    }

    /// The rank of the role tag, as the remote program numbers it.
    pub fn discriminant(&self) -> (r: u8)
        ensures
            r as int == self.spec_rank(),
    {
        match self {
            AccountType::Oracle { .. } => 0,
            AccountType::Spot { .. } => 1,
            AccountType::Perp { .. } => 2,
        }
    }
}

impl From<AccountType> for AccountMeta {
    fn from(value: AccountType) -> (r: Self) {
        value.to_account_meta()
    }
}

impl vstd::std_specs::convert::FromSpecImpl<AccountType> for AccountMeta {
    open spec fn obeys_from_spec() -> bool {
        true
    }

    open spec fn from_spec(value: AccountType) -> Self {
        AccountMeta {
            pubkey: value.spec_pubkey(),
            is_signer: false,
            is_writable: value.spec_writable(),
        }
    }
}

/// The canonical order on instruction accounts: by role rank first, then by
/// key bytes. The writable flag plays no part, so distinct entries for one
/// key compare equal both ways; the sort keeps such entries in arrival
/// order and the caller pre-deduplicates when both a writable and a
/// read-only entry for one key are possible.
pub open spec fn account_le(a: AccountType, b: AccountType) -> bool {
    a.spec_rank() < b.spec_rank() || (a.spec_rank() == b.spec_rank() && lex_le(
        a.spec_pubkey()@,
        b.spec_pubkey()@,
    ))
}

/// Any two accounts are ordered one way or the other.
pub proof fn lemma_account_le_total(a: AccountType, b: AccountType)
    ensures
        account_le(a, b) || account_le(b, a),
{
    lemma_lex_le_total(a.spec_pubkey()@, b.spec_pubkey()@);
}

/// The canonical order is transitive.
pub proof fn lemma_account_le_trans(a: AccountType, b: AccountType, c: AccountType)
    requires
        account_le(a, b),
        account_le(b, c),
    ensures
        account_le(a, c),
{
    if a.spec_rank() == b.spec_rank() && b.spec_rank() == c.spec_rank() {
        lemma_lex_le_trans(a.spec_pubkey()@, b.spec_pubkey()@, c.spec_pubkey()@);
    }
}

/// Compares two accounts in the canonical order.
pub fn account_le_exec(a: &AccountType, b: &AccountType) -> (r: bool)
    ensures
        r == account_le(*a, *b),
{
    let ra = a.discriminant();
    let rb = b.discriminant();
    if ra < rb {
        true
    } else if rb < ra {
        false
    } else {
        pubkey_le(a.pubkey(), b.pubkey())
    }
}

/// Whether `s` is in the canonical order.
pub open spec fn spec_sorted(s: Seq<AccountType>) -> bool {
    forall|i: int, j: int| 0 <= i < j < s.len() ==> account_le(s[i], s[j])
}

/// `x` placed directly before the first element the canonical order puts
/// strictly after it; elements that compare equal to `x` stay before it.
pub open spec fn spec_insert_sorted(x: AccountType, s: Seq<AccountType>) -> Seq<AccountType>
    decreases s.len(),
{
    if s.len() == 0 {
        seq![x]
    } else if account_le(s.first(), x) {
        seq![s.first()] + spec_insert_sorted(x, s.drop_first())
    } else {
        seq![x] + s
    }
}

/// Insertion sort of `s` under the canonical order, element by element in
/// arrival order; the reference the executable sort is proved against.
pub open spec fn spec_sort(s: Seq<AccountType>) -> Seq<AccountType>
    decreases s.len(),
{
    if s.len() == 0 {
        s
    } else {
        spec_insert_sorted(s.last(), spec_sort(s.drop_last()))
    }
}

/// Whether two accounts carry the same sort key (role rank and key bytes);
/// the canonical order cannot tell such accounts apart.
pub open spec fn same_sort_key(a: AccountType, b: AccountType) -> bool {
    a.spec_rank() == b.spec_rank() && a.spec_pubkey()@ == b.spec_pubkey()@
}

/// The predicate selecting accounts that share `y`'s sort key.
pub open spec fn same_key_pred(y: AccountType) -> spec_fn(AccountType) -> bool {
    |e: AccountType| same_sort_key(e, y)
}

proof fn lemma_insert_sorted_multiset(x: AccountType, s: Seq<AccountType>)
    ensures
        spec_insert_sorted(x, s).to_multiset() == s.to_multiset().insert(x),
        spec_insert_sorted(x, s).len() == s.len() + 1,
    decreases s.len(),
{
    broadcast use vstd::seq_lib::group_to_multiset_ensures;
    broadcast use vstd::seq_lib::lemma_multiset_commutative;

    if s.len() == 0 {
        assert(seq![x] =~= Seq::<AccountType>::empty().push(x));
        assert(s.to_multiset() =~= Multiset::<AccountType>::empty());
    } else if account_le(s.first(), x) {
        lemma_insert_sorted_multiset(x, s.drop_first());
        assert(seq![s.first()] + s.drop_first() =~= s);
        assert((seq![s.first()] + spec_insert_sorted(x, s.drop_first())).to_multiset()
            == seq![s.first()].to_multiset().add(spec_insert_sorted(x, s.drop_first()).to_multiset()));
        assert(seq![s.first()].to_multiset().add(s.drop_first().to_multiset().insert(x))
            =~= (seq![s.first()].to_multiset().add(s.drop_first().to_multiset())).insert(x));
    } else {
        assert((seq![x] + s).to_multiset() == seq![x].to_multiset().add(s.to_multiset()));
        assert(seq![x] =~= Seq::<AccountType>::empty().push(x));
        assert(seq![x].to_multiset() =~= Multiset::<AccountType>::empty().insert(x));
        assert(Multiset::<AccountType>::empty().insert(x).add(s.to_multiset())
            =~= s.to_multiset().insert(x));
    }
}

proof fn lemma_insert_sorted_membership(x: AccountType, s: Seq<AccountType>, k: int)
    requires
        0 <= k < spec_insert_sorted(x, s).len(),
    ensures
        spec_insert_sorted(x, s)[k] == x || s.contains(spec_insert_sorted(x, s)[k]),
    decreases s.len(),
{
    if s.len() == 0 {
    } else if account_le(s.first(), x) {
        if k > 0 {
            lemma_insert_sorted_membership(x, s.drop_first(), k - 1);
            let e = spec_insert_sorted(x, s)[k];
            if e != x {
                let m = choose|m: int|
                    0 <= m < s.drop_first().len() && s.drop_first()[m] == e;
                assert(s[m + 1] == e);
            }
        } else {
            assert(s.contains(s.first())) by {
                assert(s[0] == s.first());
            }
        }
    } else {
        if k > 0 {
            assert(s[k - 1] == spec_insert_sorted(x, s)[k]);
        }
    }
}

proof fn lemma_insert_sorted_sorted(x: AccountType, s: Seq<AccountType>)
    requires
        spec_sorted(s),
    ensures
        spec_sorted(spec_insert_sorted(x, s)),
    decreases s.len(),
{
    if s.len() == 0 {
    } else if account_le(s.first(), x) {
        let rest = s.drop_first();
        assert(spec_sorted(rest)) by {
            assert forall|i: int, j: int| 0 <= i < j < rest.len() implies account_le(
                rest[i],
                rest[j],
            ) by {
                assert(rest[i] == s[i + 1]);
                assert(rest[j] == s[j + 1]);
            }
        }
        lemma_insert_sorted_sorted(x, rest);
        let tail = spec_insert_sorted(x, rest);
        let r = seq![s.first()] + tail;
        assert forall|i: int, j: int| 0 <= i < j < r.len() implies account_le(r[i], r[j]) by {
            if i == 0 {
                let e = tail[j - 1];
                lemma_insert_sorted_membership(x, rest, j - 1);
                if e == x {
                    assert(account_le(s.first(), x));
                } else {
                    let m = choose|m: int| 0 <= m < rest.len() && rest[m] == e;
                    assert(rest[m] == s[m + 1]);
                    assert(account_le(s[0], s[m + 1]));
                }
                assert(r[j] == e);
            } else {
                assert(r[i] == tail[i - 1]);
                assert(r[j] == tail[j - 1]);
            }
        }
    } else {
        let r = seq![x] + s;
        lemma_account_le_total(x, s.first());
        assert forall|i: int, j: int| 0 <= i < j < r.len() implies account_le(r[i], r[j]) by {
            if i == 0 {
                assert(r[j] == s[j - 1]);
                if j - 1 > 0 {
                    assert(account_le(s[0], s[j - 1]));
                    lemma_account_le_trans(x, s[0], s[j - 1]);
                }
            } else {
                assert(r[i] == s[i - 1]);
                assert(r[j] == s[j - 1]);
            }
        }
    }
}

proof fn lemma_filter_of_unmatched(s: Seq<AccountType>, pred: spec_fn(AccountType) -> bool)
    requires
        forall|k: int| 0 <= k < s.len() ==> !pred(s[k]),
    ensures
        s.filter(pred) == Seq::<AccountType>::empty(),
    decreases s.len(),
{
    reveal(Seq::filter);
    if s.len() > 0 {
        lemma_filter_of_unmatched(s.drop_last(), pred);
    } else {
        assert(s =~= Seq::<AccountType>::empty());
    }
}

proof fn lemma_filter_singleton(x: AccountType, pred: spec_fn(AccountType) -> bool)
    ensures
        seq![x].filter(pred) == (if pred(x) {
            seq![x]
        } else {
            Seq::<AccountType>::empty()
        }),
{
    reveal_with_fuel(Seq::filter, 2);
    assert(seq![x].drop_last() =~= Seq::<AccountType>::empty());
    assert(Seq::<AccountType>::empty().filter(pred) =~= Seq::<AccountType>::empty());
    if pred(x) {
        assert(Seq::<AccountType>::empty().push(x) =~= seq![x]);
    }
}

proof fn lemma_insert_sorted_filter(x: AccountType, s: Seq<AccountType>, y: AccountType)
    requires
        spec_sorted(s),
    ensures
        spec_insert_sorted(x, s).filter(same_key_pred(y)) == (if same_sort_key(x, y) {
            s.filter(same_key_pred(y)).push(x)
        } else {
            s.filter(same_key_pred(y))
        }),
    decreases s.len(),
{
    broadcast use vstd::seq_lib::group_filter_ensures;

    let pred = same_key_pred(y);
    if s.len() == 0 {
        lemma_filter_singleton(x, pred);
        lemma_filter_of_unmatched(s, pred);
        if pred(x) {
            assert(Seq::<AccountType>::empty().push(x) =~= seq![x]);
        }
    } else if account_le(s.first(), x) {
        let rest = s.drop_first();
        assert(spec_sorted(rest)) by {
            assert forall|i: int, j: int| 0 <= i < j < rest.len() implies account_le(
                rest[i],
                rest[j],
            ) by {
                assert(rest[i] == s[i + 1]);
                assert(rest[j] == s[j + 1]);
            }
        }
        lemma_insert_sorted_filter(x, rest, y);
        Seq::filter_distributes_over_add(seq![s.first()], spec_insert_sorted(x, rest), pred);
        Seq::filter_distributes_over_add(seq![s.first()], rest, pred);
        assert(seq![s.first()] + rest =~= s);
        if pred(x) {
            Seq::push_distributes_over_add(seq![s.first()].filter(pred), rest.filter(pred), x);
        }
    } else {
        let r = seq![x] + s;
        Seq::filter_distributes_over_add(seq![x], s, pred);
        lemma_filter_singleton(x, pred);
        if same_sort_key(x, y) {
            // every element of `s` is strictly after `x`, so none shares its
            // sort key and the filtered tail is empty
            assert forall|k: int| 0 <= k < s.len() implies !pred(s[k]) by {
                if account_le(s[k], x) {
                    if k > 0 {
                        assert(account_le(s[0], s[k]));
                        lemma_account_le_trans(s[0], s[k], x);
                    }
                    assert(false);
                }
                if same_sort_key(s[k], y) {
                    lemma_lex_le_total(s[k].spec_pubkey()@, x.spec_pubkey()@);
                    assert(account_le(s[k], x));
                }
            }
            lemma_filter_of_unmatched(s, pred);
            assert(seq![x] + Seq::<AccountType>::empty() =~= Seq::<AccountType>::empty().push(x));
            assert(s.filter(pred).push(x) =~= seq![x] + s.filter(pred));
        } else {
            assert(Seq::<AccountType>::empty() + s.filter(pred) =~= s.filter(pred));
        }
    }
}

/// All the canonical-order guarantees of the sort, over its reference
/// `spec_sort`: the output is a permutation of the input (same multiset and
/// length), it is sorted — every oracle entry precedes every spot entry,
/// every spot entry precedes every perp entry, and within one role entries
/// ascend by key bytes — and the sort is stable: entries sharing a sort key
/// keep their arrival order, as filtering by any sort key shows.
pub proof fn lemma_sort_canonical(s: Seq<AccountType>)
    ensures
        spec_sort(s).len() == s.len(),
        spec_sort(s).to_multiset() == s.to_multiset(),
        spec_sorted(spec_sort(s)),
        forall|y: AccountType| #[trigger] spec_sort(s).filter(same_key_pred(y)) == s.filter(
            same_key_pred(y),
        ),
    decreases s.len(),
{
    broadcast use vstd::seq_lib::group_to_multiset_ensures;

    reveal(Seq::filter);
    if s.len() > 0 {
        let butlast = s.drop_last();
        lemma_sort_canonical(butlast);
        lemma_insert_sorted_multiset(s.last(), spec_sort(butlast));
        lemma_insert_sorted_sorted(s.last(), spec_sort(butlast));
        assert(butlast.push(s.last()) =~= s);
        assert forall|y: AccountType| #[trigger] spec_sort(s).filter(same_key_pred(y)) == s.filter(
            same_key_pred(y),
        ) by {
            lemma_insert_sorted_filter(s.last(), spec_sort(butlast), y);
            assert(s.drop_last() == butlast);
        }
    }
}

proof fn lemma_insert_sorted_at(x: AccountType, s: Seq<AccountType>, j: int)
    requires
        0 <= j <= s.len(),
        forall|k: int| 0 <= k < j ==> account_le(s[k], x),
        j < s.len() ==> !account_le(s[j], x),
    ensures
        spec_insert_sorted(x, s) == s.take(j) + seq![x] + s.skip(j),
    decreases j,
{
    if j == 0 {
        if s.len() == 0 {
            assert(seq![x] =~= s.take(0) + seq![x] + s.skip(0));
        } else {
            assert(seq![x] + s =~= s.take(0) + seq![x] + s.skip(0));
        }
    } else {
        let rest = s.drop_first();
        assert(forall|k: int| 0 <= k < j - 1 ==> account_le(#[trigger] rest[k], x)) by {
            assert(forall|k: int| 0 <= k < j - 1 ==> #[trigger] rest[k] == s[k + 1]);
        }
        assert(j - 1 < rest.len() ==> !account_le(rest[j - 1], x)) by {
            if j - 1 < rest.len() {
                assert(rest[j - 1] == s[j]);
            }
        }
        lemma_insert_sorted_at(x, rest, j - 1);
        assert(seq![s.first()] + (rest.take(j - 1) + seq![x] + rest.skip(j - 1)) =~= s.take(j)
            + seq![x] + s.skip(j));
    }
}

/// Sorts instruction accounts into the canonical order the remote program
/// expects. Pure and deterministic: the result is exactly the stable
/// insertion sort `spec_sort` of the input.
pub fn sort(accounts: Vec<AccountType>) -> (r: Vec<AccountType>)
    ensures
        r@ == spec_sort(accounts@),
{
    let mut out: Vec<AccountType> = Vec::new();
    let mut i: usize = 0;
    while i < accounts.len()
        invariant
            i <= accounts@.len(),
            out@ == spec_sort(accounts@.take(i as int)),
        decreases accounts@.len() - i,
    {
        let x = accounts[i];
        let ghost prev = out@;
        let mut j: usize = 0;
        while j < out.len()
            invariant
                j <= out@.len(),
                out@ == prev,
                forall|k: int| 0 <= k < j ==> account_le(out@[k], x),
            ensures
                j <= out@.len(),
                out@ == prev,
                forall|k: int| 0 <= k < j ==> account_le(out@[k], x),
                j == out@.len() || !account_le(out@[j as int], x),
            decreases out@.len() - j,
        {
            let e = out[j];
            if !account_le_exec(&e, &x) {
                break;
            }
            j += 1;
        }
        out.insert(j, x);
        proof {
            lemma_insert_sorted_at(x, prev, j as int);
            assert(out@ =~= prev.take(j as int) + seq![x] + prev.skip(j as int));
            assert(accounts@.take(i + 1).drop_last() =~= accounts@.take(i as int));
            assert(accounts@.take(i + 1).last() == accounts@[i as int]);
        }
        i += 1;
    }
    proof {
        assert(accounts@.take(accounts@.len() as int) =~= accounts@);
    }
    out
}

} // verus!
