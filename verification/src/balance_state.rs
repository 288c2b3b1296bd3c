//! The balances that a block states: addresses in the order of their bytes,
//! each with one balance.
use vstd::prelude::*;
use vstd::string::*;
use crate::json::{decimal_text, json_string, json_string_text, json_unsigned};
use crate::text::{
    lemma_text_precedes_irreflexive, lemma_text_precedes_transitive, rank_text, text_precedes,
    Rank,
};

verus! {

/// One address and its balance.
#[derive(Debug)]
pub struct BalanceEntry {
    address: String,
    balance: u64,
}

impl View for BalanceEntry {
    type V = (Seq<char>, u64);

    closed spec fn view(&self) -> (Seq<char>, u64) {
        (self.address@, self.balance)
    }
}

/// Balances by address, kept in the order of the addresses' bytes.
#[derive(Debug)]
pub struct BalanceState {
    entries: Vec<BalanceEntry>,
}

impl View for BalanceState {
    type V = Seq<(Seq<char>, u64)>;

    closed spec fn view(&self) -> Seq<(Seq<char>, u64)> {
        Seq::new(self.entries@.len(), |i: int| self.entries@[i]@)
    }
}

/// Whether the addresses stand in strictly rising order, so that none
/// occurs twice.
pub open spec fn sorted_entries(entries: Seq<(Seq<char>, u64)>) -> bool {
    forall|i: int, j: int|
        0 <= i < j < entries.len() ==> text_precedes(
            (#[trigger] entries[i]).0,
            (#[trigger] entries[j]).0,
        )
}

/// Whether `address` has an entry.
pub open spec fn has_balance(entries: Seq<(Seq<char>, u64)>, address: Seq<char>) -> bool {
    exists|i: int| 0 <= i < entries.len() && (#[trigger] entries[i]).0 == address
}

/// The balance that the entries state for `address`, if any.
pub open spec fn balance_in(entries: Seq<(Seq<char>, u64)>, address: Seq<char>) -> Option<u64> {
    if has_balance(entries, address) {
        let i = choose|i: int| 0 <= i < entries.len() && (#[trigger] entries[i]).0 == address;
        Some(entries[i].1)
    } else {
        None
    }
}

/// The JSON text of one entry: the address as a string, a colon, the
/// balance.
pub open spec fn entry_json(entry: (Seq<char>, u64)) -> Seq<char> {
    json_string_text(entry.0) + ":"@ + decimal_text(entry.1 as nat)
}

/// The JSON texts of the entries, separated by commas.
pub open spec fn entries_json(entries: Seq<(Seq<char>, u64)>) -> Seq<char>
    decreases entries.len(),
{
    if entries.len() == 0 {
        Seq::empty()
    } else if entries.len() == 1 {
        entry_json(entries[0])
    } else {
        entries_json(entries.drop_last()) + ","@ + entry_json(entries.last())
    }
}

/// The JSON object of the balances, in the order of the entries.
pub open spec fn balance_state_json(entries: Seq<(Seq<char>, u64)>) -> Seq<char> {
    "{"@ + entries_json(entries) + "}"@
}

/// In sorted entries, an address is found at one position only.
pub proof fn lemma_sorted_unique(entries: Seq<(Seq<char>, u64)>, i: int, j: int)
    requires
        sorted_entries(entries),
        0 <= i < entries.len(),
        0 <= j < entries.len(),
        entries[i].0 == entries[j].0,
    ensures
        i == j,
{
    lemma_text_precedes_irreflexive(entries[i].0);
}

/// In sorted entries, the balance of the address at a position is the one
/// stated there.
pub proof fn lemma_balance_at(entries: Seq<(Seq<char>, u64)>, i: int)
    requires
        sorted_entries(entries),
        0 <= i < entries.len(),
    ensures
        balance_in(entries, entries[i].0) == Some(entries[i].1),
{
    assert(has_balance(entries, entries[i].0));
    let k = choose|k: int| 0 <= k < entries.len() && (#[trigger] entries[k]).0 == entries[i].0;
    lemma_sorted_unique(entries, i, k);
}

impl Clone for BalanceEntry {
    fn clone(&self) -> (out: Self)
        ensures
            out@ == self@,
    {
        BalanceEntry { address: self.address.clone(), balance: self.balance }
    }
}

impl Clone for BalanceState {
    fn clone(&self) -> (out: Self)
        ensures
            out@ == self@,
    {
        let mut entries: Vec<BalanceEntry> = Vec::new();
        let mut i: usize = 0;
        while i < self.entries.len()
            invariant
                i <= self.entries@.len(),
                entries@.len() == i,
                forall|k: int| 0 <= k < i ==> entries@[k]@ == self.entries@[k]@,
            decreases self.entries@.len() - i,
        {
            entries.push(self.entries[i].clone());
            i += 1;
        }
        let out = BalanceState { entries };
        assert(out@ =~= self@);
        out
    }
}

impl BalanceState {
    /// The addresses are in strictly rising order.
    pub open spec fn wf(&self) -> bool {
        sorted_entries(self@)
    }

    /// The balance stated for `address`, if any.
    pub open spec fn spec_get(&self, address: Seq<char>) -> Option<u64> {
        balance_in(self@, address)
    }

    /// No balances.
    pub fn new() -> (out: Self)
        ensures
            out@ == Seq::<(Seq<char>, u64)>::empty(),
            out.wf(),
    {
        let out = BalanceState { entries: Vec::new() };
        assert(out@ =~= Seq::<(Seq<char>, u64)>::empty());
        out
    }

    /// Removes every balance.
    pub fn clear(&mut self)
        ensures
            final(self)@ == Seq::<(Seq<char>, u64)>::empty(),
            final(self).wf(),
    {
        self.entries.clear();
        assert(self@ =~= Seq::<(Seq<char>, u64)>::empty());
    }

    /// The number of addresses.
    pub fn len(&self) -> (out: usize)
        ensures
            out == self@.len(),
    {
        self.entries.len()
    }

    /// The address at a position.
    pub fn address_at(&self, index: usize) -> (out: &str)
        requires
            index < self@.len(),
        ensures
            out@ == self@[index as int].0,
    {
        self.entries[index].address.as_str()
    }

    /// The balance at a position.
    pub fn balance_at(&self, index: usize) -> (out: u64)
        requires
            index < self@.len(),
        ensures
            out == self@[index as int].1,
    {
        self.entries[index].balance
    }

    /// The position of `address`, or else the position at which it would
    /// have to stand.
    fn locate(&self, address: &str) -> (out: (usize, bool))
        requires
            self.wf(),
        ensures
            out.0 <= self@.len(),
            forall|k: int| 0 <= k < out.0 ==> text_precedes((#[trigger] self@[k]).0, address@),
            out.1 ==> out.0 < self@.len() && self@[out.0 as int].0 == address@,
            !out.1 ==> forall|k: int|
                out.0 <= k < self@.len() ==> text_precedes(address@, (#[trigger] self@[k]).0),
            out.1 == has_balance(self@, address@),
    {
        let mut i: usize = 0;
        while i < self.entries.len()
            invariant
                self.wf(),
                i <= self.entries@.len(),
                self@.len() == self.entries@.len(),
                forall|k: int| 0 <= k < i ==> text_precedes((#[trigger] self@[k]).0, address@),
            decreases self.entries@.len() - i,
        {
            let rank = rank_text(self.entries[i].address.as_str(), address);
            assert(self@[i as int].0 == self.entries@[i as int].address@);
            match rank {
                Rank::Before => {},
                Rank::Same => {
                    return (i, true);
                },
                Rank::After => {
                    proof {
                        let at = i as int;
                        assert forall|k: int| at <= k < self@.len() implies text_precedes(
                            address@,
                            (#[trigger] self@[k]).0,
                        ) by {
                            if k > at {
                                lemma_text_precedes_transitive(address@, self@[at].0, self@[k].0);
                            }
                        }
                        lemma_absent(self@, address@, at);
                    }
                    return (i, false);
                },
            }
            i += 1;
        }
        proof {
            lemma_absent(self@, address@, i as int);
        }
        (i, false)
    }

    /// The balance stated for `address`, if any.
    pub fn get(&self, address: &str) -> (out: Option<u64>)
        requires
            self.wf(),
        ensures
            out == self.spec_get(address@),
    {
        let (index, found) = self.locate(address);
        if found {
            proof {
                lemma_balance_at(self@, index as int);
            }
            Some(self.entries[index].balance)
        } else {
            None
        }
    }

    /// States `balance` for `address`, in place of what was stated for it
    /// before.
    pub fn insert(&mut self, address: String, balance: u64)
        requires
            old(self).wf(),
        ensures
            final(self).wf(),
            final(self)@ == with_balance(old(self)@, address@, balance),
    {
        let (index, found) = self.locate(address.as_str());
        let ghost before = self@;
        if found {
            self.entries.set(index, BalanceEntry { address, balance });
            assert(self@ =~= before.update(index as int, (address@, balance)));
        } else {
            self.entries.insert(index, BalanceEntry { address, balance });
            assert(self@ =~= before.insert(index as int, (address@, balance)));
        }
        proof {
            lemma_with_balance(before, address@, balance, index as int);
        }
    }

    /// The JSON object of the balances.
    pub fn to_json(&self) -> (out: String)
        ensures
            out@ == balance_state_json(self@),
    {
        let mut out = String::from_str("{");
        let mut i: usize = 0;
        while i < self.entries.len()
            invariant
                i <= self.entries@.len(),
                self@.len() == self.entries@.len(),
                out@ == "{"@ + entries_json(self@.take(i as int)),
            decreases self.entries@.len() - i,
        {
            let ghost before = out@;
            if i > 0 {
                out.append(",");
            }
            let address = json_string(self.entries[i].address.as_str());
            out.append(address.as_str());
            out.append(":");
            let balance = json_unsigned(self.entries[i].balance);
            out.append(balance.as_str());
            proof {
                let next = self@.take(i + 1);
                assert(next.drop_last() =~= self@.take(i as int));
                assert(next.last() == self@[i as int]);
                assert(self@[i as int] == self.entries@[i as int]@);
                assert(out@ =~= "{"@ + entries_json(next));
            }
            i += 1;
        }
        assert(self@.take(i as int) =~= self@);
        out.append("}");
        out
    }
}

/// The position at which `address` stands or would have to stand: the
/// number of entries whose address precedes it.
pub open spec fn position_of(entries: Seq<(Seq<char>, u64)>, address: Seq<char>) -> int
    decreases entries.len(),
{
    if entries.len() == 0 {
        0
    } else if text_precedes(entries.last().0, address) {
        position_of(entries.drop_last(), address) + 1
    } else {
        position_of(entries.drop_last(), address)
    }
}

/// The entries with `balance` stated for `address`: in place of its entry
/// where it has one, else put in at its position.
pub open spec fn with_balance(entries: Seq<(Seq<char>, u64)>, address: Seq<char>, balance: u64)
    -> Seq<(Seq<char>, u64)> {
    let at = position_of(entries, address);
    if has_balance(entries, address) {
        entries.update(at, (address, balance))
    } else {
        entries.insert(at, (address, balance))
    }
}

/// An address that precedes every entry from `at` on, and is preceded by
/// every entry before, has no entry.
pub proof fn lemma_absent(entries: Seq<(Seq<char>, u64)>, address: Seq<char>, at: int)
    requires
        0 <= at <= entries.len(),
        forall|k: int| 0 <= k < at ==> text_precedes((#[trigger] entries[k]).0, address),
        forall|k: int| at <= k < entries.len() ==> text_precedes(address, (#[trigger] entries[k]).0),
    ensures
        !has_balance(entries, address),
{
    lemma_text_precedes_irreflexive(address);
}

/// In sorted entries, the position of an address is where the entries stop
/// preceding it.
pub proof fn lemma_position(entries: Seq<(Seq<char>, u64)>, address: Seq<char>, at: int)
    requires
        0 <= at <= entries.len(),
        forall|k: int| 0 <= k < at ==> text_precedes((#[trigger] entries[k]).0, address),
        forall|k: int| at <= k < entries.len() ==> !text_precedes((#[trigger] entries[k]).0, address),
    ensures
        position_of(entries, address) == at,
    decreases entries.len(),
{
    if entries.len() > 0 {
        let rest = entries.drop_last();
        let last = entries.len() - 1;
        assert(entries.last() == entries[last]);
        if at == entries.len() {
            assert forall|k: int| 0 <= k < at - 1 implies text_precedes(
                (#[trigger] rest[k]).0,
                address,
            ) by {
                assert(rest[k] == entries[k]);
            }
            lemma_position(rest, address, at - 1);
        } else {
            assert forall|k: int| 0 <= k < at implies text_precedes(
                (#[trigger] rest[k]).0,
                address,
            ) by {
                assert(rest[k] == entries[k]);
            }
            assert forall|k: int| at <= k < rest.len() implies !text_precedes(
                (#[trigger] rest[k]).0,
                address,
            ) by {
                assert(rest[k] == entries[k]);
            }
            lemma_position(rest, address, at);
        }
    }
}

/// What `insert` leaves: sorted entries that state `balance` for `address`
/// and, for every other address, what was stated before.
pub proof fn lemma_with_balance(
    entries: Seq<(Seq<char>, u64)>,
    address: Seq<char>,
    balance: u64,
    at: int,
)
    requires
        sorted_entries(entries),
        0 <= at <= entries.len(),
        forall|k: int| 0 <= k < at ==> text_precedes((#[trigger] entries[k]).0, address),
        has_balance(entries, address) ==> at < entries.len() && entries[at].0 == address,
        !has_balance(entries, address) ==> forall|k: int|
            at <= k < entries.len() ==> text_precedes(address, (#[trigger] entries[k]).0),
    ensures
        position_of(entries, address) == at,
        sorted_entries(with_balance(entries, address, balance)),
        balance_in(with_balance(entries, address, balance), address) == Some(balance),
        forall|other: Seq<char>|
            other != address ==> balance_in(with_balance(entries, address, balance), other)
                == balance_in(entries, other),
{
    assert forall|k: int| at <= k < entries.len() implies !text_precedes(
        (#[trigger] entries[k]).0,
        address,
    ) by {
        if has_balance(entries, address) {
            lemma_text_precedes_irreflexive(address);
            if k > at {
                if text_precedes(entries[k].0, address) {
                    lemma_text_precedes_transitive(entries[at].0, entries[k].0, address);
                }
            }
        } else {
            if text_precedes(entries[k].0, address) {
                lemma_text_precedes_transitive(address, entries[k].0, address);
                lemma_text_precedes_irreflexive(address);
            }
        }
    }
    lemma_position(entries, address, at);
    let after = with_balance(entries, address, balance);
    if has_balance(entries, address) {
        assert(after =~= entries.update(at, (address, balance)));
        assert forall|i: int, j: int| 0 <= i < j < after.len() implies text_precedes(
            (#[trigger] after[i]).0,
            (#[trigger] after[j]).0,
        ) by {
            assert(after[i].0 == entries[i].0);
            assert(after[j].0 == entries[j].0);
        }
        lemma_balance_at(after, at);
        assert forall|other: Seq<char>| other != address implies balance_in(after, other)
            == balance_in(entries, other) by {
            if has_balance(entries, other) {
                let k = choose|k: int| 0 <= k < entries.len() && (#[trigger] entries[k]).0 == other;
                assert(after[k] == entries[k]);
                lemma_balance_at(entries, k);
                lemma_balance_at(after, k);
            } else {
                if has_balance(after, other) {
                    let k = choose|k: int| 0 <= k < after.len() && (#[trigger] after[k]).0 == other;
                    assert(entries[k].0 == other);
                }
            }
        }
    } else {
        assert(after =~= entries.insert(at, (address, balance)));
        assert forall|i: int, j: int| 0 <= i < j < after.len() implies text_precedes(
            (#[trigger] after[i]).0,
            (#[trigger] after[j]).0,
        ) by {
            if j < at {
                assert(after[i] == entries[i] && after[j] == entries[j]);
            } else if j == at {
                assert(after[i] == entries[i]);
            } else if i < at {
                assert(after[i] == entries[i] && after[j] == entries[j - 1]);
            } else if i == at {
                assert(after[j] == entries[j - 1]);
            } else {
                assert(after[i] == entries[i - 1] && after[j] == entries[j - 1]);
            }
        }
        lemma_balance_at(after, at);
        assert forall|other: Seq<char>| other != address implies balance_in(after, other)
            == balance_in(entries, other) by {
            if has_balance(entries, other) {
                let k = choose|k: int| 0 <= k < entries.len() && (#[trigger] entries[k]).0 == other;
                let moved = if k < at {
                    k
                } else {
                    k + 1
                };
                assert(after[moved] == entries[k]);
                lemma_balance_at(entries, k);
                lemma_balance_at(after, moved);
            } else {
                if has_balance(after, other) {
                    let k = choose|k: int| 0 <= k < after.len() && (#[trigger] after[k]).0 == other;
                    if k < at {
                        assert(entries[k].0 == other);
                    } else {
                        assert(entries[k - 1].0 == other);
                    }
                }
            }
        }
    }
}

/// Stating a balance in sorted entries leaves sorted entries.
pub proof fn lemma_with_balance_sorted(
    entries: Seq<(Seq<char>, u64)>,
    address: Seq<char>,
    balance: u64,
)
    requires
        sorted_entries(entries),
    ensures
        sorted_entries(with_balance(entries, address, balance)),
        balance_in(with_balance(entries, address, balance), address) == Some(balance),
        forall|other: Seq<char>|
            other != address ==> balance_in(with_balance(entries, address, balance), other)
                == balance_in(entries, other),
{
    let at = position_of(entries, address);
    lemma_position_splits(entries, address);
    lemma_with_balance(entries, address, balance, at);
}

/// In sorted entries, the entries before the position of an address
/// precede it; the entry at the position is the address's, where it has
/// one; and the address precedes every later entry.
pub proof fn lemma_position_splits(entries: Seq<(Seq<char>, u64)>, address: Seq<char>)
    requires
        sorted_entries(entries),
    ensures
        0 <= position_of(entries, address) <= entries.len(),
        forall|k: int|
            0 <= k < position_of(entries, address) ==> text_precedes(
                (#[trigger] entries[k]).0,
                address,
            ),
        has_balance(entries, address) ==> position_of(entries, address) < entries.len()
            && entries[position_of(entries, address)].0 == address,
        !has_balance(entries, address) ==> forall|k: int|
            position_of(entries, address) <= k < entries.len() ==> text_precedes(
                address,
                (#[trigger] entries[k]).0,
            ),
    decreases entries.len(),
{
    if entries.len() > 0 {
        let rest = entries.drop_last();
        let last = entries.len() - 1;
        assert(sorted_entries(rest)) by {
            assert forall|i: int, j: int| 0 <= i < j < rest.len() implies text_precedes(
                (#[trigger] rest[i]).0,
                (#[trigger] rest[j]).0,
            ) by {
                assert(rest[i] == entries[i] && rest[j] == entries[j]);
            }
        }
        lemma_position_splits(rest, address);
        let at = position_of(entries, address);
        assert(entries.last() == entries[last]);
        assert forall|k: int| 0 <= k < rest.len() implies rest[k] == entries[k] by {}
        if text_precedes(entries[last].0, address) {
            assert forall|k: int| 0 <= k < last implies text_precedes(
                (#[trigger] entries[k]).0,
                address,
            ) by {
                lemma_text_precedes_transitive(entries[k].0, entries[last].0, address);
            }
            assert forall|k: int| 0 <= k < last implies text_precedes(
                (#[trigger] rest[k]).0,
                address,
            ) by {
                assert(rest[k] == entries[k]);
            }
            lemma_position(rest, address, last);
            assert(at == entries.len());
            assert forall|k: int| 0 <= k < at implies text_precedes(
                (#[trigger] entries[k]).0,
                address,
            ) by {}
            if has_balance(entries, address) {
                let k = choose|k: int| 0 <= k < entries.len() && (#[trigger] entries[k]).0
                    == address;
                lemma_text_precedes_irreflexive(address);
            }
        } else {
            let inner = position_of(rest, address);
            assert(at == inner);
            assert forall|k: int| 0 <= k < at implies text_precedes(
                (#[trigger] entries[k]).0,
                address,
            ) by {
                assert(rest[k] == entries[k]);
            }
            if has_balance(entries, address) {
                let k = choose|k: int| 0 <= k < entries.len() && (#[trigger] entries[k]).0
                    == address;
                if k == last {
                    if inner < rest.len() {
                        if has_balance(rest, address) {
                            assert(rest[inner].0 == address);
                            assert(entries[inner].0 == address);
                            lemma_sorted_unique(entries, inner, last);
                        } else {
                            assert(text_precedes(address, rest[inner].0));
                            assert(rest[inner] == entries[inner]);
                            assert(text_precedes(entries[inner].0, entries[last].0));
                            lemma_text_precedes_transitive(address, entries[inner].0, address);
                            lemma_text_precedes_irreflexive(address);
                        }
                    }
                    assert(at == last);
                } else {
                    assert(rest[k].0 == address);
                    assert(has_balance(rest, address));
                    assert(entries[at] == rest[at]);
                }
            } else {
                assert(!has_balance(rest, address)) by {
                    if has_balance(rest, address) {
                        let k = choose|k: int| 0 <= k < rest.len() && (#[trigger] rest[k]).0
                            == address;
                        assert(entries[k].0 == address);
                    }
                }
                assert forall|k: int| at <= k < entries.len() implies text_precedes(
                    address,
                    (#[trigger] entries[k]).0,
                ) by {
                    if k < last {
                        assert(rest[k] == entries[k]);
                    } else {
                        lemma_trichotomy(entries[last].0, address);
                    }
                }
            }
        }
    }
}

/// Of two different texts one precedes the other.
pub proof fn lemma_trichotomy(a: Seq<char>, b: Seq<char>)
    ensures
        a == b || text_precedes(a, b) || text_precedes(b, a),
{
    crate::text::lemma_precedes_total(vstd::utf8::encode_utf8(a), vstd::utf8::encode_utf8(b), 0);
    if vstd::utf8::encode_utf8(a) == vstd::utf8::encode_utf8(b) {
        crate::text::lemma_utf8_injective(a, b);
    }
}

} // verus!
