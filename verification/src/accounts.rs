//! The result of a crawl: for each label, the set of addresses found under it.

use vstd::hash_set::StringHashSet;
use vstd::prelude::*;
use vstd::string::StringExecFns;

verus! {

/// The texts of a list of strings, in order.
pub open spec fn texts(list: Seq<String>) -> Seq<Seq<char>> {
    Seq::new(list.len(), |i: int| list[i]@)
}

/// A set of addresses that remembers the order in which they were found.
pub struct AddressSet {
    order: Vec<String>,
    index: StringHashSet,
}

impl View for AddressSet {
    type V = Set<Seq<char>>;

    closed spec fn view(&self) -> Set<Seq<char>> {
        texts(self.order@).to_set()
    }
}

impl AddressSet {
    /// The addresses of the set, each once, in the order in which they were found.
    pub closed spec fn listing(&self) -> Seq<Seq<char>> {
        texts(self.order@)
    }

    /// The invariant of the type: the listing holds no address twice, and the index holds
    /// what the listing holds.
    pub closed spec fn wf(&self) -> bool {
        &&& texts(self.order@).no_duplicates()
        &&& self.index@ == texts(self.order@).to_set()
    }

    /// The listing holds exactly the addresses of the set, none twice: there are as many
    /// addresses as the listing is long.
    pub proof fn lemma_listing(&self)
        requires
            self.wf(),
        ensures
            self.listing().no_duplicates(),
            self.listing().to_set() == self@,
            self@.finite(),
            self@.len() == self.listing().len(),
    {
        texts(self.order@).unique_seq_to_set();
    }

    /// The empty set.
    pub fn new() -> (set: Self)
        ensures
            set.wf(),
            set@ == Set::<Seq<char>>::empty(),
            set.listing() == Seq::<Seq<char>>::empty(),
    {
        let set = AddressSet { order: Vec::new(), index: StringHashSet::new() };
        assert(set@ =~= Set::<Seq<char>>::empty());
        set
    }

    /// Whether the set holds `address`.
    pub fn contains(&self, address: &str) -> (found: bool)
        requires
            self.wf(),
        ensures
            found == self@.contains(address@),
    {
        self.index.contains(address)
    }

    /// The number of addresses.
    pub fn len(&self) -> (count: usize)
        requires
            self.wf(),
        ensures
            count == self@.len(),
            count == self.listing().len(),
    {
        proof {
            self.lemma_listing();
        }
        self.order.len()
    }

    /// The addresses, each once, in the order in which they were found.
    pub fn addresses(&self) -> (list: &Vec<String>)
        requires
            self.wf(),
        ensures
            texts(list@) == self.listing(),
    {
        &self.order
    }

    /// Adds `address`. An address that the set holds already is not added again. Returns
    /// whether the address is new.
    pub fn insert(&mut self, address: &str) -> (added: bool)
        requires
            old(self).wf(),
        ensures
            final(self).wf(),
            final(self)@ == old(self)@.insert(address@),
            added == !old(self)@.contains(address@),
            final(self).listing() == if added {
                old(self).listing().push(address@)
            } else {
                old(self).listing()
            },
    {
        if self.index.contains(address) {
            false
        } else {
            let ghost before = texts(self.order@);
            self.index.insert(String::from_str(address));
            self.order.push(String::from_str(address));
            proof {
                assert(texts(self.order@) =~= before.push(address@));
                assert(before.push(address@).to_set() =~= before.to_set().insert(address@)) by {
                    assert forall|a: Seq<char>|
                        before.push(address@).to_set().contains(a) <==> before.to_set().insert(
                            address@,
                        ).contains(a) by {
                        if before.contains(a) {
                            let i = choose|i: int| 0 <= i < before.len() && before[i] == a;
                            assert(before.push(address@)[i] == a);
                        }
                        if a == address@ {
                            assert(before.push(address@)[before.len() as int] == a);
                        }
                    }
                }
            }
            true
        }
    }
}

/// The mapping `accounts` with `address` put under `label`: the label is made if it is not
/// there, and an address that stands under it already is not added again.
pub open spec fn with_pair(
    accounts: Map<Seq<char>, Set<Seq<char>>>,
    label: Seq<char>,
    address: Seq<char>,
) -> Map<Seq<char>, Set<Seq<char>>> {
    accounts.insert(
        label,
        if accounts.contains_key(label) {
            accounts[label].insert(address)
        } else {
            Set::empty().insert(address)
        },
    )
}

/// The mapping `accounts` with `address` put under `label` `times` times over.
pub open spec fn with_pair_repeated(
    accounts: Map<Seq<char>, Set<Seq<char>>>,
    label: Seq<char>,
    address: Seq<char>,
    times: nat,
) -> Map<Seq<char>, Set<Seq<char>>>
    decreases times,
{
    if times == 0 {
        accounts
    } else {
        with_pair(with_pair_repeated(accounts, label, address, (times - 1) as nat), label, address)
    }
}

/// Putting a pair in a second time changes nothing.
pub proof fn lemma_insert_idempotent(
    accounts: Map<Seq<char>, Set<Seq<char>>>,
    label: Seq<char>,
    address: Seq<char>,
)
    ensures
        with_pair(with_pair(accounts, label, address), label, address) == with_pair(
            accounts,
            label,
            address,
        ),
{
    let once = with_pair(accounts, label, address);
    assert(once[label].insert(address) =~= once[label]);
}

/// Putting the same pair in any number of times, once at least, gives what putting it in
/// once gives. In a result that was empty, the label then holds exactly one address.
pub proof fn lemma_insert_repeated(
    accounts: Map<Seq<char>, Set<Seq<char>>>,
    label: Seq<char>,
    address: Seq<char>,
    times: nat,
)
    requires
        times >= 1,
    ensures
        with_pair_repeated(accounts, label, address, times) == with_pair(accounts, label, address),
        !accounts.contains_key(label) ==> with_pair_repeated(accounts, label, address, times)[label]
            == Set::<Seq<char>>::empty().insert(address) && with_pair_repeated(
            accounts,
            label,
            address,
            times,
        )[label].len() == 1,
    decreases times,
{
    if times > 1 {
        lemma_insert_repeated(accounts, label, address, (times - 1) as nat);
        lemma_insert_idempotent(accounts, label, address);
    } else {
        assert(with_pair_repeated(accounts, label, address, 0) == accounts);
    }
}

/// The order in which two pairs are put in makes no difference: however the insertions of
/// several workers interleave, the result is the same.
pub proof fn lemma_insert_commutes(
    accounts: Map<Seq<char>, Set<Seq<char>>>,
    label: Seq<char>,
    address: Seq<char>,
    other_label: Seq<char>,
    other_address: Seq<char>,
)
    ensures
        with_pair(with_pair(accounts, label, address), other_label, other_address) == with_pair(
            with_pair(accounts, other_label, other_address),
            label,
            address,
        ),
{
    let left = with_pair(with_pair(accounts, label, address), other_label, other_address);
    let right = with_pair(with_pair(accounts, other_label, other_address), label, address);
    if label == other_label {
        assert(left[label] =~= right[label]);
    }
}

/// The addresses found under one label.
struct LabelledAddresses {
    label: String,
    addresses: AddressSet,
}

/// The result of a crawl: a mapping from each label to the set of addresses found under it.
///
/// It only grows. A label is in it from the first address that is found under it, so no label
/// stands for an empty set.
pub struct CrawledAccounts {
    entries: Vec<LabelledAddresses>,
}

/// Whether an entry of `entries` has the label.
spec fn labelled(entries: Seq<LabelledAddresses>, label: Seq<char>) -> bool {
    exists|i: int| 0 <= i < entries.len() && (#[trigger] entries[i]).label@ == label
}

/// The place of an entry with the label.
spec fn place(entries: Seq<LabelledAddresses>, label: Seq<char>) -> int {
    choose|i: int| 0 <= i < entries.len() && (#[trigger] entries[i]).label@ == label
}

/// Whether no two entries have the same label.
spec fn distinct_labels(entries: Seq<LabelledAddresses>) -> bool {
    forall|i: int, j: int|
        0 <= i < entries.len() && 0 <= j < entries.len() && i != j ==> (#[trigger] entries[i]).label@
            != (#[trigger] entries[j]).label@
}

proof fn lemma_place(entries: Seq<LabelledAddresses>, i: int)
    requires
        distinct_labels(entries),
        0 <= i < entries.len(),
    ensures
        labelled(entries, entries[i].label@),
        place(entries, entries[i].label@) == i,
{
}

impl View for CrawledAccounts {
    type V = Map<Seq<char>, Set<Seq<char>>>;

    closed spec fn view(&self) -> Map<Seq<char>, Set<Seq<char>>> {
        Map::new(
            |label: Seq<char>| labelled(self.entries@, label),
            |label: Seq<char>| self.entries@[place(self.entries@, label)].addresses@,
        )
    }
}

impl CrawledAccounts {
    /// The invariant of the type: no label stands twice, and none for an empty set.
    pub closed spec fn wf(&self) -> bool {
        &&& distinct_labels(self.entries@)
        &&& forall|i: int|
            0 <= i < self.entries@.len() ==> (#[trigger] self.entries@[i]).addresses.wf()
                && self.entries@[i].addresses.listing().len() > 0
    }

    /// The addresses under a label; none where the result does not hold the label.
    pub open spec fn addresses_of(&self, label: Seq<char>) -> Set<Seq<char>> {
        if self@.contains_key(label) {
            self@[label]
        } else {
            Set::empty()
        }
    }

    /// Whether the result holds `address` under `label`.
    pub open spec fn holds(&self, label: Seq<char>, address: Seq<char>) -> bool {
        self@.contains_key(label) && self@[label].contains(address)
    }

    /// The labels, each once, in the order in which each was first used.
    pub closed spec fn label_listing(&self) -> Seq<Seq<char>> {
        Seq::new(self.entries@.len(), |i: int| self.entries@[i].label@)
    }

    /// The addresses under a label, each once, in the order in which they were found; none
    /// where the result does not hold the label.
    pub closed spec fn listing_of(&self, label: Seq<char>) -> Seq<Seq<char>> {
        if labelled(self.entries@, label) {
            self.entries@[place(self.entries@, label)].addresses.listing()
        } else {
            Seq::empty()
        }
    }

    /// The listings hold what the result holds, each label and each address once.
    pub proof fn lemma_listings(&self)
        requires
            self.wf(),
        ensures
            self.label_listing().no_duplicates(),
            self.label_listing().to_set() == self@.dom(),
            forall|label: Seq<char>| #[trigger]
                self@.contains_key(label) ==> self.listing_of(label).no_duplicates()
                    && self.listing_of(label).to_set() == self@[label],
            forall|label: Seq<char>|
                !self@.contains_key(label) ==> #[trigger] self.listing_of(label) == Seq::<
                    Seq<char>,
                >::empty(),
    {
        let labels = self.label_listing();
        assert(labels.to_set() =~= self@.dom()) by {
            assert forall|l: Seq<char>| labels.to_set().contains(l) <==> self@.dom().contains(
                l,
            ) by {
                if labelled(self.entries@, l) {
                    let i = place(self.entries@, l);
                    assert(labels[i] == l);
                }
            }
        }
        assert forall|label: Seq<char>| #[trigger] self@.contains_key(label) implies self.listing_of(
            label,
        ).no_duplicates() && self.listing_of(label).to_set() == self@[label] by {
            let i = place(self.entries@, label);
            self.entries@[i].addresses.lemma_listing();
        }
    }

    /// Every label of a result stands for a finite set that is not empty.
    pub proof fn lemma_labels(&self)
        requires
            self.wf(),
        ensures
            forall|label: Seq<char>| #[trigger]
                self@.contains_key(label) ==> self@[label].finite() && self@[label].len() > 0,
    {
        assert forall|label: Seq<char>| #[trigger] self@.contains_key(label) implies self@[label].finite()
            && self@[label].len() > 0 by {
            let i = place(self.entries@, label);
            self.entries@[i].addresses.lemma_listing();
        }
    }

    /// The empty result.
    pub fn new() -> (accounts: Self)
        ensures
            accounts.wf(),
            accounts@ == Map::<Seq<char>, Set<Seq<char>>>::empty(),
            accounts.label_listing() == Seq::<Seq<char>>::empty(),
    {
        let accounts = CrawledAccounts { entries: Vec::new() };
        assert(accounts@ =~= Map::<Seq<char>, Set<Seq<char>>>::empty());
        assert(accounts.label_listing() =~= Seq::<Seq<char>>::empty());
        accounts
    }

    /// The place of the entry with the label, if there is one.
    fn find(&self, label: &String) -> (found: Option<usize>)
        ensures
            match found {
                Some(i) => i < self.entries@.len() && self.entries@[i as int].label@ == label@,
                None => !labelled(self.entries@, label@),
            },
    {
        let mut i: usize = 0;
        while i < self.entries.len()
            invariant
                i <= self.entries.len(),
                forall|j: int| 0 <= j < i ==> (#[trigger] self.entries@[j]).label@ != label@,
            decreases self.entries.len() - i,
        {
            if self.entries[i].label == *label {
                return Some(i);
            }
            i = i + 1;
        }
        None
    }

    /// The number of labels.
    pub fn len(&self) -> (count: usize)
        requires
            self.wf(),
        ensures
            count == self@.dom().len(),
            self@.dom().finite(),
    {
        proof {
            self.lemma_domain();
        }
        self.entries.len()
    }

    /// Whether the result holds no label, and so no address.
    pub fn is_empty(&self) -> (empty: bool)
        requires
            self.wf(),
        ensures
            empty == (self@ == Map::<Seq<char>, Set<Seq<char>>>::empty()),
    {
        proof {
            if self.entries@.len() > 0 {
                lemma_place(self.entries@, 0);
                assert(self@.contains_key(self.entries@[0].label@));
            } else {
                assert(self@ =~= Map::<Seq<char>, Set<Seq<char>>>::empty());
            }
        }
        self.entries.len() == 0
    }

    /// The labels are as many as the entries.
    proof fn lemma_domain(&self)
        requires
            self.wf(),
        ensures
            self@.dom().finite(),
            self@.dom().len() == self.entries@.len(),
    {
        let labels = Seq::new(self.entries@.len(), |i: int| self.entries@[i].label@);
        labels.unique_seq_to_set();
        assert(labels.to_set() =~= self@.dom()) by {
            assert forall|l: Seq<char>| labels.to_set().contains(l) <==> self@.dom().contains(
                l,
            ) by {
                if labelled(self.entries@, l) {
                    let i = place(self.entries@, l);
                    assert(labels[i] == l);
                }
            }
        }
    }

    /// The labels, each once, in the order in which each was first used.
    pub fn labels(&self) -> (labels: Vec<String>)
        requires
            self.wf(),
        ensures
            texts(labels@) == self.label_listing(),
            texts(labels@).no_duplicates(),
            texts(labels@).to_set() == self@.dom(),
    {
        let mut labels: Vec<String> = Vec::new();
        let mut i: usize = 0;
        while i < self.entries.len()
            invariant
                i <= self.entries.len(),
                labels@.len() == i,
                forall|j: int| 0 <= j < i ==> (#[trigger] labels@[j])@ == self.entries@[j].label@,
            decreases self.entries.len() - i,
        {
            labels.push(self.entries[i].label.clone());
            i = i + 1;
        }
        proof {
            assert(texts(labels@) =~= self.label_listing());
            self.lemma_listings();
        }
        labels
    }

    /// The addresses under `label`, each once, in the order in which they were found; `None`
    /// where nothing was found under the label.
    pub fn get(&self, label: &str) -> (found: Option<&Vec<String>>)
        requires
            self.wf(),
        ensures
            match found {
                Some(list) => self@.contains_key(label@) && texts(list@) == self.listing_of(
                    label@,
                ) && texts(list@).no_duplicates() && texts(list@).to_set() == self@[label@],
                None => !self@.contains_key(label@),
            },
    {
        let label = String::from_str(label);
        match self.find(&label) {
            Some(i) => {
                proof {
                    lemma_place(self.entries@, i as int);
                    self.entries@[i as int].addresses.lemma_listing();
                }
                Some(self.entries[i].addresses.addresses())
            },
            None => None,
        }
    }

    /// Whether `address` was found under `label`.
    pub fn contains(&self, label: &str, address: &str) -> (found: bool)
        requires
            self.wf(),
        ensures
            found == self.holds(label@, address@),
    {
        let label = String::from_str(label);
        match self.find(&label) {
            Some(i) => {
                proof {
                    lemma_place(self.entries@, i as int);
                }
                self.entries[i].addresses.contains(address)
            },
            None => false,
        }
    }

    /// Puts `address` under `label`. The label is made on its first use; an address that
    /// stands under the label already is not added again.
    pub fn insert(&mut self, label: &str, address: &str)
        requires
            old(self).wf(),
        ensures
            final(self).wf(),
            final(self)@ == with_pair(old(self)@, label@, address@),
            forall|l: Seq<char>, a: Seq<char>| #[trigger]
                final(self).holds(l, a) <==> old(self).holds(l, a) || (l == label@ && a
                    == address@),
            final(self).label_listing() == if old(self)@.contains_key(label@) {
                old(self).label_listing()
            } else {
                old(self).label_listing().push(label@)
            },
            final(self).listing_of(label@) == if old(self).holds(label@, address@) {
                old(self).listing_of(label@)
            } else {
                old(self).listing_of(label@).push(address@)
            },
            forall|l: Seq<char>|
                l != label@ ==> #[trigger] final(self).listing_of(l) == old(self).listing_of(l),
    {
        let ghost before = self.entries@;
        let ghost earlier = *self;
        let ghost target = with_pair(self@, label@, address@);
        let key = String::from_str(label);
        match self.find(&key) {
            Some(i) => {
                proof {
                    lemma_place(before, i as int);
                }
                self.entries[i].addresses.insert(address);
                proof {
                    let after = self.entries@;
                    assert forall|l: Seq<char>| labelled(after, l) == labelled(before, l) by {
                        if labelled(after, l) {
                            assert(after[place(after, l)].label@ == l);
                        }
                        if labelled(before, l) {
                            let j = place(before, l);
                            assert(after[j].label@ == l);
                        }
                    }
                    assert forall|l: Seq<char>| #[trigger] labelled(after, l) implies after[place(
                        after,
                        l,
                    )].addresses@ == target[l] by {
                        let j = place(after, l);
                        lemma_place(after, j);
                        lemma_place(before, j);
                    }
                    lemma_place(after, i as int);
                    assert(self.label_listing() =~= earlier.label_listing());
                    assert forall|l: Seq<char>| l != label@ implies #[trigger] self.listing_of(l)
                        == earlier.listing_of(l) by {
                        if labelled(after, l) {
                            let j = place(after, l);
                            lemma_place(after, j);
                            lemma_place(before, j);
                        }
                    }
                }
            },
            None => {
                let mut addresses = AddressSet::new();
                addresses.insert(address);
                self.entries.push(LabelledAddresses { label: key, addresses });
                proof {
                    let after = self.entries@;
                    let last = before.len() as int;
                    assert(after[last].label@ == label@);
                    assert forall|l: Seq<char>| labelled(after, l) == (labelled(before, l) || l
                        == label@) by {
                        if labelled(after, l) {
                            assert(after[place(after, l)].label@ == l);
                        }
                        if labelled(before, l) {
                            let j = place(before, l);
                            assert(after[j].label@ == l);
                        }
                    }
                    assert forall|l: Seq<char>| #[trigger] labelled(after, l) implies after[place(
                        after,
                        l,
                    )].addresses@ == target[l] by {
                        let j = place(after, l);
                        lemma_place(after, j);
                        if j < last {
                            lemma_place(before, j);
                        }
                    }
                    lemma_place(after, last);
                    assert(self.label_listing() =~= earlier.label_listing().push(label@));
                    assert(self.listing_of(label@) =~= Seq::<Seq<char>>::empty().push(address@));
                    assert forall|l: Seq<char>| l != label@ implies #[trigger] self.listing_of(l)
                        == earlier.listing_of(l) by {
                        if labelled(after, l) {
                            let j = place(after, l);
                            lemma_place(after, j);
                            lemma_place(before, j);
                        }
                    }
                }
            },
        }
    }

    /// Puts into this result everything that `other` holds: what one worker found is added
    /// to what another found.
    pub fn merge(&mut self, other: &CrawledAccounts)
        requires
            old(self).wf(),
            other.wf(),
        ensures
            final(self).wf(),
            forall|l: Seq<char>, a: Seq<char>| #[trigger]
                final(self).holds(l, a) <==> old(self).holds(l, a) || other.holds(l, a),
    {
        let mut i: usize = 0;
        while i < other.entries.len()
            invariant
                i <= other.entries.len(),
                self.wf(),
                other.wf(),
                forall|l: Seq<char>, a: Seq<char>| #[trigger]
                    self.holds(l, a) <==> old(self).holds(l, a) || among(
                        other.entries@.take(i as int),
                        l,
                        a,
                    ),
            decreases other.entries.len() - i,
        {
            let entry = &other.entries[i];
            let list = entry.addresses.addresses();
            let ghost outer = *self;
            let ghost next = other.entries@.take(i + 1);
            let mut k: usize = 0;
            while k < list.len()
                invariant
                    k <= list.len(),
                    self.wf(),
                    forall|l: Seq<char>, a: Seq<char>| #[trigger]
                        self.holds(l, a) <==> outer.holds(l, a) || (l == entry.label@ && exists|
                            m: int,
                        |
                            0 <= m < k && (#[trigger] list@[m])@ == a),
                decreases list.len() - k,
            {
                self.insert(entry.label.as_str(), list[k].as_str());
                k = k + 1;
            }
            proof {
                entry.addresses.lemma_listing();
                assert forall|l: Seq<char>, a: Seq<char>| #[trigger]
                    self.holds(l, a) <==> old(self).holds(l, a) || among(next, l, a) by {
                    let here = l == entry.label@ && entry.addresses@.contains(a);
                    assert(here <==> (l == entry.label@ && exists|m: int|
                        0 <= m < list@.len() && (#[trigger] list@[m])@ == a)) by {
                        if exists|m: int| 0 <= m < list@.len() && (#[trigger] list@[m])@ == a {
                            let m = choose|m: int|
                                0 <= m < list@.len() && (#[trigger] list@[m])@ == a;
                            assert(texts(list@)[m] == a);
                        }
                    }
                    if here {
                        assert(next[i as int] == *entry);
                    }
                }
            }
            i = i + 1;
        }
        proof {
            assert(other.entries@.take(i as int) == other.entries@);
            assert forall|l: Seq<char>, a: Seq<char>|
                other.holds(l, a) <==> among(other.entries@, l, a) by {
                if other.holds(l, a) {
                    assert(other.entries@[place(other.entries@, l)].label@ == l);
                }
                if among(other.entries@, l, a) {
                    let j = choose|j: int|
                        0 <= j < other.entries@.len() && (#[trigger] other.entries@[j]).label@
                            == l && other.entries@[j].addresses@.contains(a);
                    lemma_place(other.entries@, j);
                }
            }
        }
    }
}

/// Whether an entry of `entries` has the label and holds the address.
spec fn among(entries: Seq<LabelledAddresses>, label: Seq<char>, address: Seq<char>) -> bool {
    exists|j: int|
        0 <= j < entries.len() && (#[trigger] entries[j]).label@ == label
            && entries[j].addresses@.contains(address)
}

} // verus!
