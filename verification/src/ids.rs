//! Identifiers shared by the contracts.
use vstd::prelude::*;

verus! {

/// An account or contract address, held as its strkey text (`G…` or `C…`).
pub type Address = String;

/// A credit's identifier: a SHA-256 digest.
pub type CreditId = [u8; 32];

/// Whether `a` occurs in `list`.
pub open spec fn listed(list: Seq<Address>, a: Seq<char>) -> bool {
    exists|i: int| 0 <= i < list.len() && #[trigger] list[i]@ == a
}

/// Whether no address occurs twice in `list`.
pub open spec fn addresses_distinct(list: Seq<Address>) -> bool {
    forall|i: int, j: int| 0 <= i < list.len() && 0 <= j < list.len() && #[trigger] list[i]@ == #[trigger] list[j]@ ==> i == j
}

/// Appending an address that is not listed keeps the list free of repeats.
pub proof fn lemma_push_keeps_distinct(list: Seq<Address>, a: Address)
    requires
        addresses_distinct(list),
        !listed(list, a@),
    ensures
        addresses_distinct(list.push(a)),
{
    let t = list.push(a);
    assert forall|i: int, j: int| 0 <= i < t.len() && 0 <= j < t.len() && #[trigger] t[i]@ == #[trigger] t[j]@ implies i == j by {
        if i < list.len() && j == list.len() {
            assert(list[i]@ == a@);
        }
        if j < list.len() && i == list.len() {
            assert(list[j]@ == a@);
        }
    }
}

/// After appending `a`, exactly the addresses listed before and `a` are listed.
pub proof fn lemma_listed_after_push(list: Seq<Address>, a: Address, x: Seq<char>)
    ensures
        listed(list.push(a), x) <==> (listed(list, x) || x == a@),
{
    let t = list.push(a);
    if listed(list, x) {
        let i = choose|i: int| 0 <= i < list.len() && #[trigger] list[i]@ == x;
        assert(t[i]@ == x);
    }
    if x == a@ {
        assert(t[list.len() as int]@ == x);
    }
    if listed(t, x) {
        let i = choose|i: int| 0 <= i < t.len() && #[trigger] t[i]@ == x;
        if i < list.len() {
            assert(list[i]@ == x);
        }
    }
}

/// Whether `a` occurs in `list`.
pub fn address_listed(list: &Vec<Address>, a: &Address) -> (r: bool)
    ensures
        r == listed(list@, a@),
{
    let mut i: usize = 0;
    while i < list.len()
        invariant
            i <= list.len(),
            forall|j: int| 0 <= j < i ==> #[trigger] list@[j]@ != a@,
        decreases list.len() - i,
    {
        if list[i] == *a {
            return true;
        }
        i = i + 1;
    }
    false
}

/// A copy of `list`.
pub fn copy_addresses(list: &Vec<Address>) -> (r: Vec<Address>)
    ensures
        r@ == list@,
{
    let mut out: Vec<Address> = Vec::new();
    let mut i: usize = 0;
    while i < list.len()
        invariant
            i <= list.len(),
            out@ == list@.take(i as int),
        decreases list.len() - i,
    {
        out.push(list[i].clone());
        assert(list@.take(i + 1) =~= list@.take(i as int).push(list@[i as int]));
        i = i + 1;
    }
    assert(list@.take(list.len() as int) =~= list@);
    out
}

/// A copy of `list`.
pub fn copy_ids(list: &Vec<CreditId>) -> (r: Vec<CreditId>)
    ensures
        r@ == list@,
{
    let mut out: Vec<CreditId> = Vec::new();
    let mut i: usize = 0;
    while i < list.len()
        invariant
            i <= list.len(),
            out@ == list@.take(i as int),
        decreases list.len() - i,
    {
        out.push(list[i]);
        assert(list@.take(i + 1) =~= list@.take(i as int).push(list@[i as int]));
        i = i + 1;
    }
    assert(list@.take(list.len() as int) =~= list@);
    out
}

/// Addresses of which none occurs twice, in the order they were added.
pub struct AddressSet {
    list: Vec<Address>,
}

impl AddressSet {
    #[verifier::type_invariant]
    pub closed spec fn no_repeats(self) -> bool {
        addresses_distinct(self.list@)
    }

    /// The addresses, in the order they were added.
    pub closed spec fn members(self) -> Seq<Address> {
        self.list@
    }

    /// The invariant says that no address occurs twice among the members.
    pub proof fn lemma_members_distinct(self)
        requires
            self.no_repeats(),
        ensures
            addresses_distinct(self.members()),
    {
    }

    /// No address.
    pub fn new() -> (r: Self)
        ensures
            r.members() == Seq::<Address>::empty(),
    {
        AddressSet { list: Vec::new() }
    }

    /// The addresses of `list`, which holds none twice.
    pub fn from_vec(list: Vec<Address>) -> (r: Self)
        requires
            addresses_distinct(list@),
        ensures
            r.members() == list@,
    {
        AddressSet { list }
    }

    /// A copy of the addresses, of which none occurs twice.
    pub fn to_vec(&self) -> (r: Vec<Address>)
        ensures
            r@ == self.members(),
            addresses_distinct(r@),
    {
        proof {
            use_type_invariant(self);
        }
        copy_addresses(&self.list)
    }

    /// The addresses, of which none occurs twice.
    pub fn into_vec(self) -> (r: Vec<Address>)
        ensures
            r@ == self.members(),
            addresses_distinct(r@),
    {
        proof {
            use_type_invariant(&self);
        }
        let AddressSet { list } = self;
        list
    }

    /// Whether `a` is among the addresses.
    pub fn contains(&self, a: &Address) -> (r: bool)
        ensures
            r == listed(self.members(), a@),
            addresses_distinct(self.members()),
    {
        proof {
            use_type_invariant(self);
        }
        address_listed(&self.list, a)
    }
}

} // verus!
