use vstd::prelude::*;
use hashbag::HashBag;
use vstd::multiset::Multiset;

verus! {

#[verifier::external_type_specification]
#[verifier::external_body]
#[verifier::reject_recursive_types(T)]
#[verifier::reject_recursive_types(S)]
pub struct ExHashBag<T, S>(hashbag::HashBag<T, S>);

/// The values held by a bag of strings, with their multiplicities.
pub uninterp spec fn bag_contents(b: HashBag<String>) -> Multiset<Seq<char>>;

/// Relies on `HashBag::new`: an empty bag.
#[verifier::external_body]
fn bag_new() -> (r: HashBag<String>)
    ensures
        bag_contents(r) == Multiset::<Seq<char>>::empty(),
{
    HashBag::new()
}

/// Relies on `HashBag::insert`: adds one occurrence and returns how many there were
/// before; it adds to a `usize` total, which must not overflow.
#[verifier::external_body]
fn bag_insert(b: &mut HashBag<String>, v: String) -> (r: usize)
    requires
        bag_contents(*old(b)).len() < usize::MAX,
    ensures
        r as nat == bag_contents(*old(b)).count(v@),
        bag_contents(*final(b)) == bag_contents(*old(b)).insert(v@),
{
    b.insert(v)
}

/// Relies on `HashBag::contains`: the number of occurrences of the value.
#[verifier::external_body]
fn bag_contains(b: &HashBag<String>, v: &String) -> (r: usize)
    ensures
        r as nat == bag_contents(*b).count(v@),
{
    b.contains(v)
}

/// Relies on `HashBag::len`: the number of occurrences, duplicates counted.
#[verifier::external_body]
fn bag_len(b: &HashBag<String>) -> (r: usize)
    ensures
        r as nat == bag_contents(*b).len(),
{
    b.len()
}

/// Relies on `HashBag::set_iter`: each distinct value once, with its number of occurrences.
#[verifier::external_body]
fn bag_set_items(b: &HashBag<String>) -> (r: Vec<(String, usize)>)
    ensures
        forall|i: int| 0 <= i < r@.len() ==> #[trigger] r@[i].1 as nat == bag_contents(*b).count(r@[i].0@)
            && r@[i].1 > 0,
        forall|i: int, j: int| 0 <= i < r@.len() && 0 <= j < r@.len() && i != j ==> #[trigger] r@[i].0@ != #[trigger] r@[j].0@,
        forall|k: Seq<char>| bag_contents(*b).count(k) > 0 ==> exists|i: int| 0 <= i < r@.len() && #[trigger] r@[i].0@ == k,
{
    b.set_iter().map(|(t, n)| (t.clone(), n)).collect()
}

/// A set whose elements can be repeated: it tracks how many times each element appears.
pub struct Bag {
    bag: HashBag<String>,
}

impl Bag {
    pub closed spec fn view(&self) -> Multiset<Seq<char>> {
        bag_contents(self.bag)
    }

    pub fn new() -> (r: Bag)
        ensures
            r@ == Multiset::<Seq<char>>::empty(),
    {
        Bag { bag: bag_new() }
    }

    /// Adds one occurrence of `value`; returns how many there were before.
    pub fn insert(&mut self, value: String) -> (r: usize)
        requires
            old(self)@.len() < usize::MAX,
        ensures
            r as nat == old(self)@.count(value@),
            final(self)@ == old(self)@.insert(value@),
    {
        let n = bag_insert(&mut self.bag, value);
        n
    }

    /// The number of occurrences of `value`.
    pub fn contains(&self, value: &String) -> (r: usize)
        ensures
            r as nat == self@.count(value@),
    {
        bag_contains(&self.bag, value)
    }

    /// The number of elements, duplicates counted.
    pub fn len(&self) -> (r: usize)
        ensures
            r as nat == self@.len(),
    {
        bag_len(&self.bag)
    }

    /// Each distinct element once, with its number of occurrences, in no set order.
    pub fn iter(&self) -> (r: Vec<(String, usize)>)
        ensures
            forall|i: int| 0 <= i < r@.len() ==> #[trigger] r@[i].1 as nat == self@.count(r@[i].0@) && r@[i].1 > 0,
            forall|i: int, j: int| 0 <= i < r@.len() && 0 <= j < r@.len() && i != j ==> #[trigger] r@[i].0@ != #[trigger] r@[j].0@,
            forall|k: Seq<char>| self@.count(k) > 0 ==> exists|i: int| 0 <= i < r@.len() && #[trigger] r@[i].0@ == k,
    {
        bag_set_items(&self.bag)
    }
}

} // verus!
