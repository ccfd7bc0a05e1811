//! Named assets.
use vstd::prelude::*;

verus! {

/// Assets of one kind, each under a name.
pub struct Assets<T> {
    entries: Vec<(String, T)>,
}

/// Refers to an asset.
pub struct Handle<T> {
    index: usize,
    _kind: core::marker::PhantomData<T>,
}

impl<T> Handle<T> {
    /// Where the asset is.
    pub closed spec fn index(&self) -> usize {
        self.index
    }
}

impl<T> View for Assets<T> {
    type V = Seq<(Seq<char>, T)>;

    closed spec fn view(&self) -> Seq<(Seq<char>, T)> {
        self.entries@.map_values(|entry: (String, T)| (entry.0@, entry.1))
    }
}

impl<T> Assets<T> {
    /// No assets.
    pub fn new() -> (assets: Self)
        ensures
            assets@ == Seq::<(Seq<char>, T)>::empty(),
    {
        let assets = Assets { entries: Vec::new() };
        assert(assets@ =~= Seq::<(Seq<char>, T)>::empty());
        assets
    }

    /// Stores an asset under `name`.
    pub fn insert(&mut self, name: &str, asset: T) -> (handle: Handle<T>)
        ensures
            final(self)@ == old(self)@.push((name@, asset)),
            handle.index() == old(self)@.len(),
    {
        let index: usize = self.entries.len();
        self.entries.push((name.to_string(), asset));
        assert(self@ =~= old(self)@.push((name@, asset)));
        Handle { index, _kind: core::marker::PhantomData }
    }

    /// The asset that `handle` refers to.
    pub fn get(&self, handle: &Handle<T>) -> (asset: Option<&T>)
        ensures
            match asset {
                Some(found) => handle.index() < self@.len() && *found == self@[handle.index() as int].1,
                None => handle.index() >= self@.len(),
            },
    {
        if handle.index < self.entries.len() {
            Some(&self.entries[handle.index].1)
        } else {
            None
        }
    }
}

/// An asset is found by the handle that storing it gave, and those stored
/// before are still found by theirs.
pub proof fn law_an_asset_is_found_by_its_handle<T>(
    assets: &mut Assets<T>,
    name: &str,
    asset: T,
    handle: Handle<T>,
    found: Option<&T>,
    earlier: Handle<T>,
    before: Option<&T>,
    after: Option<&T>,
)
    requires
        call_ensures(Assets::<T>::insert, (assets, name, asset), handle),
        call_ensures(Assets::<T>::get, (&*final(assets), &handle), found),
        call_ensures(Assets::<T>::get, (&*old(assets), &earlier), before),
        call_ensures(Assets::<T>::get, (&*final(assets), &earlier), after),
    ensures
        found is Some,
        *found->Some_0 == asset,
        before is Some ==> after is Some && *after->Some_0 == *before->Some_0,
        final(assets)@.len() == old(assets)@.len() + 1,
        final(assets)@.last().0 == name@,
{
}

/// At first there are no assets.
pub proof fn law_there_are_no_assets_at_first<T>(assets: Assets<T>)
    requires
        call_ensures(Assets::<T>::new, (), assets),
    ensures
        assets@.len() == 0,
{
}

} // verus!
