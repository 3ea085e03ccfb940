use vstd::prelude::*;

verus! {

/// Something that holds items of type `T`, handing out the one put last.
pub trait Container<T>: Sized {
    /// The items held, the one handed out next at the end.
    spec fn contents(&self) -> Seq<T>;

    /// Takes the item put last, if there is one.
    fn get(&mut self) -> (r: Option<T>)
        ensures
            old(self).contents().len() == 0 ==> r is None && final(self).contents() == old(self).contents(),
            old(self).contents().len() > 0 ==> r == Some(old(self).contents().last())
                && final(self).contents() == old(self).contents().drop_last(),
    ;

    /// Stores `item`; it is the next one handed out.
    fn put(&mut self, item: T)
        ensures
            final(self).contents().len() > 0,
            final(self).contents().last() == item,
    ;

    /// Whether nothing is held.
    fn is_empty(&self) -> (r: bool)
        ensures
            r == (self.contents().len() == 0),
    ;
}

/// A container that holds at most one item; `put` replaces what was there.
pub struct Basket<T> {
    item: Option<T>,
}

impl<T> Basket<T> {
    /// The item held, if any.
    pub closed spec fn held(&self) -> Option<T> {
        self.item
    }

    /// A basket holding `item`.
    pub fn new(item: T) -> (r: Basket<T>)
        ensures
            r.held() == Some(item),
            r.contents() == seq![item],
    {
        Basket { item: Some(item) }
    }
}

impl<T> Container<T> for Basket<T> {
    closed spec fn contents(&self) -> Seq<T> {
        match self.item {
            Some(x) => seq![x],
            None => Seq::empty(),
        }
    }

    fn get(&mut self) -> (r: Option<T>)
        ensures
            r == old(self).held(),
            final(self).held() is None,
    {
        let r = self.item.take();
        proof {
            if r is Some {
                assert(self.contents() =~= old(self).contents().drop_last());
            }
        }
        r
    }

    fn put(&mut self, item: T)
        ensures
            final(self).held() == Some(item),
    {
        self.item = Some(item);
    }

    fn is_empty(&self) -> (r: bool)
        ensures
            r == self.held() is None,
    {
        self.item.is_none()
    }
}

/// Stores `s` in any container of strings.
pub fn add_string<C: Container<String>>(c: &mut C, s: String)
    ensures
        final(c).contents().len() > 0,
        final(c).contents().last() == s,
{
    c.put(s);
}

} // verus!
