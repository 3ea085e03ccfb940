use vstd::prelude::*;
use crate::decimal::{digits, push_digits};

verus! {

/// An item of a catalog.
#[derive(Debug)]
pub enum Media {
    Book { title: String, author: String },
    Movie { title: String, director: String },
    Audiobook { title: String },
    Podcast(u32),
    Placeholder,
}

/// The description of each kind of media.
pub open spec fn description_of(m: Media) -> Seq<char> {
    match m {
        Media::Book { title, author } => "Book: "@ + title@ + " "@ + author@,
        Media::Movie { title, director } => "Movie: "@ + title@ + " "@ + director@,
        Media::Audiobook { title } => "Audiobook: "@ + title@,
        Media::Podcast(id) => "Podcast: "@ + digits(id as nat),
        Media::Placeholder => "Placeholder"@,
    }
}

impl Media {
    /// `"Book: {title} {author}"`, `"Movie: {title} {director}"`,
    /// `"Audiobook: {title}"`, `"Podcast: {id}"` or `"Placeholder"`.
    pub fn description(&self) -> (r: String)
        ensures
            r@ == description_of(*self),
    {
        let mut s = String::new();
        match self {
            Media::Book { title, author } => {
                s.append("Book: ");
                s.append(title.as_str());
                s.append(" ");
                s.append(author.as_str());
                proof {
                    reveal_strlit("Book: ");
                    reveal_strlit(" ");
                }
            },
            Media::Movie { title, director } => {
                s.append("Movie: ");
                s.append(title.as_str());
                s.append(" ");
                s.append(director.as_str());
                proof {
                    reveal_strlit("Movie: ");
                    reveal_strlit(" ");
                }
            },
            Media::Audiobook { title } => {
                s.append("Audiobook: ");
                s.append(title.as_str());
                proof {
                    reveal_strlit("Audiobook: ");
                }
            },
            Media::Podcast(id) => {
                s.append("Podcast: ");
                push_digits(&mut s, *id);
                proof {
                    reveal_strlit("Podcast: ");
                }
            },
            Media::Placeholder => {
                s.append("Placeholder");
                proof {
                    reveal_strlit("Placeholder");
                }
            },
        }
        assert(s@ =~= description_of(*self));
        s
    }
}

/// A catalog: media items in the order they were added.
#[derive(Debug)]
pub struct Catalog {
    items: Vec<Media>,
}

impl View for Catalog {
    type V = Seq<Media>;

    closed spec fn view(&self) -> Seq<Media> {
        self.items@
    }
}

/// The outcome of looking up an index: the item there, or none.
pub enum MightHaveAValue<'a> {
    ThereIsAValue(&'a Media),
    NoValueAvailable,
}

/// Adding an item keeps every earlier item at its index and puts the new
/// one last.
pub proof fn lemma_add_keeps_order(items: Seq<Media>, media: Media)
    ensures
        items.push(media).len() == items.len() + 1,
        items.push(media)[items.len() as int] == media,
        forall|i: int| 0 <= i < items.len() ==> #[trigger] items.push(media)[i] == items[i],
{
}

impl Catalog {
    /// A catalog with no items.
    pub fn new() -> (r: Catalog)
        ensures
            r@ == Seq::<Media>::empty(),
    {
        Catalog { items: Vec::new() }
    }

    /// Appends `media`; the items already there keep their places.
    pub fn add(&mut self, media: Media)
        ensures
            final(self)@ == old(self)@.push(media),
    {
        self.items.push(media);
    }

    /// The item at `index`, or `NoValueAvailable` past the end.
    pub fn get_by_index(&self, index: usize) -> (r: MightHaveAValue<'_>)
        ensures
            index < self@.len() ==> r == MightHaveAValue::ThereIsAValue(&self@[index as int]),
            index >= self@.len() ==> r is NoValueAvailable,
    {
        if self.items.len() > index {
            MightHaveAValue::ThereIsAValue(&self.items[index])
        } else {
            MightHaveAValue::NoValueAvailable
        }
    }

    /// The item at `index`, or `None` past the end.
    pub fn get_by_index2(&self, index: usize) -> (r: Option<&Media>)
        ensures
            index < self@.len() ==> r == Some(&self@[index as int]),
            index >= self@.len() ==> r is None,
    {
        if self.items.len() > index {
            Some(&self.items[index])
        } else {
            None
        }
    }
}

} // verus!
