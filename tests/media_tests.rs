use fundamentals::media::{Catalog, Media, MightHaveAValue};

fn sample_catalog() -> Catalog {
    let mut catalog = Catalog::new();
    catalog.add(Media::Audiobook { title: String::from("An Audiobook") });
    catalog.add(Media::Movie {
        title: String::from("Good Movie"),
        director: String::from("Good Director"),
    });
    catalog.add(Media::Book { title: String::from("Bad Book"), author: String::from("Bad Author") });
    catalog.add(Media::Podcast(10));
    catalog.add(Media::Placeholder);
    catalog
}

#[test]
fn catalog_variants() {
    let catalog = sample_catalog();
    match catalog.get_by_index(3) {
        MightHaveAValue::ThereIsAValue(m) => assert_eq!(m.description(), "Podcast: 10"),
        MightHaveAValue::NoValueAvailable => panic!("expected an item"),
    }
    assert_eq!(catalog.get_by_index2(4).unwrap().description(), "Placeholder");
}

#[test]
fn absent_index() {
    let catalog = sample_catalog();
    assert!(matches!(catalog.get_by_index(100), MightHaveAValue::NoValueAvailable));
    assert!(catalog.get_by_index2(9999).is_none());
    assert!(matches!(catalog.get_by_index(5), MightHaveAValue::NoValueAvailable));
    assert!(catalog.get_by_index2(5).is_none());
}

#[test]
fn empty_catalog() {
    let catalog = Catalog::new();
    assert!(matches!(catalog.get_by_index(0), MightHaveAValue::NoValueAvailable));
    assert!(catalog.get_by_index2(0).is_none());
}

#[test]
fn descriptions_of_every_variant() {
    let catalog = sample_catalog();
    let got: Vec<String> = (0..5).map(|i| catalog.get_by_index2(i).unwrap().description()).collect();
    assert_eq!(
        got,
        vec![
            "Audiobook: An Audiobook",
            "Movie: Good Movie Good Director",
            "Book: Bad Book Bad Author",
            "Podcast: 10",
            "Placeholder",
        ]
    );
}

#[test]
fn podcast_ids_render_in_decimal() {
    assert_eq!(Media::Podcast(0).description(), "Podcast: 0");
    assert_eq!(Media::Podcast(4294967295).description(), "Podcast: 4294967295");
}

#[test]
fn add_keeps_earlier_items() {
    let mut catalog = sample_catalog();
    catalog.add(Media::Podcast(99));
    assert_eq!(catalog.get_by_index2(0).unwrap().description(), "Audiobook: An Audiobook");
    assert_eq!(catalog.get_by_index2(3).unwrap().description(), "Podcast: 10");
    assert_eq!(catalog.get_by_index2(5).unwrap().description(), "Podcast: 99");
    assert!(catalog.get_by_index2(6).is_none());
}
