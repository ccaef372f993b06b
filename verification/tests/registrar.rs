use msrf::ext::{Source, SourceRegistrar};

const ROOT_A: &str = "msrf-ext";
const ROOT_B: &str = "arbitrary-ext";
const SOURCE_A: &str = "pxls-space-ext";
const SOURCE_B: &str = "canvas-ext";
const SOURCE_C: &str = "r-place-ext";

#[test]
fn source_registrar_register() {
    let mut registrar = SourceRegistrar::new();

    // Register SOURCE_A & SOURCE_B
    assert_eq!(registrar.register(SOURCE_A, 123), Ok(1));
    assert_eq!(registrar.register(SOURCE_B, 324), Ok(2));
    assert_eq!(registrar.get_by_id(1), Some(&Source::new(SOURCE_A, 123)));
    assert_eq!(registrar.get_by_id(2), Some(&Source::new(SOURCE_B, 324)));

    // Register SOURCE_C after removing SOURCE_A
    assert_eq!(registrar.remove_by_id(1), Some(Source::new(SOURCE_A, 123)));
    assert_eq!(registrar.register(SOURCE_C, 0), Ok(1));
    assert_eq!(registrar.get_by_id(1), Some(&Source::new(SOURCE_C, 0)));
    assert_eq!(registrar.get_by_id(2), Some(&Source::new(SOURCE_B, 324)));
}

#[test]
fn source_registrar_iter() {
    let mut registrar = SourceRegistrar::new();

    assert_eq!(registrar.register_root(ROOT_A, 567), None);
    assert_eq!(registrar.register(SOURCE_A, 123), Ok(1));
    assert_eq!(registrar.register(SOURCE_B, 324), Ok(2));
    assert_eq!(registrar.register(SOURCE_C, 0), Ok(3));

    {
        let mut iter = registrar.sources().into_iter();
        assert_eq!(iter.next(), Some((0, ROOT_A, 567)));
        assert_eq!(iter.next(), Some((1, SOURCE_A, 123)));
        assert_eq!(iter.next(), Some((2, SOURCE_B, 324)));
        assert_eq!(iter.next(), Some((3, SOURCE_C, 0)));
        assert_eq!(iter.next(), None);
    }

    assert_eq!(registrar.remove_by_id(1), Some(Source::new(SOURCE_A, 123)));
    assert_eq!(registrar.remove_by_source(SOURCE_B), Some(2));

    {
        let mut iter = registrar.sources().into_iter();
        assert_eq!(iter.next(), Some((0, ROOT_A, 567)));
        assert_eq!(iter.next(), Some((3, SOURCE_C, 0)));
        assert_eq!(iter.next(), None);
    }
}

#[test]
fn source_registrar_register_root() {
    let mut registrar = SourceRegistrar::new();

    // Register ROOT_A
    assert_eq!(registrar.register_root(ROOT_A, 567), None);
    assert_eq!(registrar.register_root(ROOT_B, 890), Some(ROOT_A));
    assert_eq!(registrar.get_by_id(0), Some(&Source::new(ROOT_A, 567)));

    // Register ROOT_B by removing ROOT_A by ID
    assert_eq!(registrar.remove_by_id(0), Some(Source::new(ROOT_A, 567)));
    assert_eq!(registrar.register_root(ROOT_B, 890), None);
    assert_eq!(registrar.get_by_id(0), Some(&Source::new(ROOT_B, 890)));

    // Register ROOT_A by removing ROOT_B by Source
    assert_eq!(registrar.remove_by_source(ROOT_B), Some(0));
    assert_eq!(registrar.register_root(ROOT_A, 567), None);
    assert_eq!(registrar.get_by_id(0), Some(&Source::new(ROOT_A, 567)));
}

#[test]
fn source_registrar_id_selection() {
    let mut registrar = SourceRegistrar::new();

    // Check ordinary sequential ID
    assert_eq!(registrar.next_free_id(), 1);
    assert_eq!(registrar.register(ROOT_A, 567), Ok(1));
    assert_eq!(registrar.next_free_id(), 2);
    assert_eq!(registrar.register(ROOT_B, 890), Ok(2));
    assert_eq!(registrar.next_free_id(), 3);

    // Check removal logic
    assert_eq!(registrar.remove_by_source(ROOT_B), Some(2));
    assert_eq!(registrar.next_free_id(), 2);
    // a source comes back with the version that it was registered with
    let removed = registrar.remove_by_id(1);
    assert_eq!(removed, Some(Source::new(ROOT_A, 567)));
    assert_ne!(removed, Some(Source::new(ROOT_A, 576)));
    assert_eq!(registrar.next_free_id(), 1);
}

#[test]
fn registrar_next_id_follows_registrations_and_removals() {
    let mut registrar = SourceRegistrar::new();

    // ordinary sequential ids
    assert_eq!(registrar.next_free_id(), 1);
    assert_eq!(registrar.register(ROOT_A, 567), Ok(1));
    assert_eq!(registrar.next_free_id(), 2);
    assert_eq!(registrar.register(ROOT_B, 890), Ok(2));
    assert_eq!(registrar.next_free_id(), 3);

    // removals lower the next id to the freed one
    assert_eq!(registrar.remove_by_source(ROOT_B), Some(2));
    assert_eq!(registrar.next_free_id(), 2);
    assert_eq!(registrar.remove_by_id(1), Some(Source::new(ROOT_A, 567)));
    assert_eq!(registrar.next_free_id(), 1);

    // removing what is not there changes nothing
    assert_eq!(registrar.remove_by_id(1), None);
    assert_eq!(registrar.remove_by_source(ROOT_A), None);
    assert_eq!(registrar.next_free_id(), 1);
}

#[test]
fn registrar_id_reuse() {
    let mut registrar = SourceRegistrar::new();
    assert_eq!(registrar.register("a", 1), Ok(1));
    assert_eq!(registrar.register("b", 2), Ok(2));
    assert_eq!(registrar.remove_by_id(1), Some(Source::new("a", 1)));
    assert_eq!(registrar.register("c", 3), Ok(1));
    assert_eq!(registrar.get_by_id(1), Some(&Source::new("c", 3)));
    assert_eq!(registrar.get_by_id(2), Some(&Source::new("b", 2)));
}

#[test]
fn registrar_register_then_remove_restores_lookup() {
    let mut registrar = SourceRegistrar::new();
    assert_eq!(registrar.register("keep", 1), Ok(1));
    assert_eq!(registrar.get_by_source("n"), None);
    assert_eq!(registrar.register("n", 7), Ok(2));
    assert_eq!(registrar.get_by_source("n"), Some(2));
    assert_eq!(registrar.remove_by_source("n"), Some(2));
    assert_eq!(registrar.get_by_source("n"), None);
    assert_eq!(registrar.next_free_id(), 2);
    assert_eq!(registrar.sources(), vec![(1, "keep", 1)]);
}

#[test]
fn registrar_register_gives_the_id_of_a_known_name() {
    let mut registrar = SourceRegistrar::new();
    assert_eq!(registrar.register("a", 1), Ok(1));
    assert_eq!(registrar.register("a", 9), Err(1));
    assert_eq!(registrar.get_by_id(1), Some(&Source::new("a", 1)));
    assert_eq!(registrar.next_free_id(), 2);
    // names are case-sensitive
    assert_eq!(registrar.register("A", 1), Ok(2));
    assert_eq!(registrar.register_root("root", 0), None);
    assert_eq!(registrar.register("root", 3), Err(0));
}

#[test]
fn registrar_skips_ids_that_are_taken() {
    let mut registrar = SourceRegistrar::new();
    assert_eq!(registrar.register_existing(2, "two", 0), None);
    assert_eq!(registrar.register_existing(3, "three", 0), None);
    assert_eq!(registrar.next_free_id(), 1);
    assert_eq!(registrar.register("one", 0), Ok(1));
    // ids 2 and 3 are taken: the scan stops at the first gap
    assert_eq!(registrar.next_free_id(), 4);
    assert_eq!(registrar.register_existing(4, "four", 0), None);
    assert_eq!(registrar.next_free_id(), 5);
    assert_eq!(registrar.register_existing(6, "six", 0), None);
    assert_eq!(registrar.register("five", 0), Ok(5));
    assert_eq!(registrar.register("seven", 0), Ok(7));
}

#[test]
fn registrar_register_existing_refuses_what_is_taken() {
    let mut registrar = SourceRegistrar::new();
    assert_eq!(registrar.register("a", 1), Ok(1));
    // the id is taken: the name of its source comes back
    assert_eq!(registrar.register_existing(1, "b", 2), Some("a"));
    assert_eq!(registrar.get_by_id(1), Some(&Source::new("a", 1)));
    assert_eq!(registrar.get_by_source("b"), None);
    // the name is taken by another source: no two sources share a name
    assert_eq!(registrar.register_existing(9, "a", 2), Some("a"));
    assert_eq!(registrar.get_by_id(9), None);
    assert_eq!(registrar.register_root("a", 2), Some("a"));
    assert_eq!(registrar.get_by_id(0), None);
    assert_eq!(registrar.sources(), vec![(1, "a", 1)]);
}

#[test]
fn registrar_sources_are_in_ascending_order_of_id() {
    let mut registrar = SourceRegistrar::default();
    assert_eq!(registrar.register_existing(500, "far", 5), None);
    assert_eq!(registrar.register_existing(65535, "last", 6), None);
    assert_eq!(registrar.register("near", 1), Ok(1));
    assert_eq!(registrar.register_root("root", 0), None);
    assert_eq!(
        registrar.sources(),
        vec![(0, "root", 0), (1, "near", 1), (500, "far", 5), (65535, "last", 6)]
    );
    let near = registrar.get_by_id(1).unwrap();
    assert_eq!(near.name(), "near");
    assert_eq!(near.version(), 1);
}

#[test]
fn registrar_try_register_is_register_while_ids_are_free() {
    let mut registrar = SourceRegistrar::new();
    assert!(!registrar.is_exhausted());
    assert_eq!(registrar.try_register("a", 1), Some(Ok(1)));
    assert_eq!(registrar.try_register("a", 2), Some(Err(1)));
    assert_eq!(registrar.try_register("b", 2), Some(Ok(2)));
    assert_eq!(registrar.sources(), vec![(1, "a", 1), (2, "b", 2)]);
}
