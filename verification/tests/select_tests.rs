use atosl::error::Error;
use atosl::select::{select, select_slice, Container, SelectionFilter, Slice};
use atosl::uuid::Uuid;

fn id(last: u8) -> Uuid {
    let mut bytes = [0x11u8; 16];
    bytes[15] = last;
    Uuid { bytes }
}

fn slice(architecture: &str, identifier: Option<Uuid>, offset: u64) -> Slice {
    Slice { architecture: architecture.to_string(), identifier, offset, size: 0x100 }
}

fn by_architecture(name: &str) -> SelectionFilter {
    SelectionFilter { architecture: Some(name.to_string()), identifier: None }
}

fn by_identifier(identifier: Uuid) -> SelectionFilter {
    SelectionFilter { architecture: None, identifier: Some(identifier) }
}

fn two_slices() -> Vec<Slice> {
    vec![slice("arm64", Some(id(1)), 0x1000), slice("x86_64", Some(id(2)), 0x2000)]
}

#[test]
fn single_image_without_filter_is_chosen() {
    let container = Container::Single(slice("arm64", None, 0));
    assert_eq!(select(&container, &SelectionFilter::none()).unwrap(), 0);
    let container = Container::Single(slice("", None, 0));
    assert_eq!(select(&container, &SelectionFilter::none()).unwrap(), 0);
}

#[test]
fn single_image_that_meets_the_filter_is_chosen() {
    let container = Container::Single(slice("arm64", Some(id(1)), 0));
    assert_eq!(select(&container, &by_architecture("aarch64")).unwrap(), 0);
    assert_eq!(select(&container, &by_identifier(id(1))).unwrap(), 0);
}

#[test]
fn single_image_that_contradicts_the_filter_is_a_mismatch() {
    let container = Container::Single(slice("arm64", Some(id(1)), 0));
    match select(&container, &by_architecture("x86_64")) {
        Err(Error::FilterMismatch(found)) => assert_eq!(found, slice("arm64", Some(id(1)), 0)),
        other => panic!("{:?}", other),
    }
    match select(&container, &by_identifier(id(9))) {
        Err(Error::FilterMismatch(found)) => assert_eq!(found.identifier, Some(id(1))),
        other => panic!("{:?}", other),
    }
}

#[test]
fn single_image_without_identifier_does_not_meet_an_identifier() {
    let container = Container::Single(slice("arm64", None, 0));
    assert!(matches!(select(&container, &by_identifier(id(1))), Err(Error::FilterMismatch(_))));
}

#[test]
fn one_slice_without_filter_is_chosen() {
    let container = Container::Fat(vec![slice("x86_64", None, 0x1000)]);
    assert_eq!(select(&container, &SelectionFilter::none()).unwrap(), 0);
}

#[test]
fn several_slices_without_filter_are_ambiguous() {
    for n in 2..6u64 {
        let slices: Vec<Slice> = (0..n).map(|i| slice("arm64", None, i * 0x1000)).collect();
        match select_slice(&slices, &SelectionFilter::none()) {
            Err(Error::SelectionAmbiguous(listed)) => assert_eq!(listed, slices),
            other => panic!("{:?}", other),
        }
    }
}

#[test]
fn no_slice_at_all_is_no_match() {
    match select_slice(&Vec::new(), &SelectionFilter::none()) {
        Err(Error::SelectionNoMatch(listed)) => assert!(listed.is_empty()),
        other => panic!("{:?}", other),
    }
}

#[test]
fn alias_selects_the_arm64_slice() {
    let container = Container::Fat(two_slices());
    assert_eq!(select(&container, &by_architecture("aarch64")).unwrap(), 0);
    assert_eq!(select(&container, &by_architecture("amd64")).unwrap(), 1);
    assert_eq!(select(&container, &by_architecture("X86-64")).unwrap(), 1);
}

#[test]
fn identifier_selects_its_slice() {
    assert_eq!(select_slice(&two_slices(), &by_identifier(id(2))).unwrap(), 1);
    assert_eq!(select_slice(&two_slices(), &by_identifier(id(1))).unwrap(), 0);
}

#[test]
fn both_constraints_must_hold() {
    let both = SelectionFilter { architecture: Some("arm64".to_string()), identifier: Some(id(1)) };
    assert_eq!(select_slice(&two_slices(), &both).unwrap(), 0);
    let crossed = SelectionFilter { architecture: Some("arm64".to_string()), identifier: Some(id(2)) };
    match select_slice(&two_slices(), &crossed) {
        Err(Error::SelectionNoMatch(listed)) => assert_eq!(listed, two_slices()),
        other => panic!("{:?}", other),
    }
}

#[test]
fn filter_that_excludes_all_lists_every_slice() {
    match select_slice(&two_slices(), &by_architecture("i386")) {
        Err(Error::SelectionNoMatch(listed)) => assert_eq!(listed, two_slices()),
        other => panic!("{:?}", other),
    }
}

#[test]
fn filter_that_admits_several_lists_the_admitted() {
    let slices = vec![
        slice("arm64", Some(id(1)), 0x1000),
        slice("x86_64", Some(id(2)), 0x2000),
        slice("arm64", Some(id(3)), 0x3000),
        slice("arm64e", Some(id(4)), 0x4000),
    ];
    match select_slice(&slices, &by_architecture("arm64")) {
        Err(Error::SelectionAmbiguous(listed)) => {
            assert_eq!(listed, vec![slice("arm64", Some(id(1)), 0x1000), slice("arm64", Some(id(3)), 0x3000)]);
        }
        other => panic!("{:?}", other),
    }
    assert_eq!(select_slice(&slices, &by_architecture("arm64e")).unwrap(), 3);
}

#[test]
fn arm64_filter_does_not_choose_arm64e() {
    let slices = vec![slice("arm64e", None, 0x1000), slice("x86_64", None, 0x2000)];
    assert!(matches!(select_slice(&slices, &by_architecture("arm64")), Err(Error::SelectionNoMatch(_))));
}

#[test]
fn ambiguous_error_text_lists_both_slices() {
    let text = select_slice(&two_slices(), &SelectionFilter::none()).unwrap_err().message();
    assert_eq!(
        text,
        "more than one slice matches; choose one by architecture or identifier:\n  arm64 11111111-1111-1111-1111-111111111101\n  x86_64 11111111-1111-1111-1111-111111111102"
    );
}

#[test]
fn no_match_error_text_lists_all_slices() {
    let slices = vec![slice("arm64", None, 0x1000), slice("x86_64", Some(id(2)), 0x2000)];
    let text = select_slice(&slices, &by_architecture("i386")).unwrap_err().message();
    assert_eq!(
        text,
        "no slice matches; the file holds:\n  arm64 -\n  x86_64 11111111-1111-1111-1111-111111111102"
    );
}

#[test]
fn mismatch_error_text_names_the_image() {
    let container = Container::Single(slice("arm64", None, 0));
    let text = select(&container, &by_architecture("x86_64")).unwrap_err().message();
    assert_eq!(text, "the image does not match; the file holds:\n  arm64 -");
}

#[test]
fn accepts_follows_the_filter() {
    let s = slice("arm64", Some(id(1)), 0);
    assert!(SelectionFilter::none().accepts(&s));
    assert!(by_architecture("AARCH64").accepts(&s));
    assert!(!by_architecture("arm64e").accepts(&s));
    assert!(by_identifier(id(1)).accepts(&s));
    assert!(!by_identifier(id(2)).accepts(&s));
}
