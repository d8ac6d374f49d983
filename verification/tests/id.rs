use tag::id::Id;

#[test]
fn ids_wrap_indices_and_reject_unrepresentable_ones() {
    let id = Id::from_u32(5);
    assert_eq!(5, id.as_u32());
    assert_eq!(5, id.as_usize());

    let converted = Id::try_from_usize(7).expect("a small index must convert");
    assert_eq!(Id(7), converted);
    assert_eq!(
        Id(u32::MAX),
        Id::try_from_usize(u32::MAX as usize).expect("the largest index must convert")
    );
    assert!(Id::try_from_usize((u32::MAX as usize) + 1).is_err());
}

#[test]
fn ids_compare_by_their_index() {
    assert_eq!(Id(3), Id(3));
    assert_ne!(Id(3), Id(4));
}
