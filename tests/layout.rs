use externref::ExternRef;

#[test]
fn same_alignment() {
    assert_eq!(
        core::mem::align_of::<ExternRef>(),
        core::mem::align_of::<usize>()
    )
}

#[test]
fn same_layout() {
    assert_eq!(
        core::mem::align_of::<ExternRef>(),
        core::mem::align_of::<usize>()
    )
}

#[test]
fn same_size() {
    assert_eq!(
        core::mem::size_of::<ExternRef>(),
        core::mem::size_of::<usize>()
    )
}

#[test]
fn null_reference_is_null() {
    assert!(ExternRef::null().is_null());
    assert!(!ExternRef::from_usize(7).is_null());
}

#[test]
fn raw_word_round_trips() {
    let r = ExternRef::from_usize(42);
    assert_eq!(usize::from(r), 42);
    assert_eq!(usize::from(ExternRef::null()), 0);
}
