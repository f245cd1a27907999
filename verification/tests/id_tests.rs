use getopt_rs::id::{DefaultIdGen, IdGenerator, Identifier};

#[test]
fn test_id_generate() {
    let mut gen = DefaultIdGen::new(Identifier::new(1));

    assert_eq!(gen.next_id(), Identifier::new(1));
    assert_eq!(gen.next_id(), Identifier::new(2));
    assert_eq!(gen.next_id(), Identifier::new(3));

    let mut id = gen.next_id();

    assert_eq!(id.get(), 4);
    assert_eq!(id.inc().get(), 5);
}

#[test]
fn identifiers_add() {
    assert_eq!(Identifier::new(3) + Identifier::new(4), Identifier::new(7));
    assert_eq!(Identifier::new(7) + 5u64, Identifier::new(12));
}
