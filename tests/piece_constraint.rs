use sa2_piece_gen::piece_constraint::PieceConstraint;

#[test]
fn parses_grabbed_wanted_and_any() {
    assert_eq!(PieceConstraint::from_str("G0A03").unwrap(), PieceConstraint::GrabbedId(0x0A03));
    assert_eq!(PieceConstraint::from_str("X").unwrap(), PieceConstraint::DontCare);
    assert_eq!(PieceConstraint::from_str("0a03").unwrap(), PieceConstraint::Want(0x0A03));
    assert_eq!(PieceConstraint::from_str("+1F").unwrap(), PieceConstraint::Want(0x1F));
    assert_eq!(PieceConstraint::from_str("FFFF").unwrap(), PieceConstraint::Want(0xFFFF));
}

#[test]
fn refuses_bad_ids() {
    assert!(PieceConstraint::from_str("").is_err());
    assert!(PieceConstraint::from_str("G").is_err());
    assert!(PieceConstraint::from_str("XX").is_err());
    assert!(PieceConstraint::from_str("10000").is_err());
    assert!(PieceConstraint::from_str("-1").is_err());
    assert!(PieceConstraint::from_str("g0A03").is_err());
}
