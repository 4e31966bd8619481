use px_mpc_module::{decimal_text, parse_signing_parties, PartiesError};

#[test]
fn two_parties() {
    assert_eq!(parse_signing_parties("1,2"), Ok(vec![1, 2]));
}

#[test]
fn first_two_of_three() {
    assert_eq!(parse_signing_parties("3,1,2"), Ok(vec![3, 1]));
}

#[test]
fn plus_sign_and_leading_zeros() {
    assert_eq!(parse_signing_parties("+7,0008"), Ok(vec![7, 8]));
}

#[test]
fn largest_party_number() {
    assert_eq!(parse_signing_parties("65535,0"), Ok(vec![65535, 0]));
}

#[test]
fn too_few_parties() {
    assert_eq!(parse_signing_parties("1"), Err(PartiesError::TooFewParties));
}

#[test]
fn empty_list_is_invalid() {
    assert_eq!(parse_signing_parties(""), Err(PartiesError::InvalidParty));
}

#[test]
fn invalid_pieces() {
    assert_eq!(parse_signing_parties("1,x"), Err(PartiesError::InvalidParty));
    assert_eq!(parse_signing_parties("1,2,"), Err(PartiesError::InvalidParty));
    assert_eq!(parse_signing_parties("65536,1"), Err(PartiesError::InvalidParty));
    assert_eq!(parse_signing_parties("-1,2"), Err(PartiesError::InvalidParty));
    assert_eq!(parse_signing_parties(" 1,2"), Err(PartiesError::InvalidParty));
    assert_eq!(parse_signing_parties("+,2"), Err(PartiesError::InvalidParty));
    assert_eq!(parse_signing_parties("1,,2"), Err(PartiesError::InvalidParty));
}

#[test]
fn invalid_piece_wins_over_too_few() {
    assert_eq!(parse_signing_parties("x"), Err(PartiesError::InvalidParty));
}

#[test]
fn matches_std_parsing() {
    for text in ["1,2", "0,65535", "+1,+2", "99999,1", "1 ,2", "1,2,3", "7"] {
        let expected: Result<Vec<u16>, PartiesError> =
            match text.split(',').map(|p| p.parse::<u16>()).collect::<Result<Vec<u16>, _>>() {
                Err(_) => Err(PartiesError::InvalidParty),
                Ok(list) if list.len() < 2 => Err(PartiesError::TooFewParties),
                Ok(list) => Ok(vec![list[0], list[1]]),
            };
        assert_eq!(parse_signing_parties(text), expected, "{}", text);
    }
}

#[test]
fn decimal_round_trip() {
    for (a, b) in [(0u16, 1u16), (1, 2), (65535, 12), (100, 100)] {
        let text = format!("{},{}", decimal_text(a as u64), decimal_text(b as u64));
        assert_eq!(parse_signing_parties(&text), Ok(vec![a, b]));
    }
}

#[test]
fn later_pieces_are_ignored() {
    assert_eq!(parse_signing_parties("4,9,1,2,3"), parse_signing_parties("4,9"));
    assert_eq!(parse_signing_parties("4,9,65535"), Ok(vec![4, 9]));
    assert_eq!(parse_signing_parties("4,9,bad"), Err(PartiesError::InvalidParty));
}
