use stellar_merch_shop::errors::NonFungibleTokenError;

const ALL: [(NonFungibleTokenError, u32); 9] = [
    (NonFungibleTokenError::NonExistentToken, 200),
    (NonFungibleTokenError::IncorrectOwner, 201),
    (NonFungibleTokenError::MathOverflow, 205),
    (NonFungibleTokenError::TokenIDsAreDepleted, 206),
    (NonFungibleTokenError::InvalidAmount, 207),
    (NonFungibleTokenError::TokenAlreadyMinted, 210),
    (NonFungibleTokenError::BaseUriMaxLenExceeded, 211),
    (NonFungibleTokenError::InvalidRoyaltyAmount, 212),
    (NonFungibleTokenError::InvalidSignature, 214),
];

#[test]
fn error_codes_are_the_reported_numbers() {
    for (error, code) in ALL {
        assert_eq!(error.code(), code);
    }
}

#[test]
fn codes_convert_back_to_their_errors() {
    for (error, code) in ALL {
        assert_eq!(NonFungibleTokenError::from_code(code), Some(error));
    }
}

#[test]
fn other_numbers_are_no_error_codes() {
    for code in [0u32, 1, 199, 202, 203, 204, 208, 209, 213, 215, u32::MAX] {
        assert_eq!(NonFungibleTokenError::from_code(code), None);
    }
}

#[test]
fn errors_are_ordered_by_their_codes() {
    for (first, first_code) in ALL {
        for (second, second_code) in ALL {
            assert_eq!(first.cmp(&second), first_code.cmp(&second_code));
            assert_eq!(first == second, first_code == second_code);
        }
    }
}
