use xcq::runner::{prepare_input_data, ExtensionFungiblesFunctions, ExtensionsImpl};

#[test]
fn fungibles_calls_encode_index_then_arguments() {
    assert_eq!(ExtensionFungiblesFunctions::total_supply { asset: 7 }.encode(), vec![0, 7, 0, 0, 0]);
    let mut expected = vec![1, 0x01, 0x02, 0, 0];
    expected.extend_from_slice(&[5u8; 32]);
    assert_eq!(ExtensionFungiblesFunctions::balance { asset: 0x201, who: [5u8; 32] }.encode(), expected);
}

#[test]
fn extensions_impl_answers() {
    assert!(ExtensionsImpl::has_extension(0));
    assert!(ExtensionsImpl::has_extension(1));
    assert!(!ExtensionsImpl::has_extension(2));
    assert_eq!(ExtensionsImpl::total_supply(3), 100);
    assert_eq!(ExtensionsImpl::balance(3, [0u8; 32]), 100);
}

#[test]
fn input_for_sum_balance() {
    let mut expected = vec![0, 0, 0, 0, 8];
    expected.extend_from_slice(&[0u8; 32]);
    expected.extend_from_slice(&[1u8; 32]);
    assert_eq!(prepare_input_data("output/poc-guest-sum-balance.polkavm"), expected);
    assert_eq!(prepare_input_data("output/poc-guest-sum-balance-percent.polkavm"), expected);
}

#[test]
fn input_for_total_supply() {
    assert_eq!(prepare_input_data("output/poc-guest-total-supply.polkavm"), vec![0, 0, 0, 0]);
}

#[test]
fn input_for_transparent_call() {
    let mut expected = 4071833530116166512u64.to_le_bytes().to_vec();
    expected.extend_from_slice(&[1, 0, 0, 0, 0]);
    expected.extend_from_slice(&[1u8; 32]);
    assert_eq!(prepare_input_data("output/poc-guest-transparent-call.polkavm"), expected);
}

#[test]
fn no_input_for_other_programs() {
    assert_eq!(prepare_input_data("output/poc-guest-other.polkavm"), Vec::<u8>::new());
    assert_eq!(prepare_input_data(""), Vec::<u8>::new());
}
