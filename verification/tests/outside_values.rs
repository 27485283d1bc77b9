use rebalancer::address::read_record;
use rebalancer::balance::{
    balance_request, read_answer, RequestError, ACCEPTED_TYPE, BALANCE_PATH, BEARER,
};
use rebalancer::body::read_balance;
use rebalancer::bytecode::{deployment_code, HexError};
use rebalancer::control::{BalanceFetchError, PersistedRecord};
use rebalancer::model::{BalanceReading, ContractAddress};

const VITALIK: [u8; 20] = [
    0xd8, 0xda, 0x6b, 0xf2, 0x69, 0x64, 0xaf, 0x9d, 0x7e, 0xed, 0x9e, 0x03, 0xe5, 0x34, 0x15, 0xd3,
    0x7a, 0xa9, 0x60, 0x45,
];

#[test]
fn deployment_code_is_decoded_from_hex() {
    assert_eq!(deployment_code(b"6080604052"), Ok(vec![0x60, 0x80, 0x60, 0x40, 0x52]));
    assert_eq!(deployment_code(b"0x6080604052"), Ok(vec![0x60, 0x80, 0x60, 0x40, 0x52]));
    assert_eq!(deployment_code(b"0XdeadBEEF"), Ok(vec![0xde, 0xad, 0xbe, 0xef]));
    assert_eq!(deployment_code(b"00ff"), Ok(vec![0x00, 0xff]));
    assert_eq!(deployment_code(b""), Ok(vec![]));
    assert_eq!(deployment_code(b"0x"), Ok(vec![]));
}

#[test]
fn deployment_code_of_odd_length_is_refused() {
    assert_eq!(deployment_code(b"123"), Err(HexError::OddLength));
    assert_eq!(deployment_code(b"0x1"), Err(HexError::OddLength));
    assert_eq!(deployment_code(b"6080\n"), Err(HexError::OddLength));
}

#[test]
fn deployment_code_names_the_first_bad_character() {
    assert_eq!(
        deployment_code(b"60zz"),
        Err(HexError::InvalidCharacter { character: 'z', index: 2 })
    );
    assert_eq!(
        deployment_code(b"0x60g0"),
        Err(HexError::InvalidCharacter { character: 'g', index: 2 })
    );
    assert_eq!(
        deployment_code(b"x0"),
        Err(HexError::InvalidCharacter { character: 'x', index: 0 })
    );
    assert_eq!(
        deployment_code(b"0x0x"),
        Err(HexError::InvalidCharacter { character: 'x', index: 1 })
    );
    assert_eq!(
        deployment_code(b"60 80\n"),
        Err(HexError::InvalidCharacter { character: ' ', index: 2 })
    );
}

#[test]
fn address_is_written_with_its_checksum() {
    let address = ContractAddress { bytes: VITALIK };
    assert_eq!(address.to_text(), "0xd8dA6BF26964aF9D7eEd9e03E53415D37aA96045");
    let zero = ContractAddress { bytes: [0; 20] };
    assert_eq!(zero.to_text(), "0x0000000000000000000000000000000000000000");
}

#[test]
fn address_is_found_again_from_its_text() {
    let address = ContractAddress { bytes: VITALIK };
    assert_eq!(ContractAddress::from_text(&address.to_text()), Some(address));
    assert_eq!(
        ContractAddress::from_text("0xd8dA6BF26964aF9D7eEd9e03E53415D37aA96045"),
        Some(address)
    );
    for tag in [0u8, 1, 0x7f, 0xab, 0xff] {
        let address = ContractAddress { bytes: [tag; 20] };
        assert_eq!(ContractAddress::from_text(&address.to_text()), Some(address));
    }
}

#[test]
fn text_that_is_no_stored_address_is_refused() {
    assert_eq!(ContractAddress::from_text(""), None);
    assert_eq!(ContractAddress::from_text("0x"), None);
    assert_eq!(ContractAddress::from_text("d8dA6BF26964aF9D7eEd9e03E53415D37aA96045"), None);
    assert_eq!(ContractAddress::from_text("0xd8da6bf26964af9d7eed9e03e53415d37aa96045"), None);
    assert_eq!(ContractAddress::from_text("0xD8DA6BF26964AF9D7EED9E03E53415D37AA96045"), None);
    assert_eq!(ContractAddress::from_text("0xd8dA6BF26964aF9D7eEd9e03E53415D37aA96045\n"), None);
    assert_eq!(ContractAddress::from_text("0xd8dA6BF26964aF9D7eEd9e03E53415D37aA960"), None);
    assert_eq!(ContractAddress::from_text("0xg8dA6BF26964aF9D7eEd9e03E53415D37aA96045"), None);
}

#[test]
fn stored_record_is_absent_found_or_unreadable() {
    let address = ContractAddress { bytes: VITALIK };
    assert_eq!(read_record(None), PersistedRecord::Absent);
    assert_eq!(
        read_record(Some("0xd8dA6BF26964aF9D7eEd9e03E53415D37aA96045")),
        PersistedRecord::Found { address }
    );
    assert_eq!(read_record(Some(&address.to_text())), PersistedRecord::Found { address });
    assert_eq!(read_record(Some("")), PersistedRecord::Unreadable);
    assert_eq!(read_record(Some("not an address")), PersistedRecord::Unreadable);
}

#[test]
fn request_carries_the_token_as_bearer() {
    let request = balance_request("s3cr3t-token").unwrap();
    assert_eq!(request.authorization.as_bytes(), b"Bearer s3cr3t-token");
    assert_eq!(request.accept.as_bytes(), b"application/json");
    assert_eq!(BALANCE_PATH, "/api/v1/account-balances");
    assert_eq!(ACCEPTED_TYPE, "application/json");
    assert_eq!(BEARER, "Bearer ");
}

#[test]
fn request_takes_tabs_and_characters_beyond_ascii() {
    let request = balance_request("a\tb").unwrap();
    assert_eq!(request.authorization.as_bytes(), b"Bearer a\tb");
    let request = balance_request("").unwrap();
    assert_eq!(request.authorization.as_bytes(), b"Bearer ");
    let request = balance_request("cl\u{e9}").unwrap();
    assert_eq!(request.authorization.as_bytes(), "Bearer cl\u{e9}".as_bytes());
}

#[test]
fn request_refuses_a_token_with_control_characters() {
    assert_eq!(balance_request("line\nbreak").err(), Some(RequestError::InvalidToken));
    assert_eq!(balance_request("\r").err(), Some(RequestError::InvalidToken));
    assert_eq!(balance_request("nul\0").err(), Some(RequestError::InvalidToken));
    assert_eq!(balance_request("del\u{7f}").err(), Some(RequestError::InvalidToken));
    assert_eq!(balance_request("\u{1f}").err(), Some(RequestError::InvalidToken));
}

#[test]
fn answer_with_a_balance_is_a_reading() {
    assert_eq!(
        read_answer(200, b"{\"balance\": 150}", 1_700_000_000),
        Ok(BalanceReading { value: 150, taken_at: 1_700_000_000 })
    );
    assert_eq!(
        read_answer(299, b"{\"balance\":0}", 5),
        Ok(BalanceReading { value: 0, taken_at: 5 })
    );
}

#[test]
fn answer_outside_2xx_is_a_failed_poll() {
    let body = b"{\"balance\": 150}";
    assert_eq!(read_answer(199, body, 0), Err(BalanceFetchError::Status { code: 199 }));
    assert_eq!(read_answer(300, body, 0), Err(BalanceFetchError::Status { code: 300 }));
    assert_eq!(read_answer(401, body, 0), Err(BalanceFetchError::Status { code: 401 }));
    assert_eq!(read_answer(503, b"", 0), Err(BalanceFetchError::Status { code: 503 }));
    assert_eq!(read_answer(0, body, 0), Err(BalanceFetchError::Status { code: 0 }));
}

#[test]
fn answer_with_a_malformed_body_is_a_failed_poll() {
    assert_eq!(read_answer(200, b"", 0), Err(BalanceFetchError::MalformedBody));
    assert_eq!(read_answer(200, b"<html>", 0), Err(BalanceFetchError::MalformedBody));
    assert_eq!(read_answer(200, b"{}", 0), Err(BalanceFetchError::MalformedBody));
    assert_eq!(read_answer(204, b"150", 0), Err(BalanceFetchError::MalformedBody));
}

#[test]
fn balance_is_read_among_other_members() {
    assert_eq!(read_balance(b"{\"balance\":150}"), Some(150));
    assert_eq!(read_balance(b" \t\r\n{ \"balance\" : 42 } \n"), Some(42));
    assert_eq!(
        read_balance(b"{\"currency\":\"EUR\",\"balance\":80,\"frozen\":false}"),
        Some(80)
    );
    assert_eq!(
        read_balance(
            b"{\"a\":-1.5e+3,\"b\":null,\"c\":true,\"d\":\"q\\\"\\u00e9\\\\\",\"balance\":7,\"e\":0}"
        ),
        Some(7)
    );
    assert_eq!(read_balance(b"{\"balance\":0}"), Some(0));
    assert_eq!(read_balance(b"{\"Balance\":1,\"balance \":2,\"balance\":3}"), Some(3));
}

#[test]
fn balance_is_read_beside_nested_members() {
    assert_eq!(read_balance(b"{\"balance\":1,\"a\":[]}"), Some(1));
    assert_eq!(read_balance(b"{\"a\":[1],\"balance\":1}"), Some(1));
    assert_eq!(read_balance(b"{\"a\":{},\"balance\":2}"), Some(2));
    assert_eq!(read_balance(b"{\"a\":{\"b\":[{\"c\":[[], {}, \"x\", null]}]},\"balance\":3}"), Some(3));
    assert_eq!(
        read_balance(b"{ \"meta\" : { \"tags\" : [ 1 , 2.5 , true ] , \"n\" : { } } , \"balance\" : 4 }"),
        Some(4)
    );
    assert_eq!(read_balance(b"{\"a\":[[[[[[[[[[1]]]]]]]]]],\"balance\":5}"), Some(5));
    assert_eq!(read_balance(b"{\"balance\":6,\"a\":[\"]\",\"}\",\"\\\"\"]}"), Some(6));
}

#[test]
fn balance_deeper_down_is_not_the_balance() {
    assert_eq!(read_balance(b"{\"a\":{\"balance\":1}}"), None);
    assert_eq!(read_balance(b"{\"a\":{\"balance\":1},\"balance\":2}"), Some(2));
    assert_eq!(read_balance(b"{\"a\":[{\"balance\":1},{\"balance\":\"x\"}],\"balance\":3}"), Some(3));
    assert_eq!(read_balance(b"{\"a\":{\"balance\":1,\"balance\":1},\"balance\":4}"), Some(4));
}

#[test]
fn deep_nesting_is_followed_without_a_limit() {
    let depth = 200_000;
    let mut body = b"{\"a\":".to_vec();
    body.extend(std::iter::repeat(b'[').take(depth));
    body.extend(std::iter::repeat(b']').take(depth));
    body.extend_from_slice(b",\"balance\":9}");
    assert_eq!(read_balance(&body), Some(9));
    let mut open = b"{\"balance\":9,\"a\":".to_vec();
    open.extend(std::iter::repeat(b'[').take(depth));
    open.extend(std::iter::repeat(b']').take(depth - 1));
    open.extend_from_slice(b"}");
    assert_eq!(read_balance(&open), None);
}

#[test]
fn nested_members_must_be_well_formed() {
    assert_eq!(read_balance(b"{\"a\":[,],\"balance\":1}"), None);
    assert_eq!(read_balance(b"{\"a\":[1,],\"balance\":1}"), None);
    assert_eq!(read_balance(b"{\"a\":[1 2],\"balance\":1}"), None);
    assert_eq!(read_balance(b"{\"a\":[1},\"balance\":1}"), None);
    assert_eq!(read_balance(b"{\"a\":{1},\"balance\":1}"), None);
    assert_eq!(read_balance(b"{\"a\":{\"b\"},\"balance\":1}"), None);
    assert_eq!(read_balance(b"{\"a\":{\"b\":},\"balance\":1}"), None);
    assert_eq!(read_balance(b"{\"a\":{\"b\":1,},\"balance\":1}"), None);
    assert_eq!(read_balance(b"{\"a\":{\"b\" 1},\"balance\":1}"), None);
    assert_eq!(read_balance(b"{\"a\":[[1],\"balance\":1}"), None);
    assert_eq!(read_balance(b"{\"a\":[1]],\"balance\":1}"), None);
    assert_eq!(read_balance(b"{\"a\":[tru],\"balance\":1}"), None);
    assert_eq!(read_balance(b"{\"a\":[01],\"balance\":1}"), None);
    assert_eq!(read_balance(b"{\"balance\":1,\"a\":["), None);
}

#[test]
fn balance_may_lie_below_nothing() {
    assert_eq!(read_balance(b"{\"balance\":-5}"), Some(-5));
    assert_eq!(read_balance(b"{\"balance\":-0}"), Some(0));
    assert_eq!(
        read_answer(200, b"{\"balance\":-5}", 3),
        Ok(BalanceReading { value: -5, taken_at: 3 })
    );
}

#[test]
fn balance_fills_64_bits_with_sign_and_no_more() {
    assert_eq!(read_balance(b"{\"balance\":9223372036854775807}"), Some(i64::MAX));
    assert_eq!(read_balance(b"{\"balance\":-9223372036854775808}"), Some(i64::MIN));
    assert_eq!(read_balance(b"{\"balance\":9223372036854775808}"), None);
    assert_eq!(read_balance(b"{\"balance\":-9223372036854775809}"), None);
    assert_eq!(read_balance(b"{\"balance\":18446744073709551615}"), None);
    assert_eq!(read_balance(b"{\"balance\":18446744073709551616}"), None);
    assert_eq!(read_balance(b"{\"balance\":-99999999999999999999999}"), None);
}

#[test]
fn balance_must_be_a_whole_number() {
    assert_eq!(read_balance(b"{\"balance\":1.5}"), None);
    assert_eq!(read_balance(b"{\"balance\":-1.5}"), None);
    assert_eq!(read_balance(b"{\"balance\":1e3}"), None);
    assert_eq!(read_balance(b"{\"balance\":\"150\"}"), None);
    assert_eq!(read_balance(b"{\"balance\":null}"), None);
    assert_eq!(read_balance(b"{\"balance\":[1]}"), None);
    assert_eq!(read_balance(b"{\"balance\":{\"balance\":1}}"), None);
    assert_eq!(read_balance(b"{\"balance\":007}"), None);
    assert_eq!(read_balance(b"{\"balance\":-}"), None);
    assert_eq!(read_balance(b"{\"balance\":+5}"), None);
    assert_eq!(read_balance(b"{\"balance\":- 5}"), None);
    assert_eq!(read_balance(b"{\"balance\":}"), None);
    assert_eq!(read_balance(b"{\"balance\":1.}"), None);
}

#[test]
fn balance_must_stand_once() {
    assert_eq!(read_balance(b"{\"balance\":1,\"balance\":1}"), None);
    assert_eq!(read_balance(b"{\"other\":1}"), None);
    assert_eq!(read_balance(b"{}"), None);
    assert_eq!(read_balance(b"{ }"), None);
}

#[test]
fn body_must_be_one_document_that_is_an_object() {
    assert_eq!(read_balance(b""), None);
    assert_eq!(read_balance(b"150"), None);
    assert_eq!(read_balance(b"[{\"balance\":1}]"), None);
    assert_eq!(read_balance(b"{\"balance\":1"), None);
    assert_eq!(read_balance(b"{\"balance\":1}}"), None);
    assert_eq!(read_balance(b"{\"balance\":1} x"), None);
    assert_eq!(read_balance(b"{\"balance\":1}{\"balance\":1}"), None);
    assert_eq!(read_balance(b"{\"balance\":1,}"), None);
    assert_eq!(read_balance(b"{,\"balance\":1}"), None);
    assert_eq!(read_balance(b"{\"balance\" 1}"), None);
    assert_eq!(read_balance(b"{balance:1}"), None);
    assert_eq!(read_balance(b"{\"a\":tru,\"balance\":1}"), None);
    assert_eq!(read_balance(b"{\"a\":\"\\x\",\"balance\":1}"), None);
    assert_eq!(read_balance(b"{\"a\":\"\\u12g4\",\"balance\":1}"), None);
    assert_eq!(read_balance(b"{\"a\":\"line\nbreak\",\"balance\":1}"), None);
    assert_eq!(read_balance(b"{\"a\":\"open,\"balance\":1}"), None);
    assert_eq!(read_balance(b"{\"a\":01,\"balance\":1}"), None);
    assert_eq!(read_balance(b"{\"a\":-,\"balance\":1}"), None);
    assert_eq!(read_balance(b"{\"a\":1e,\"balance\":1}"), None);
}

#[test]
fn balance_name_counts_however_it_is_written() {
    assert_eq!(read_balance(b"{\"\\u0062alance\":5}"), Some(5));
    assert_eq!(read_balance(b"{\"b\\u0061l\\u0061n\\u0063\\u0065\":6}"), Some(6));
    assert_eq!(read_balance(b"{\"ba\\u006cance\":7}"), Some(7));
    assert_eq!(read_balance(b"{\"ba\\u006Cance\":7}"), Some(7));
    assert_eq!(read_balance(b"{\"bala\\u006Ece\":8}"), Some(8));
    assert_eq!(
        read_balance(b"{\"\\u0062\\u0061\\u006c\\u0061\\u006e\\u0063\\u0065\":9}"),
        Some(9)
    );
    assert_eq!(read_balance(b"{\"\\u0062alance\":1,\"balance\":1}"), None);
    assert_eq!(read_balance(b"{\"\\u0042alance\":1}"), None);
    assert_eq!(read_balance(b"{\"balance\\u0020\":1}"), None);
    assert_eq!(read_balance(b"{\"\\u0062alance\":\"x\"}"), None);
    assert_eq!(read_balance(b"{\"balanc\":1}"), None);
    assert_eq!(read_balance(b"{\"balances\":1}"), None);
    assert_eq!(read_balance(b"{\"\\balance\":1}"), None);
}

#[test]
fn body_must_be_utf8() {
    assert_eq!(read_balance("{\"name\":\"caf\u{e9} \u{1f600}\",\"balance\":3}".as_bytes()), Some(3));
    assert_eq!(read_balance(b"{\"name\":\"caf\xe9\",\"balance\":3}"), None);
    assert_eq!(read_balance(b"{\"name\":\"\xff\xfe\",\"balance\":3}"), None);
    assert_eq!(read_balance(b"{\"name\":\"\xc3\",\"balance\":3}"), None);
    assert_eq!(read_balance(b"{\"balance\":3}\x80"), None);
    assert_eq!(
        read_answer(200, b"{\"name\":\"\xed\xa0\x80\",\"balance\":3}", 0),
        Err(BalanceFetchError::MalformedBody)
    );
}
