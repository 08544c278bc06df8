use qvopenapi::error::QvOpenApiError;
use qvopenapi::models::connect::{
    make_connect_response, parse_account, parse_connect, RawAccountInfo, GRANTED_MARK,
    LOGIN_DATETIME_FORMAT, SEOUL_OFFSET_SECONDS,
};
use qvopenapi::models::message::{parse_error, parse_message};
use qvopenapi::utils::{
    from_cp949, parse_count_text, parse_number, parse_number_text, parse_ratio, parse_ratio_str,
    parse_ratio_text, parse_string, trim,
};

fn number_error(text: &str) -> Result<Option<i64>, QvOpenApiError> {
    Err(QvOpenApiError::ParseNumberError { input: String::from(text) })
}

fn raw_account(number: &str, name: &[u8], granted: u8) -> RawAccountInfo {
    RawAccountInfo {
        account_no: number.as_bytes().to_vec(),
        account_name: name.to_vec(),
        act_pdt_cdz3: b"001".to_vec(),
        amn_tab_cdz4: b"0042".to_vec(),
        expr_datez8: b"2023    ".to_vec(),
        granted,
    }
}

#[test]
fn ascii_fields_decode_to_themselves() {
    assert_eq!(from_cp949(b"htsi194"), "htsi194");
    assert_eq!(from_cp949(b""), "");
    assert_eq!(from_cp949(b"  padded  "), "  padded  ");
}

#[test]
fn a_field_ends_at_its_first_nul() {
    assert_eq!(from_cp949(b"abc\0def"), "abc");
    assert_eq!(from_cp949(b"\0abc"), "");
    assert_eq!(from_cp949(b"abc\0"), "abc");
    assert_eq!(from_cp949(&[0x41, 0x00, 0x00, 0x42]), "A");
}

#[test]
fn korean_fields_decode_from_the_code_page_949() {
    assert_eq!(from_cp949(&[0xb0, 0xa1]), "\u{ac00}");
    assert_eq!(from_cp949(&[0xb3, 0xaa, 0xb4, 0xd9]), "\u{b098}\u{b2e4}");
    assert_eq!(from_cp949(&[0x41, 0xb0, 0xa1, 0x42, 0x00, 0xb0]), "A\u{ac00}B");
}

#[test]
fn malformed_bytes_decode_to_the_replacement_character() {
    assert_eq!(from_cp949(&[0xff]), "\u{fffd}");
    assert_eq!(from_cp949(&[0x41, 0xb0]), "A\u{fffd}");
}

#[test]
fn trim_removes_white_space_at_both_ends_only() {
    assert_eq!(trim("  a b  "), "a b");
    assert_eq!(trim("a"), "a");
    assert_eq!(trim(""), "");
    assert_eq!(trim("   "), "");
    assert_eq!(trim("\t\n a \r\n"), "a");
    assert_eq!(trim("가 나 "), "가 나");
    assert_eq!(trim("\u{3000}x\u{a0}"), "x");
}

#[test]
fn trim_agrees_with_the_standard_library_on_every_character() {
    for code in 0..=0x10FFFFu32 {
        if let Some(c) = char::from_u32(code) {
            let text = format!("{}x{}", c, c);
            assert_eq!(trim(&text), text.trim(), "U+{:04X}", code);
        }
    }
}

#[test]
fn parse_string_decodes_and_trims() {
    assert_eq!(parse_string(b"htsi194        "), Ok(String::from("htsi194")));
    assert_eq!(parse_string(b"   "), Ok(String::new()));
    assert_eq!(parse_string(b" a\0 b"), Ok(String::from("a")));
}

#[test]
fn numbers_are_read_past_their_padding() {
    assert_eq!(parse_number_text("1234"), Ok(Some(1234)));
    assert_eq!(parse_number_text("00001234"), Ok(Some(1234)));
    assert_eq!(parse_number_text("-0001234"), Ok(Some(-1234)));
    assert_eq!(parse_number_text("0 0 12"), Ok(Some(12)));
    assert_eq!(parse_number_text("0-012"), Ok(Some(-12)));
    assert_eq!(parse_number_text("1000"), Ok(Some(1000)));
    assert_eq!(parse_number_text("10203040"), Ok(Some(10203040)));
    assert_eq!(parse_number(b"    1234"), Ok(Some(1234)));
    assert_eq!(parse_number(b"00001234"), Ok(Some(1234)));
    assert_eq!(parse_number(b"-0001234"), Ok(Some(-1234)));
    assert_eq!(parse_number(b"  -12   "), Ok(Some(-12)));
}

#[test]
fn an_empty_number_field_holds_nothing() {
    assert_eq!(parse_number_text(""), Ok(None));
    assert_eq!(parse_number(b""), Ok(None));
    assert_eq!(parse_number(b"        "), Ok(None));
    assert_eq!(parse_number(b"\0123"), Ok(None));
}

#[test]
fn a_number_field_of_padding_alone_holds_zero() {
    assert_eq!(parse_number_text("0"), Ok(Some(0)));
    assert_eq!(parse_number_text("0000"), Ok(Some(0)));
    assert_eq!(parse_number_text("-"), Ok(Some(0)));
    assert_eq!(parse_number_text("-0"), Ok(Some(0)));
    assert_eq!(parse_number_text("0 0"), Ok(Some(0)));
    assert_eq!(parse_number(b"  0000  "), Ok(Some(0)));
}

#[test]
fn what_is_no_number_is_an_error_that_carries_the_text() {
    for text in ["12a", "a12", "1 2", "12-", "1-2", "--1", "-1-", "- -", "+12", "1.5", "12 0", "٣", "１２"]
    {
        assert_eq!(parse_number_text(text), number_error(text), "{:?}", text);
    }
    assert_eq!(parse_number(b"  12a  "), number_error("12a"));
}

#[test]
fn numbers_are_read_up_to_the_largest_i64() {
    assert_eq!(parse_number_text("9223372036854775807"), Ok(Some(i64::MAX)));
    assert_eq!(parse_number_text("-9223372036854775807"), Ok(Some(-i64::MAX)));
    assert_eq!(parse_number_text("9223372036854775808"), number_error("9223372036854775808"));
    assert_eq!(parse_number_text("-9223372036854775808"), number_error("-9223372036854775808"));
    assert_eq!(parse_number_text("92233720368547758070"), number_error("92233720368547758070"));
    assert_eq!(
        parse_number_text("99999999999999999999999999"),
        number_error("99999999999999999999999999")
    );
    assert_eq!(parse_number_text("0009223372036854775807"), Ok(Some(i64::MAX)));
}

#[test]
fn ratios_in_hundredths_are_read_as_numbers() {
    assert_eq!(parse_ratio(b"    1226"), Ok(Some(1226)));
    assert_eq!(parse_ratio(b"   -0050"), Ok(Some(-50)));
    assert_eq!(parse_ratio(b"        "), Ok(None));
    assert_eq!(parse_ratio(b"  12.26 "), number_error("12.26"));
}

#[test]
fn percentages_are_read_up_to_the_percent_sign() {
    assert_eq!(parse_ratio_text("100%"), Ok(Some(String::from("100"))));
    assert_eq!(parse_ratio_text("12.5%"), Ok(Some(String::from("12.5"))));
    assert_eq!(parse_ratio_text("%"), Ok(Some(String::new())));
    assert_eq!(parse_ratio_text(""), Ok(None));
    assert_eq!(
        parse_ratio_text("100"),
        Err(QvOpenApiError::ParseRatioError { input: String::from("100") })
    );
    assert_eq!(
        parse_ratio_text("%100"),
        Err(QvOpenApiError::ParseRatioError { input: String::from("%100") })
    );
    assert_eq!(parse_ratio_str(b"100%  "), Ok(Some(String::from("100"))));
    assert_eq!(parse_ratio_str(b"      "), Ok(None));
    assert_eq!(
        parse_ratio_str(b" 40   "),
        Err(QvOpenApiError::ParseRatioError { input: String::from("40") })
    );
}

#[test]
fn a_message_keeps_its_code_and_loses_its_padding() {
    let parsed = parse_message(4, b"00001", b"message text      \0   ").unwrap();
    assert_eq!(parsed.tr_index, 4);
    assert_eq!(parsed.msg_code, "00001");
    assert_eq!(parsed.msg, "message text");
    let korean = parse_message(1, b"A", &[0xb0, 0xa1, 0x20, 0x20]).unwrap();
    assert_eq!(korean.msg, "\u{ac00}");
}

#[test]
fn an_error_event_loses_its_padding() {
    let parsed = parse_error(-1, b"  socket closed \0").unwrap();
    assert_eq!(parsed.tr_index, -1);
    assert_eq!(parsed.error_msg, "socket closed");
}

#[test]
fn an_account_is_decoded_field_by_field() {
    let account = parse_account(&raw_account("12345678901", b"my account        ", GRANTED_MARK));
    assert_eq!(account.account_no, "12345678901");
    assert_eq!(account.account_name, "my account");
    assert_eq!(account.act_pdt_cdz3, "001");
    assert_eq!(account.amn_tab_cdz4, "0042");
    assert_eq!(account.expr_datez8, "2023");
    assert!(account.bulk_granted);
    assert_eq!(GRANTED_MARK, b'G');
    assert!(!parse_account(&raw_account("1", b"n", b' ')).bulk_granted);
    assert!(!parse_account(&raw_account("1", b"n", b'g')).bulk_granted);
}

#[test]
fn the_login_block_is_decoded_in_the_time_of_seoul() {
    let accounts = vec![
        raw_account("11111111111", b"first  ", b'G'),
        raw_account("22222222222", b"second ", b' '),
        raw_account("33333333333", b"third  ", b' '),
    ];
    let session =
        parse_connect(b"20230506203715", b"htsi194        ", b"userid  ", b"002", &accounts)
            .unwrap();
    assert_eq!(session.login_timestamp, 1_683_373_035);
    assert_eq!(session.server_name, "htsi194");
    assert_eq!(session.user_id, "userid  ");
    assert_eq!(session.account_count, 2);
    assert_eq!(session.account_infoes.len(), 2);
    assert_eq!(session.account_infoes[0].account_name, "first");
    assert!(session.account_infoes[0].bulk_granted);
    assert_eq!(session.account_infoes[1].account_no, "22222222222");
    assert_eq!(SEOUL_OFFSET_SECONDS, 9 * 3600);
    assert_eq!(LOGIN_DATETIME_FORMAT, "%Y%m%d%H%M%S");
}

#[test]
fn the_unix_epoch_in_seoul_is_nine_hours_into_the_day() {
    let session = parse_connect(b"19700101090000", b"s", b"u", b"000", &Vec::new()).unwrap();
    assert_eq!(session.login_timestamp, 0);
    assert_eq!(session.account_count, 0);
    assert!(session.account_infoes.is_empty());
}

#[test]
fn a_login_block_lists_no_more_accounts_than_it_has() {
    let accounts = vec![raw_account("1", b"only", b' ')];
    let session = parse_connect(b"20230506203715", b"s", b"u", b"005", &accounts).unwrap();
    assert_eq!(session.account_count, 5);
    assert_eq!(session.account_infoes.len(), 1);
}

#[test]
fn a_login_time_that_is_no_time_is_an_error() {
    for text in [&b"20231306203715"[..], b"", b"yyyymmddhhmmss", b"20230506203715x", b"2023"] {
        assert_eq!(
            parse_connect(text, b"s", b"u", b"001", &Vec::new()),
            Err(QvOpenApiError::ParseDateTimeError)
        );
    }
}

#[test]
fn an_account_count_that_is_no_count_is_an_error() {
    let read = |count: &[u8]| parse_connect(b"20230506203715", b"s", b"u", count, &Vec::new());
    for text in ["abc", "", "-01", "-0", " 02", "02 ", "0 2", "+", "1+", "++1"] {
        assert_eq!(
            read(text.as_bytes()),
            Err(QvOpenApiError::ParseNumberError { input: String::from(text) }),
            "{:?}",
            text
        );
    }
    assert_eq!(
        make_connect_response(None, String::from("s"), String::from("u"), "x", &Vec::new()),
        Err(QvOpenApiError::ParseNumberError { input: String::from("x") })
    );
    assert_eq!(
        make_connect_response(None, String::from("s"), String::from("u"), "1", &Vec::new()),
        Err(QvOpenApiError::ParseDateTimeError)
    );
    let made = make_connect_response(Some(9), String::from("s"), String::from("u"), "0", &Vec::new())
        .unwrap();
    assert_eq!((made.login_timestamp, made.account_count), (9, 0));
}

#[test]
fn an_account_count_is_a_plain_decimal_number() {
    assert_eq!(parse_count_text("002"), Ok(2));
    assert_eq!(parse_count_text("0"), Ok(0));
    assert_eq!(parse_count_text("999"), Ok(999));
    assert_eq!(parse_count_text("+02"), Ok(2));
    assert_eq!(parse_count_text("+0"), Ok(0));
    assert_eq!(parse_count_text(&usize::MAX.to_string()), Ok(usize::MAX));
    for text in ["", "+", "-1", "-0", " 1", "1 ", "1a", "a", "1.0", "+-1", "18446744073709551616"] {
        assert_eq!(
            parse_count_text(text),
            Err(QvOpenApiError::ParseNumberError { input: String::from(text) }),
            "{:?}",
            text
        );
    }
    for text in ["002", "+02", "", "-0", " 02", "12x", "18446744073709551615", "18446744073709551616"] {
        assert_eq!(parse_count_text(text).ok(), text.parse::<usize>().ok(), "{:?}", text);
    }
    let session = parse_connect(b"20230506203715", b"s", b"u", b"+01", &Vec::new()).unwrap();
    assert_eq!(session.account_count, 1);
}
