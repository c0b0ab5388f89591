use remember_bday::date::Date;
use remember_bday::vcard::{decode_quoted_printable, parse_vcards, VCard, VCardError};

#[test]
fn parse_vcards_ok() {
    let input = "\
BEGIN:VCARD
VERSION:2.1
N:Test;Allice;;;
FN:Allice Test
TEL;CELL:+01234567890
END:VCARD
BEGIN:VCARD
VERSION:2.1
N:Test;Bob;;;
FN:Bob Test
BDAY:1980-05-07
END:VCARD
BEGIN:VCARD
VERSION:2.1
N:Täst;;;;
FN;CHARSET=UTF-8;ENCODING=QUOTED-PRINTABLE:=54=C3=A4=73=74
TEL;CELL:+01234567890
END:VCARD";

    let result = parse_vcards(input.to_string()).unwrap();
    let expected = vec![
        VCard {
            name: String::from("Allice Test"),
            bday: None,
        },
        VCard {
            name: String::from("Bob Test"),
            bday: Some(Date::new(1980, 5, 7)),
        },
        VCard {
            name: String::from("Täst"),
            bday: None,
        },
    ];
    assert_eq!(expected, result);
}

#[test]
fn parse_vcards_no_begin_vcard_contents() {
    let input = "\
VERSION:2.1
N:Test;Allice;;;
FN:Allice Test
TEL;CELL:+01234567890
END:VCARD
BEGIN:VCARD
VERSION:2.1
N:Test;Bob;;;
FN:Bob Test
BDAY:1980-05-07
END:VCARD";

    let result = parse_vcards(input.to_string()).unwrap_err();

    assert_eq!(
        VCardError::UnexpectedFieldError(String::from("contents")),
        result
    );
}

#[test]
fn parse_vcards_no_begin_vcard_end_vcard() {
    let input = "\
END:VCARD
BEGIN:VCARD
VERSION:2.1
N:Test;Bob;;;
FN:Bob Test
BDAY:1980-05-07
END:VCARD";

    let result = parse_vcards(input.to_string()).unwrap_err();

    assert_eq!(
        VCardError::UnexpectedFieldError(String::from("END:VCARD")),
        result
    );
}

#[test]
fn parse_vcards_double_begin_vcard() {
    let input = "\
BEGIN:VCARD
BEGIN:VCARD
VERSION:2.1
N:Test;Bob;;;
FN:Bob Test
BDAY:1980-05-07
END:VCARD";

    let result = parse_vcards(input.to_string()).unwrap_err();

    assert_eq!(
        VCardError::UnexpectedFieldError(String::from("BEGIN:VCARD")),
        result
    );
}

#[test]
fn parse_vcards_missing_end_vcard() {
    let input = "\
BEGIN:VCARD
VERSION:2.1
N:Test;Bob;;;
FN:Bob Test
BDAY:1980-05-07";

    let result = parse_vcards(input.to_string()).unwrap_err();

    assert_eq!(VCardError::MissingEndError, result);
}

#[test]
fn parse_vcards_no_name() {
    let input = "\
BEGIN:VCARD
VERSION:2.1
N:Test;Allice;;;
FN:Allice Test
TEL;CELL:+01234567890
END:VCARD
BEGIN:VCARD
VERSION:2.1
N:Test;Bob;;;
BDAY:1980-05-07
END:VCARD";

    let result = parse_vcards(input.to_string()).unwrap_err();

    assert_eq!(VCardError::NoNameError, result);
}

#[test]
fn parse_vcards_invalid_bday() {
    let input = "\
BEGIN:VCARD
VERSION:2.1
N:Test;Allice;;;
FN:Allice Test
TEL;CELL:+01234567890
END:VCARD
BEGIN:VCARD
VERSION:2.1
N:Test;Bob;;;
FN:Bob Test
BDAY:1980-asdf-07
END:VCARD";

    let result = parse_vcards(input.to_string()).unwrap_err();

    assert_eq!(
        VCardError::InvalidBDayError(String::from("input contains invalid characters")),
        result
    );
}

#[test]
fn parse_vcards_invalid_encoded_name() {
    let input = "\
BEGIN:VCARD
FN;CHARSET=UTF-8;ENCODING=QUOTED-PRINTABLE:=ZZ
END:VCARD";

    let result = parse_vcards(input.to_string()).unwrap_err();

    assert_eq!(VCardError::InvalidNameError, result);
}

#[test]
fn parse_vcards_empty_input() {
    let result = parse_vcards(String::new()).unwrap();
    assert_eq!(Vec::<VCard>::new(), result);
}

#[test]
fn parse_vcards_same_input_twice() {
    let input = "\
BEGIN:VCARD
FN:Allice Test
END:VCARD
BEGIN:VCARD
FN:Bob Test
BDAY:1980-05-07
END:VCARD";

    let first = parse_vcards(input.to_string()).unwrap();
    let second = parse_vcards(input.to_string()).unwrap();
    assert_eq!(first, second);
}

#[test]
fn parse_vcards_last_name_wins() {
    let input = "\
BEGIN:VCARD
FN:First Name
FN:Second Name
END:VCARD";

    let result = parse_vcards(input.to_string()).unwrap();
    let expected = vec![VCard {
        name: String::from("Second Name"),
        bday: None,
    }];
    assert_eq!(expected, result);
}

#[test]
fn parse_vcards_crlf_line_endings() {
    let input = "BEGIN:VCARD\r\nFN:Allice Test\r\nBDAY:1999-12-31\r\nEND:VCARD\r\n";

    let result = parse_vcards(input.to_string()).unwrap();
    let expected = vec![VCard {
        name: String::from("Allice Test"),
        bday: Some(Date::new(1999, 12, 31)),
    }];
    assert_eq!(expected, result);
}

#[test]
fn decode_quoted_printable_ok() {
    let result = decode_quoted_printable("=54=C3=A4=73=74").unwrap();
    assert_eq!("Täst", result);
}

#[test]
fn decode_quoted_printable_non_hex_token() {
    let result = decode_quoted_printable("=5G=41").unwrap_err();
    assert_eq!(VCardError::InvalidNameError, result);
}

#[test]
fn decode_quoted_printable_short_token() {
    let result = decode_quoted_printable("=5").unwrap_err();
    assert_eq!(VCardError::InvalidNameError, result);
}

#[test]
fn decode_quoted_printable_invalid_utf8() {
    let result = decode_quoted_printable("=FF=FE").unwrap_err();
    assert_eq!(VCardError::InvalidNameError, result);
}

#[test]
fn decode_quoted_printable_no_markers() {
    let result = decode_quoted_printable("anything at all").unwrap();
    assert_eq!("", result);
}

#[test]
fn vcard_error_messages() {
    assert_eq!(
        "Unexpected BEGIN:VCARD",
        VCardError::UnexpectedFieldError(String::from("BEGIN:VCARD"))
            .to_message()
            .as_str()
    );
    assert_eq!("Missing END:VCARD", VCardError::MissingEndError.to_message().as_str());
    assert_eq!(
        "No name at end of vcard",
        VCardError::NoNameError.to_message().as_str()
    );
    assert_eq!(
        "error while parsing name",
        VCardError::InvalidNameError.to_message().as_str()
    );
    assert_eq!(
        "error while parsing bday: input contains invalid characters",
        VCardError::InvalidBDayError(String::from("input contains invalid characters"))
            .to_message()
            .as_str()
    );
}
