use covid_cert_uvci::{parse, uvci_to_csv};

#[test]
fn uvci_csv() {
    assert!(
        uvci_to_csv("URN:UVCI:01:SE:EHM/V00016227TFJJ#Q")
            == "1,SE,3,some semantics,EHM,,V00016227TFJJ,V00016227,TFJJ,12,2020,Q,false"
    );
}

#[test]
fn swedish_uvci_opaque_data() {
    assert!(
        parse("URN:UVCI:01:SE:EHM/V12907267LAJW#E").opaque_unique_string == "V12907267LAJW",
        "wrong opaque_unique_string"
    );
    assert!(
        parse("URN:UVCI:01:SE:EHM/V12907267LAJW#E").opaque_id == "V12907267",
        "wrong opaque_id"
    );
    assert!(
        parse("URN:UVCI:01:SE:EHM/V12907267LAJW#E").opaque_issuance == "LAJW",
        "wrong opaque_issuance"
    );
    assert!(
        parse("URN:UVCI:01:SE:EHM/V12907267LAJW#E").opaque_vaccination_month == 8,
        "wrong opaque_vaccination_month"
    );
    assert!(
        parse("URN:UVCI:01:SE:EHM/V12907267LAJW#E").opaque_vaccination_year == 2021,
        "wrong opaque_vaccination_month"
    );
}

#[test]
fn assorted_uvci() {
    let cert_ids_assorted: [&str; 18] = [
        "",
        "a",
        "::::::::::",
        "//////////",
        "a:a:a:a:a:a:a:a:a:a:a",
        "URN:UVCI:01:SE://////////",
        "URN:UVCI:01:AT:10807843F94AEE0EE5093FBC254BD8131080784F94AEE0E43C25D813#B",
        "URN:UVCI:01:SE:EHM/C878/123456789ABC",
        "URN:UVCI:01:SE:EHM/C878/123456789ABC#B",
        "01:SE:EHM/C878/123456789ABC#B",
        "URN:UVCI:01:SE:123456789ABC",
        "URN:UVCI:01:AT:10807843F94AEE0EE5093FBC254BD813#B",
        "URN:UVCI:01:SE:EHM/V12916227TFJJ#Q",
        "URN:UVCI:01:NL:187/37512422923",
        "urn:uvci:01:se:ehm/v12982924yqmv#t",
        "urn:uvci:98:se:ehm/v12982924yqmv#t",
        "URN:UVCI:01:IT:84A0F1A35F1D454C96939812CA55D571#F",
        "01:IT:84A0F1A35F1D454C96939812CA55D571#F",
    ];

    for cert_id in &cert_ids_assorted {
        println!("{}\n{}\n", cert_id, parse(cert_id).listing());
        assert!(
            parse(cert_id).schema_option_number <= 3,
            "schema_option_number larger than 3"
        );
    }
}

#[test]
fn empty_input_yields_default_record() {
    let record = parse("");
    assert_eq!(record.version, 0);
    assert_eq!(record.country, "");
    assert_eq!(record.schema_option_number, 0);
    assert_eq!(record.schema_option_desc, "");
    assert_eq!(record.issuing_entity, "");
    assert_eq!(record.vaccine_id, "");
    assert_eq!(record.opaque_unique_string, "");
    assert_eq!(record.opaque_id, "");
    assert_eq!(record.opaque_issuance, "");
    assert_eq!(record.opaque_vaccination_month, 0);
    assert_eq!(record.opaque_vaccination_year, 0);
    assert_eq!(record.checksum, "");
    assert!(!record.checksum_verification);
}

#[test]
fn over_long_input_yields_default_record() {
    let long_id = "URN:UVCI:01:SE:EHM/V12907267LAJWV12907267LAJWV12907267LAJWV12907267LAJW#E";
    assert!(long_id.len() > 72);
    let record = parse(long_id);
    assert_eq!(record.version, 0);
    assert_eq!(record.country, "");
    assert_eq!(record.schema_option_number, 0);
    assert_eq!(record.checksum, "");
    assert!(!record.checksum_verification);
}

#[test]
fn parsing_is_case_insensitive() {
    let lower = parse("urn:uvci:01:se:ehm/v12982924yqmv#t");
    let upper = parse("URN:UVCI:01:SE:EHM/V12982924YQMV#T");
    assert_eq!(lower.version, upper.version);
    assert_eq!(lower.country, upper.country);
    assert_eq!(lower.schema_option_number, upper.schema_option_number);
    assert_eq!(lower.schema_option_desc, upper.schema_option_desc);
    assert_eq!(lower.issuing_entity, upper.issuing_entity);
    assert_eq!(lower.vaccine_id, upper.vaccine_id);
    assert_eq!(lower.opaque_unique_string, upper.opaque_unique_string);
    assert_eq!(lower.opaque_id, upper.opaque_id);
    assert_eq!(lower.opaque_issuance, upper.opaque_issuance);
    assert_eq!(lower.opaque_vaccination_month, upper.opaque_vaccination_month);
    assert_eq!(lower.opaque_vaccination_year, upper.opaque_vaccination_year);
    assert_eq!(lower.checksum, upper.checksum);
    assert_eq!(lower.checksum_verification, upper.checksum_verification);
}

#[test]
fn missing_prefix_is_tolerated() {
    let bare = parse("01:SE:EHM/C878/123456789ABC#B");
    let prefixed = parse("URN:UVCI:01:SE:EHM/C878/123456789ABC#B");
    assert_eq!(bare.version, prefixed.version);
    assert_eq!(bare.country, prefixed.country);
    assert_eq!(bare.schema_option_number, prefixed.schema_option_number);
    assert_eq!(bare.schema_option_desc, prefixed.schema_option_desc);
    assert_eq!(bare.issuing_entity, prefixed.issuing_entity);
    assert_eq!(bare.vaccine_id, prefixed.vaccine_id);
    assert_eq!(bare.opaque_unique_string, prefixed.opaque_unique_string);
    assert_eq!(bare.checksum, prefixed.checksum);
    assert_eq!(bare.checksum_verification, prefixed.checksum_verification);
}

#[test]
fn schema_dispatch_by_segment_count() {
    let three = parse("URN:UVCI:01:SE:EHM/C878/123456789ABC#B");
    assert_eq!(three.schema_option_number, 1);
    assert_eq!(three.schema_option_desc, "identifier with semantics");
    assert_eq!(three.issuing_entity, "EHM");
    assert_eq!(three.vaccine_id, "C878");
    assert_eq!(three.opaque_unique_string, "123456789ABC");

    let one = parse("URN:UVCI:01:SE:123456789ABC");
    assert_eq!(one.schema_option_number, 2);
    assert_eq!(one.schema_option_desc, "opaque identifier - no structure");
    assert_eq!(one.opaque_unique_string, "123456789ABC");

    let two = parse("URN:UVCI:01:SE:EHM/V12916227TFJJ#Q");
    assert_eq!(two.schema_option_number, 3);
    assert_eq!(two.schema_option_desc, "some semantics");
    assert_eq!(two.issuing_entity, "EHM");
    assert_eq!(two.opaque_unique_string, "V12916227TFJJ");

    let other = parse("URN:UVCI:01:SE://////////");
    assert_eq!(other.schema_option_number, 0);
    assert_eq!(other.schema_option_desc, "");
}

#[test]
fn version_block_parsed_as_number() {
    assert_eq!(parse("URN:UVCI:98:SE:EHM/V12982924YQMV#T").version, 98);
    assert_eq!(parse("URN:UVCI:01:SE:EHM/V12982924YQMV#T").version, 1);
    assert_eq!(parse("URN:UVCI:XX:SE:EHM/V12982924YQMV#T").version, 0);
    assert_eq!(parse("URN:UVCI:999:SE:EHM/V12982924YQMV#T").version, 0);
}

#[test]
fn checksum_field_takes_everything_after_first_hash() {
    assert_eq!(parse("URN:UVCI:01:SE:EHM/V12916227TFJJ#Q#X").checksum, "Q#X");
    assert_eq!(parse("URN:UVCI:01:SE:EHM/V12916227TFJJ#Q").checksum, "Q");
    assert_eq!(parse("URN:UVCI:01:SE:EHM/V12916227TFJJ#").checksum, "");
    assert_eq!(parse("URN:UVCI:01:SE:EHM/V12916227TFJJ").checksum, "");
}

#[test]
fn listing_renders_all_fields() {
    let listing = parse("URN:UVCI:01:SE:EHM/V12916227TFJJ#Q").listing();
    let expected = "version                  : 1\n\
                    country                  : SE\n\
                    schema_option_number     : 3\n\
                    schema_option_desc       : some semantics\n\
                    issuing_entity           : EHM\n\
                    vaccine_id               : \n\
                    opaque_unique_string     : V12916227TFJJ\n\
                    opaque_id                : V12916227\n\
                    opaque_issuance          : TFJJ\n\
                    opaque_vaccination_month : 8\n\
                    opaque_vaccination_year  : 2021\n\
                    checksum                 : Q\n\
                    checksum_verification    : true\n";
    assert_eq!(listing, expected);
}
