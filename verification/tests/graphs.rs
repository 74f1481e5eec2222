use covid_cert_uvci::{uvci_to_graph, uvcis_to_graph};

#[test]
fn graph_statements_for_national_identifier() {
    let graph = uvci_to_graph("URN:UVCI:01:SE:EHM/V12916227TFJJ#Q");
    let expected = "CREATE (SE:country {name:'Sweden'})-[:COUNTRY_OF {}]->(EHM:issuing_entity {name:'E-Hälso Myndigheten'})\n\
                    CREATE (EHM)-[:ISSUER_OF {}]->(V12916227:opaque_id {name:'V12916227'})\n\
                    CREATE (d20218:vac_date {name:'Aug 2021'})\n\
                    CREATE (d20218)-[:VAC_DATE_OF {}]->(V12916227)\n\
                    CREATE (V12916227TFJJ:reissue_id {name:'TFJJ'})-[:REISSUE_OF {}]->(V12916227)\n";
    assert_eq!(graph, expected);
}

#[test]
fn graph_empty_outside_national_pattern() {
    assert_eq!(uvci_to_graph("URN:UVCI:01:AT:10807843F94AEE0EE5093FBC254BD813#B"), "");
    assert_eq!(uvci_to_graph("URN:UVCI:01:SE:EHM/C878/123456789ABC#B"), "");
    assert_eq!(uvci_to_graph(""), "");
}

#[test]
fn batch_graph_export_removes_duplicate_lines() {
    let ids = vec![
        "URN:UVCI:01:SE:EHM/V12916227TFJJ#Q".to_string(),
        "URN:UVCI:01:SE:EHM/V12907267LAJW#E".to_string(),
        "URN:UVCI:01:SE:EHM/V12916227TFJJ#Q".to_string(),
        "URN:UVCI:01:SE:EHM/V12907267LAJW#E".to_string(),
    ];
    let first = uvcis_to_graph(&ids);
    let second = uvcis_to_graph(&ids);
    assert_eq!(first, second);
    let lines: Vec<&str> = first.split('\n').filter(|l| !l.is_empty()).collect();
    assert!(!lines.is_empty());
    for i in 0..lines.len() {
        for j in 0..i {
            assert_ne!(lines[i], lines[j], "duplicate statement line in batch export");
        }
    }
}

#[test]
fn batch_graph_export_matches_repeated_singles() {
    let ids = vec![
        "URN:UVCI:01:SE:EHM/V12916227TFJJ#Q".to_string(),
        "URN:UVCI:01:SE:EHM/V12916227TFJJ#Q".to_string(),
    ];
    let combined = uvcis_to_graph(&ids);
    let single = uvci_to_graph("URN:UVCI:01:SE:EHM/V12916227TFJJ#Q");
    // Every statement of the single export appears exactly once.
    for line in single.split('\n').filter(|l| !l.is_empty()) {
        assert_eq!(combined.matches(line).count(), 1);
    }
}
