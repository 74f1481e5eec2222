use covid_cert_uvci::parse;

#[test]
fn swedish_uvci_with_checksum_valid() {
    let cert_ids_sweden: [&str; 15] = [
        "URN:UVCI:01:SE:EHM/V12907267LAJW#E",
        "URN:UVCI:01:SE:EHM/V12916227TFJJ#Q",
        "URN:UVCI:01:SE:EHM/V12920064NYOH#4",
        "URN:UVCI:01:SE:EHM/V12923931NNBY#T",
        "URN:UVCI:01:SE:EHM/V12939008LSVR#F",
        "URN:UVCI:01:SE:EHM/V12939037PXFJ#V",
        "URN:UVCI:01:SE:EHM/V12940126MRXQ#N",
        "URN:UVCI:01:SE:EHM/V12956472WRGE#7",
        "URN:UVCI:01:SE:EHM/V12965046ALNM#I",
        "URN:UVCI:01:SE:EHM/V12982924YQMV#T",
        "URN:UVCI:01:SE:EHM/V12991074UCIC#4",
        "URN:UVCI:01:SE:EHM/V12993686OVCX#R",
        "URN:UVCI:01:SE:EHM/V12996544DVKM#M",
        "URN:UVCI:01:SE:EHM/V12997980ASMG#1",
        "URN:UVCI:01:SE:EHM/V12998404MNQF#6",
    ];
    for cert_id in &cert_ids_sweden {
        println!("{}\n{}\n", cert_id, parse(cert_id).listing());
        assert!(
            parse(cert_id).checksum_verification,
            "checksum verification failed"
        );
    }
}

#[test]
fn swedish_uvci_with_checksum_invalid() {
    let cert_ids_sweden: [&str; 15] = [
        "URN:UVCI:01:SE:EHM/V12907267LAJW#A",
        "URN:UVCI:01:SE:EHM/V12916227TFJJ#B",
        "URN:UVCI:01:SE:EHM/V12920064NYOH#C",
        "URN:UVCI:01:SE:EHM/V12923931NNBY#D",
        "URN:UVCI:01:SE:EHM/V12939008LSVR#E",
        "URN:UVCI:01:SE:EHM/V12939037PXFJ#F",
        "URN:UVCI:01:SE:EHM/V12940126MRXQ#G",
        "URN:UVCI:01:SE:EHM/V12956472WRGE#H",
        "URN:UVCI:01:SE:EHM/V12965046ALNM#0",
        "URN:UVCI:01:SE:EHM/V12982924YQMV#1",
        "URN:UVCI:01:SE:EHM/V12991074UCIC#2",
        "URN:UVCI:01:SE:EHM/V12993686OVCX#3",
        "URN:UVCI:01:SE:EHM/V12996544DVKM#4",
        "URN:UVCI:01:SE:EHM/V12997980ASMG#5",
        "URN:UVCI:01:SE:EHM/V12998404MNQF#9",
    ];
    for cert_id in &cert_ids_sweden {
        println!("{}\n{}\n", cert_id, parse(cert_id).listing());
        assert!(
            !parse(cert_id).checksum_verification,
            "checksum verification failed"
        );
    }
}
