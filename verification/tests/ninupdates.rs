use horizon::ipc_parse::IpcFile;
use horizon::ninupdates::{collect_buffer_types, file_list_url, files_from_links, FileId, Region};

const SAMPLE: &str =
    "sysupdatedl/autodl_sysupdates/2022-03-22_00-05-06/0100000000000809/ALL/v1234/abc.info";

#[test]
fn region_names() {
    assert_eq!(Region::parse("CHN"), Some(Region::China));
    assert_eq!(Region::parse("ALL"), Some(Region::Global));
    assert_eq!(Region::parse("all"), None);
    assert_eq!(Region::parse(""), None);
    assert_eq!(Region::Global.name(), "ALL");
    assert_eq!(Region::China.name(), "CHN");
}

#[test]
fn file_id_parse_sample() {
    let f = FileId::parse(SAMPLE).unwrap();
    assert_eq!(f.date, "2022-03-22_00-05-06");
    assert_eq!(f.title_id, 0x0100000000000809);
    assert_eq!(f.region, Region::Global);
    assert_eq!(f.version, 1234);
    assert_eq!(f.filename, "abc.info");
}

#[test]
fn file_id_display_roundtrip() {
    let f = FileId::parse(SAMPLE).unwrap();
    assert_eq!(String::from_utf8(f.display()).unwrap(), SAMPLE);
}

#[test]
fn file_id_display_pads_and_upper_cases() {
    let f = FileId::parse(
        "x/sysupdatedl/autodl_sysupdates/d/a0b/CHN/v0/swipcgen_server_modern.info",
    )
    .unwrap();
    assert_eq!(f.title_id, 0xa0b);
    assert_eq!(f.region, Region::China);
    assert_eq!(
        String::from_utf8(f.display()).unwrap(),
        "sysupdatedl/autodl_sysupdates/d/0000000000000A0B/CHN/v0/swipcgen_server_modern.info"
    );
    assert!(!f.is_global_server_info());
}

#[test]
fn file_id_parse_rejects() {
    // no match of the pattern
    assert!(FileId::parse("sysupdatedl/other/2022/0100/ALL/v1/a").is_none());
    // unknown region
    assert!(FileId::parse("sysupdatedl/autodl_sysupdates/d/0100/EUR/v1/a").is_none());
    // title id that is not hexadecimal
    assert!(FileId::parse("sysupdatedl/autodl_sysupdates/d/01zz/ALL/v1/a").is_none());
    // version too large for 32 bits
    assert!(FileId::parse("sysupdatedl/autodl_sysupdates/d/01/ALL/v4294967296/a").is_none());
}

#[test]
fn global_server_info_filter() {
    let f = FileId::parse(
        "sysupdatedl/autodl_sysupdates/d/0100000000000809/ALL/v1/x_swipcgen_server_modern.info",
    )
    .unwrap();
    assert!(f.is_global_server_info());
    let g = FileId::parse(SAMPLE).unwrap();
    assert!(!g.is_global_server_info());
}

#[test]
fn buffer_types_are_collected_once() {
    let text = r#"'prog': {
        'nn::a::IFoo': {
            0: {"vt": 0x20, "lr": 0x7100000000, "inbytes": 0, "outbytes": 0, "buffers": [5, 6]},
            1: {"vt": 0x20, "lr": 0x7100000000, "inbytes": 0, "outbytes": 0, "buffers": [6, 0x19]},
        },
        'nn::b::IBar': {
            0: {"vt": 0x20, "lr": 0x7100000000, "inbytes": 0, "outbytes": 0, "buffers": [5]},
        },
    }"#;
    let file = IpcFile::parse(text).unwrap();
    let mut types = vec![0x19];
    collect_buffer_types(&mut types, &file);
    assert_eq!(types, vec![0x19, 5, 6]);
}

#[test]
fn file_urls() {
    let f = FileId::parse(SAMPLE).unwrap();
    assert_eq!(
        String::from_utf8(f.url()).unwrap(),
        format!("https://yls8.mtheall.com/ninupdates/{}", SAMPLE)
    );
    assert_eq!(
        String::from_utf8(file_list_url()).unwrap(),
        "https://yls8.mtheall.com/ninupdates/titlelist.php?date=2022-03-22_00-05-06&sys=hac&reg=G"
    );
}

#[test]
fn links_are_read_in_order() {
    let links = vec![
        "index.php".to_string(),
        SAMPLE.to_string(),
        "sysupdatedl/autodl_sysupdates/2022/0100/EUR/v1/x.info".to_string(),
        "sysupdatedl/alltitles.info".to_string(),
        "sysupdatedl/autodl_sysupdates/d/0A/CHN/v2/y.info".to_string(),
    ];
    let found = files_from_links(&links);
    assert_eq!(found.indices, vec![1, 4]);
    assert_eq!(found.files.len(), 2);
    assert_eq!(found.files[0].version, 1234);
    assert_eq!(found.files[1].title_id, 0xa);
    assert_eq!(found.files[1].region, Region::China);
    assert_eq!(found.skipped, vec![2, 3]);
}
