use jp_plateau_tool::archive::is_building_entry;

#[test]
fn archive_filter() {
    assert!(is_building_entry("a/udx/bldg/x.gml"));
    assert!(!is_building_entry("a/udx/tran/x.gml"));
    assert!(!is_building_entry("a/udx/bldg/x.txt"));
    assert!(!is_building_entry("udx/bldg/x.gml"));
    assert!(!is_building_entry("a/b/udx/bldg/x.gml"));
    assert!(!is_building_entry("a/udx/bldg/sub/x.gml"));
}

#[test]
fn the_first_part_may_be_anything_without_a_slash() {
    assert!(is_building_entry("13100_tokyo23-ku_2020_citygml_3_2_op/udx/bldg/53394525_bldg_6697_2_op.gml"));
    assert!(is_building_entry("/udx/bldg/x.gml"));
    assert!(is_building_entry("東京/udx/bldg/建物.gml"));
}

#[test]
fn the_suffix_alone_is_a_name() {
    assert!(is_building_entry("a/udx/bldg/.gml"));
    assert!(!is_building_entry("a/udx/bldg/gml"));
    assert!(!is_building_entry("a/udx/bldg/"));
    assert!(!is_building_entry("a/udx/bldg/x.gml/"));
    assert!(!is_building_entry("a/udx/bldg/x.GML"));
    assert!(!is_building_entry("a/udx/bldg/x.gml.bak"));
}

#[test]
fn the_directories_are_matched_exactly() {
    assert!(!is_building_entry("a/UDX/bldg/x.gml"));
    assert!(!is_building_entry("a/udx/bldg2/x.gml"));
    assert!(!is_building_entry("a/udx /bldg/x.gml"));
    assert!(!is_building_entry("a//bldg/x.gml"));
    assert!(!is_building_entry(""));
    assert!(!is_building_entry("///"));
    assert!(!is_building_entry("a\\udx\\bldg\\x.gml"));
}

#[test]
fn the_filter_agrees_with_a_split_on_slashes() {
    let samples = [
        "a/udx/bldg/x.gml",
        "a/udx/bldg/x.gml/y",
        "/udx/bldg/.gml",
        "udx/bldg/x.gml",
        "a/udx/bldg",
        "a/udx//x.gml",
        "a/udx/bldg/x.gm",
        "//udx/bldg/x.gml",
        "a/udx/bldg/x.gmlx",
        "x.gml",
        "a/b/c/d",
        "a/udx/bldg/dir.gml/",
    ];
    for s in samples {
        let parts: Vec<&str> = s.split('/').collect();
        let expected =
            parts.len() == 4 && parts[1] == "udx" && parts[2] == "bldg" && parts[3].ends_with(".gml");
        assert_eq!(is_building_entry(s), expected, "{:?}", s);
    }
}
