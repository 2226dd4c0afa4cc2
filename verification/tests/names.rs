use thin_las::format::{
    add_extension_if_needed, default_extension, detect_format, extension_format, suggested_name,
    target_for,
};
use thin_las::pipeline::PointCloudFormat;

#[test]
fn test_format_detection() {
    assert_eq!(detect_format("scan.las"), Some(PointCloudFormat::Las));
    assert_eq!(detect_format("scan.laz"), Some(PointCloudFormat::Las));
    assert_eq!(detect_format("scan.e57"), Some(PointCloudFormat::E57));
    assert_eq!(detect_format("SCAN.E57"), Some(PointCloudFormat::E57));
    assert_eq!(detect_format("scan.xyz"), None);
}

#[test]
fn test_add_extension() {
    assert_eq!(add_extension_if_needed("myfile", "las"), "myfile.las");
    assert_eq!(add_extension_if_needed("myfile", "e57"), "myfile.e57");
    assert_eq!(add_extension_if_needed("myfile.las", "e57"), "myfile.las");
    assert_eq!(add_extension_if_needed("myfile.e57", "las"), "myfile.e57");
}

#[test]
fn extensions_are_read_behind_the_last_dot_of_the_name() {
    assert_eq!(detect_format("a.las.xyz"), None);
    assert_eq!(detect_format("a.xyz.LaZ"), Some(PointCloudFormat::Las));
    assert_eq!(detect_format("dir.las/scan"), None);
    assert_eq!(detect_format("dir/scan.e57"), Some(PointCloudFormat::E57));
    assert_eq!(detect_format("dir/scan.e57/"), Some(PointCloudFormat::E57));
    assert_eq!(detect_format("dir/scan.e57/."), Some(PointCloudFormat::E57));
    assert_eq!(detect_format("dir/scan.e57/.."), None);
    assert_eq!(detect_format(".las"), None);
    assert_eq!(detect_format("scan."), None);
    assert_eq!(detect_format("scan"), None);
    assert_eq!(detect_format(""), None);
    assert_eq!(detect_format("."), None);
    assert_eq!(detect_format("/"), None);
    assert_eq!(detect_format("C:\\scans\\scan.las"), Some(PointCloudFormat::Las));
}

#[test]
fn letters_beyond_ascii_are_lowered_too() {
    assert_eq!(extension_format(Some("ЛАС")), None);
    // The Kelvin sign has an ASCII letter as its lowercase, but not one of a format.
    assert_eq!(extension_format(Some("\u{212a}as")), None);
    assert_eq!(extension_format(Some("LAS")), Some(PointCloudFormat::Las));
    assert_eq!(extension_format(None), None);
}

#[test]
fn case_does_not_matter() {
    for (upper, lower) in [("LAS", "las"), ("LAZ", "laz"), ("E57", "e57"), ("XYZ", "xyz")] {
        assert_eq!(extension_format(Some(upper)), extension_format(Some(lower)));
    }
}

#[test]
fn other_extensions_are_replaced() {
    assert_eq!(add_extension_if_needed("cloud.xyz", "las"), "cloud.las");
    assert_eq!(add_extension_if_needed("a.b.c", "e57"), "a.b.e57");
    assert_eq!(add_extension_if_needed("dir.d/cloud", "e57"), "dir.d/cloud.e57");
    assert_eq!(add_extension_if_needed(".hidden", "las"), ".hidden.las");
    assert_eq!(add_extension_if_needed("cloud.xyz", ""), "cloud");
    assert_eq!(add_extension_if_needed("CLOUD.LAZ", "e57"), "CLOUD.LAZ");
}

#[test]
fn paths_without_a_file_name_stay_as_they_are() {
    assert_eq!(add_extension_if_needed("", "las"), "");
    assert_eq!(add_extension_if_needed("..", "las"), "..");
    assert_eq!(add_extension_if_needed("a/..", "las"), "a/..");
    assert_eq!(add_extension_if_needed("/", "las"), "/");
}

#[test]
fn saved_names_have_a_format() {
    for path in ["cloud", "cloud.txt", "dir/cloud.e57", "C:\\scans\\cloud.txt"] {
        for extension in ["las", "e57"] {
            let target = add_extension_if_needed(path, extension);
            assert!(detect_format(&target).is_some());
        }
    }
}

#[test]
fn defaults_follow_the_input() {
    assert_eq!(default_extension(Some(PointCloudFormat::E57)), "e57");
    assert_eq!(default_extension(Some(PointCloudFormat::Las)), "las");
    assert_eq!(default_extension(None), "las");
}

#[test]
fn proposed_names() {
    assert_eq!(suggested_name(Some("scan"), "e57"), "scan_processed.e57");
    assert_eq!(suggested_name(None, "las"), "output_processed.las");
    assert_eq!(
        detect_format(&suggested_name(Some("a.b"), "las")),
        Some(PointCloudFormat::Las)
    );
}

#[test]
fn paths_on_a_server() {
    assert_eq!(detect_format("\\\\server\\share\\scan.E57"), Some(PointCloudFormat::E57));
    assert_eq!(detect_format("//server/share/scan.las"), Some(PointCloudFormat::Las));
    assert_eq!(
        add_extension_if_needed("//server/share/scan", "las"),
        "//server/share/scan.las"
    );
    assert_eq!(
        add_extension_if_needed("\\\\server\\share\\scan.LAZ", "e57"),
        "\\\\server\\share\\scan.LAZ"
    );
}

#[test]
fn paths_that_end_in_a_slash_or_a_dot() {
    for path in ["dir/scan/", "dir/scan/.", "dir/scan.xyz/./"] {
        let target = add_extension_if_needed(path, "las");
        assert_eq!(std::path::Path::new(&target), std::path::Path::new("dir/scan.las"));
    }
}

#[test]
fn targets_for_known_extensions() {
    assert_eq!(target_for("Scan.LAZ", Some("LAZ"), "e57"), "Scan.LAZ");
    assert_eq!(target_for("\\\\odd\\Scan.e57", Some("e57"), "a/b"), "\\\\odd\\Scan.e57");
    assert_eq!(target_for("scan.xyz", Some("xyz"), "e57"), "scan.e57");
    assert_eq!(target_for("scan", None, "e57"), "scan.e57");
}

#[test]
fn saving_again_changes_nothing_and_the_rest_of_the_name_stays() {
    for path in ["dir.d/scan", "dir/a.b.c", "/scan.las", "./x/../scan.txt", "dir/scan/"] {
        let target = add_extension_if_needed(path, "e57");
        let (before, after) = (std::path::Path::new(path), std::path::Path::new(&target));
        assert_eq!(after.parent(), before.parent());
        assert_eq!(after.file_stem(), before.file_stem());
        assert_eq!(add_extension_if_needed(&target, "las"), target);
    }
}

#[test]
fn paths_that_systems_divide_differently() {
    assert_eq!(detect_format("\\\\?\\C:\\a.las"), Some(PointCloudFormat::Las));
    let target = add_extension_if_needed("C:\\a.b\\c", "las");
    assert!(target == "C:\\a.las" || target == "C:\\a.b\\c.las");
    let target = add_extension_if_needed("C:\\dir\\", "e57");
    assert!(target == "C:\\dir\\.e57" || target == "C:\\dir.e57");
    for path in ["C:\\a.b\\c", "C:\\dir\\", "x:y", "a:b.c"] {
        let target = add_extension_if_needed(path, "las");
        assert_eq!(detect_format(&target), Some(PointCloudFormat::Las));
        assert_eq!(add_extension_if_needed(&target, "e57"), target);
    }
}
