use previewer::sidecar_path;

#[test]
fn sidecar_path_appends_suffix() {
    let p = sidecar_path("/tmp/foo.png");
    assert_eq!(p, "/tmp/foo.png.previewer.json");
}

#[test]
fn sidecar_path_handles_no_extension() {
    let p = sidecar_path("/tmp/foo");
    assert_eq!(p, "/tmp/foo.previewer.json");
}

#[test]
fn sidecar_path_of_relative_name() {
    assert_eq!(sidecar_path("scan.JPG"), "scan.JPG.previewer.json");
}
