use includer::{Asset, WebAsset};

#[test]
fn asset_getters() {
    let a = Asset { uri: "/a.txt", data: b"0123456789" };
    assert_eq!(a.uri(), "/a.txt");
    assert_eq!(a.data().len(), 10);
}

#[test]
fn web_asset_getters() {
    let w = WebAsset {
        uri: "/",
        data: b"<html>",
        data_gz: Some(b"gz"),
        data_br: None,
        mime: "text/plain",
    };
    assert_eq!(w.uri(), "/");
    assert_eq!(w.data(), b"<html>");
    assert_eq!(w.data_gz(), Some(&b"gz"[..]));
    assert_eq!(w.data_br(), None);
    assert_eq!(w.mime_type(), "text/plain");
}
