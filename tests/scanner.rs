use dlldepends::{project_dialect, scan_document, Attribute, Element, ScanEvent};

fn attr(key: &str, value: &str) -> Option<Attribute> {
    Some(Attribute { key: key.to_string(), value: value.to_string() })
}

#[test]
fn scan_reports_start_and_empty_tags() {
    let events = scan_document("<Project Sdk=\"S\">\n  <Reference Include=\"A\" Private=\"false\" />\n</Project>");
    assert_eq!(
        events,
        vec![
            ScanEvent::Start(Element { name: "Project".to_string(), attributes: vec![attr("Sdk", "S")] }),
            ScanEvent::Empty(Element {
                name: "Reference".to_string(),
                attributes: vec![attr("Include", "A"), attr("Private", "false")],
            }),
            ScanEvent::Other,
            ScanEvent::EndOfDocument,
        ]
    );
}

#[test]
fn scan_of_empty_text_ends_at_once() {
    assert_eq!(scan_document(""), vec![ScanEvent::EndOfDocument]);
    assert_eq!(scan_document("   \n  "), vec![ScanEvent::EndOfDocument]);
}

#[test]
fn scan_ends_at_malformed_markup() {
    let events = scan_document("<a></b><c/>");
    assert_eq!(events.len(), 2);
    assert_eq!(events[1], ScanEvent::Malformed);
}

#[test]
fn dialect_from_sdk_or_xmlns() {
    let sdk = scan_document(r#"<Project Sdk="Microsoft.NET.Sdk"><Reference Include="A"/></Project>"#);
    assert_eq!(project_dialect(&sdk), Some("Microsoft.NET.Sdk".to_string()));
    let ns = scan_document(r#"<Project ToolsVersion="15.0" XMLNS="http://schemas.microsoft.com/developer/msbuild/2003"></Project>"#);
    assert_eq!(
        project_dialect(&ns),
        Some("http://schemas.microsoft.com/developer/msbuild/2003".to_string())
    );
    let none = scan_document(r#"<Project><Item sdk="x"></Item></Project>"#);
    assert_eq!(project_dialect(&none), Some("x".to_string()));
    let empty_tag = scan_document(r#"<Project/>"#);
    assert_eq!(project_dialect(&empty_tag), None);
}
