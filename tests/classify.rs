use dlldepends::{classify, classify_events, has_reference, normalize_target, scan_document, ReferenceKind};

const PACKAGE_DOC: &str = r#"<Project><ItemGroup><PackageReference Include="Newtonsoft.Json" Version="13.0.1" /></ItemGroup></Project>"#;

#[test]
fn package_reference_is_found() {
    assert_eq!(classify(PACKAGE_DOC, "Newtonsoft.Json"), ReferenceKind::PackageReference);
}

#[test]
fn missing_target_is_not_found() {
    assert_eq!(classify(PACKAGE_DOC, "Missing.Lib"), ReferenceKind::NoReference);
}

#[test]
fn dll_suffix_is_stripped_before_matching() {
    let doc = r#"<Project><ItemGroup><Reference Include="System.Data" /></ItemGroup></Project>"#;
    assert_eq!(classify(doc, "System.Data.dll"), ReferenceKind::Reference);
}

#[test]
fn document_without_reference_tags_is_none() {
    let doc = r#"<Project Sdk="Microsoft.NET.Sdk"><PropertyGroup><TargetFramework>net8.0</TargetFramework></PropertyGroup><Compile Include="Grpc.Tools" /></Project>"#;
    assert_eq!(classify(doc, "Grpc.Tools"), ReferenceKind::NoReference);
    assert_eq!(classify("", "Grpc.Tools"), ReferenceKind::NoReference);
}

#[test]
fn each_kind_is_found_alone() {
    let r = r#"<Project><Reference Include="Lib"></Reference></Project>"#;
    let p = r#"<Project><PackageReference Include="Lib"/></Project>"#;
    let j = r#"<Project><ProjectReference Include="Lib"/></Project>"#;
    assert_eq!(classify(r, "Lib"), ReferenceKind::Reference);
    assert_eq!(classify(p, "Lib"), ReferenceKind::PackageReference);
    assert_eq!(classify(j, "Lib"), ReferenceKind::ProjectReference);
}

#[test]
fn priority_does_not_depend_on_order() {
    let a = r#"<Project><ProjectReference Include="Lib"/><PackageReference Include="Lib"/></Project>"#;
    let b = r#"<Project><PackageReference Include="Lib"/><ProjectReference Include="Lib"/></Project>"#;
    assert_eq!(classify(a, "Lib"), ReferenceKind::PackageReference);
    assert_eq!(classify(b, "Lib"), ReferenceKind::PackageReference);
    let c = r#"<Project><ProjectReference Include="Lib"/><PackageReference Include="Lib"/><Reference Include="Lib"/></Project>"#;
    assert_eq!(classify(c, "Lib"), ReferenceKind::Reference);
}

#[test]
fn suffix_and_bare_name_agree() {
    let docs = [
        r#"<Project><PackageReference Include="Grpc.Tools" Version="2.0"/></Project>"#,
        r#"<Project><Reference Include="Grpc.Tools"/></Project>"#,
        r#"<Project><Reference Include="Other"/></Project>"#,
    ];
    for doc in docs {
        assert_eq!(classify(doc, "Grpc.Tools.dll"), classify(doc, "Grpc.Tools"));
    }
    assert_eq!(classify(docs[0], "Grpc.Tools.dll"), ReferenceKind::PackageReference);
}

#[test]
fn tag_names_match_exactly() {
    let doc = r#"<Project><reference Include="Lib"/><PACKAGEREFERENCE Include="Lib"/></Project>"#;
    assert_eq!(classify(doc, "Lib"), ReferenceKind::NoReference);
}

#[test]
fn include_key_matches_in_any_case() {
    for key in ["Include", "INCLUDE", "include", "iNcLuDe"] {
        let doc = format!(r#"<Project><ProjectReference {key}="Lib"/></Project>"#);
        assert_eq!(classify(&doc, "Lib"), ReferenceKind::ProjectReference);
    }
    let doc = r#"<Project><ProjectReference Includes="Lib"/></Project>"#;
    assert_eq!(classify(doc, "Lib"), ReferenceKind::NoReference);
}

#[test]
fn include_value_matches_exactly() {
    let doc = r#"<Project><PackageReference Include="newtonsoft.json"/></Project>"#;
    assert_eq!(classify(doc, "Newtonsoft.Json"), ReferenceKind::NoReference);
    assert_eq!(classify(doc, "newtonsoft.json"), ReferenceKind::PackageReference);
}

#[test]
fn include_value_is_unescaped() {
    let doc = r#"<Project><PackageReference Include="A&amp;B"/></Project>"#;
    assert_eq!(classify(doc, "A&B"), ReferenceKind::PackageReference);
    assert_eq!(classify(doc, "A&amp;B"), ReferenceKind::NoReference);
}

#[test]
fn scan_stops_at_malformed_markup() {
    let before = r#"<Project><Reference Include="Lib"/></Wrong><PackageReference Include="Lib"/></Project>"#;
    assert_eq!(classify(before, "Lib"), ReferenceKind::Reference);
    let after = r#"<Project></Wrong><Reference Include="Lib"/></Project>"#;
    assert_eq!(classify(after, "Lib"), ReferenceKind::NoReference);
}

#[test]
fn normalize_target_cuts_directory_and_suffix() {
    assert_eq!(normalize_target("Grpc.Tools.dll"), "Grpc.Tools");
    assert_eq!(normalize_target("lib/net45/Grpc.Tools.DLL"), "Grpc.Tools");
    assert_eq!(normalize_target(r"C:\libs\System.Data.Dll"), "System.Data");
    assert_eq!(normalize_target("Grpc.Tools"), "Grpc.Tools");
    assert_eq!(normalize_target("dir/Grpc.Tools"), "dir/Grpc.Tools");
    assert_eq!(normalize_target("x.dl"), "x.dl");
}

#[test]
fn classify_events_agrees_with_classify() {
    let events = scan_document(PACKAGE_DOC);
    assert_eq!(classify_events(&events, "Newtonsoft.Json"), ReferenceKind::PackageReference);
    assert_eq!(classify_events(&events, "Newtonsoft.Json.dll"), ReferenceKind::PackageReference);
    assert_eq!(classify_events(&events, "Missing.Lib"), ReferenceKind::NoReference);
}

#[test]
fn has_reference_checks_one_kind() {
    let events = scan_document(PACKAGE_DOC);
    let name = "Newtonsoft.Json".to_string();
    assert!(has_reference(&events, ReferenceKind::PackageReference, &name));
    assert!(!has_reference(&events, ReferenceKind::Reference, &name));
    assert!(!has_reference(&events, ReferenceKind::ProjectReference, &name));
}

#[test]
fn kind_names() {
    assert_eq!(ReferenceKind::NoReference.name(), "None");
    assert_eq!(ReferenceKind::Reference.name(), "Reference");
    assert_eq!(ReferenceKind::PackageReference.name(), "PackageReference");
    assert_eq!(ReferenceKind::ProjectReference.name(), "ProjectReference");
}
