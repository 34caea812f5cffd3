use dlldepends::{find_references, ProjectDocument, ProjectReferenceRecord, ReferenceKind};

fn project(path: &str, text: Option<&str>) -> ProjectDocument {
    ProjectDocument { path: path.to_string(), text: text.map(|t| t.to_string()) }
}

#[test]
fn found_projects_keep_their_order() {
    let projects = vec![
        project("a.csproj", Some(r#"<Project><ProjectReference Include="Lib"/></Project>"#)),
        project("b.csproj", Some(r#"<Project><PackageReference Include="Other"/></Project>"#)),
        project("c.csproj", None),
        project("d.csproj", Some(r#"<Project><Reference Include="Lib"/></Project>"#)),
    ];
    let report = find_references(&projects, "Lib.dll");
    assert_eq!(
        report.found,
        vec![
            ProjectReferenceRecord { project_path: "a.csproj".to_string(), kind: ReferenceKind::ProjectReference },
            ProjectReferenceRecord { project_path: "d.csproj".to_string(), kind: ReferenceKind::Reference },
        ]
    );
    assert_eq!(report.unreadable, vec!["c.csproj".to_string()]);
}

#[test]
fn no_projects_no_findings() {
    let report = find_references(&Vec::new(), "Lib");
    assert!(report.found.is_empty());
    assert!(report.unreadable.is_empty());
}
