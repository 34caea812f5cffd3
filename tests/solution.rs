use dlldepends::{enumerate_projects, SolutionError};

const MANIFEST: &str = "\
Microsoft Visual Studio Solution File, Format Version 12.00
# Visual Studio Version 17
Project(\"{FAE04EC0-301F-11D3-BF4B-00C04F79EFBC}\") = \"App\", \"App\\App.csproj\", \"{11111111-1111-1111-1111-111111111111}\"
EndProject
Project(\"{FAE04EC0-301F-11D3-BF4B-00C04F79EFBC}\") = \"App\", \"Tools\\App\\App.csproj\", \"{22222222-2222-2222-2222-222222222222}\"
EndProject
Global
EndGlobal
";

#[test]
fn two_projects_are_listed_in_order() {
    let paths = enumerate_projects(MANIFEST, "/work/sol/Main.sln").unwrap();
    assert_eq!(paths, vec!["/work/sol/App\\App.csproj".to_string(), "/work/sol/Tools\\App\\App.csproj".to_string()]);
    assert!(paths.iter().all(|p| p.ends_with("App\\App.csproj")));
}

#[test]
fn enumeration_is_repeatable() {
    let first = enumerate_projects(MANIFEST, "/work/sol/Main.sln");
    let second = enumerate_projects(MANIFEST, "/work/sol/Main.sln");
    assert_eq!(first, second);
}

#[test]
fn windows_manifest_directory_is_kept() {
    let paths = enumerate_projects(MANIFEST, r"D:\Dev\Hub\Hub.sln").unwrap();
    assert_eq!(paths[0], r"D:\Dev\Hub\App\App.csproj");
}

#[test]
fn bare_manifest_name_gives_relative_paths() {
    let paths = enumerate_projects(MANIFEST, "Main.sln").unwrap();
    assert_eq!(paths[0], "App\\App.csproj");
}

#[test]
fn manifest_path_without_file_is_refused() {
    assert_eq!(enumerate_projects(MANIFEST, ""), Err(SolutionError::NoParentDirectory));
    assert_eq!(enumerate_projects(MANIFEST, "/work/sol/"), Err(SolutionError::NoParentDirectory));
}

#[test]
fn indented_and_crlf_lines_are_read() {
    let text = "  Project(\"{X}\") = \"A\",   \"A/A.csproj\"  , \"{Y}\"\r\nProject(\"{X}\") = \"B\", B.csproj\r\n";
    let paths = enumerate_projects(text, "s/x.sln").unwrap();
    assert_eq!(paths, vec!["s/A/A.csproj".to_string(), "s/B.csproj".to_string()]);
}

#[test]
fn other_lines_are_passed_over() {
    let text = "EndProject\nProject(\"{X}\")\nGlobalSection(ProjectConfigurationPlatforms) = postSolution\n";
    assert_eq!(enumerate_projects(text, "s/x.sln").unwrap(), Vec::<String>::new());
    assert_eq!(enumerate_projects("", "s/x.sln").unwrap(), Vec::<String>::new());
}
