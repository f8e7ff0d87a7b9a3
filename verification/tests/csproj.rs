use dhara_storage::csproj::{
    get_or_add_property_group, normalize_pack_none_item, prune_empty_item_groups, set_or_add_property,
    sync_csproj, sync_csproj_tree, XmlElement, XmlNode,
};
use dhara_storage::repo::{CiConfig, NuGetConfig, RepoConfig, VersionConfig};

fn sample_config() -> RepoConfig {
    RepoConfig {
        versions: VersionConfig {
            rust_workspace: "0.2.0".to_owned(),
            nuget_package: "2.0.0".to_owned(),
        },
        nuget: NuGetConfig {
            package_id: "Rheo.Storage".to_owned(),
            source: "https://api.nuget.org/v3/index.json".to_owned(),
            authors: vec!["Naveen Dharmathunga".to_owned()],
            description: "High-level .NET bindings for the native Rheo Storage Rust runtime."
                .to_owned(),
            tags: vec!["storage".to_owned(), "ffi".to_owned(), "rust".to_owned()],
            readme: "bindings/dotnet/Rheo.Storage/README.md".to_owned(),
            icon: Some("bindings/dotnet/Rheo.Storage/icon-small.png".to_owned()),
            repository_url: "https://github.com/D-Naveenz/rheo_storage".to_owned(),
            project_url: "https://github.com/D-Naveenz/rheo_storage".to_owned(),
        },
        ci: CiConfig {
            smoke_project:
                "bindings/dotnet/Rheo.Storage.ConsumerSmoke/Rheo.Storage.ConsumerSmoke.csproj"
                    .to_owned(),
            package_project: "bindings/dotnet/Rheo.Storage/Rheo.Storage.csproj".to_owned(),
            tests_project: "bindings/dotnet/Rheo.Storage.Tests/Rheo.Storage.Tests.csproj".to_owned(),
            environment: "nuget-production".to_owned(),
            runtime: "win-x64".to_owned(),
        },
    }
}

fn element(name: &str, attributes: Vec<(&str, &str)>, children: Vec<XmlNode>) -> XmlElement {
    XmlElement {
        prefix: None,
        namespace: None,
        namespaces: None,
        name: name.to_owned(),
        attributes: attributes.into_iter().map(|(k, v)| (k.to_owned(), v.to_owned())).collect(),
        children,
    }
}

fn text_element(name: &str, value: &str) -> XmlNode {
    XmlNode::Element(element(name, vec![], vec![XmlNode::Text(value.to_owned())]))
}

fn as_element(n: &XmlNode) -> &XmlElement {
    match n {
        XmlNode::Element(e) => e,
        _ => panic!("expected an element"),
    }
}

fn property<'a>(group: &'a XmlElement, name: &str) -> Option<&'a str> {
    group.children.iter().find_map(|c| match c {
        XmlNode::Element(e) if e.name == name => match e.children.as_slice() {
            [XmlNode::Text(t)] => Some(t.as_str()),
            _ => None,
        },
        _ => None,
    })
}

#[test]
fn syncs_csproj_metadata() {
    let input = r#"<Project Sdk="Microsoft.NET.Sdk">
  <PropertyGroup>
    <TargetFramework>net10.0</TargetFramework>
  </PropertyGroup>
</Project>"#;
    let output = sync_csproj(input, &sample_config()).expect("csproj sync should succeed");
    assert!(output.contains("<PackageId>Rheo.Storage</PackageId>"));
    assert!(output.contains("<Version>2.0.0</Version>"));
    assert!(output.contains("<PackageIcon>icon-small.png</PackageIcon>"));
    assert!(output.contains("Include=\"README.md\""));
    assert!(output.contains("Include=\"icon-small.png\""));
}

#[test]
fn csproj_sync_rejects_unparsable_text() {
    assert_eq!(
        sync_csproj("<Project>", &sample_config()),
        Err("failed to parse Rheo.Storage.csproj".to_owned())
    );
}

#[test]
fn csproj_sync_rejects_readme_without_file_name() {
    let mut config = sample_config();
    config.nuget.readme = "docs/..".to_owned();
    assert_eq!(
        sync_csproj("<Project />", &config),
        Err("path must end with a file name: docs/..".to_owned())
    );
    let mut config = sample_config();
    config.nuget.icon = Some(String::new());
    assert_eq!(
        sync_csproj_tree(element("Project", vec![], vec![]), &config),
        Err("path must end with a file name: ".to_owned())
    );
}

#[test]
fn csproj_tree_sync_sets_properties_and_packed_items() {
    let project = element(
        "Project",
        vec![("Sdk", "Microsoft.NET.Sdk")],
        vec![
            XmlNode::Element(element("ItemGroup", vec![], vec![])),
            XmlNode::Element(element(
                "PropertyGroup",
                vec![],
                vec![text_element("TargetFramework", "net10.0"), text_element("Version", "1.0.0")],
            )),
            XmlNode::Element(element(
                "ItemGroup",
                vec![],
                vec![
                    XmlNode::Element(element("None", vec![("Include", "README.md")], vec![])),
                    XmlNode::Element(element("Compile", vec![("Include", "a.cs")], vec![])),
                ],
            )),
        ],
    );
    let synced = sync_csproj_tree(project, &sample_config()).expect("sync should succeed");
    assert_eq!(synced.name, "Project");
    assert_eq!(synced.attributes, vec![("Sdk".to_owned(), "Microsoft.NET.Sdk".to_owned())]);
    // The empty item group is gone; the edited one stays; two packed groups follow.
    assert_eq!(synced.children.len(), 4);
    let group = as_element(&synced.children[0]);
    assert_eq!(group.name, "PropertyGroup");
    assert_eq!(property(group, "TargetFramework"), Some("net10.0"));
    assert_eq!(property(group, "Version"), Some("2.0.0"));
    assert_eq!(property(group, "PackageId"), Some("Rheo.Storage"));
    assert_eq!(property(group, "PackageReadmeFile"), Some("README.md"));
    assert_eq!(property(group, "Authors"), Some("Naveen Dharmathunga"));
    assert_eq!(property(group, "PackageTags"), Some("storage;ffi;rust"));
    assert_eq!(property(group, "PackageIcon"), Some("icon-small.png"));
    // Version was replaced in place, the others appended in order.
    assert_eq!(as_element(&group.children[1]).name, "Version");
    assert_eq!(as_element(&group.children[2]).name, "PackageId");
    let kept = as_element(&synced.children[1]);
    assert_eq!(kept.children.len(), 1);
    assert_eq!(as_element(&kept.children[0]).name, "Compile");
    let readme = as_element(&as_element(&synced.children[2]).children[0]);
    assert_eq!(
        readme.attributes,
        vec![
            ("Include".to_owned(), "README.md".to_owned()),
            ("Pack".to_owned(), "true".to_owned()),
            ("PackagePath".to_owned(), "\\".to_owned()),
        ]
    );
    let icon = as_element(&as_element(&synced.children[3]).children[0]);
    assert_eq!(icon.attributes[0], ("Include".to_owned(), "icon-small.png".to_owned()));
}

#[test]
fn csproj_property_group_is_inserted_first_when_missing() {
    let mut project = element("Project", vec![], vec![XmlNode::Comment("c".to_owned())]);
    let g = get_or_add_property_group(&mut project);
    assert_eq!(g, 0);
    assert_eq!(project.children.len(), 2);
    assert_eq!(as_element(&project.children[0]).name, "PropertyGroup");
    let g = get_or_add_property_group(&mut project);
    assert_eq!(g, 0);
    assert_eq!(project.children.len(), 2);
}

#[test]
fn csproj_property_is_replaced_or_appended() {
    let mut group = element("PropertyGroup", vec![], vec![text_element("A", "1")]);
    set_or_add_property(&mut group, "A", "2");
    set_or_add_property(&mut group, "B", "3");
    assert_eq!(group.children.len(), 2);
    assert_eq!(property(&group, "A"), Some("2"));
    assert_eq!(property(&group, "B"), Some("3"));
}

#[test]
fn csproj_pack_item_drops_aliases_and_empty_groups() {
    let mut project = element(
        "Project",
        vec![],
        vec![
            XmlNode::Element(element(
                "ItemGroup",
                vec![],
                vec![
                    XmlNode::Element(element("None", vec![("Include", "docs/README.md")], vec![])),
                    XmlNode::Element(element("None", vec![("Include", "README.md")], vec![])),
                ],
            )),
            XmlNode::Element(element(
                "ItemGroup",
                vec![],
                vec![XmlNode::Element(element("None", vec![("Update", "README.md")], vec![]))],
            )),
        ],
    );
    normalize_pack_none_item(&mut project, &["docs/README.md", "README.md"], "README.md", "\\");
    assert_eq!(project.children.len(), 3);
    assert!(as_element(&project.children[0]).children.is_empty());
    assert_eq!(as_element(&project.children[1]).children.len(), 1);
    prune_empty_item_groups(&mut project);
    assert_eq!(project.children.len(), 2);
    assert_eq!(as_element(&project.children[0]).children.len(), 1);
    let item = as_element(&as_element(&project.children[1]).children[0]);
    assert_eq!(item.name, "None");
    assert_eq!(item.attributes[0], ("Include".to_owned(), "README.md".to_owned()));
}
