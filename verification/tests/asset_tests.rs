use boykisser::images_registry;
use boykisser::rust_art_registry;
use boykisser::AssetRetriever;
use boykisser::BinarySpec;
use boykisser::Registry;
use boykisser::RegistryError;
use boykisser::TextSpec;

#[test]
fn test_art_access() {
    let reg = rust_art_registry();
    assert!(!reg.get_text_asset("RUST_LOGO").unwrap().is_empty());
    assert!(!reg.get_text_asset("RUST_BANNER").unwrap().is_empty());
    assert_eq!(reg.list_text_assets()[0].name, "RUST_LOGO");
}

#[test]
fn test_binary_asset_access() {
    let reg = images_registry();
    let icon = reg.get_binary_asset("ICON_PNG").unwrap();
    assert!(!icon.is_empty());
    let infos = reg.list_binary_assets();
    assert_eq!(infos[0].format, "PNG");
    assert_eq!(infos[0].size, icon.len());
}

#[test]
fn test_declared_size_matches_content() {
    let mut reg = Registry::new(String::from("sizes"));
    let content = vec![10u8, 20, 30, 40, 50];
    let declared = reg.declare_binary_asset(
        String::from("BLOB"),
        content.clone(),
        String::from("RAW"),
        String::from("five bytes"),
    );
    assert!(declared.is_ok());
    let infos = reg.list_binary_assets();
    assert_eq!(infos.len(), 1);
    assert_eq!(infos[0].size, content.len());
    assert_eq!(reg.get_binary_asset("BLOB").unwrap(), content.as_slice());
}

#[test]
fn test_duplicate_binary_name_rejected() {
    let mut reg = Registry::new(String::from("dups"));
    let first = reg.declare_binary_asset(
        String::from("LOGO"),
        vec![1u8, 2, 3],
        String::from("PNG"),
        String::from("first"),
    );
    assert!(first.is_ok());
    let second = reg.declare_binary_asset(
        String::from("LOGO"),
        vec![9u8],
        String::from("PNG"),
        String::from("second"),
    );
    assert_eq!(second, Err(RegistryError::DuplicateName));
    // The failed declaration changed nothing.
    assert_eq!(reg.list_binary_assets().len(), 1);
    assert_eq!(reg.get_binary_asset("LOGO").unwrap(), &[1u8, 2, 3]);
}

#[test]
fn test_duplicate_text_name_rejected() {
    let mut reg = Registry::new(String::from("dups"));
    let first = reg.declare_text_asset(
        String::from("BANNER"),
        String::from("one"),
        String::from("first"),
    );
    assert!(first.is_ok());
    let second = reg.declare_text_asset(
        String::from("BANNER"),
        String::from("two"),
        String::from("second"),
    );
    assert_eq!(second, Err(RegistryError::DuplicateName));
    assert_eq!(reg.get_text_asset("BANNER").unwrap(), "one");
}

#[test]
fn test_binary_and_text_namespaces_are_independent() {
    let mut reg = Registry::new(String::from("mixed"));
    let bin = reg.declare_binary_asset(
        String::from("SAME"),
        vec![1u8],
        String::from("RAW"),
        String::from("binary"),
    );
    let txt = reg.declare_text_asset(
        String::from("SAME"),
        String::from("text"),
        String::from("text"),
    );
    assert!(bin.is_ok());
    assert!(txt.is_ok());
    assert_eq!(reg.get_binary_asset("SAME").unwrap(), &[1u8]);
    assert_eq!(reg.get_text_asset("SAME").unwrap(), "text");
}

#[test]
fn test_registry_listing_matches_specs() {
    let binary_specs = vec![
        BinarySpec {
            name: String::from("FAVICON"),
            content: vec![0u8, 1, 2],
            format: String::from("ICO"),
            description: String::from("website favicon"),
        },
        BinarySpec {
            name: String::from("LOGO"),
            content: vec![3u8, 4],
            format: String::from("PNG"),
            description: String::from("application logo"),
        },
    ];
    let text_specs = vec![
        TextSpec {
            name: String::from("README"),
            content: String::from("read me"),
            description: String::from("application readme file"),
        },
        TextSpec {
            name: String::from("LICENSE"),
            content: String::from("license text"),
            description: String::from("software license"),
        },
    ];
    let reg = boykisser::create_registry(String::from("default_assets"), binary_specs, text_specs)
        .unwrap();
    let bins = reg.list_binary_assets();
    let texts = reg.list_text_assets();
    assert_eq!(bins.len(), 2);
    assert_eq!(bins[0].name, "FAVICON");
    assert_eq!(bins[0].size, 3);
    assert_eq!(bins[1].name, "LOGO");
    assert_eq!(bins[1].size, 2);
    assert_eq!(texts.len(), 2);
    assert_eq!(texts[0].name, "README");
    assert_eq!(texts[1].name, "LICENSE");
    let names = reg.list_assets();
    assert_eq!(names, vec!["FAVICON", "LOGO", "README", "LICENSE"]);
}

#[test]
fn test_create_registry_duplicate_fails() {
    let binary_specs = vec![
        BinarySpec {
            name: String::from("A"),
            content: vec![1u8],
            format: String::from("RAW"),
            description: String::from("one"),
        },
        BinarySpec {
            name: String::from("A"),
            content: vec![2u8],
            format: String::from("RAW"),
            description: String::from("two"),
        },
    ];
    let built = boykisser::create_registry(String::from("bad"), binary_specs, vec![]);
    assert_eq!(built.err(), Some(RegistryError::DuplicateName));
}

#[test]
fn test_missing_assets_are_none() {
    let reg = Registry::new(String::from("empty"));
    assert!(reg.get_binary_asset("NOTHING").is_none());
    assert!(reg.get_text_asset("NOTHING").is_none());
    assert!(reg.list_assets().is_empty());
}
