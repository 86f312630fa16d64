use sbom_license::spdx_license::{
    classify_references, license_references, package_records, resolve_in_document,
    spdx_license_records, ExpressionPolicy, HasLicenseInfo, LicenseInfo, PackageObj, Packages,
    ReferenceObj,
};

fn reference(kind: &str, locator: &str) -> ReferenceObj {
    ReferenceObj {
        reference_category: "PACKAGE-MANAGER".to_string(),
        reference_locator: locator.to_string(),
        reference_type: kind.to_string(),
    }
}

fn package(name: &str, declared: Option<&str>, refs: Option<Vec<ReferenceObj>>) -> PackageObj {
    PackageObj {
        license_declared: declared.map(|d| d.to_string()),
        external_refs: refs,
        name: name.to_string(),
    }
}

fn document(table: Option<Vec<LicenseInfo>>) -> HasLicenseInfo {
    HasLicenseInfo {
        has_extracted_licensing_infos: table,
        document_namespace: "https://example.com/doc".to_string(),
        name: "example-doc".to_string(),
    }
}

fn custom_table() -> Vec<LicenseInfo> {
    vec![LicenseInfo {
        extracted_text: "Permission is granted".to_string(),
        license_id: "Custom-1".to_string(),
        name: "My Custom License".to_string(),
        comment: "from vendor".to_string(),
    }]
}

#[test]
fn custom_license_resolves_to_its_name() {
    let doc = document(Some(custom_table()));
    let pkg = package("foo", Some("Custom-1"), None);
    let rows = package_records(&doc, &pkg, ExpressionPolicy::PerIdentifier);
    assert_eq!(rows.len(), 1);
    assert_eq!(rows[0].license_id, "Custom-1");
    assert_eq!(rows[0].license_name, "My Custom License");
    assert_eq!(rows[0].license_expression, "");
}

#[test]
fn per_identifier_rows_follow_the_split() {
    let doc = document(Some(custom_table()));
    let refs = vec![reference("purl", "pkg:npm/p@1"), reference("cpe23Type", "cpe:2.3:a:x:p:1")];
    let pkg = package("p", Some("MIT OR (Apache-2.0 AND Custom-1)"), Some(refs));
    let rows = package_records(&doc, &pkg, ExpressionPolicy::PerIdentifier);
    let ids: Vec<&str> = rows.iter().map(|r| r.license_id.as_str()).collect();
    assert_eq!(ids, vec!["MIT", "Apache-2.0", "Custom-1"]);
    let names: Vec<&str> = rows.iter().map(|r| r.license_name.as_str()).collect();
    assert_eq!(names, vec!["MIT", "Apache-2.0", "My Custom License"]);
    for r in &rows {
        assert_eq!(r.name, "example-doc");
        assert_eq!(r.namespace, "https://example.com/doc");
        assert_eq!(r.group, "");
        assert_eq!(r.version, "");
        assert_eq!(r.package_reference, "pkg:npm/p@1");
        assert_eq!(r.alternate_ref, "cpe:2.3:a:x:p:1");
    }
}

#[test]
fn whole_expression_row_keeps_expression() {
    let doc = document(None);
    let pkg = package("p", Some("MIT OR (Apache-2.0 AND Custom-1)"), None);
    let rows = package_records(&doc, &pkg, ExpressionPolicy::WholeExpression);
    assert_eq!(rows.len(), 1);
    assert_eq!(rows[0].license_expression, "MIT OR (Apache-2.0 AND Custom-1)");
    assert_eq!(rows[0].license_id, "");
    assert_eq!(rows[0].license_name, "");
    assert_eq!(rows[0].package_reference, "");
    assert_eq!(rows[0].alternate_ref, "");
}

#[test]
fn package_without_declared_license_yields_nothing() {
    let doc = document(Some(custom_table()));
    let pkg = package("p", None, Some(vec![reference("purl", "pkg:npm/p@1")]));
    assert!(package_records(&doc, &pkg, ExpressionPolicy::PerIdentifier).is_empty());
    assert!(package_records(&doc, &pkg, ExpressionPolicy::WholeExpression).is_empty());
}

#[test]
fn last_purl_wins_and_others_join_in_order() {
    let refs = Some(vec![
        reference("purl", "pkg:npm/a@1"),
        reference("cpe23Type", "cpe:first"),
        reference("purl", "pkg:npm/a@2"),
        reference("swh", "swh:second"),
    ]);
    let (purl, alternate) = classify_references(&refs);
    assert_eq!(purl, "pkg:npm/a@2");
    assert_eq!(alternate, "cpe:first\nswh:second");
}

#[test]
fn absent_references_are_empty() {
    let (purl, alternate) = classify_references(&None);
    assert_eq!(purl, "");
    assert_eq!(alternate, "");
    let (purl, alternate) = classify_references(&Some(Vec::new()));
    assert_eq!(purl, "");
    assert_eq!(alternate, "");
}

#[test]
fn document_row_count_is_sum_of_packages() {
    let doc = document(Some(custom_table()));
    let pkgs = Packages {
        packages: vec![
            package("a", Some("MIT OR Apache-2.0"), None),
            package("b", None, None),
            package("c", Some("(GPL-2.0 AND Custom-1) OR BSD"), None),
            package("d", Some(""), None),
        ],
    };
    let per_id = spdx_license_records(&pkgs, &doc, ExpressionPolicy::PerIdentifier);
    assert_eq!(per_id.len(), 2 + 0 + 3 + 0);
    let ids: Vec<&str> = per_id.iter().map(|r| r.license_id.as_str()).collect();
    assert_eq!(ids, vec!["MIT", "Apache-2.0", "GPL-2.0", "Custom-1", "BSD"]);
    let whole = spdx_license_records(&pkgs, &doc, ExpressionPolicy::WholeExpression);
    assert_eq!(whole.len(), 3);
    assert_eq!(whole[2].license_expression, "");
}

#[test]
fn empty_document_yields_nothing() {
    let doc = document(None);
    let pkgs = Packages { packages: Vec::new() };
    assert!(spdx_license_records(&pkgs, &doc, ExpressionPolicy::PerIdentifier).is_empty());
    assert!(license_references(&doc).is_empty());
}

#[test]
fn reference_table_is_transcribed_verbatim() {
    let mut table = custom_table();
    table.push(LicenseInfo {
        extracted_text: "Other text".to_string(),
        license_id: "Custom-2".to_string(),
        name: "Second".to_string(),
        comment: String::new(),
    });
    let doc = document(Some(table));
    let rows = license_references(&doc);
    assert_eq!(rows.len(), 2);
    assert_eq!(rows[0].license_id, "Custom-1");
    assert_eq!(rows[0].name, "My Custom License");
    assert_eq!(rows[0].extracted_text, "Permission is granted");
    assert_eq!(rows[0].comment, "from vendor");
    assert_eq!(rows[1].license_id, "Custom-2");
    assert_eq!(rows[1].extracted_text, "Other text");
}

#[test]
fn resolution_without_table_keeps_identifier() {
    let doc = document(None);
    assert_eq!(resolve_in_document(&"Custom-1".to_string(), &doc), "Custom-1");
    let doc = document(Some(custom_table()));
    assert_eq!(resolve_in_document(&"Custom-1".to_string(), &doc), "My Custom License");
}
