//! Flattening of SPDX documents: one record per package license, and a
//! transcription of the extracted-license-info table.
use vstd::prelude::*;
use vstd::string::*;
use crate::expression::{join_with, lemma_join_push, license_identifiers, split_license_expression, texts};
use crate::record::{opt_items, opt_text, text_or_empty, FlatRecord};

verus! {

/// An entry of a package's `externalRefs`.
#[derive(Debug)]
pub struct ReferenceObj {
    pub reference_category: String,
    pub reference_locator: String,
    pub reference_type: String,
}

#[derive(Debug)]
pub struct PackageObj {
    pub license_declared: Option<String>,
    pub external_refs: Option<Vec<ReferenceObj>>,
    pub name: String,
}

#[derive(Debug)]
pub struct Packages {
    pub packages: Vec<PackageObj>,
}

/// An entry of `hasExtractedLicensingInfos`.
#[derive(Debug)]
pub struct LicenseInfo {
    pub extracted_text: String,
    pub license_id: String,
    pub name: String,
    pub comment: String,
}

/// The document's identity and its extracted-license-info table.
#[derive(Debug)]
pub struct HasLicenseInfo {
    pub has_extracted_licensing_infos: Option<Vec<LicenseInfo>>,
    pub document_namespace: String,
    pub name: String,
}

/// A package-license record.
#[derive(Debug, PartialEq, Eq)]
pub struct LicenseHeader {
    pub name: String,
    pub namespace: String,
    pub group: String,
    pub version: String,
    pub package_reference: String,
    pub license_id: String,
    pub license_name: String,
    pub license_expression: String,
    pub alternate_ref: String,
}

/// A row of the license-reference table.
#[derive(Debug, PartialEq, Eq)]
pub struct LicenseRefHeader {
    pub license_id: String,
    pub name: String,
    pub extracted_text: String,
    pub comment: String,
}

/// How a package's declared license expression becomes records.
#[derive(Debug, Clone, Copy, PartialEq, Eq)]
pub enum ExpressionPolicy {
    /// One record per atomic identifier, each with its resolved name.
    PerIdentifier,
    /// One record per package, holding the whole expression unsplit.
    WholeExpression,
}

impl View for LicenseHeader {
    type V = FlatRecord;

    open spec fn view(&self) -> FlatRecord {
        FlatRecord {
            name: self.name@,
            namespace: self.namespace@,
            group: self.group@,
            version: self.version@,
            package_reference: self.package_reference@,
            license_id: self.license_id@,
            license_name: self.license_name@,
            license_expression: self.license_expression@,
            alternate_reference: self.alternate_ref@,
        }
    }
}

pub open spec fn views(v: Seq<LicenseHeader>) -> Seq<FlatRecord> {
    v.map_values(|h: LicenseHeader| h@)
}

pub open spec fn purl_type() -> Seq<char> {
    seq!['p', 'u', 'r', 'l']
}

pub open spec fn newline() -> Seq<char> {
    seq!['\n']
}

/// The extracted-license-info table, empty where the document has none.
pub open spec fn info_table(doc: HasLicenseInfo) -> Seq<LicenseInfo> {
    opt_items(doc.has_extracted_licensing_infos)
}

/// The name of the first table entry whose id is `id`, else `id` itself.
pub open spec fn resolved_name(id: Seq<char>, table: Seq<LicenseInfo>) -> Seq<char>
    decreases table.len(),
{
    if table.len() == 0 {
        id
    } else if table[0].license_id@ == id {
        table[0].name@
    } else {
        resolved_name(id, table.drop_first())
    }
}

/// The locator of the last `purl`-typed reference, else empty.
pub open spec fn package_reference(refs: Seq<ReferenceObj>) -> Seq<char>
    decreases refs.len(),
{
    if refs.len() == 0 {
        seq![]
    } else if refs.last().reference_type@ == purl_type() {
        refs.last().reference_locator@
    } else {
        package_reference(refs.drop_last())
    }
}

/// The locators of the other references, in order.
pub open spec fn alternate_locators(refs: Seq<ReferenceObj>) -> Seq<Seq<char>>
    decreases refs.len(),
{
    if refs.len() == 0 {
        seq![]
    } else if refs.last().reference_type@ == purl_type() {
        alternate_locators(refs.drop_last())
    } else {
        alternate_locators(refs.drop_last()).push(refs.last().reference_locator@)
    }
}

/// The record of one identifier of a package's declared expression. Every
/// identifier of the split is resolved, not only the first.
pub open spec fn identifier_record(doc: HasLicenseInfo, pkg: PackageObj, id: Seq<char>) -> FlatRecord {
    let refs = opt_items(pkg.external_refs);
    FlatRecord {
        name: doc.name@,
        namespace: doc.document_namespace@,
        group: seq![],
        version: seq![],
        package_reference: package_reference(refs),
        license_id: id,
        license_name: resolved_name(id, info_table(doc)),
        license_expression: seq![],
        alternate_reference: join_with(alternate_locators(refs), newline()),
    }
}

/// The record of a package's whole declared expression.
pub open spec fn expression_record(doc: HasLicenseInfo, pkg: PackageObj, expr: Seq<char>) -> FlatRecord {
    let refs = opt_items(pkg.external_refs);
    FlatRecord {
        name: doc.name@,
        namespace: doc.document_namespace@,
        group: seq![],
        version: seq![],
        package_reference: package_reference(refs),
        license_id: seq![],
        license_name: seq![],
        license_expression: expr,
        alternate_reference: join_with(alternate_locators(refs), newline()),
    }
}

/// One record per identifier, in order.
pub open spec fn identifier_rows(doc: HasLicenseInfo, pkg: PackageObj, ids: Seq<Seq<char>>) -> Seq<FlatRecord> {
    ids.map_values(|id: Seq<char>| identifier_record(doc, pkg, id))
}

/// The records of one package: none without a declared license.
pub open spec fn package_rows(doc: HasLicenseInfo, pkg: PackageObj, policy: ExpressionPolicy) -> Seq<FlatRecord> {
    match pkg.license_declared {
        None => seq![],
        Some(expr) => match policy {
            ExpressionPolicy::PerIdentifier => identifier_rows(doc, pkg, license_identifiers(expr@)),
            ExpressionPolicy::WholeExpression => seq![expression_record(doc, pkg, expr@)],
        },
    }
}

/// The records of the packages, in order.
pub open spec fn spdx_rows(doc: HasLicenseInfo, pkgs: Seq<PackageObj>, policy: ExpressionPolicy) -> Seq<FlatRecord>
    decreases pkgs.len(),
{
    if pkgs.len() == 0 {
        seq![]
    } else {
        spdx_rows(doc, pkgs.drop_last(), policy) + package_rows(doc, pkgs.last(), policy)
    }
}

/// The display name of `id`: the name of the first entry of `table` whose
/// license id equals it, or `id` itself where none does.
pub fn resolve_license_name(id: &String, table: &Vec<LicenseInfo>) -> (r: String)
    ensures
        r@ == resolved_name(id@, table@),
{
    let mut i: usize = 0;
    proof {
        assert(table@.subrange(0, table@.len() as int) =~= table@);
    }
    while i < table.len()
        invariant
            0 <= i <= table.len(),
            resolved_name(id@, table@) == resolved_name(id@, table@.subrange(i as int, table@.len() as int)),
        decreases table.len() - i,
    {
        proof {
            assert(table@.subrange(i as int, table@.len() as int).drop_first()
                =~= table@.subrange(i + 1, table@.len() as int));
        }
        if table[i].license_id == *id {
            return table[i].name.clone();
        }
        i += 1;
    }
    id.clone()
}

/// A reference-table row that transcribes `info` verbatim.
pub open spec fn transcribes(h: LicenseRefHeader, info: LicenseInfo) -> bool {
    &&& h.license_id@ == info.license_id@
    &&& h.name@ == info.name@
    &&& h.extracted_text@ == info.extracted_text@
    &&& h.comment@ == info.comment@
}

/// The display name of `id` against the document's extracted-license-info
/// table; `id` itself where the document has no table.
pub fn resolve_in_document(id: &String, doc: &HasLicenseInfo) -> (r: String)
    ensures
        r@ == resolved_name(id@, info_table(*doc)),
{
    match &doc.has_extracted_licensing_infos {
        Some(table) => resolve_license_name(id, table),
        None => id.clone(),
    }
}

/// The package reference (the locator of the last `purl`-typed entry) and
/// the alternate reference (the other locators joined by line breaks, in
/// order) of a package's external references.
pub fn classify_references(refs: &Option<Vec<ReferenceObj>>) -> (r: (String, String))
    ensures
        r.0@ == package_reference(opt_items(*refs)),
        r.1@ == join_with(alternate_locators(opt_items(*refs)), newline()),
{
    let mut purl = String::new();
    let mut alternate = String::new();
    let list = match refs {
        Some(v) => v,
        None => {
            return (purl, alternate);
        },
    };
    let purl_kind = String::from_str("purl");
    let separator = "\n";
    proof {
        reveal_strlit("purl");
        reveal_strlit("\n");
        assert(purl_kind@ =~= purl_type());
        assert(separator@ =~= newline());
    }
    let ghost all = list@;
    let mut has_alternate = false;
    let mut i: usize = 0;
    while i < list.len()
        invariant
            0 <= i <= list.len(),
            all == list@,
            purl_kind@ == purl_type(),
            separator@ == newline(),
            purl@ == package_reference(all.subrange(0, i as int)),
            alternate@ == join_with(alternate_locators(all.subrange(0, i as int)), newline()),
            has_alternate == (alternate_locators(all.subrange(0, i as int)).len() > 0),
        decreases list.len() - i,
    {
        let reference = &list[i];
        let ghost prev = alternate_locators(all.subrange(0, i as int));
        proof {
            assert(all.subrange(0, i + 1).drop_last() =~= all.subrange(0, i as int));
            assert(all.subrange(0, i + 1).last() == *reference);
        }
        if reference.reference_type == purl_kind {
            purl = reference.reference_locator.clone();
        } else {
            if has_alternate {
                alternate.append(separator);
                proof {
                    lemma_join_push(prev, reference.reference_locator@, newline());
                }
            } else {
                proof {
                    assert(prev.push(reference.reference_locator@) =~= seq![reference.reference_locator@]);
                }
            }
            alternate.append(reference.reference_locator.as_str());
            has_alternate = true;
        }
        i += 1;
    }
    proof {
        assert(all.subrange(0, list.len() as int) =~= all);
    }
    (purl, alternate)
}

/// The records of one package under `policy`; none where it declares no license.
pub fn package_records(doc: &HasLicenseInfo, pkg: &PackageObj, policy: ExpressionPolicy) -> (r: Vec<LicenseHeader>)
    ensures
        views(r@) == package_rows(*doc, *pkg, policy),
{
    let expr = match &pkg.license_declared {
        Some(e) => e,
        None => {
            let r: Vec<LicenseHeader> = Vec::new();
            proof {
                assert(views(r@) =~= seq![]);
            }
            return r;
        },
    };
    let (purl, alternate) = classify_references(&pkg.external_refs);
    match policy {
        ExpressionPolicy::WholeExpression => {
            let r = vec![LicenseHeader {
                name: doc.name.clone(),
                namespace: doc.document_namespace.clone(),
                group: String::new(),
                version: String::new(),
                package_reference: purl,
                license_id: String::new(),
                license_name: String::new(),
                license_expression: expr.clone(),
                alternate_ref: alternate,
            }];
            proof {
                assert(views(r@) =~= package_rows(*doc, *pkg, policy));
            }
            r
        },
        ExpressionPolicy::PerIdentifier => {
            let ids = split_license_expression(expr.as_str());
            let ghost goal = package_rows(*doc, *pkg, policy);
            proof {
                assert(pkg.license_declared == Some(*expr));
                assert(goal == identifier_rows(*doc, *pkg, license_identifiers(expr@)));
            }
            let mut out: Vec<LicenseHeader> = Vec::new();
            let mut j: usize = 0;
            while j < ids.len()
                invariant
                    0 <= j <= ids.len(),
                    texts(ids@) == license_identifiers(expr@),
                    goal.len() == ids.len(),
                    goal == identifier_rows(*doc, *pkg, license_identifiers(expr@)),
                    purl@ == package_reference(opt_items(pkg.external_refs)),
                    alternate@ == join_with(alternate_locators(opt_items(pkg.external_refs)), newline()),
                    out.len() == j,
                    forall|k: int| 0 <= k < j ==> #[trigger] out@[k]@ == goal[k],
                decreases ids.len() - j,
            {
                let id = &ids[j];
                proof {
                    assert(texts(ids@)[j as int] == id@);
                }
                let license_name = resolve_in_document(id, doc);
                out.push(LicenseHeader {
                    name: doc.name.clone(),
                    namespace: doc.document_namespace.clone(),
                    group: String::new(),
                    version: String::new(),
                    package_reference: purl.clone(),
                    license_id: id.clone(),
                    license_name,
                    license_expression: String::new(),
                    alternate_ref: alternate.clone(),
                });
                proof {
                    assert(goal[j as int] == identifier_record(*doc, *pkg, id@));
                    assert(out@[j as int]@ =~= goal[j as int]);
                }
                j += 1;
            }
            proof {
                assert(views(out@) =~= goal);
            }
            out
        },
    }
}

/// The records of every package of the document, package by package, with
/// the document's name and namespace as prefix columns.
pub fn spdx_license_records(packages: &Packages, license_extract: &HasLicenseInfo, policy: ExpressionPolicy) -> (r: Vec<LicenseHeader>)
    ensures
        views(r@) == spdx_rows(*license_extract, packages.packages@, policy),
{
    let ghost all = packages.packages@;
    let mut out: Vec<LicenseHeader> = Vec::new();
    let mut i: usize = 0;
    proof {
        assert(views(out@) =~= spdx_rows(*license_extract, all.subrange(0, 0), policy));
    }
    while i < packages.packages.len()
        invariant
            0 <= i <= all.len(),
            all == packages.packages@,
            views(out@) == spdx_rows(*license_extract, all.subrange(0, i as int), policy),
        decreases all.len() - i,
    {
        let mut rows = package_records(license_extract, &packages.packages[i], policy);
        let ghost before = out@;
        let ghost added = rows@;
        out.append(&mut rows);
        proof {
            assert(all.subrange(0, i + 1).drop_last() =~= all.subrange(0, i as int));
            assert(views(before + added) =~= views(before) + views(added));
        }
        i += 1;
    }
    proof {
        assert(all.subrange(0, all.len() as int) =~= all);
    }
    out
}

/// The license-reference table: one row per extracted-license-info entry,
/// in order, each a verbatim transcription.
pub fn license_references(license_ref: &HasLicenseInfo) -> (r: Vec<LicenseRefHeader>)
    ensures
        r.len() == info_table(*license_ref).len(),
        forall|i: int| 0 <= i < r.len() ==> transcribes(#[trigger] r@[i], info_table(*license_ref)[i]),
{
    let mut out: Vec<LicenseRefHeader> = Vec::new();
    if let Some(table) = &license_ref.has_extracted_licensing_infos {
        let mut i: usize = 0;
        while i < table.len()
            invariant
                0 <= i <= table.len(),
                table@ == info_table(*license_ref),
                out.len() == i,
                forall|k: int| 0 <= k < i ==> transcribes(#[trigger] out@[k], table@[k]),
            decreases table.len() - i,
        {
            let info = &table[i];
            out.push(LicenseRefHeader {
                license_id: info.license_id.clone(),
                name: info.name.clone(),
                extracted_text: info.extracted_text.clone(),
                comment: info.comment.clone(),
            });
            i += 1;
        }
    }
    out
}

/// How many records a package yields under `policy`.
pub open spec fn package_row_count(pkg: PackageObj, policy: ExpressionPolicy) -> nat {
    match pkg.license_declared {
        None => 0,
        Some(expr) => match policy {
            ExpressionPolicy::PerIdentifier => license_identifiers(expr@).len(),
            ExpressionPolicy::WholeExpression => 1,
        },
    }
}

/// The sum of the packages' record counts.
pub open spec fn total_row_count(pkgs: Seq<PackageObj>, policy: ExpressionPolicy) -> nat
    decreases pkgs.len(),
{
    if pkgs.len() == 0 {
        0
    } else {
        total_row_count(pkgs.drop_last(), policy) + package_row_count(pkgs.last(), policy)
    }
}

/// A package that declares no license yields no record, under either policy.
pub proof fn lemma_unlicensed_package_no_rows(doc: HasLicenseInfo, pkg: PackageObj, policy: ExpressionPolicy)
    requires
        pkg.license_declared is None,
    ensures
        package_rows(doc, pkg, policy).len() == 0,
{
}

/// The document's records number exactly the sum of its packages' counts:
/// one per identifier, or one per licensed package, and none for the rest.
pub proof fn lemma_spdx_row_count(doc: HasLicenseInfo, pkgs: Seq<PackageObj>, policy: ExpressionPolicy)
    ensures
        spdx_rows(doc, pkgs, policy).len() == total_row_count(pkgs, policy),
    decreases pkgs.len(),
{
    if pkgs.len() > 0 {
        lemma_spdx_row_count(doc, pkgs.drop_last(), policy);
    }
}

/// A name that no entry of the table has as its license id resolves to
/// itself; so resolving a display name that was already resolved, and is no
/// license id, leaves it unchanged.
pub proof fn lemma_unlisted_name_unchanged(name: Seq<char>, table: Seq<LicenseInfo>)
    requires
        forall|k: int| 0 <= k < table.len() ==> (#[trigger] table[k]).license_id@ != name,
    ensures
        resolved_name(name, table) == name,
    decreases table.len(),
{
    if table.len() > 0 {
        let rest = table.drop_first();
        assert forall|k: int| 0 <= k < rest.len() implies (#[trigger] rest[k]).license_id@ != name by {
            assert(rest[k] == table[k + 1]);
        }
        lemma_unlisted_name_unchanged(name, rest);
    }
}

/// Resolution is idempotent where the resolved name is no license id.
pub proof fn lemma_resolve_idempotent(id: Seq<char>, table: Seq<LicenseInfo>)
    requires
        forall|k: int| 0 <= k < table.len() ==> (#[trigger] table[k]).license_id@ != resolved_name(id, table),
    ensures
        resolved_name(resolved_name(id, table), table) == resolved_name(id, table),
{
    lemma_unlisted_name_unchanged(resolved_name(id, table), table);
}

} // verus!
