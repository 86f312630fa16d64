//! Flattening of CycloneDX documents: one record per license entry of each
//! component that has a package URL.
use vstd::prelude::*;
use crate::record::{opt_items, opt_text, text_or_empty, FlatRecord};

verus! {

#[derive(Debug)]
pub struct License {
    pub id: Option<String>,
    pub name: Option<String>,
    pub url: Option<String>,
}

/// A structured license, a license expression, either, both or neither.
#[derive(Debug)]
pub struct LicenseEntry {
    pub license: Option<License>,
    pub expression: Option<String>,
}

#[derive(Debug)]
pub struct Component {
    pub name: String,
    pub licenses: Option<Vec<LicenseEntry>>,
    pub purl: Option<String>,
    pub cpe: Option<String>,
}

/// A CycloneDX document.
#[derive(Debug)]
pub struct Components {
    pub metadata: SBOMMetadata,
    pub components: Vec<Component>,
}

#[derive(Debug)]
pub struct SBOMMetadata {
    pub component: Option<SBOMComponent>,
    pub licenses: Option<Vec<LicenseEntry>>,
}

/// The component that the document itself describes.
#[derive(Debug)]
pub struct SBOMComponent {
    pub group: Option<String>,
    pub version: Option<String>,
    pub name: String,
    pub licenses: Option<Vec<LicenseEntry>>,
}

/// A component-license record.
#[derive(Debug, PartialEq, Eq)]
pub struct LicenseHeader {
    pub name: String,
    pub namespace: String,
    pub group: String,
    pub version: String,
    pub package_reference: String,
    pub license_id: String,
    pub license_name: String,
    pub license_expression: String,
    pub alternate_reference_locator: String,
}

impl View for LicenseHeader {
    type V = FlatRecord;

    open spec fn view(&self) -> FlatRecord {
        FlatRecord {
            name: self.name@,
            namespace: self.namespace@,
            group: self.group@,
            version: self.version@,
            package_reference: self.package_reference@,
            license_id: self.license_id@,
            license_name: self.license_name@,
            license_expression: self.license_expression@,
            alternate_reference: self.alternate_reference_locator@,
        }
    }
}

pub open spec fn views(v: Seq<LicenseHeader>) -> Seq<FlatRecord> {
    v.map_values(|h: LicenseHeader| h@)
}

/// The document's name: that of its declared top component, else empty.
pub open spec fn document_name(meta: SBOMMetadata) -> Seq<char> {
    match meta.component {
        Some(c) => c.name@,
        None => seq![],
    }
}

pub open spec fn document_group(meta: SBOMMetadata) -> Seq<char> {
    match meta.component {
        Some(c) => opt_text(c.group),
        None => seq![],
    }
}

pub open spec fn document_version(meta: SBOMMetadata) -> Seq<char> {
    match meta.component {
        Some(c) => opt_text(c.version),
        None => seq![],
    }
}

/// The expression last seen among `entries`, up to and including the last
/// one, carried forward onto license records of the same component; empty
/// before any.
pub open spec fn carried_expression(entries: Seq<LicenseEntry>) -> Seq<char>
    decreases entries.len(),
{
    if entries.len() == 0 {
        seq![]
    } else {
        match entries.last().expression {
            Some(x) => x@,
            None => carried_expression(entries.drop_last()),
        }
    }
}

/// The record of a structured license, with the carried expression.
pub open spec fn license_record(meta: SBOMMetadata, comp: Component, lic: License, expr: Seq<char>) -> FlatRecord {
    FlatRecord {
        name: document_name(meta),
        namespace: seq![],
        group: document_group(meta),
        version: document_version(meta),
        package_reference: opt_text(comp.purl),
        license_id: opt_text(lic.id),
        license_name: opt_text(lic.name),
        license_expression: expr,
        alternate_reference: opt_text(comp.cpe),
    }
}

/// The record of a license expression, without id or name.
pub open spec fn expression_record(meta: SBOMMetadata, comp: Component, expr: Seq<char>) -> FlatRecord {
    FlatRecord {
        name: document_name(meta),
        namespace: seq![],
        group: document_group(meta),
        version: document_version(meta),
        package_reference: opt_text(comp.purl),
        license_id: seq![],
        license_name: seq![],
        license_expression: expr,
        alternate_reference: opt_text(comp.cpe),
    }
}

/// The records of one entry, given the expression carried up to and
/// including it: one for its license, if it has one; else one for its
/// expression, if that is non-empty; else none.
pub open spec fn entry_rows(meta: SBOMMetadata, comp: Component, e: LicenseEntry, carried: Seq<char>) -> Seq<FlatRecord> {
    match e.license {
        Some(lic) => seq![license_record(meta, comp, lic, carried)],
        None => match e.expression {
            Some(x) => if x@.len() > 0 {
                seq![expression_record(meta, comp, x@)]
            } else {
                seq![]
            },
            None => seq![],
        },
    }
}

/// The records of a component's entries, in order.
pub open spec fn entries_rows(meta: SBOMMetadata, comp: Component, entries: Seq<LicenseEntry>) -> Seq<FlatRecord>
    decreases entries.len(),
{
    if entries.len() == 0 {
        seq![]
    } else {
        entries_rows(meta, comp, entries.drop_last()) + entry_rows(
            meta,
            comp,
            entries.last(),
            carried_expression(entries),
        )
    }
}

/// The records of a component: none without a package URL.
pub open spec fn component_rows(meta: SBOMMetadata, comp: Component) -> Seq<FlatRecord> {
    if comp.purl is Some {
        entries_rows(meta, comp, opt_items(comp.licenses))
    } else {
        seq![]
    }
}

/// The records of the components, in order.
pub open spec fn cdx_rows(meta: SBOMMetadata, comps: Seq<Component>) -> Seq<FlatRecord>
    decreases comps.len(),
{
    if comps.len() == 0 {
        seq![]
    } else {
        cdx_rows(meta, comps.drop_last()) + component_rows(meta, comps.last())
    }
}

/// The prefix columns of every record: the document's name, group and version.
pub fn document_prefix(meta: &SBOMMetadata) -> (r: (String, String, String))
    ensures
        r.0@ == document_name(*meta),
        r.1@ == document_group(*meta),
        r.2@ == document_version(*meta),
{
    match &meta.component {
        Some(c) => (c.name.clone(), text_or_empty(&c.group), text_or_empty(&c.version)),
        None => (String::new(), String::new(), String::new()),
    }
}

/// The records of one component, given the document's prefix columns. The
/// last expression seen, the current entry's included, is kept in an explicit
/// accumulator and carried onto each license record.
pub fn component_records(meta: &SBOMMetadata, prefix: &(String, String, String), comp: &Component) -> (r: Vec<LicenseHeader>)
    requires
        prefix.0@ == document_name(*meta),
        prefix.1@ == document_group(*meta),
        prefix.2@ == document_version(*meta),
    ensures
        views(r@) == component_rows(*meta, *comp),
{
    let mut out: Vec<LicenseHeader> = Vec::new();
    let purl = match &comp.purl {
        Some(p) => p,
        None => {
            proof {
                assert(views(out@) =~= seq![]);
            }
            return out;
        },
    };
    let entries = match &comp.licenses {
        Some(v) => v,
        None => {
            proof {
                assert(views(out@) =~= seq![]);
            }
            return out;
        },
    };
    let cpe = text_or_empty(&comp.cpe);
    let ghost all = entries@;
    let mut carried = String::new();
    let mut i: usize = 0;
    proof {
        assert(views(out@) =~= seq![]);
    }
    while i < entries.len()
        invariant
            0 <= i <= all.len(),
            all == entries@,
            all == opt_items(comp.licenses),
            comp.purl == Some(*purl),
            cpe@ == opt_text(comp.cpe),
            prefix.0@ == document_name(*meta),
            prefix.1@ == document_group(*meta),
            prefix.2@ == document_version(*meta),
            views(out@) == entries_rows(*meta, *comp, all.subrange(0, i as int)),
            carried@ == carried_expression(all.subrange(0, i as int)),
        decreases all.len() - i,
    {
        let entry = &entries[i];
        let ghost before = out@;
        proof {
            assert(all.subrange(0, i + 1).drop_last() =~= all.subrange(0, i as int));
            assert(all.subrange(0, i + 1).last() == *entry);
        }
        if let Some(x) = &entry.expression {
            carried = x.clone();
        }
        let ghost added = entry_rows(*meta, *comp, *entry, carried@);
        match &entry.license {
            Some(lic) => {
                out.push(LicenseHeader {
                    name: prefix.0.clone(),
                    namespace: String::new(),
                    group: prefix.1.clone(),
                    version: prefix.2.clone(),
                    package_reference: purl.clone(),
                    license_id: text_or_empty(&lic.id),
                    license_name: text_or_empty(&lic.name),
                    license_expression: carried.clone(),
                    alternate_reference_locator: cpe.clone(),
                });
            },
            None => {
                if let Some(x) = &entry.expression {
                    if !x.as_str().is_empty() {
                        out.push(LicenseHeader {
                            name: prefix.0.clone(),
                            namespace: String::new(),
                            group: prefix.1.clone(),
                            version: prefix.2.clone(),
                            package_reference: purl.clone(),
                            license_id: String::new(),
                            license_name: String::new(),
                            license_expression: x.clone(),
                            alternate_reference_locator: cpe.clone(),
                        });
                    }
                }
            },
        }
        proof {
            assert(views(out@) =~= views(before) + added);
        }
        i += 1;
    }
    proof {
        assert(all.subrange(0, all.len() as int) =~= all);
    }
    out
}

/// The records of every component of the document, component by component,
/// each prefixed with the document's name, group and version.
pub fn cdx_license_records(comp: &Components) -> (r: Vec<LicenseHeader>)
    ensures
        views(r@) == cdx_rows(comp.metadata, comp.components@),
{
    let prefix = document_prefix(&comp.metadata);
    let ghost all = comp.components@;
    let mut out: Vec<LicenseHeader> = Vec::new();
    let mut i: usize = 0;
    proof {
        assert(views(out@) =~= cdx_rows(comp.metadata, all.subrange(0, 0)));
    }
    while i < comp.components.len()
        invariant
            0 <= i <= all.len(),
            all == comp.components@,
            prefix.0@ == document_name(comp.metadata),
            prefix.1@ == document_group(comp.metadata),
            prefix.2@ == document_version(comp.metadata),
            views(out@) == cdx_rows(comp.metadata, all.subrange(0, i as int)),
        decreases all.len() - i,
    {
        let mut rows = component_records(&comp.metadata, &prefix, &comp.components[i]);
        let ghost before = out@;
        let ghost added = rows@;
        out.append(&mut rows);
        proof {
            assert(all.subrange(0, i + 1).drop_last() =~= all.subrange(0, i as int));
            assert(views(before + added) =~= views(before) + views(added));
        }
        i += 1;
    }
    proof {
        assert(all.subrange(0, all.len() as int) =~= all);
    }
    out
}

/// How many records one entry yields: one where it has a license, or else
/// a non-empty expression; none otherwise.
pub open spec fn entry_row_count(e: LicenseEntry) -> nat {
    if e.license is Some {
        1
    } else {
        match e.expression {
            Some(x) => if x@.len() > 0 { 1nat } else { 0nat },
            None => 0nat,
        }
    }
}

pub open spec fn entries_row_count(entries: Seq<LicenseEntry>) -> nat
    decreases entries.len(),
{
    if entries.len() == 0 {
        0
    } else {
        entries_row_count(entries.drop_last()) + entry_row_count(entries.last())
    }
}

/// How many records a component yields: none without a package URL.
pub open spec fn component_row_count(comp: Component) -> nat {
    if comp.purl is Some {
        entries_row_count(opt_items(comp.licenses))
    } else {
        0
    }
}

/// The sum of the components' record counts.
pub open spec fn total_row_count(comps: Seq<Component>) -> nat
    decreases comps.len(),
{
    if comps.len() == 0 {
        0
    } else {
        total_row_count(comps.drop_last()) + component_row_count(comps.last())
    }
}

proof fn lemma_entries_row_count(meta: SBOMMetadata, comp: Component, entries: Seq<LicenseEntry>)
    ensures
        entries_rows(meta, comp, entries).len() == entries_row_count(entries),
    decreases entries.len(),
{
    if entries.len() > 0 {
        lemma_entries_row_count(meta, comp, entries.drop_last());
    }
}

/// A component without license entries (the list absent or empty) yields
/// no record.
pub proof fn lemma_unlicensed_component_no_rows(meta: SBOMMetadata, comp: Component)
    requires
        opt_items(comp.licenses).len() == 0,
    ensures
        component_rows(meta, comp).len() == 0,
{
}

/// The document's records number exactly the sum of its components' counts.
pub proof fn lemma_cdx_row_count(meta: SBOMMetadata, comps: Seq<Component>)
    ensures
        cdx_rows(meta, comps).len() == total_row_count(comps),
    decreases comps.len(),
{
    if comps.len() > 0 {
        lemma_cdx_row_count(meta, comps.drop_last());
        let last = comps.last();
        if last.purl is Some {
            lemma_entries_row_count(meta, last, opt_items(last.licenses));
        }
    }
}

} // verus!
