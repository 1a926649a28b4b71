//! Package documents: what the registry answers for a package it holds,
//! and the search parameters it queries with.
use vstd::prelude::*;
use crate::names::{normalize_scoped, normalized_name, scoped, scoped_name, upstream_url, upstream_url_of};
use crate::text::{chars_eq, chars_of, extend_chars, opt_text, string_of};

verus! {

/// A stored version of a package, newest first as the registry reads them.
#[derive(Debug, Clone, PartialEq, Eq)]
pub struct PackageRow {
    pub version: String,
    pub description: Option<String>,
    pub shasum: String,
    /// The URL path of the version's tarball.
    pub tarball: String,
}

/// A version entry of a package document.
#[derive(Debug, Clone, PartialEq, Eq)]
pub struct VersionDoc {
    pub name: String,
    pub version: String,
    pub description: Option<String>,
    pub shasum: String,
    /// The full URL of the version's tarball.
    pub tarball: String,
}

/// The content of a `VersionDoc`.
pub struct VersionDocView {
    pub name: Seq<char>,
    pub version: Seq<char>,
    pub description: Option<Seq<char>>,
    pub shasum: Seq<char>,
    pub tarball: Seq<char>,
}

impl View for VersionDoc {
    type V = VersionDocView;

    open spec fn view(&self) -> VersionDocView {
        VersionDocView {
            name: self.name@,
            version: self.version@,
            description: opt_text(self.description),
            shasum: self.shasum@,
            tarball: self.tarball@,
        }
    }
}

/// The document of a package the registry holds: its name, its latest
/// version (`dist-tags.latest`) and one entry per version, each version once.
#[derive(Debug, Clone, PartialEq, Eq)]
pub struct PackageDoc {
    pub name: String,
    pub latest: String,
    pub versions: Vec<VersionDoc>,
}

/// What the registry answers for a package document.
#[derive(Debug, Clone, PartialEq, Eq)]
pub enum PackageLookup {
    /// The registry holds no version: the document is fetched from this URL.
    Upstream(String),
    /// The registry's own document.
    Found(PackageDoc),
}

/// The origin that tarball URLs point at.
pub open spec fn registry_host() -> Seq<char> {
    "https://pkg.axe.onl"@
}

/// The version entry that a stored row becomes in the document of `name`.
pub open spec fn version_doc(name: Seq<char>, row: PackageRow) -> VersionDocView {
    VersionDocView {
        name: name,
        version: row.version@,
        description: opt_text(row.description),
        shasum: row.shasum@,
        tarball: registry_host() + row.tarball@,
    }
}

/// The versions of the document of `name`: each row's entry under its
/// version, a later row replacing an earlier one of the same version.
pub open spec fn versions_map(name: Seq<char>, rows: Seq<PackageRow>) -> Map<Seq<char>, VersionDocView>
    decreases rows.len(),
{
    if rows.len() == 0 {
        Map::empty()
    } else {
        versions_map(name, rows.drop_last()).insert(
            rows.last().version@,
            version_doc(name, rows.last()),
        )
    }
}

/// The latest version: that of the first row whose version is not empty,
/// or empty where there is none.
pub open spec fn latest_version(rows: Seq<PackageRow>) -> Seq<char>
    decreases rows.len(),
{
    if rows.len() == 0 {
        Seq::empty()
    } else {
        let l = latest_version(rows.drop_last());
        if l.len() == 0 {
            rows.last().version@
        } else {
            l
        }
    }
}

/// Version entries read as a map from version to entry.
pub open spec fn docs_map(docs: Seq<VersionDoc>) -> Map<Seq<char>, VersionDocView>
    decreases docs.len(),
{
    if docs.len() == 0 {
        Map::empty()
    } else {
        docs_map(docs.drop_last()).insert(docs.last().version@, docs.last()@)
    }
}

/// No two entries have the same version.
pub open spec fn unique_versions(docs: Seq<VersionDoc>) -> bool {
    forall|i: int, j: int|
        0 <= i < docs.len() && 0 <= j < docs.len() && i != j ==> (#[trigger] docs[i]).version@
            != (#[trigger] docs[j]).version@
}

/// `doc` is the document of package `name` built from `rows`.
pub open spec fn is_package_doc(doc: PackageDoc, name: Seq<char>, rows: Seq<PackageRow>) -> bool {
    &&& doc.name@ == name
    &&& doc.latest@ == latest_version(rows)
    &&& unique_versions(doc.versions@)
    &&& docs_map(doc.versions@) == versions_map(name, rows)
}

/// What the registry answers for package `name` when it holds `rows`.
pub open spec fn lookup_answer(l: PackageLookup, name: Seq<char>, rows: Seq<PackageRow>) -> bool {
    if rows.len() == 0 {
        l matches PackageLookup::Upstream(u) && u@ == upstream_url_of(name)
    } else {
        l matches PackageLookup::Found(doc) && is_package_doc(doc, name, rows)
    }
}

proof fn lemma_docs_map_absent(docs: Seq<VersionDoc>, k: Seq<char>)
    requires
        forall|i: int| 0 <= i < docs.len() ==> (#[trigger] docs[i]).version@ != k,
    ensures
        !docs_map(docs).dom().contains(k),
    decreases docs.len(),
{
    if docs.len() > 0 {
        lemma_docs_map_absent(docs.drop_last(), k);
    }
}

proof fn lemma_docs_map_update(docs: Seq<VersionDoc>, j: int, e: VersionDoc)
    requires
        unique_versions(docs),
        0 <= j < docs.len(),
        docs[j].version@ == e.version@,
    ensures
        docs_map(docs.update(j, e)) == docs_map(docs).insert(e.version@, e@),
        unique_versions(docs.update(j, e)),
    decreases docs.len(),
{
    let u = docs.update(j, e);
    let n = docs.len();
    assert(u.drop_last() =~= if j == n - 1 {
        docs.drop_last()
    } else {
        docs.drop_last().update(j, e)
    });
    if j == n - 1 {
        assert(docs_map(u) =~= docs_map(docs).insert(e.version@, e@));
    } else {
        assert(unique_versions(docs.drop_last()));
        lemma_docs_map_update(docs.drop_last(), j, e);
        assert(docs[n - 1].version@ != docs[j].version@);
        assert(docs_map(u) =~= docs_map(docs).insert(e.version@, e@));
    }
}

/// The position of the entry of version `v`, if there is one.
fn find_version(docs: &Vec<VersionDoc>, v: &Vec<char>) -> (r: Option<usize>)
    ensures
        r matches Some(j) ==> j < docs@.len() && docs@[j as int].version@ == v@,
        r is None ==> forall|k: int| 0 <= k < docs@.len() ==> (#[trigger] docs@[k]).version@ != v@,
{
    for j in 0..docs.len()
        invariant
            forall|k: int| 0 <= k < j ==> (#[trigger] docs@[k]).version@ != v@,
    {
        let dv = chars_of(docs[j].version.as_str());
        if chars_eq(&dv, v) {
            return Some(j);
        }
    }
    None
}

/// Builds the document of package `name` from its stored rows, or names
/// the upstream URL where it has none.
pub fn package_document(name: &str, rows: &Vec<PackageRow>) -> (r: PackageLookup)
    ensures
        lookup_answer(r, name@, rows@),
{
    if rows.len() == 0 {
        return PackageLookup::Upstream(upstream_url(name));
    }
    let n = chars_of(name);
    let host = chars_of("https://pkg.axe.onl");
    let mut docs: Vec<VersionDoc> = Vec::new();
    let mut latest: Vec<char> = Vec::new();
    for i in 0..rows.len()
        invariant
            n@ == name@,
            host@ == registry_host(),
            unique_versions(docs@),
            docs_map(docs@) == versions_map(name@, rows@.take(i as int)),
            latest@ == latest_version(rows@.take(i as int)),
    {
        let row = &rows[i];
        assert(rows@.take(i + 1).drop_last() =~= rows@.take(i as int));
        assert(rows@.take(i + 1).last() == rows@[i as int]);
        if latest.len() == 0 {
            latest = chars_of(row.version.as_str());
        }
        let mut url = host.clone();
        let t = chars_of(row.tarball.as_str());
        extend_chars(&mut url, &t);
        let description = match &row.description {
            Some(d) => Some(d.clone()),
            None => None,
        };
        let e = VersionDoc {
            name: string_of(&n),
            version: row.version.clone(),
            description: description,
            shasum: row.shasum.clone(),
            tarball: string_of(&url),
        };
        assert(e@ == version_doc(name@, *row));
        let v = chars_of(row.version.as_str());
        let found = find_version(&docs, &v);
        match found {
            Some(j) => {
                proof {
                    lemma_docs_map_update(docs@, j as int, e);
                }
                docs.set(j, e);
            },
            None => {
                proof {
                    lemma_docs_map_absent(docs@, e.version@);
                }
                let ghost prev = docs@;
                docs.push(e);
                assert(docs@.drop_last() =~= prev);
            },
        }
    }
    assert(rows@.take(rows.len() as int) =~= rows@);
    PackageLookup::Found(PackageDoc { name: string_of(&n), latest: string_of(&latest), versions: docs })
}

/// Answers a request for the document of package `name` (as it stood in
/// the URL) when the registry holds `rows` for its normalized name.
pub fn get_package(name: &str, rows: &Vec<PackageRow>) -> (r: PackageLookup)
    ensures
        lookup_answer(r, normalized_name(name@), rows@),
{
    let n = normalize_scoped(name);
    package_document(n.as_str(), rows)
}

/// Answers a request for the document of the scoped package `@scope/name`
/// when the registry holds `rows` for it.
pub fn get_scoped_package(scope: &str, name: &str, rows: &Vec<PackageRow>) -> (r: PackageLookup)
    ensures
        lookup_answer(r, scoped(scope@, name@), rows@),
{
    let full = scoped_name(scope, name);
    package_document(full.as_str(), rows)
}

/// The parameters of a search query.
#[derive(Debug, Clone, PartialEq, Eq)]
pub struct SearchParams {
    /// The `LIKE` pattern matched against names, descriptions and keywords.
    pub pattern: String,
    /// The most results to return.
    pub limit: i64,
}

/// The default number of search results.
pub open spec fn default_search_size() -> int {
    20
}

/// The most search results ever returned.
pub open spec fn max_search_size() -> int {
    250
}

/// The parameters of a search for `text` (empty where absent) returning
/// `size` results (20 where absent), at most 250.
pub fn search(text: Option<String>, size: Option<usize>) -> (r: SearchParams)
    ensures
        r.pattern@ == seq!['%'] + (match text {
            Some(t) => t@,
            None => Seq::<char>::empty(),
        }) + seq!['%'],
        r.limit == (match size {
            Some(s) => if s < max_search_size() {
                s as int
            } else {
                max_search_size()
            },
            None => default_search_size(),
        }),
{
    let mut p = vec!['%'];
    match &text {
        Some(t) => {
            let c = chars_of(t.as_str());
            extend_chars(&mut p, &c);
        },
        None => {},
    }
    p.push('%');
    let n: usize = match size {
        Some(s) => s,
        None => 20,
    };
    let limit: i64 = if n < 250 {
        n as i64
    } else {
        250
    };
    proof {
        let t = match text {
            Some(t) => t@,
            None => Seq::<char>::empty(),
        };
        assert(p@ =~= seq!['%'] + t + seq!['%']);
    }
    SearchParams { pattern: string_of(&p), limit }
}

} // verus!
