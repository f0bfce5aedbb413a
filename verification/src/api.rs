//! The records of the package index and the requests that fetch them.

use vstd::prelude::*;
use vstd::string::*;
use crate::pacman::{bare_name, strip_package_version};
use crate::text::{contains_name, lemma_texts_push, texts, Text};

verus! {

/// What the package index knows of one package.
#[derive(Debug, Clone, PartialEq, Eq)]
pub struct PackageInfo {
    pub co_maintainers: Vec<String>,
    /// What the package needs to run, each entry possibly with a version
    /// constraint behind the name.
    pub depends: Vec<String>,
    pub description: Option<String>,
    pub first_submitted: u32,
    pub id: u32,
    pub keywords: Vec<String>,
    pub last_modified: u32,
    pub license: Vec<String>,
    pub maintainer: Option<String>,
    pub name: String,
    pub num_votes: u32,
    pub opt_depends: Vec<String>,
    pub submitter: Option<String>,
    pub version: String,
    /// The popularity score, as the bit pattern of an IEEE 754
    /// single-precision number.
    pub popularity: u32,
}

/// One answer of the package index.
#[derive(Debug, Clone, PartialEq, Eq)]
pub struct ApiResponse {
    pub resultcount: u32,
    pub results: Vec<PackageInfo>,
    pub response_type: String,
    pub version: u16,
    /// Set where the index refuses the query.
    pub error: Option<String>,
}

/// The address under which the package index answers.
pub open spec fn api_root() -> Text {
    "https://aur.archlinux.org/rpc/v5/"@
}

/// The first `n` names as arguments of a query, joined by `&`.
pub open spec fn info_arguments(names: Seq<Text>, n: nat) -> Text
    decreases n,
{
    if n == 0 {
        Seq::empty()
    } else if n == 1 {
        "arg[]="@ + names[0]
    } else {
        info_arguments(names, (n - 1) as nat) + "&"@ + "arg[]="@ + names[n - 1]
    }
}

/// The address that answers with the records of the named packages. Each
/// name stands in it as it is.
pub open spec fn info_url_text(names: Seq<Text>) -> Text {
    if names.len() == 0 {
        api_root() + "info"@
    } else {
        api_root() + "info"@ + "?"@ + info_arguments(names, names.len())
    }
}

/// The address that answers with the packages that match `term`.
pub open spec fn search_url_text(term: Text) -> Text {
    api_root() + "search/"@ + term
}

/// The address to ask for the records of `packages`, all in one request.
pub fn info_url(packages: &Vec<String>) -> (url: String)
    ensures
        url@ == info_url_text(texts(packages@)),
{
    let mut url = String::from_str("https://aur.archlinux.org/rpc/v5/");
    url.append("info");
    let ghost names = texts(packages@);
    let ghost head = url@;
    let mut i: usize = 0;
    while i < packages.len()
        invariant
            i <= packages.len(),
            names == texts(packages@),
            head == api_root() + "info"@,
            i == 0 ==> url@ == head,
            i > 0 ==> url@ == head + "?"@ + info_arguments(names, i as nat),
        decreases packages.len() - i,
    {
        if i == 0 {
            url.append("?");
        } else {
            url.append("&");
        }
        url.append("arg[]=");
        url.append(packages[i].as_str());
        proof {
            assert(names[i as int] == packages@[i as int]@);
            if i == 0 {
                assert(url@ =~= head + "?"@ + info_arguments(names, 1));
            } else {
                assert(url@ =~= head + "?"@ + info_arguments(names, (i + 1) as nat));
            }
        }
        i += 1;
    }
    url
}

/// The address to ask for the packages that match `term`.
pub fn search_url(term: &str) -> (url: String)
    ensures
        url@ == search_url_text(term@),
{
    let mut url = String::from_str("https://aur.archlinux.org/rpc/v5/");
    url.append("search/");
    url.append(term);
    url
}

/// The names of the records, in order.
pub open spec fn names_of(records: Seq<PackageInfo>) -> Seq<Text> {
    records.map_values(|r: PackageInfo| r.name@)
}

/// The entries of one dependency list, each without its version constraint.
pub open spec fn stripped(depends: Seq<String>) -> Seq<Text> {
    depends.map_values(|d: String| bare_name(d@))
}

/// The dependencies of all records, record after record, each without its
/// version constraint. Nothing is dropped: a name that two records need
/// occurs twice.
pub open spec fn dependencies_of(records: Seq<PackageInfo>) -> Seq<Text>
    decreases records.len(),
{
    if records.len() == 0 {
        Seq::empty()
    } else {
        dependencies_of(records.drop_last()) + stripped(records.last().depends@)
    }
}

/// The requested names for which the index returned no record, in the order
/// of the request.
pub open spec fn missing_of(requested: Seq<Text>, found: Seq<Text>) -> Seq<Text> {
    requested.filter(|name: Text| !found.contains(name))
}

/// The names of the records, in order.
pub fn package_names(records: &Vec<PackageInfo>) -> (names: Vec<String>)
    ensures
        texts(names@) == names_of(records@),
{
    let mut names: Vec<String> = Vec::new();
    let mut i: usize = 0;
    while i < records.len()
        invariant
            i <= records.len(),
            texts(names@) == names_of(records@.take(i as int)),
        decreases records.len() - i,
    {
        proof {
            lemma_texts_push(names@, records@[i as int].name);
            assert(names_of(records@.take(i + 1)) =~= names_of(records@.take(i as int)).push(
                records@[i as int].name@,
            ));
        }
        names.push(records[i].name.clone());
        i += 1;
    }
    assert(records@.take(i as int) =~= records@);
    names
}

/// The dependencies of all records, each without its version constraint.
pub fn dependency_names(records: &Vec<PackageInfo>) -> (deps: Vec<String>)
    ensures
        texts(deps@) == dependencies_of(records@),
{
    let mut deps: Vec<String> = Vec::new();
    let mut i: usize = 0;
    while i < records.len()
        invariant
            i <= records.len(),
            texts(deps@) == dependencies_of(records@.take(i as int)),
        decreases records.len() - i,
    {
        let depends = &records[i].depends;
        let ghost before = texts(deps@);
        let mut j: usize = 0;
        while j < depends.len()
            invariant
                j <= depends.len(),
                texts(deps@) == before + stripped(depends@.take(j as int)),
            decreases depends.len() - j,
        {
            let bare = strip_package_version(depends[j].as_str()).to_owned();
            proof {
                lemma_texts_push(deps@, bare);
                assert(stripped(depends@.take(j + 1)) =~= stripped(depends@.take(j as int)).push(
                    bare@,
                ));
                assert(texts(deps@).push(bare@) =~= before + stripped(depends@.take(j + 1)));
            }
            deps.push(bare);
            j += 1;
        }
        proof {
            assert(depends@.take(j as int) =~= depends@);
            assert(records@.take(i + 1).drop_last() =~= records@.take(i as int));
            assert(records@.take(i + 1).last() == records@[i as int]);
        }
        i += 1;
    }
    assert(records@.take(i as int) =~= records@);
    deps
}

/// The requested names for which the index returned no record. The list is
/// empty exactly when every requested name was found.
pub fn missing_packages(requested: &Vec<String>, found: &Vec<String>) -> (missing: Vec<String>)
    ensures
        texts(missing@) == missing_of(texts(requested@), texts(found@)),
        missing@.len() == 0 <==> forall|i: int|
            0 <= i < requested@.len() ==> texts(found@).contains(#[trigger] texts(requested@)[i]),
{
    let ghost wanted = texts(requested@);
    let ghost absent = |name: Text| !texts(found@).contains(name);
    let mut missing: Vec<String> = Vec::new();
    let mut i: usize = 0;
    while i < requested.len()
        invariant
            i <= requested.len(),
            wanted == texts(requested@),
            absent == (|name: Text| !texts(found@).contains(name)),
            texts(missing@) == wanted.take(i as int).filter(absent),
            missing@.len() == 0 <==> forall|k: int|
                0 <= k < i ==> texts(found@).contains(#[trigger] wanted[k]),
        decreases requested.len() - i,
    {
        proof {
            reveal(Seq::filter);
            assert(wanted.take(i + 1).drop_last() =~= wanted.take(i as int));
            assert(wanted.take(i + 1).last() == wanted[i as int]);
            assert(wanted[i as int] == requested@[i as int]@);
        }
        if !contains_name(found, &requested[i]) {
            proof {
                lemma_texts_push(missing@, requested@[i as int]);
            }
            missing.push(requested[i].clone());
        }
        i += 1;
    }
    assert(wanted.take(i as int) =~= wanted);
    missing
}

} // verus!
