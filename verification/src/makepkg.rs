//! Which files of a package directory are built packages.

use vstd::prelude::*;
use crate::text::{ends_with_text, has_suffix, lemma_texts_push, texts, Text};

verus! {

/// The file name of a built package ends with this.
pub open spec fn archive_suffix() -> Text {
    ".pkg.tar.zst"@
}

/// A file of this name is a built package.
pub open spec fn is_archive(name: String) -> bool {
    has_suffix(name@, archive_suffix())
}

/// Whether a file of this name is a built package.
pub fn is_pkg_file(name: &str) -> (yes: bool)
    ensures
        yes == has_suffix(name@, archive_suffix()),
{
    ends_with_text(name, ".pkg.tar.zst")
}

/// The built packages among the files of a directory, in the order of the
/// listing.
pub fn find_pkg_files(entries: &Vec<String>) -> (archives: Vec<String>)
    ensures
        texts(archives@) == texts(entries@.filter(|name: String| is_archive(name))),
{
    let ghost keep = |name: String| is_archive(name);
    let mut archives: Vec<String> = Vec::new();
    let mut i: usize = 0;
    while i < entries.len()
        invariant
            i <= entries.len(),
            keep == (|name: String| is_archive(name)),
            texts(archives@) == texts(entries@.take(i as int).filter(keep)),
        decreases entries.len() - i,
    {
        proof {
            reveal(Seq::filter);
            assert(entries@.take(i + 1).drop_last() =~= entries@.take(i as int));
            assert(entries@.take(i + 1).last() == entries@[i as int]);
        }
        if is_pkg_file(entries[i].as_str()) {
            proof {
                lemma_texts_push(archives@, entries@[i as int]);
                lemma_texts_push(entries@.take(i as int).filter(keep), entries@[i as int]);
            }
            archives.push(entries[i].clone());
        }
        i += 1;
    }
    assert(entries@.take(i as int) =~= entries@);
    archives
}

} // verus!
