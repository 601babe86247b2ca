//! Whether a crate version is published, from the version texts that the
//! crates.io index lists for the crate.

use vstd::prelude::*;
use crate::version::{parsed_version, SemVersion, VersionError, VersionView};

verus! {

/// The first of `texts` that is not a semantic version, if any.
pub open spec fn first_unparsable(texts: Seq<Seq<char>>) -> Option<Seq<char>>
    decreases texts.len(),
{
    if texts.len() == 0 {
        None
    } else if parsed_version(texts[0]) is None {
        Some(texts[0])
    } else {
        first_unparsable(texts.skip(1))
    }
}

/// Whether one of `texts` reads as version `v`.
pub open spec fn lists_version(texts: Seq<Seq<char>>, v: VersionView) -> bool {
    exists|i: int| 0 <= i < texts.len() && parsed_version(#[trigger] texts[i]) == Some(v)
}

proof fn lemma_first_unparsable_skip(texts: Seq<Seq<char>>, i: int)
    requires
        0 <= i < texts.len(),
        parsed_version(texts[i]) is Some,
    ensures
        first_unparsable(texts.skip(i)) == first_unparsable(texts.skip(i + 1)),
{
    assert(texts.skip(i).skip(1) =~= texts.skip(i + 1));
}

/// Whether `crt_version` is among the versions that the index lists for a
/// crate: `Ok(false)` if the index has no such crate (`published` is
/// `None`); an error naming the first listed text that is not a version, if
/// there is one; otherwise whether one of the listed versions equals
/// `crt_version`.
pub fn is_version_published(published: Option<&Vec<String>>, crt_version: &SemVersion) -> (res:
    Result<bool, VersionError>)
    ensures
        match published {
            None => res == Ok::<bool, VersionError>(false),
            Some(texts) => match first_unparsable(texts@.map_values(|t: String| t@)) {
                Some(bad) => res matches Err(VersionError::InvalidVersion { text }) && text@ == bad,
                None => res == Ok::<bool, VersionError>(
                    lists_version(texts@.map_values(|t: String| t@), crt_version@),
                ),
            },
        },
{
    match published {
        None => Ok(false),
        Some(texts) => {
            let ghost views = texts@.map_values(|t: String| t@);
            let mut versions: Vec<SemVersion> = Vec::new();
            let mut i: usize = 0;
            assert(views.skip(0) =~= views);
            while i < texts.len()
                invariant
                    published == Some(texts),
                    i <= texts.len(),
                    views == texts@.map_values(|t: String| t@),
                    versions.len() == i,
                    forall|k: int| 0 <= k < i ==> parsed_version(views[k]) == Some(#[trigger] versions@[k]@),
                    first_unparsable(views) == first_unparsable(views.skip(i as int)),
                decreases texts.len() - i,
            {
                let v = match SemVersion::parse(texts[i].as_str()) {
                    Ok(v) => v,
                    Err(e) => {
                        assert(views.skip(i as int)[0] == views[i as int]);
                        return Err(e);
                    },
                };
                proof { lemma_first_unparsable_skip(views, i as int); }
                versions.push(v);
                i = i + 1;
            }
            assert(views.skip(texts.len() as int) =~= Seq::<Seq<char>>::empty());
            let mut j: usize = 0;
            while j < versions.len()
                invariant
                    published == Some(texts),
                    views == texts@.map_values(|t: String| t@),
                    first_unparsable(views) is None,
                    j <= versions.len() == views.len(),
                    forall|k: int| 0 <= k < versions.len() ==> parsed_version(views[k]) == Some(#[trigger] versions@[k]@),
                    forall|k: int| 0 <= k < j ==> versions@[k]@ != crt_version@,
                decreases versions.len() - j,
            {
                if versions[j].same_as(crt_version) {
                    assert(parsed_version(views[j as int]) == Some(crt_version@));
                    return Ok(true);
                }
                j = j + 1;
            }
            assert(!lists_version(views, crt_version@)) by {
                if lists_version(views, crt_version@) {
                    let k = choose|k: int| 0 <= k < views.len() && parsed_version(#[trigger] views[k]) == Some(crt_version@);
                    assert(versions@[k]@ == crt_version@);
                }
            }
            Ok(false)
        },
    }
}

} // verus!
