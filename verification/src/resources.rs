//! Resource collection planning: which discovered files are assets, the
//! flattened destination name of each, and which of them collide. Two
//! distinct source files that would flatten to the same name are never both
//! copied; the later one is reported as a collision instead of silently
//! overwriting the earlier.

use vstd::prelude::*;
use crate::errors::SiteError;
use crate::paths::{is_hidden_path, is_hidden, file_name_of, file_name};
use crate::scan::{ends_with, ends_with_str};

verus! {

/// The fixed whitelist of asset extensions: images, fonts, stylesheets.
/// Matching is case-sensitive.
pub open spec fn is_resource_name(s: Seq<char>) -> bool {
    ends_with(s, ".jpg"@) || ends_with(s, ".png"@) || ends_with(s, ".gif"@) || ends_with(
        s,
        ".bmp"@,
    ) || ends_with(s, ".svg"@) || ends_with(s, ".css"@) || ends_with(s, ".ttf"@) || ends_with(
        s,
        ".otf"@,
    ) || ends_with(s, ".woff"@) || ends_with(s, ".woff2"@)
}

/// A path the collector copies: not hidden, and carrying an asset extension.
pub open spec fn matches_resource(p: Seq<char>) -> bool {
    !is_hidden_path(p) && is_resource_name(p)
}

/// Some already-kept source would flatten to `name`.
pub open spec fn name_among(kept: Seq<Seq<char>>, name: Seq<char>) -> bool {
    exists|i: int| 0 <= i < kept.len() && #[trigger] file_name_of(kept[i]) == name
}

/// The sources the collector copies, in discovery order: each matching path
/// whose flattened name no earlier kept path already claimed.
pub open spec fn kept_of(paths: Seq<Seq<char>>) -> Seq<Seq<char>>
    decreases paths.len(),
{
    if paths.len() == 0 {
        Seq::empty()
    } else {
        let prev = kept_of(paths.drop_last());
        let p = paths.last();
        if matches_resource(p) && !name_among(prev, file_name_of(p)) {
            prev.push(p)
        } else {
            prev
        }
    }
}

/// The sources the collector reports as collisions, in discovery order: each
/// matching path whose flattened name an earlier kept path already claimed.
pub open spec fn collisions_of(paths: Seq<Seq<char>>) -> Seq<Seq<char>>
    decreases paths.len(),
{
    if paths.len() == 0 {
        Seq::empty()
    } else {
        let prev = collisions_of(paths.drop_last());
        let p = paths.last();
        if matches_resource(p) && name_among(kept_of(paths.drop_last()), file_name_of(p)) {
            prev.push(p)
        } else {
            prev
        }
    }
}

/// One planned copy: a source path and its flattened destination name.
pub struct ResourceCopy {
    pub source: String,
    pub destination: String,
}

/// The collector's plan: the copies to perform and the collisions found.
pub struct ResourcePlan {
    pub copies: Vec<ResourceCopy>,
    pub collisions: Vec<SiteError>,
}

/// Returns whether the path carries one of the whitelisted asset extensions.
pub fn is_resource_file(path: &str) -> (r: bool)
    ensures
        r == is_resource_name(path@),
{
    ends_with_str(path, ".jpg") || ends_with_str(path, ".png") || ends_with_str(path, ".gif")
        || ends_with_str(path, ".bmp") || ends_with_str(path, ".svg") || ends_with_str(
        path,
        ".css",
    ) || ends_with_str(path, ".ttf") || ends_with_str(path, ".otf") || ends_with_str(
        path,
        ".woff",
    ) || ends_with_str(path, ".woff2")
}

/// Plans the resource pass over the discovered paths: every non-hidden file
/// with a whitelisted extension is either planned for a copy to its
/// flattened name, or, when an earlier copy claimed that name, reported as a
/// collision.
pub fn plan_resources(paths: &Vec<String>) -> (r: ResourcePlan)
    ensures
        r.copies@.len() == kept_of(paths.deep_view()).len(),
        forall|k: int|
            0 <= k < r.copies@.len() ==> (#[trigger] r.copies@[k]).source@ == kept_of(
                paths.deep_view(),
            )[k] && r.copies@[k].destination@ == file_name_of(kept_of(paths.deep_view())[k]),
        r.collisions@.len() == collisions_of(paths.deep_view()).len(),
        forall|k: int|
            0 <= k < r.collisions@.len() ==> ((#[trigger] r.collisions@[k]) matches SiteError::ResourceCollision {
                source,
                destination,
            } && source@ == collisions_of(paths.deep_view())[k] && destination@ == file_name_of(
                collisions_of(paths.deep_view())[k],
            )),
{
    let ghost dv = paths.deep_view();
    let mut copies: Vec<ResourceCopy> = Vec::new();
    let mut collisions: Vec<SiteError> = Vec::new();
    let mut i: usize = 0;
    while i < paths.len()
        invariant
            0 <= i <= paths@.len(),
            dv == paths.deep_view(),
            dv.len() == paths@.len(),
            copies@.len() == kept_of(dv.take(i as int)).len(),
            forall|k: int|
                0 <= k < copies@.len() ==> (#[trigger] copies@[k]).source@ == kept_of(
                    dv.take(i as int),
                )[k] && copies@[k].destination@ == file_name_of(kept_of(dv.take(i as int))[k]),
            collisions@.len() == collisions_of(dv.take(i as int)).len(),
            forall|k: int|
                0 <= k < collisions@.len() ==> ((#[trigger] collisions@[k]) matches SiteError::ResourceCollision {
                    source,
                    destination,
                } && source@ == collisions_of(dv.take(i as int))[k] && destination@
                    == file_name_of(collisions_of(dv.take(i as int))[k])),
        decreases paths@.len() - i,
    {
        let p: &String = &paths[i];
        proof {
            assert(dv[i as int] == paths@[i as int]@);
            assert(dv.take(i + 1).drop_last() =~= dv.take(i as int));
            assert(dv.take(i + 1).last() == dv[i as int]);
        }
        if !is_hidden(p.as_str()) && is_resource_file(p.as_str()) {
            let name = file_name(p.as_str());
            let ghost kept = kept_of(dv.take(i as int));
            let mut dup = false;
            let mut j: usize = 0;
            while j < copies.len()
                invariant
                    0 <= j <= copies@.len(),
                    copies@.len() == kept.len(),
                    forall|k: int|
                        0 <= k < copies@.len() ==> (#[trigger] copies@[k]).source@ == kept[k]
                            && copies@[k].destination@ == file_name_of(kept[k]),
                    dup == exists|t: int|
                        0 <= t < j && #[trigger] file_name_of(kept[t]) == name@,
                decreases copies@.len() - j,
            {
                if copies[j].destination == name {
                    proof {
                        assert(file_name_of(kept[j as int]) == name@);
                    }
                    dup = true;
                }
                j = j + 1;
            }
            proof {
                assert(dup == name_among(kept, name@));
            }
            if dup {
                collisions.push(
                    SiteError::ResourceCollision { source: p.clone(), destination: name },
                );
            } else {
                copies.push(ResourceCopy { source: p.clone(), destination: name });
            }
        }
        i = i + 1;
    }
    proof {
        assert(dv.take(dv.len() as int) =~= dv);
    }
    ResourcePlan { copies, collisions }
}

/// Law: the resource plan is a pure function of the discovered paths — a
/// second pass over the same unchanged tree plans the same copies and
/// reports the same collisions.
pub proof fn lemma_plan_idempotent(paths1: Seq<Seq<char>>, paths2: Seq<Seq<char>>)
    requires
        paths1 == paths2,
    ensures
        kept_of(paths1) == kept_of(paths2),
        collisions_of(paths1) == collisions_of(paths2),
{
}

/// A name already among the kept sources stays among them when one more
/// source is kept.
pub proof fn lemma_name_among_extends(kept: Seq<Seq<char>>, x: Seq<char>, name: Seq<char>)
    requires
        name_among(kept, name),
    ensures
        name_among(kept.push(x), name),
{
    let i = choose|i: int| 0 <= i < kept.len() && #[trigger] file_name_of(kept[i]) == name;
    assert(kept.push(x)[i] == kept[i]);
    assert(file_name_of(kept.push(x)[i]) == name);
}

/// Law: the planned destination names never collide — any two planned
/// copies flatten to distinct names, so no copy silently overwrites another.
pub proof fn lemma_plan_destinations_unique(paths: Seq<Seq<char>>)
    ensures
        forall|a: int, b: int|
            #![trigger kept_of(paths)[a], kept_of(paths)[b]]
            0 <= a < b < kept_of(paths).len() ==> file_name_of(kept_of(paths)[a]) != file_name_of(
                kept_of(paths)[b],
            ),
    decreases paths.len(),
{
    if paths.len() == 0 {
    } else {
        lemma_plan_destinations_unique(paths.drop_last());
        let prev = kept_of(paths.drop_last());
        let p = paths.last();
        if matches_resource(p) && !name_among(prev, file_name_of(p)) {
            assert forall|a: int, b: int| 0 <= a < b < kept_of(paths).len() implies file_name_of(
                kept_of(paths)[a],
            ) != file_name_of(kept_of(paths)[b]) by {
                if b == prev.len() {
                    assert(kept_of(paths)[a] == prev[a]);
                    assert(file_name_of(prev[a]) != file_name_of(p));
                } else {
                    assert(kept_of(paths)[a] == prev[a]);
                    assert(kept_of(paths)[b] == prev[b]);
                }
            }
        }
    }
}

/// Law: the plan is complete — every non-hidden file with a whitelisted
/// extension has its flattened name claimed by some planned copy; what is
/// not copied itself was reported as a collision with that copy.
pub proof fn lemma_plan_complete(paths: Seq<Seq<char>>, i: int)
    requires
        0 <= i < paths.len(),
        matches_resource(paths[i]),
    ensures
        name_among(kept_of(paths), file_name_of(paths[i])),
    decreases paths.len(),
{
    let prev = kept_of(paths.drop_last());
    let p = paths.last();
    if i == paths.len() - 1 {
        if !name_among(prev, file_name_of(p)) {
            assert(kept_of(paths)[prev.len() as int] == p);
            assert(file_name_of(kept_of(paths)[prev.len() as int]) == file_name_of(p));
        }
    } else {
        assert(paths.drop_last()[i] == paths[i]);
        lemma_plan_complete(paths.drop_last(), i);
        if matches_resource(p) && !name_among(prev, file_name_of(p)) {
            lemma_name_among_extends(prev, p, file_name_of(paths[i]));
        }
    }
}

} // verus!
