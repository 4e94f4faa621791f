//! Version lists as the two pack sources hand them out, and what the engine's
//! callers derive from them: the newest version, and the short listing the
//! browse verbs print.

use vstd::prelude::*;

use crate::pack::PackType;

verus! {

/// The id of the newest version in a source's version list. FTB lists
/// versions oldest first, so the newest is the last entry; Curseforge lists
/// them newest first, so it is the first. An empty list has none.
pub fn latest_version(ids: &Vec<String>, pack_type: PackType) -> (r: Option<String>)
    ensures
        ids@.len() == 0 ==> r is None,
        ids@.len() > 0 && pack_type == PackType::FTB ==> (r matches Some(v) && v@
            == ids@.last()@),
        ids@.len() > 0 && pack_type == PackType::CF ==> (r matches Some(v) && v@
            == ids@.first()@),
{
    if ids.len() == 0 {
        None
    } else {
        match pack_type {
            PackType::FTB => Some(ids[ids.len() - 1].clone()),
            PackType::CF => Some(ids[0].clone()),
        }
    }
}

/// A source's versions in newest-first order: FTB's list is reversed,
/// Curseforge's kept.
pub open spec fn spec_newest_first(vs: Seq<(String, String)>, ftb: bool) -> Seq<(String, String)> {
    if ftb {
        Seq::new(vs.len(), |i: int| vs[vs.len() - 1 - i])
    } else {
        vs
    }
}

/// The listing lines from index `i` on: at most the first three versions are
/// shown, each as `id: name`, with a line break after every shown entry that
/// is neither the list's final one nor the third.
pub open spec fn spec_version_lines_from(
    ordered: Seq<(String, String)>,
    total: int,
    i: int,
) -> Seq<char>
    decreases ordered.len() - i,
{
    if i >= ordered.len() || i >= 3 {
        Seq::empty()
    } else {
        ordered[i].0@ + ": "@ + ordered[i].1@ + (if i != total - 1 && i != 2 {
            "\n"@
        } else {
            Seq::empty()
        }) + spec_version_lines_from(ordered, total, i + 1)
    }
}

/// The short version listing of a pack: its newest three versions.
pub open spec fn spec_format_versions(vs: Seq<(String, String)>, ftb: bool) -> Seq<char> {
    spec_version_lines_from(spec_newest_first(vs, ftb), vs.len() as int, 0)
}

/// Builds the listing. Each version is a pair of id and name.
pub fn format_versions(versions: &Vec<(String, String)>, pack_type: PackType) -> (r: String)
    ensures
        r@ == spec_format_versions(versions@, pack_type == PackType::FTB),
{
    let ftb = match pack_type {
        PackType::FTB => true,
        PackType::CF => false,
    };
    let ghost ordered = spec_newest_first(versions@, ftb);
    let n = versions.len();
    let mut s = String::new();
    let mut i: usize = 0;
    while i < n && i < 3
        invariant
            n == versions@.len(),
            i <= n,
            ordered == spec_newest_first(versions@, ftb),
            ordered.len() == n,
            spec_version_lines_from(ordered, n as int, 0) == s@ + spec_version_lines_from(
                ordered,
                n as int,
                i as int,
            ),
        decreases n - i,
    {
        let pair = if ftb {
            &versions[n - 1 - i]
        } else {
            &versions[i]
        };
        proof {
            assert(ordered[i as int] == versions@[if ftb {
                n - 1 - i as int
            } else {
                i as int
            }]);
        }
        s.append(pair.0.as_str());
        s.append(": ");
        s.append(pair.1.as_str());
        if i != n - 1 && i != 2 {
            s.append("\n");
        }
        i = i + 1;
    }
    proof {
        assert(spec_version_lines_from(ordered, n as int, i as int) =~= Seq::<char>::empty());
    }
    s
}

} // verus!
