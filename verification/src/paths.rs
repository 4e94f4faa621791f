//! Archive entry paths: decoding a stored path into components, the
//! anti-traversal classifier, the `overrides` remap rule, and the resolution
//! of an entry to its destination under the package root.
//!
//! A stored path is split on `/` into pieces. A piece is acceptable when it is
//! a plain name or the current-directory marker `.`; anything else — a parent
//! reference `..` or an empty piece, as a leading separator or a doubled one
//! leaves — rejects the whole entry. A trailing empty piece only marks a
//! directory entry and is dropped.

use vstd::prelude::*;

use crate::errors::PackError;
use crate::manifest::spec_dest_dir;

verus! {

/// The pieces of `s` split on `/`: always one more piece than separators.
pub open spec fn spec_pieces(s: Seq<char>) -> Seq<Seq<char>>
    decreases s.len(),
{
    if s.len() == 0 {
        seq![Seq::<char>::empty()]
    } else if s[0] == '/' {
        seq![Seq::<char>::empty()] + spec_pieces(s.drop_first())
    } else {
        let rest = spec_pieces(s.drop_first());
        seq![seq![s[0]] + rest[0]] + rest.drop_first()
    }
}

proof fn lemma_pieces_len(s: Seq<char>)
    ensures
        spec_pieces(s).len() >= 1,
    decreases s.len(),
{
    if s.len() > 0 {
        lemma_pieces_len(s.drop_first());
    }
}

/// A string without separators is one piece: itself.
proof fn lemma_pieces_whole(s: Seq<char>)
    requires
        forall|j: int| 0 <= j < s.len() ==> s[j] != '/',
    ensures
        spec_pieces(s) == seq![s],
    decreases s.len(),
{
    if s.len() == 0 {
        assert(s =~= Seq::<char>::empty());
        assert(spec_pieces(s) =~= seq![s]);
    } else {
        lemma_pieces_whole(s.drop_first());
        assert(seq![s[0]] + s.drop_first() =~= s);
        assert(spec_pieces(s) =~= seq![s]);
    }
}

/// Splitting at the first separator: the piece before it, then the pieces of
/// what follows it.
proof fn lemma_pieces_split(s: Seq<char>, i: int)
    requires
        0 <= i < s.len(),
        s[i] == '/',
        forall|j: int| 0 <= j < i ==> s[j] != '/',
    ensures
        spec_pieces(s) == seq![s.take(i)] + spec_pieces(s.skip(i + 1)),
    decreases i,
{
    lemma_pieces_len(s.drop_first());
    if i == 0 {
        assert(s.take(0) =~= Seq::<char>::empty());
        assert(s.skip(1) =~= s.drop_first());
        assert(spec_pieces(s) =~= seq![s.take(0)] + spec_pieces(s.skip(1)));
    } else {
        let d = s.drop_first();
        assert(d[i - 1] == '/');
        assert(forall|j: int| 0 <= j < i - 1 ==> d[j] != '/');
        lemma_pieces_split(d, i - 1);
        lemma_pieces_len(d.skip(i));
        assert(seq![s[0]] + d.take(i - 1) =~= s.take(i));
        assert(d.skip(i) =~= s.skip(i + 1));
        assert((seq![d.take(i - 1)] + spec_pieces(d.skip(i))).drop_first() =~= spec_pieces(
            s.skip(i + 1),
        ));
        assert(spec_pieces(s) =~= seq![s.take(i)] + spec_pieces(s.skip(i + 1)));
    }
}

/// No piece holds a separator.
proof fn lemma_pieces_no_slash(s: Seq<char>)
    ensures
        forall|k: int, j: int|
            0 <= k < spec_pieces(s).len() && 0 <= j < spec_pieces(s)[k].len()
                ==> #[trigger] spec_pieces(s)[k][j] != '/',
    decreases s.len(),
{
    if s.len() > 0 {
        lemma_pieces_no_slash(s.drop_first());
        lemma_pieces_len(s.drop_first());
    }
}

/// The decoded components of an entry: its pieces, with a trailing empty
/// piece (the directory marker a trailing separator leaves) dropped.
pub open spec fn spec_entry_pieces(s: Seq<char>) -> Seq<Seq<char>> {
    let ps = spec_pieces(s);
    if ps.len() > 0 && ps.last().len() == 0 {
        ps.drop_last()
    } else {
        ps
    }
}

/// The allow-list classifier: a plain name or the current-directory marker.
/// Empty pieces and parent references are rejected.
pub open spec fn spec_piece_safe(p: Seq<char>) -> bool {
    p.len() > 0 && p != ".."@
}

/// Whether every decoded component of the entry is acceptable.
pub open spec fn spec_path_safe(s: Seq<char>) -> bool {
    forall|k: int|
        0 <= k < spec_entry_pieces(s).len() ==> spec_piece_safe(#[trigger] spec_entry_pieces(s)[k])
}

/// The views of a sequence of owned pieces.
pub open spec fn spec_views(ps: Seq<String>) -> Seq<Seq<char>> {
    Seq::new(ps.len(), |i: int| ps[i]@)
}

proof fn lemma_views_push(ps: Seq<String>, x: String)
    ensures
        spec_views(ps.push(x)) == spec_views(ps).push(x@),
{
    assert(spec_views(ps.push(x)) =~= spec_views(ps).push(x@));
}

/// Decodes a stored archive path into its components, as the classifier
/// allows them: accepted entries come back as their pieces (names and `.`
/// markers, a trailing directory marker dropped); everything else is an
/// `InvalidArchiveEntry` carrying the stored path.
pub fn decode_entry_path(stored: &str) -> (r: Result<Vec<String>, PackError>)
    ensures
        spec_path_safe(stored@) ==> (r matches Ok(ps) && spec_views(ps@) == spec_entry_pieces(
            stored@,
        )),
        !spec_path_safe(stored@) ==> (r matches Err(e) && e matches PackError::InvalidArchiveEntry(m)
            && m@ == stored@),
{
    let ghost whole = spec_pieces(stored@);
    let n = stored.unicode_len();
    let mut pieces: Vec<String> = Vec::new();
    let mut start: usize = 0;
    let mut i: usize = 0;
    proof {
        lemma_pieces_len(stored@);
        assert(stored@.skip(0) =~= stored@);
        assert(spec_views(pieces@) + spec_pieces(stored@) =~= spec_pieces(stored@));
    }
    while i < n
        invariant
            n == stored@.len(),
            start <= i <= n,
            whole == spec_pieces(stored@),
            forall|j: int| start <= j < i ==> stored@[j] != '/',
            whole == spec_views(pieces@) + spec_pieces(stored@.skip(start as int)),
            forall|k: int|
                0 <= k < pieces@.len() ==> spec_piece_safe((#[trigger] pieces@[k])@),
        decreases n - i,
    {
        if stored.get_char(i) == '/' {
            let piece = stored.substring_char(start, i);
            let ghost rem = stored@.skip(start as int);
            let ghost kk = pieces@.len() as int;
            proof {
                lemma_pieces_split(rem, i - start);
                lemma_pieces_len(rem.skip(i - start + 1));
                assert(rem.take(i - start) =~= stored@.subrange(start as int, i as int));
                assert(rem.skip(i - start + 1) =~= stored@.skip(i + 1));
                assert(whole == spec_views(pieces@) + (seq![piece@] + spec_pieces(
                    stored@.skip(i + 1),
                )));
                assert(whole[kk] == piece@);
                assert(whole.len() >= kk + 2);
            }
            let plen = piece.unicode_len();
            let bad = plen == 0 || (plen == 2 && piece.get_char(0) == '.' && piece.get_char(1)
                == '.');
            if bad {
                proof {
                    reveal_strlit("..");
                    if plen == 2 {
                        assert(piece@ =~= ".."@);
                    }
                    assert(!spec_piece_safe(piece@));
                    // a rejected middle piece survives the trailing drop
                    assert(spec_entry_pieces(stored@)[kk] == whole[kk]);
                    assert(!spec_path_safe(stored@));
                }
                return Err(PackError::InvalidArchiveEntry(stored.to_owned()));
            }
            proof {
                reveal_strlit("..");
                assert(spec_piece_safe(piece@));
            }
            let owned = piece.to_owned();
            proof {
                lemma_views_push(pieces@, owned);
                assert(spec_views(pieces@.push(owned)) + spec_pieces(stored@.skip(i + 1)) =~= whole);
            }
            pieces.push(owned);
            start = i + 1;
        }
        i = i + 1;
    }
    let piece = stored.substring_char(start, n);
    let ghost rem = stored@.skip(start as int);
    let ghost kk = pieces@.len() as int;
    proof {
        lemma_pieces_whole(rem);
        assert(rem =~= stored@.subrange(start as int, n as int));
        assert(whole == spec_views(pieces@) + seq![piece@]);
        assert(whole.len() == kk + 1);
        assert(whole.last() == piece@);
    }
    let plen = piece.unicode_len();
    if plen == 0 {
        proof {
            assert(spec_entry_pieces(stored@) =~= spec_views(pieces@));
            assert(spec_path_safe(stored@));
        }
        Ok(pieces)
    } else if plen == 2 && piece.get_char(0) == '.' && piece.get_char(1) == '.' {
        proof {
            reveal_strlit("..");
            assert(piece@ =~= ".."@);
            assert(spec_entry_pieces(stored@) == whole);
            assert(!spec_piece_safe(spec_entry_pieces(stored@)[kk]));
            assert(!spec_path_safe(stored@));
        }
        Err(PackError::InvalidArchiveEntry(stored.to_owned()))
    } else {
        proof {
            reveal_strlit("..");
            assert(spec_piece_safe(piece@));
            assert(spec_entry_pieces(stored@) == whole);
        }
        let owned = piece.to_owned();
        proof {
            lemma_views_push(pieces@, owned);
            assert(spec_views(pieces@.push(owned)) =~= spec_entry_pieces(stored@));
        }
        pieces.push(owned);
        proof {
            assert(spec_path_safe(stored@));
        }
        Ok(pieces)
    }
}

/// Whether the entry lies under the `overrides/` subtree of the package root:
/// its first non-marker component is literally `overrides`.
pub open spec fn spec_under_overrides(pieces: Seq<Seq<char>>) -> bool
    decreases pieces.len(),
{
    if pieces.len() == 0 {
        false
    } else if pieces[0] == "."@ {
        spec_under_overrides(pieces.drop_first())
    } else {
        pieces[0] == "overrides"@
    }
}

/// The remap rule: under `overrides/`, exactly the first component literally
/// named `overrides` is dropped; markers before it, and every later component
/// (even one also named `overrides`), are kept verbatim. An entry not under
/// that subtree keeps its literal path.
pub open spec fn spec_remap_pieces(pieces: Seq<Seq<char>>) -> Seq<Seq<char>>
    decreases pieces.len(),
{
    if !spec_under_overrides(pieces) {
        pieces
    } else if pieces[0] == "."@ {
        seq![pieces[0]] + spec_remap_pieces(pieces.drop_first())
    } else {
        pieces.drop_first()
    }
}

proof fn lemma_remap_removes(pieces: Seq<Seq<char>>, j: int)
    requires
        0 <= j < pieces.len(),
        forall|m: int| 0 <= m < j ==> pieces[m] == "."@,
        pieces[j] == "overrides"@,
    ensures
        spec_under_overrides(pieces),
        spec_remap_pieces(pieces) == pieces.remove(j),
    decreases j,
{
    reveal_strlit(".");
    reveal_strlit("overrides");
    assert("overrides"@.len() != "."@.len());
    if j == 0 {
        assert(pieces[0] != "."@);
        assert(pieces.remove(0) =~= pieces.drop_first());
    } else {
        assert(pieces[0] == "."@);
        lemma_remap_removes(pieces.drop_first(), j - 1);
        assert(seq![pieces[0]] + pieces.drop_first().remove(j - 1) =~= pieces.remove(j));
    }
}

proof fn lemma_remap_id(pieces: Seq<Seq<char>>, j: int)
    requires
        0 <= j <= pieces.len(),
        forall|m: int| 0 <= m < j ==> pieces[m] == "."@,
        j < pieces.len() ==> (pieces[j] != "."@ && pieces[j] != "overrides"@),
    ensures
        !spec_under_overrides(pieces),
        spec_remap_pieces(pieces) == pieces,
    decreases j,
{
    if j == 0 {
        if pieces.len() > 0 {
            assert(pieces[0] != "."@);
        }
    } else {
        lemma_remap_id(pieces.drop_first(), j - 1);
        assert(seq![pieces[0]] + pieces.drop_first() =~= pieces);
    }
}

/// Every remapped component was a component of the entry: the remap drops one
/// component at most, and invents none.
proof fn lemma_remap_keeps_pieces(pieces: Seq<Seq<char>>)
    ensures
        forall|k: int|
            0 <= k < spec_remap_pieces(pieces).len() ==> exists|m: int|
                0 <= m < pieces.len() && #[trigger] spec_remap_pieces(pieces)[k] == pieces[m],
    decreases pieces.len(),
{
    if spec_under_overrides(pieces) && pieces.len() > 0 && pieces[0] == "."@ {
        lemma_remap_keeps_pieces(pieces.drop_first());
        let r = spec_remap_pieces(pieces);
        let rd = spec_remap_pieces(pieces.drop_first());
        assert forall|k: int| 0 <= k < r.len() implies exists|m: int|
            0 <= m < pieces.len() && #[trigger] r[k] == pieces[m] by {
            if k == 0 {
                assert(r[k] == pieces[0]);
            } else {
                assert(r[k] == rd[k - 1]);
                let m = choose|m: int|
                    0 <= m < pieces.drop_first().len() && #[trigger] rd[k - 1]
                        == pieces.drop_first()[m];
                assert(r[k] == pieces[m + 1]);
            }
        }
    }
}

fn is_marker(s: &String) -> (r: bool)
    ensures
        r == (s@ == "."@),
{
    *s == String::from_str(".")
}

fn is_overrides_name(s: &String) -> (r: bool)
    ensures
        r == (s@ == "overrides"@),
{
    *s == String::from_str("overrides")
}

/// Applies the remap rule to decoded components.
pub fn remap_overrides(pieces: Vec<String>) -> (r: Vec<String>)
    ensures
        spec_views(r@) == spec_remap_pieces(spec_views(pieces@)),
{
    let ghost vs = spec_views(pieces@);
    let n = pieces.len();
    let mut j: usize = 0;
    while j < n && is_marker(&pieces[j])
        invariant
            j <= n,
            n == pieces@.len(),
            forall|m: int| 0 <= m < j ==> vs[m] == "."@,
            vs == spec_views(pieces@),
        decreases n - j,
    {
        j = j + 1;
    }
    if j < n && is_overrides_name(&pieces[j]) {
        proof {
            lemma_remap_removes(vs, j as int);
        }
        let mut out = pieces;
        out.remove(j);
        proof {
            assert(spec_views(out@) =~= vs.remove(j as int));
        }
        out
    } else {
        proof {
            reveal_strlit(".");
            reveal_strlit("overrides");
            lemma_remap_id(vs, j as int);
        }
        pieces
    }
}

/// The components joined with `/`, markers verbatim.
pub open spec fn spec_join_pieces(pieces: Seq<Seq<char>>) -> Seq<char>
    decreases pieces.len(),
{
    if pieces.len() == 0 {
        Seq::empty()
    } else if pieces.len() == 1 {
        pieces[0]
    } else {
        spec_join_pieces(pieces.drop_last()) + "/"@ + pieces.last()
    }
}

/// Joins components back into a relative path.
pub fn join_pieces(pieces: &Vec<String>) -> (r: String)
    ensures
        r@ == spec_join_pieces(spec_views(pieces@)),
{
    let ghost vs = spec_views(pieces@);
    let mut s = String::new();
    let n = pieces.len();
    let mut k: usize = 0;
    proof {
        assert(vs.take(0) =~= Seq::<Seq<char>>::empty());
    }
    while k < n
        invariant
            k <= n,
            n == pieces@.len(),
            vs == spec_views(pieces@),
            s@ == spec_join_pieces(vs.take(k as int)),
        decreases n - k,
    {
        if k > 0 {
            s.append("/");
        }
        s.append(pieces[k].as_str());
        proof {
            let t = vs.take(k + 1);
            assert(t.drop_last() =~= vs.take(k as int));
            assert(t.last() == vs[k as int]);
            if k == 0 {
                assert(s@ == spec_join_pieces(t));
            }
        }
        k = k + 1;
    }
    proof {
        assert(vs.take(n as int) =~= vs);
    }
    s
}

/// Where an accepted entry lands: the remapped components, joined, under
/// `<root><id>/`.
pub open spec fn spec_resolved_entry_path(
    root: Seq<char>,
    id: Seq<char>,
    stored: Seq<char>,
) -> Seq<char> {
    spec_dest_dir(root, id, spec_join_pieces(spec_remap_pieces(spec_entry_pieces(stored))))
}

/// Decodes, classifies, remaps and joins an entry's stored path. Exactly the
/// entries the classifier accepts resolve; every other entry fails with
/// `InvalidArchiveEntry` carrying the stored path.
pub fn resolve_entry_path(stored: &str, root: &str, id: &str) -> (r: Result<String, PackError>)
    ensures
        spec_path_safe(stored@) ==> (r matches Ok(p) && p@ == spec_resolved_entry_path(
            root@,
            id@,
            stored@,
        )),
        !spec_path_safe(stored@) ==> (r matches Err(e) && e matches PackError::InvalidArchiveEntry(m)
            && m@ == stored@),
{
    let pieces = match decode_entry_path(stored) {
        Ok(ps) => ps,
        Err(e) => {
            return Err(e);
        },
    };
    let remapped = remap_overrides(pieces);
    let rel = join_pieces(&remapped);
    Ok(crate::manifest::dest_dir(root, id, rel.as_str()))
}

/// The anti-traversal invariant: an accepted entry's resolved path begins
/// with the package root `<root><id>/`, and each of its remapped components
/// is a plain name or a `.` marker — never empty, never a parent reference,
/// and never holding a separator of its own.
pub proof fn lemma_resolved_path_stays_inside(root: Seq<char>, id: Seq<char>, stored: Seq<char>)
    requires
        spec_path_safe(stored),
    ensures
        spec_resolved_entry_path(root, id, stored).take((root + id + "/"@).len() as int) == root
            + id + "/"@,
        forall|k: int|
            0 <= k < spec_remap_pieces(spec_entry_pieces(stored)).len() ==> spec_piece_safe(
                #[trigger] spec_remap_pieces(spec_entry_pieces(stored))[k],
            ),
        forall|k: int, j: int|
            0 <= k < spec_remap_pieces(spec_entry_pieces(stored)).len() && 0 <= j
                < spec_remap_pieces(spec_entry_pieces(stored))[k].len()
                ==> #[trigger] spec_remap_pieces(spec_entry_pieces(stored))[k][j] != '/',
{
    let base = root + id + "/"@;
    let entry = spec_entry_pieces(stored);
    let remapped = spec_remap_pieces(entry);
    assert(spec_resolved_entry_path(root, id, stored).take(base.len() as int) =~= base);
    lemma_remap_keeps_pieces(entry);
    lemma_pieces_no_slash(stored);
    lemma_pieces_len(stored);
    assert(forall|m: int| 0 <= m < entry.len() ==> entry[m] == #[trigger] spec_pieces(stored)[m]);
    assert forall|k: int| 0 <= k < remapped.len() implies spec_piece_safe(
        #[trigger] remapped[k],
    ) by {
        let m = choose|m: int| 0 <= m < entry.len() && #[trigger] remapped[k] == entry[m];
        assert(spec_piece_safe(entry[m]));
    }
    assert forall|k: int, j: int|
        0 <= k < remapped.len() && 0 <= j < remapped[k].len() implies #[trigger] remapped[k][j]
        != '/' by {
        let m = choose|m: int| 0 <= m < entry.len() && #[trigger] remapped[k] == entry[m];
        assert(spec_pieces(stored)[m][j] != '/');
    }
}

} // verus!
