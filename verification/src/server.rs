//! What a server installation decides before any process is spawned: which
//! modloader a manifest names, and the URL of the matching installer.

use vstd::prelude::*;

use crate::errors::PackError;

verus! {

/// The least index of `c` in `s`, or the length when `s` has no `c`.
pub open spec fn spec_find(s: Seq<char>, c: char) -> int
    decreases s.len(),
{
    if s.len() == 0 {
        0
    } else if s[0] == c {
        0
    } else {
        1 + spec_find(s.drop_first(), c)
    }
}

proof fn lemma_find_at(s: Seq<char>, c: char, i: int)
    requires
        0 <= i <= s.len(),
        forall|j: int| 0 <= j < i ==> s[j] != c,
        i < s.len() ==> s[i] == c,
    ensures
        spec_find(s, c) == i,
    decreases i,
{
    if i > 0 {
        lemma_find_at(s.drop_first(), c, i - 1);
    }
}

/// Splits a modloader id `name-version` at its dashes: the name before the
/// first dash, the version between the first and the second (or the end). An
/// id without a dash names no version.
pub fn split_loader(loader: &str) -> (r: Option<(String, String)>)
    ensures
        spec_find(loader@, '-') == loader@.len() ==> r is None,
        spec_find(loader@, '-') < loader@.len() ==> (r matches Some(pair) && pair.0@
            == loader@.take(spec_find(loader@, '-')) && pair.1@ == ({
            let rest = loader@.skip(spec_find(loader@, '-') + 1);
            rest.take(spec_find(rest, '-'))
        })),
{
    let n = loader.unicode_len();
    let mut i: usize = 0;
    while i < n && loader.get_char(i) != '-'
        invariant
            n == loader@.len(),
            i <= n,
            forall|j: int| 0 <= j < i ==> loader@[j] != '-',
        decreases n - i,
    {
        i = i + 1;
    }
    proof {
        lemma_find_at(loader@, '-', i as int);
    }
    if i == n {
        return None;
    }
    let name = loader.substring_char(0, i);
    let rest = loader.substring_char(i + 1, n);
    let ghost restv = loader@.skip(i + 1);
    proof {
        assert(rest@ =~= restv);
        assert(loader@.subrange(0, i as int) =~= loader@.take(i as int));
    }
    let m = rest.unicode_len();
    let mut k: usize = 0;
    while k < m && rest.get_char(k) != '-'
        invariant
            m == rest@.len(),
            k <= m,
            forall|j: int| 0 <= j < k ==> rest@[j] != '-',
        decreases m - k,
    {
        k = k + 1;
    }
    proof {
        lemma_find_at(rest@, '-', k as int);
    }
    let version = rest.substring_char(0, k);
    proof {
        assert(version@ =~= restv.take(spec_find(restv, '-')));
    }
    Some((name.to_owned(), version.to_owned()))
}

/// The forge installer URL for a Minecraft version and a forge version.
pub open spec fn spec_forge_installer_url(mc: Seq<char>, v: Seq<char>) -> Seq<char> {
    "https://maven.minecraftforge.net/net/minecraftforge/forge/"@ + mc + "-"@ + v + "/forge-"@ + mc
        + "-"@ + v + "-installer.jar"@
}

pub fn forge_installer_url(mc: &str, v: &str) -> (r: String)
    ensures
        r@ == spec_forge_installer_url(mc@, v@),
{
    let mut s = String::new();
    s.append("https://maven.minecraftforge.net/net/minecraftforge/forge/");
    s.append(mc);
    s.append("-");
    s.append(v);
    s.append("/forge-");
    s.append(mc);
    s.append("-");
    s.append(v);
    s.append("-installer.jar");
    s
}

/// The fabric installer URL for an installer version.
pub open spec fn spec_fabric_installer_url(v: Seq<char>) -> Seq<char> {
    "https://maven.fabricmc.net/net/fabricmc/fabric-installer/"@ + v + "/fabric-installer-"@ + v
        + ".jar"@
}

pub fn fabric_installer_url(v: &str) -> (r: String)
    ensures
        r@ == spec_fabric_installer_url(v@),
{
    let mut s = String::new();
    s.append("https://maven.fabricmc.net/net/fabricmc/fabric-installer/");
    s.append(v);
    s.append("/fabric-installer-");
    s.append(v);
    s.append(".jar");
    s
}

/// The metadata endpoint naming the newest fabric installer.
pub open spec fn spec_fabric_maven_url() -> Seq<char> {
    "https://maven.fabricmc.net/net/fabricmc/fabric-installer/maven-metadata.xml"@
}

pub fn fabric_maven_url() -> (r: &'static str)
    ensures
        r@ == spec_fabric_maven_url(),
{
    "https://maven.fabricmc.net/net/fabricmc/fabric-installer/maven-metadata.xml"
}

/// The text of the first `release` element of a maven metadata document that
/// parses, if the document has one: a function of the text alone.
pub uninterp spec fn maven_release_of(meta: Seq<char>) -> Option<Seq<char>>;

/// Whether the text parses as an XML document: parsing is a function of the
/// text alone.
pub uninterp spec fn xml_parses(meta: Seq<char>) -> bool;

/// Relies on roxmltree's `Document::parse`, `descendants`, `has_tag_name` and
/// `Node::text`: hands out the text of the document's first `release`
/// element. Exactly the documents that parse are read; one that does not
/// fails with the parser's message.
#[verifier::external_body]
fn maven_release(meta: &str) -> (r: Result<Option<String>, String>)
    ensures
        r is Ok <==> xml_parses(meta@),
        r matches Ok(o) ==> (match o {
            Some(v) => maven_release_of(meta@) == Some(v@),
            None => maven_release_of(meta@) is None,
        }),
{
    match roxmltree::Document::parse(meta) {
        Ok(doc) => Ok(
            doc.descendants().find(|n| n.has_tag_name("release")).and_then(|n| n.text()).map(
                |t| t.to_string(),
            ),
        ),
        Err(e) => Err(format!("{:?}", e)),
    }
}

/// The URL of the newest fabric installer a maven metadata document names:
/// every parsing document with a usable `release` element yields its URL; a
/// document without one, or one that does not parse, fails with `Decode`.
pub fn fabric_latest_installer_url(meta: &str) -> (r: Result<String, PackError>)
    ensures
        r is Ok <==> (xml_parses(meta@) && maven_release_of(meta@) is Some),
        r matches Ok(u) ==> (maven_release_of(meta@) matches Some(v) && u@
            == spec_fabric_installer_url(v)),
        r matches Err(e) ==> e matches PackError::Decode(_),
{
    match maven_release(meta) {
        Ok(Some(v)) => Ok(fabric_installer_url(v.as_str())),
        Ok(None) => Err(PackError::Decode(String::from_str("Invalid maven metadata"))),
        Err(m) => Err(PackError::Decode(m)),
    }
}

} // verus!
