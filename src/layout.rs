use vstd::prelude::*;
use crate::identifier::PraziCrate;

verus! {

/// Where the registry serves source archives from.
pub open spec fn crates_root() -> Seq<char> {
    "https://crates-io.s3-us-west-1.amazonaws.com/crates"@
}

/// `{root}/{name}/{name}-{version}.crate`, the source archive's address.
pub open spec fn url_of(name: Seq<char>, version: Seq<char>) -> Seq<char> {
    crates_root() + "/"@ + name + "/"@ + name + "-"@ + version + ".crate"@
}

/// `{root}/crates/reg/{name}`: the staging directory shared by all versions of
/// a name.
pub open spec fn staging_of(root: Seq<char>, name: Seq<char>) -> Seq<char> {
    root + "/crates/reg/"@ + name
}

/// `{root}/crates/reg/{name}/{version}`: the canonical workspace.
pub open spec fn workspace_of(root: Seq<char>, name: Seq<char>, version: Seq<char>) -> Seq<
    char,
> {
    staging_of(root, name) + "/"@ + version
}

/// `{staging}/{name}-{version}`: the tree an archive unpacks to.
pub open spec fn unpacked_of(root: Seq<char>, name: Seq<char>, version: Seq<char>) -> Seq<char> {
    staging_of(root, name) + "/"@ + name + "-"@ + version
}

/// The marker left by repackaging: the manifest snapshot in the workspace.
pub open spec fn marker_of(root: Seq<char>, name: Seq<char>, version: Seq<char>) -> Seq<char> {
    workspace_of(root, name, version) + "/Cargo.toml.orig"@
}

/// Where repackaging writes the new archive inside the workspace.
pub open spec fn repackaged_of(root: Seq<char>, name: Seq<char>, version: Seq<char>) -> Seq<
    char,
> {
    workspace_of(root, name, version) + "/target/package/"@ + name + "-"@ + version + ".crate"@
}

/// The glob pattern that finds intermediate-representation artifacts.
pub open spec fn bitcode_pattern_of(root: Seq<char>, name: Seq<char>, version: Seq<char>) -> Seq<
    char,
> {
    workspace_of(root, name, version) + "/target/debug/deps/*.bc"@
}

/// Every path of an identifier is a function of its name and version alone:
/// identifiers that are equal get byte-identical addresses and directories.
pub proof fn lemma_paths_deterministic(a: PraziCrate, b: PraziCrate, root: Seq<char>)
    requires
        a@ == b@,
    ensures
        url_of(a.name@, a.version@) == url_of(b.name@, b.version@),
        workspace_of(root, a.name@, a.version@) == workspace_of(root, b.name@, b.version@),
        staging_of(root, a.name@) == staging_of(root, b.name@),
        unpacked_of(root, a.name@, a.version@) == unpacked_of(root, b.name@, b.version@),
{
}

/// A path component: it holds no separator.
pub open spec fn no_slash(s: Seq<char>) -> bool {
    forall|i: int| 0 <= i < s.len() ==> s[i] != '/'
}

proof fn lemma_split_at_slash(p: Seq<char>, n1: Seq<char>, r1: Seq<char>, n2: Seq<char>, r2: Seq<char>)
    requires
        no_slash(n1),
        no_slash(n2),
        p + n1 + "/"@ + r1 == p + n2 + "/"@ + r2,
    ensures
        n1 == n2,
        r1 == r2,
{
    reveal_strlit("/");
    let s1 = p + n1 + "/"@ + r1;
    let s2 = p + n2 + "/"@ + r2;
    if n1.len() < n2.len() {
        assert(s1[(p.len() + n1.len()) as int] == '/');
        assert(s2[(p.len() + n1.len()) as int] == n2[n1.len() as int]);
    } else if n2.len() < n1.len() {
        assert(s2[(p.len() + n2.len()) as int] == '/');
        assert(s1[(p.len() + n2.len()) as int] == n1[n2.len() as int]);
    } else {
        assert(n1 =~= s1.subrange(p.len() as int, (p.len() + n1.len()) as int));
        assert(n2 =~= s2.subrange(p.len() as int, (p.len() + n2.len()) as int));
        assert(r1 =~= s1.subrange((p.len() + n1.len() + 1) as int, s1.len() as int));
        assert(r2 =~= s2.subrange((p.len() + n2.len() + 1) as int, s2.len() as int));
    }
}

/// Where names hold no separator, distinct identifiers never share a
/// workspace under one root, and equal ones share it.
pub proof fn lemma_workspace_injective(root: Seq<char>, a: PraziCrate, b: PraziCrate)
    requires
        no_slash(a.name@),
        no_slash(b.name@),
    ensures
        workspace_of(root, a.name@, a.version@) == workspace_of(root, b.name@, b.version@)
            <==> a@ == b@,
{
    if workspace_of(root, a.name@, a.version@) == workspace_of(root, b.name@, b.version@) {
        let p = root + "/crates/reg/"@;
        assert(workspace_of(root, a.name@, a.version@) =~= p + a.name@ + "/"@ + a.version@);
        assert(workspace_of(root, b.name@, b.version@) =~= p + b.name@ + "/"@ + b.version@);
        lemma_split_at_slash(p, a.name@, a.version@, b.name@, b.version@);
    }
}

/// Where names hold no separator, the archive address identifies the
/// identifier: distinct identifiers never share one.
pub proof fn lemma_url_injective(a: PraziCrate, b: PraziCrate)
    requires
        no_slash(a.name@),
        no_slash(b.name@),
    ensures
        url_of(a.name@, a.version@) == url_of(b.name@, b.version@) <==> a@ == b@,
{
    if url_of(a.name@, a.version@) == url_of(b.name@, b.version@) {
        let p = crates_root() + "/"@;
        let ra = a.name@ + "-"@ + a.version@ + ".crate"@;
        let rb = b.name@ + "-"@ + b.version@ + ".crate"@;
        assert(url_of(a.name@, a.version@) =~= p + a.name@ + "/"@ + ra);
        assert(url_of(b.name@, b.version@) =~= p + b.name@ + "/"@ + rb);
        lemma_split_at_slash(p, a.name@, ra, b.name@, rb);
        let q = a.name@ + "-"@;
        assert(ra =~= q + (a.version@ + ".crate"@));
        assert(rb =~= q + (b.version@ + ".crate"@));
        assert(a.version@ + ".crate"@ =~= ra.subrange(q.len() as int, ra.len() as int));
        assert(b.version@ + ".crate"@ =~= rb.subrange(q.len() as int, rb.len() as int));
        let t = ".crate"@;
        assert(a.version@ =~= (a.version@ + t).subrange(0, a.version@.len() as int));
        assert(b.version@ =~= (b.version@ + t).subrange(0, b.version@.len() as int));
    }
}

fn staging_string(root: &str, name: &str) -> (r: String)
    ensures
        r@ == staging_of(root@, name@),
{
    let mut s = root.to_owned();
    s.append("/crates/reg/");
    s.append(name);
    s
}

impl PraziCrate {
    /// The address of this revision's source archive.
    pub fn url_src(&self) -> (r: String)
        ensures
            r@ == url_of(self.name@, self.version@),
    {
        let mut s = String::from_str("https://crates-io.s3-us-west-1.amazonaws.com/crates");
        s.append("/");
        s.append(self.name.as_str());
        s.append("/");
        s.append(self.name.as_str());
        s.append("-");
        s.append(self.version.as_str());
        s.append(".crate");
        s
    }

    /// The canonical workspace of this revision under the storage root.
    pub fn dir(&self, root: &str) -> (r: String)
        ensures
            r@ == workspace_of(root@, self.name@, self.version@),
    {
        let mut s = staging_string(root, self.name.as_str());
        s.append("/");
        s.append(self.version.as_str());
        s
    }

    /// The staging directory shared by every version of this name.
    pub fn dir_src(&self, root: &str) -> (r: String)
        ensures
            r@ == staging_of(root@, self.name@),
    {
        staging_string(root, self.name.as_str())
    }

    /// The directory that unpacking an archive of this revision creates.
    pub fn unpacked_dir(&self, root: &str) -> (r: String)
        ensures
            r@ == unpacked_of(root@, self.name@, self.version@),
    {
        let mut s = staging_string(root, self.name.as_str());
        s.append("/");
        s.append(self.name.as_str());
        s.append("-");
        s.append(self.version.as_str());
        s
    }

    /// The manifest snapshot whose presence marks a repackaged workspace.
    pub fn marker_path(&self, root: &str) -> (r: String)
        ensures
            r@ == marker_of(root@, self.name@, self.version@),
    {
        let mut s = self.dir(root);
        s.append("/Cargo.toml.orig");
        s
    }

    /// The archive that repackaging produces inside the workspace.
    pub fn repackaged_archive(&self, root: &str) -> (r: String)
        ensures
            r@ == repackaged_of(root@, self.name@, self.version@),
    {
        let mut s = self.dir(root);
        s.append("/target/package/");
        s.append(self.name.as_str());
        s.append("-");
        s.append(self.version.as_str());
        s.append(".crate");
        s
    }

    /// The glob pattern under which compiled artifacts are looked up.
    pub fn bitcode_pattern(&self, root: &str) -> (r: String)
        ensures
            r@ == bitcode_pattern_of(root@, self.name@, self.version@),
    {
        let mut s = self.dir(root);
        s.append("/target/debug/deps/*.bc");
        s
    }

    /// Whether the artifacts that matched the pattern are exactly one.
    pub fn has_bitcode(&self, artifacts: &Vec<String>) -> (r: bool)
        ensures
            r == (artifacts@.len() == 1),
    {
        artifacts.len() == 1
    }

    /// The single artifact that matched, or `None` when there is none or more
    /// than one.
    pub fn bitcode_path(&self, artifacts: &Vec<String>) -> (r: Option<String>)
        ensures
            artifacts@.len() == 1 ==> r == Some(artifacts@[0]),
            artifacts@.len() != 1 ==> r is None,
    {
        if artifacts.len() == 1 {
            Some(artifacts[0].clone())
        } else {
            None
        }
    }
}

} // verus!
