use vstd::prelude::*;
use crate::manifest::{Manifest, ManifestView, spec_get_target};
use crate::strutil::{concat_str, find_last_char, lemma_find_last_char};
use crate::title::spec_title;

verus! {

/// `base/rel`: a relative path placed under a directory.
pub open spec fn spec_join_path(base: Seq<char>, rel: Seq<char>) -> Seq<char> {
    base + "/"@ + rel
}

/// Joins a directory and a relative path.
pub fn join_path(base: &str, rel: &str) -> (r: String)
    ensures
        r@ == spec_join_path(base@, rel@),
{
    let mut s = concat_str(base, "/");
    s.append(rel);
    s
}

/// The directory holding `p`: everything before the last slash, if any.
pub open spec fn spec_parent_dir(p: Seq<char>) -> Option<Seq<char>> {
    let i = find_last_char(p, '/');
    if i < 0 {
        None
    } else {
        Some(p.take(i))
    }
}

/// The directory a path lies in, if the path names one.
pub fn parent_dir<'a>(p: &'a str) -> (r: Option<&'a str>)
    ensures
        r.deep_view() == spec_parent_dir(p@),
{
    let n = p.unicode_len();
    let mut j: usize = n;
    proof {
        lemma_find_last_char(p@, '/');
    }
    while j > 0
        invariant
            0 <= j <= n,
            n == p@.len(),
            forall|i: int| j <= i < n ==> p@[i] != '/',
        decreases j,
    {
        if p.get_char(j - 1) == '/' {
            proof {
                lemma_find_last_char(p@, '/');
                if find_last_char(p@, '/') != j - 1 {
                    assert(p@[find_last_char(p@, '/')] == '/');
                }
            }
            let head = p.substring_char(0, j - 1);
            proof {
                assert(head@ =~= p@.take(j - 1));
            }
            return Some(head);
        }
        j -= 1;
    }
    proof {
        lemma_find_last_char(p@, '/');
        if find_last_char(p@, '/') != -1 {
            assert(p@[find_last_char(p@, '/')] == '/');
        }
    }
    None
}

// ---------------------------------------------------------------------------
// Names derived from the title
// ---------------------------------------------------------------------------

/// The staging directory for a title, under the build output root.
pub fn staging_dir_path(out_root: &str, title: &str) -> (r: String)
    ensures
        r@ == spec_join_path(out_root@, title@),
{
    join_path(out_root, title)
}

/// The destination package path for a title, under the build output root.
pub fn pdx_dest_path(out_root: &str, title: &str) -> (r: String)
    ensures
        r@ == spec_join_path(out_root@, title@) + ".pdx"@,
{
    let mut s = join_path(out_root, title);
    s.append(".pdx");
    s
}

/// The archive path for a title, beside the package.
pub fn archive_path(out_root: &str, title: &str) -> (r: String)
    ensures
        r@ == spec_join_path(out_root@, title@) + ".pdx"@ + ".zip"@,
{
    let mut s = pdx_dest_path(out_root, title);
    s.append(".zip");
    s
}

/// The staging directory a manifest and raw target identifier determine.
pub open spec fn spec_staging_dir(out_root: Seq<char>, m: ManifestView, n: Seq<char>) -> Seq<
    char,
> {
    spec_join_path(out_root, spec_title(m, n))
}

/// The destination package path they determine.
pub open spec fn spec_pdx_dest(out_root: Seq<char>, m: ManifestView, n: Seq<char>) -> Seq<char> {
    spec_staging_dir(out_root, m, n) + ".pdx"@
}

/// The archive path they determine.
pub open spec fn spec_archive_dest(out_root: Seq<char>, m: ManifestView, n: Seq<char>) -> Seq<
    char,
> {
    spec_pdx_dest(out_root, m, n) + ".zip"@
}

/// One title names everything, deterministically: the staging directory,
/// the package and the archive all extend the same derived title, and equal
/// manifests and raw identifiers always yield the same three names.
pub proof fn lemma_title_used_consistently(
    out_root: Seq<char>,
    m1: ManifestView,
    m2: ManifestView,
    n1: Seq<char>,
    n2: Seq<char>,
)
    requires
        m1 == m2,
        n1 == n2,
    ensures
        spec_staging_dir(out_root, m1, n1) == spec_join_path(out_root, spec_title(m2, n2)),
        spec_pdx_dest(out_root, m1, n1) == spec_staging_dir(out_root, m2, n2) + ".pdx"@,
        spec_archive_dest(out_root, m1, n1) == spec_pdx_dest(out_root, m2, n2) + ".zip"@,
{
}

// ---------------------------------------------------------------------------
// The asset copy plan
// ---------------------------------------------------------------------------

/// One file copy: source path to destination path.
#[derive(Debug, Clone, PartialEq, Eq)]
pub struct CopyOp {
    pub src: String,
    pub dst: String,
}

/// Mathematical model of `CopyOp`.
#[verifier::ext_equal]
pub struct CopyOpView {
    pub src: Seq<char>,
    pub dst: Seq<char>,
}

impl View for CopyOp {
    type V = CopyOpView;

    open spec fn view(&self) -> CopyOpView {
        CopyOpView { src: self.src@, dst: self.dst@ }
    }
}

impl DeepView for CopyOp {
    type V = CopyOpView;

    open spec fn deep_view(&self) -> CopyOpView {
        self.view()
    }
}

/// The assets a manifest declares for a target; none when the target or its
/// asset list is absent.
pub open spec fn spec_assets_of(m: ManifestView, target_name: Seq<char>) -> Seq<Seq<char>> {
    match spec_get_target(m.targets, target_name) {
        Some(t) => match t.assets {
            Some(assets) => assets,
            None => seq![],
        },
        None => seq![],
    }
}

/// The copies that stage a target's assets: each declared asset goes from
/// its place under the project root to the same relative path under the
/// bundle root, in declaration order.
pub open spec fn spec_asset_ops(
    assets: Seq<Seq<char>>,
    source_dir: Seq<char>,
    dest_dir: Seq<char>,
) -> Seq<CopyOpView> {
    assets.map_values(
        |a: Seq<char>|
            CopyOpView { src: spec_join_path(source_dir, a), dst: spec_join_path(dest_dir, a) },
    )
}

/// Plans the asset copies for a target.
pub fn asset_copy_plan(
    manifest: &Manifest,
    target_name: &str,
    source_dir: &str,
    dest_dir: &str,
) -> (r: Vec<CopyOp>)
    ensures
        r.deep_view() == spec_asset_ops(
            spec_assets_of(manifest@, target_name@),
            source_dir@,
            dest_dir@,
        ),
{
    let mut r: Vec<CopyOp> = Vec::new();
    match manifest.get_target(target_name) {
        None => {
            proof {
                assert(r.deep_view() =~= spec_asset_ops(
                    spec_assets_of(manifest@, target_name@),
                    source_dir@,
                    dest_dir@,
                ));
            }
        },
        Some(target) => match &target.assets {
            None => {
                proof {
                    assert(r.deep_view() =~= spec_asset_ops(
                        spec_assets_of(manifest@, target_name@),
                        source_dir@,
                        dest_dir@,
                    ));
                }
            },
            Some(assets) => {
                let ghost av = assets.deep_view();
                let mut i: usize = 0;
                proof {
                    assert(av == spec_assets_of(manifest@, target_name@));
                }
                while i < assets.len()
                    invariant
                        0 <= i <= assets.len(),
                        assets.len() == av.len(),
                        av == assets.deep_view(),
                        r.deep_view() == spec_asset_ops(
                            av.take(i as int),
                            source_dir@,
                            dest_dir@,
                        ),
                    decreases assets.len() - i,
                {
                    let op = CopyOp {
                        src: join_path(source_dir, assets[i].as_str()),
                        dst: join_path(dest_dir, assets[i].as_str()),
                    };
                    let ghost r0 = r.deep_view();
                    let ghost opv = op@;
                    r.push(op);
                    proof {
                        assert(assets@[i as int]@ == av[i as int]);
                        assert(r.deep_view() =~= r0 + seq![opv]);
                        assert(spec_asset_ops(av.take(i + 1), source_dir@, dest_dir@)
                            =~= spec_asset_ops(av.take(i as int), source_dir@, dest_dir@)
                            + seq![opv]);
                    }
                    i += 1;
                }
                proof {
                    assert(av.take(assets.len() as int) =~= av);
                }
            },
        },
    }
    r
}

} // verus!
