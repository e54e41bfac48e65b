//! The GitHub side: the release data the tool reads, the `owner/repo`
//! parser, asset filtering, and the endpoint texts.  The HTTP calls
//! themselves live outside the library and consume these values.

use vstd::prelude::*;

verus! {

use crate::chars::chars_vec;
use crate::chars::string_from_range;
use crate::error::ErrLayer;
use crate::error::MuError;
use crate::pattern::regex_match;
use crate::pattern::FileRegex;

/// The base of every GitHub API endpoint.
pub const API_URL: &'static str = "https://api.github.com";

/// A GitHub release: the tag it was made from, its optional display name
/// and notes, whether it is a prerelease, and its uploaded assets.
pub struct Release {
    pub tag_name: String,
    pub name: Option<String>,
    pub body: Option<String>,
    pub prerelease: bool,
    pub assets: Vec<Asset>,
}

/// One release asset: where to fetch it and what it is called.
pub struct Asset {
    pub url: String,
    pub name: String,
}

/// A repository coordinate, split from the `owner/repo` form.
#[derive(Debug)]
pub struct Repo {
    pub owner: String,
    pub name: String,
}

/// Whether the filter keeps this asset; without a filter every asset is
/// kept.
pub open spec fn asset_kept(a: Asset, file_regex: Option<FileRegex>) -> bool {
    match file_regex {
        Some(fr) => regex_match(fr.spec_pattern(), a.name@),
        None => true,
    }
}

/// The assets the filter keeps, in order.
pub open spec fn kept_assets(assets: Seq<Asset>, file_regex: Option<FileRegex>) -> Seq<Asset>
    decreases assets.len(),
{
    if assets.len() == 0 {
        Seq::empty()
    } else {
        (if asset_kept(assets[0], file_regex) {
            seq![assets[0]]
        } else {
            Seq::empty()
        }) + kept_assets(assets.drop_first(), file_regex)
    }
}

proof fn lemma_kept_assets_append(a: Seq<Asset>, b: Seq<Asset>, file_regex: Option<FileRegex>)
    ensures
        kept_assets(a + b, file_regex) == kept_assets(a, file_regex) + kept_assets(b, file_regex),
    decreases a.len(),
{
    if a.len() == 0 {
        assert(a + b =~= b);
        assert(kept_assets(a, file_regex) + kept_assets(b, file_regex) =~= kept_assets(
            b,
            file_regex,
        ));
    } else {
        assert((a + b).drop_first() =~= a.drop_first() + b);
        lemma_kept_assets_append(a.drop_first(), b, file_regex);
        assert(kept_assets(a + b, file_regex) =~= kept_assets(a, file_regex) + kept_assets(
            b,
            file_regex,
        ));
    }
}

impl Release {
    /// The assets whose names pass the optional file filter, in order.
    #[verifier::loop_isolation(false)]
    pub fn get_assets(&self, file_regex: &Option<FileRegex>) -> (r: Vec<Asset>)
        ensures
            r@ == kept_assets(self.assets@, *file_regex),
    {
        let mut r: Vec<Asset> = Vec::new();
        let mut i: usize = 0;
        proof {
            assert(r@ =~= kept_assets(self.assets@.take(0), *file_regex));
        }
        while i < self.assets.len()
            invariant
                i <= self.assets@.len(),
                r@ == kept_assets(self.assets@.take(i as int), *file_regex),
            decreases self.assets@.len() - i,
        {
            let a = &self.assets[i];
            let keep = match file_regex {
                Some(fr) => fr.is_match(a.name.as_str()),
                None => true,
            };
            if keep {
                r.push(Asset { url: a.url.clone(), name: a.name.clone() });
            }
            i = i + 1;
            proof {
                let ghost pre = self.assets@.take(i - 1);
                let ghost one = seq![self.assets@[i - 1]];
                assert(self.assets@.take(i as int) =~= pre + one);
                lemma_kept_assets_append(pre, one, *file_regex);
                assert(one.drop_first() =~= Seq::<Asset>::empty());
                assert(kept_assets(Seq::<Asset>::empty(), *file_regex) =~= Seq::<Asset>::empty());
                assert(r@ =~= kept_assets(self.assets@.take(i as int), *file_regex));
            }
        }
        proof {
            assert(self.assets@.take(self.assets@.len() as int) =~= self.assets@);
        }
        r
    }
}

impl Repo {
    /// Splits an `owner/repo` coordinate at the first slash; everything
    /// after it, further slashes included, is the repository name.
    #[verifier::loop_isolation(false)]
    pub fn parse(s: &str) -> (r: Result<Repo, MuError>)
        ensures
            match r {
                Ok(repo) => exists|k: int|
                    0 <= k < s@.len() && s@[k] == '/' && (forall|m: int| 0 <= m < k ==> s@[m] != '/')
                        && repo.owner@ == s@.take(k) && repo.name@ == s@.skip(k + 1),
                Err(e) => {
                    &&& forall|k: int| 0 <= k < s@.len() ==> s@[k] != '/'
                    &&& e@ == seq![
                        ErrLayer {
                            msg: "Expected GitHub repository name in the format 'owner/repo', found "@
                                + s@,
                            source: None,
                            span: None,
                            help: None,
                        },
                    ]
                },
            },
    {
        let v = chars_vec(s);
        let mut i: usize = 0;
        while i < v.len()
            invariant
                i <= v@.len(),
                forall|m: int| 0 <= m < i ==> s@[m] != '/',
            decreases v@.len() - i,
        {
            if v[i] == '/' {
                let owner = string_from_range(&v, 0, i);
                let name = string_from_range(&v, i + 1, v.len());
                proof {
                    assert(owner@ =~= s@.take(i as int));
                    assert(name@ =~= s@.skip(i as int + 1));
                }
                return Ok(Repo { owner, name });
            }
            i = i + 1;
        }
        let mut msg = "Expected GitHub repository name in the format 'owner/repo', found "
            .to_owned();
        msg.append(s);
        Err(MuError::new(msg.as_str()))
    }
}

/// Names the request for a release by its tag.
pub struct GetReleaseByTagName {
    pub owner: String,
    pub repo: String,
    pub tag: String,
}

impl GetReleaseByTagName {
    /// The endpoint this release is fetched from.
    pub fn url(&self) -> (r: String)
        ensures
            r@ == API_URL@ + "/repos/"@ + self.owner@ + "/"@ + self.repo@ + "/releases/tags/"@
                + self.tag@,
    {
        let mut u = API_URL.to_owned();
        u.append("/repos/");
        u.append(self.owner.as_str());
        u.append("/");
        u.append(self.repo.as_str());
        u.append("/releases/tags/");
        u.append(self.tag.as_str());
        u
    }
}

/// Names the request for one release asset's raw bytes.
pub struct GetAsset(pub Asset);

} // verus!
