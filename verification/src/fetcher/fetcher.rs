//! An earlier cut of the release-asset handling kept alongside the current
//! one: its own asset descriptor and platform filter.

use vstd::prelude::*;

use crate::text::{contains_sub, str_contains};

verus! {

/// One downloadable file attached to an engine release.
pub struct Asset {
    pub browser_download_url: String,
    pub name: String,
    pub created_at: String,
    pub size: i64,
}

/// Mathematical model of an [`Asset`].
pub struct AssetView {
    pub browser_download_url: Seq<char>,
    pub name: Seq<char>,
    pub created_at: Seq<char>,
    pub size: int,
}

impl View for Asset {
    type V = AssetView;

    open spec fn view(&self) -> AssetView {
        AssetView {
            browser_download_url: self.browser_download_url@,
            name: self.name@,
            created_at: self.created_at@,
            size: self.size as int,
        }
    }
}

impl DeepView for Asset {
    type V = AssetView;

    open spec fn deep_view(&self) -> AssetView {
        self.view()
    }
}

impl Clone for Asset {
    fn clone(&self) -> (r: Self)
        ensures
            r == *self,
    {
        Asset {
            browser_download_url: self.browser_download_url.clone(),
            name: self.name.clone(),
            created_at: self.created_at.clone(),
            size: self.size,
        }
    }
}

/// One engine release: the list of its downloadable assets.
pub struct Release {
    pub assets: Vec<Asset>,
}

impl View for Release {
    type V = Seq<AssetView>;

    open spec fn view(&self) -> Seq<AssetView> {
        self.assets.deep_view()
    }
}

impl DeepView for Release {
    type V = Seq<AssetView>;

    open spec fn deep_view(&self) -> Seq<AssetView> {
        self.view()
    }
}

/// The assets of all `releases`, in order, kept when their name carries
/// `filter`.
pub open spec fn spec_filter_assets(releases: Seq<Seq<AssetView>>, filter: Seq<char>) -> Seq<
    AssetView,
> {
    releases.flatten().filter(|a: AssetView| contains_sub(a.name, filter))
}

/// Filters the assets of every release down to those whose name contains
/// `filter`, keeping release order and in-release order; the empty filter
/// keeps every asset.
pub fn filter_assets(releases: &Vec<Release>, filter: String) -> (r: Vec<Asset>)
    ensures
        r.deep_view() == spec_filter_assets(releases.deep_view(), filter@),
{
    let ghost pred = |a: AssetView| contains_sub(a.name, filter@);
    let mut out: Vec<Asset> = Vec::new();
    let mut i: usize = 0;
    proof {
        assert(releases.deep_view().subrange(0, 0).flatten() =~= Seq::<AssetView>::empty()) by {
            reveal_with_fuel(Seq::flatten, 1);
            assert(releases.deep_view().subrange(0, 0) =~= Seq::<Seq<AssetView>>::empty());
        }
        assert(Seq::<AssetView>::empty().filter(pred) =~= Seq::<AssetView>::empty()) by {
            reveal(Seq::filter);
        }
    }
    while i < releases.len()
        invariant
            pred == (|a: AssetView| contains_sub(a.name, filter@)),
            0 <= i <= releases@.len(),
            out.deep_view() == releases.deep_view().subrange(0, i as int).flatten().filter(pred),
        decreases releases@.len() - i,
    {
        let release = &releases[i];
        let ghost flat_prefix = releases.deep_view().subrange(0, i as int).flatten();
        let mut j: usize = 0;
        proof {
            assert(release@.subrange(0, 0) =~= Seq::<AssetView>::empty());
            assert(flat_prefix + release@.subrange(0, 0) =~= flat_prefix);
        }
        while j < release.assets.len()
            invariant
                pred == (|a: AssetView| contains_sub(a.name, filter@)),
                0 <= j <= release.assets@.len(),
                release@ == release.assets.deep_view(),
                out.deep_view() == (flat_prefix + release@.subrange(0, j as int)).filter(pred),
            decreases release.assets@.len() - j,
        {
            let asset = &release.assets[j];
            let ghost before = flat_prefix + release@.subrange(0, j as int);
            if str_contains(asset.name.as_str(), filter.as_str()) {
                out.push(asset.clone());
            }
            j += 1;
            proof {
                let after = flat_prefix + release@.subrange(0, j as int);
                assert(after =~= before.push(asset.deep_view()));
                assert(after.drop_last() =~= before);
                reveal(Seq::filter);
                assert(out.deep_view() =~= after.filter(pred));
            }
        }
        i += 1;
        proof {
            assert(release@.subrange(0, release.assets@.len() as int) =~= release@);
            let prefixes = releases.deep_view().subrange(0, i - 1);
            let next_prefixes = releases.deep_view().subrange(0, i as int);
            assert(next_prefixes =~= prefixes.push(release@));
            prefixes.lemma_flatten_push(release@);
            assert(next_prefixes.flatten() =~= flat_prefix + release@);
        }
    }
    proof {
        assert(releases.deep_view().subrange(0, releases@.len() as int) =~= releases.deep_view());
    }
    out
}

} // verus!
