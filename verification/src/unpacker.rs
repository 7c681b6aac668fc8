//! The catalog of a package and the relationships between its assets.

use vstd::prelude::*;
use vstd::string::*;
use crate::args::Args;
use crate::asset::{Asset, AssetView, FolderEntry, FolderEntryView, asset_of, has_file};
use crate::paths;
use crate::paths::{extension_of, joined, lemma_known_extensions_are_plain, with_extension_of};
use crate::text::{is_substring, occurs_in, to_chars};

verus! {

/// One run over one package: its options and the assets found so far.
#[derive(Debug)]
pub struct Unpacker {
    pub args: Args,
    pub assets: Vec<Asset>,
}

impl Clone for Unpacker {
    fn clone(&self) -> (copy: Self)
        ensures
            copy.args.same_as(&self.args),
            copy.assets.deep_view() == self.assets.deep_view(),
    {
        let mut assets: Vec<Asset> = Vec::new();
        let mut i: usize = 0;
        while i < self.assets.len()
            invariant
                i <= self.assets.len(),
                assets.deep_view() == self.assets.deep_view().take(i as int),
            decreases self.assets.len() - i,
        {
            let ghost before = assets.deep_view();
            assets.push(self.assets[i].clone());
            assert(assets.deep_view() =~= before.push(self.assets[i as int]@));
            assert(self.assets.deep_view().take(i + 1) =~= before.push(self.assets[i as int]@));
            i += 1;
        }
        assert(self.assets.deep_view().take(i as int) =~= self.assets.deep_view());
        Unpacker { args: self.args.clone(), assets }
    }
}

/// A prefab together with the text of its file.
#[derive(Debug, PartialEq, Eq)]
pub struct PrefabSource {
    pub prefab: Asset,
    pub content: String,
}

pub struct PrefabSourceView {
    pub prefab: AssetView,
    pub content: Seq<char>,
}

impl View for PrefabSource {
    type V = PrefabSourceView;

    open spec fn view(&self) -> PrefabSourceView {
        PrefabSourceView { prefab: self.prefab@, content: self.content@ }
    }
}

impl DeepView for PrefabSource {
    type V = PrefabSourceView;

    open spec fn deep_view(&self) -> PrefabSourceView {
        self@
    }
}

/// A material together with the GUID of its primary texture, where it has one that
/// could be read.
#[derive(Debug, PartialEq, Eq)]
pub struct MaterialSource {
    pub material: Asset,
    pub texture: Option<String>,
}

pub struct MaterialSourceView {
    pub material: AssetView,
    pub texture: Option<Seq<char>>,
}

impl View for MaterialSource {
    type V = MaterialSourceView;

    open spec fn view(&self) -> MaterialSourceView {
        MaterialSourceView { material: self.material@, texture: self.texture.deep_view() }
    }
}

impl DeepView for MaterialSource {
    type V = MaterialSourceView;

    open spec fn deep_view(&self) -> MaterialSourceView {
        self@
    }
}

/// The relationship that one prefab establishes.
#[derive(Debug, PartialEq, Eq)]
pub struct Match {
    pub prefab: Asset,
    pub model: Asset,
    pub material: Asset,
    pub texture: Asset,
}

pub struct MatchView {
    pub prefab: AssetView,
    pub model: AssetView,
    pub material: AssetView,
    pub texture: AssetView,
}

impl View for Match {
    type V = MatchView;

    open spec fn view(&self) -> MatchView {
        MatchView {
            prefab: self.prefab@,
            model: self.model@,
            material: self.material@,
            texture: self.texture@,
        }
    }
}

impl DeepView for Match {
    type V = MatchView;

    open spec fn deep_view(&self) -> MatchView {
        self@
    }
}

/// The package refers to a texture that it does not hold.
#[derive(Debug, PartialEq, Eq)]
pub struct DanglingReference {
    /// The GUID that no asset of the catalog bears.
    pub guid: String,
}

/// The models of the catalog whose GUID occurs in `content`, in catalog order.
pub open spec fn mentioned_models(catalog: Seq<AssetView>, content: Seq<char>) -> Seq<AssetView> {
    catalog.filter(|a: AssetView| a.asset_type is FbxModel && is_substring(a.guid, content))
}

/// The materials whose GUID occurs in `content`, in the order given.
pub open spec fn mentioned_materials(
    materials: Seq<MaterialSourceView>,
    content: Seq<char>,
) -> Seq<MaterialSourceView> {
    materials.filter(
        |m: MaterialSourceView|
            m.material.asset_type is Material && is_substring(m.material.guid, content),
    )
}

/// The first asset of the catalog that bears `guid`.
pub open spec fn first_with_guid(catalog: Seq<AssetView>, guid: Seq<char>) -> Option<int> {
    if exists|i: int| 0 <= i < catalog.len() && (#[trigger] catalog[i]).guid == guid {
        Some(
            choose|i: int|
                0 <= i < catalog.len() && (#[trigger] catalog[i]).guid == guid && forall|j: int|
                    0 <= j < i ==> (#[trigger] catalog[j]).guid != guid,
        )
    } else {
        None
    }
}

/// What becomes of one prefab.
pub enum Resolution {
    /// The prefab names no single model and material, or the material has no texture.
    Unmatched,
    /// The material names a texture that the catalog does not hold.
    Dangling(Seq<char>),
    Matched(MatchView),
}

/// The relationship of one prefab: it exists when the text of the prefab holds the
/// GUID of exactly one model and of exactly one material, and that material has a
/// primary texture. The texture is then looked up in the whole catalog.
#[verifier::opaque]
pub open spec fn resolution(
    catalog: Seq<AssetView>,
    materials: Seq<MaterialSourceView>,
    source: PrefabSourceView,
) -> Resolution {
    let models = mentioned_models(catalog, source.content);
    let mats = mentioned_materials(materials, source.content);
    if !(source.prefab.asset_type is Prefab) || models.len() != 1 || mats.len() != 1 {
        Resolution::Unmatched
    } else {
        match mats[0].texture {
            None => Resolution::Unmatched,
            Some(guid) => match first_with_guid(catalog, guid) {
                None => Resolution::Dangling(guid),
                Some(i) => Resolution::Matched(
                    MatchView {
                        prefab: source.prefab,
                        model: models[0],
                        material: mats[0].material,
                        texture: catalog[i],
                    },
                ),
            },
        }
    }
}

/// The relationships of all prefabs, in their order, unless one of them dangles:
/// then the first GUID that dangles.
pub open spec fn resolved(
    catalog: Seq<AssetView>,
    materials: Seq<MaterialSourceView>,
    prefabs: Seq<PrefabSourceView>,
) -> Result<Seq<MatchView>, Seq<char>>
    decreases prefabs.len(),
{
    if prefabs.len() == 0 {
        Ok(Seq::empty())
    } else {
        match resolved(catalog, materials, prefabs.drop_last()) {
            Err(guid) => Err(guid),
            Ok(found) => match resolution(catalog, materials, prefabs.last()) {
                Resolution::Unmatched => Ok(found),
                Resolution::Dangling(guid) => Err(guid),
                Resolution::Matched(m) => Ok(found.push(m)),
            },
        }
    }
}

/// The models among `catalog` that `content` mentions.
pub fn models_mentioned(catalog: &Vec<Asset>, content: &str) -> (found: Vec<Asset>)
    ensures
        found.deep_view() == mentioned_models(catalog.deep_view(), content@),
{
    let mut found: Vec<Asset> = Vec::new();
    let ghost pred = |a: AssetView| a.asset_type is FbxModel && is_substring(a.guid, content@);
    let text = to_chars(content);
    let mut i: usize = 0;
    while i < catalog.len()
        invariant
            i <= catalog.len(),
            text@ == content@,
            pred == |a: AssetView| a.asset_type is FbxModel && is_substring(a.guid, content@),
            found.deep_view() == catalog.deep_view().take(i as int).filter(pred),
        decreases catalog.len() - i,
    {
        let asset = &catalog[i];
        proof {
            let all = catalog.deep_view();
            assert(all.take(i + 1).drop_last() == all.take(i as int));
            assert(all.take(i + 1).last() == asset@);
            reveal(Seq::filter);
        }
        if asset.asset_type.is_model() && occurs_in(&to_chars(asset.guid.as_str()), &text) {
            let ghost before = found.deep_view();
            found.push(asset.clone());
            assert(found.deep_view() == before.push(asset@));
        }
        i += 1;
    }
    assert(catalog.deep_view().take(i as int) == catalog.deep_view());
    found
}

/// The materials among `materials` that `content` mentions.
pub fn materials_mentioned(materials: &Vec<MaterialSource>, content: &str) -> (found: Vec<
    MaterialSource,
>)
    ensures
        found.deep_view() == mentioned_materials(materials.deep_view(), content@),
{
    let mut found: Vec<MaterialSource> = Vec::new();
    let ghost pred = |m: MaterialSourceView|
        m.material.asset_type is Material && is_substring(m.material.guid, content@);
    let text = to_chars(content);
    let mut i: usize = 0;
    while i < materials.len()
        invariant
            i <= materials.len(),
            text@ == content@,
            pred == |m: MaterialSourceView|
                m.material.asset_type is Material && is_substring(m.material.guid, content@),
            found.deep_view() == materials.deep_view().take(i as int).filter(pred),
        decreases materials.len() - i,
    {
        let source = &materials[i];
        proof {
            let all = materials.deep_view();
            assert(all.take(i + 1).drop_last() == all.take(i as int));
            assert(all.take(i + 1).last() == source@);
            reveal(Seq::filter);
        }
        if source.material.asset_type.is_material() && occurs_in(
            &to_chars(source.material.guid.as_str()),
            &text,
        ) {
            let ghost before = found.deep_view();
            let texture = match &source.texture {
                Some(guid) => Some(guid.clone()),
                None => None,
            };
            found.push(MaterialSource { material: source.material.clone(), texture });
            assert(found.deep_view() == before.push(source@));
        }
        i += 1;
    }
    assert(materials.deep_view().take(i as int) == materials.deep_view());
    found
}

/// Where in `catalog` the first asset with this GUID stands.
pub fn find_by_guid(catalog: &Vec<Asset>, guid: &String) -> (at: Option<usize>)
    ensures
        match at {
            Some(i) => first_with_guid(catalog.deep_view(), guid@) == Some(i as int),
            None => first_with_guid(catalog.deep_view(), guid@) is None,
        },
        at matches Some(i) ==> i < catalog.len() && catalog[i as int]@.guid == guid@,
{
    let ghost all = catalog.deep_view();
    let mut i: usize = 0;
    while i < catalog.len()
        invariant
            i <= catalog.len(),
            all == catalog.deep_view(),
            forall|j: int| 0 <= j < i ==> (#[trigger] all[j]).guid != guid@,
        decreases catalog.len() - i,
    {
        if catalog[i].guid == *guid {
            assert(all[i as int].guid == guid@);
            return Some(i);
        }
        i += 1;
    }
    None
}

impl Unpacker {
    /// Decides what becomes of one prefab.
    pub fn resolve_prefab(&self, materials: &Vec<MaterialSource>, source: &PrefabSource) -> (outcome:
        Result<Option<Match>, DanglingReference>)
        ensures
            match outcome {
                Ok(None) => resolution(self.assets.deep_view(), materials.deep_view(), source@)
                    is Unmatched,
                Ok(Some(m)) => resolution(self.assets.deep_view(), materials.deep_view(), source@)
                    == Resolution::Matched(m@),
                Err(e) => resolution(self.assets.deep_view(), materials.deep_view(), source@)
                    == Resolution::Dangling(e.guid@),
            },
    {
        reveal(resolution);
        if !source.prefab.asset_type.is_prefab() {
            return Ok(None);
        }
        let mut models = models_mentioned(&self.assets, source.content.as_str());
        let mut mats = materials_mentioned(materials, source.content.as_str());
        if mats.len() != 1 || models.len() != 1 {
            return Ok(None);
        }
        let material = mats.pop().unwrap();
        let model = models.pop().unwrap();
        let guid = match material.texture {
            Some(guid) => guid,
            None => {
                return Ok(None);
            },
        };
        match find_by_guid(&self.assets, &guid) {
            Some(i) => Ok(
                Some(
                    Match {
                        prefab: source.prefab.clone(),
                        model,
                        material: material.material,
                        texture: self.assets[i].clone(),
                    },
                ),
            ),
            None => Err(DanglingReference { guid }),
        }
    }

    /// Finds, for every prefab, the model, the material and the texture that belong
    /// to it. A prefab without a single model and material, or whose material has
    /// no texture, is passed over. A texture that the catalog does not hold ends
    /// the search.
    pub fn resolve(&self, prefabs: &Vec<PrefabSource>, materials: &Vec<MaterialSource>) -> (outcome:
        Result<Vec<Match>, DanglingReference>)
        ensures
            match outcome {
                Ok(found) => resolved(
                    self.assets.deep_view(),
                    materials.deep_view(),
                    prefabs.deep_view(),
                ) == Ok::<Seq<MatchView>, Seq<char>>(found.deep_view()),
                Err(e) => resolved(
                    self.assets.deep_view(),
                    materials.deep_view(),
                    prefabs.deep_view(),
                ) == Err::<Seq<MatchView>, Seq<char>>(e.guid@),
            },
    {
        let mut found: Vec<Match> = Vec::new();
        let ghost catalog = self.assets.deep_view();
        let ghost mats = materials.deep_view();
        let ghost all = prefabs.deep_view();
        assert(found.deep_view() =~= Seq::<MatchView>::empty());
        let mut i: usize = 0;
        while i < prefabs.len()
            invariant
                i <= prefabs.len(),
                catalog == self.assets.deep_view(),
                mats == materials.deep_view(),
                all == prefabs.deep_view(),
                resolved(catalog, mats, all.take(i as int)) == Ok::<Seq<MatchView>, Seq<char>>(
                    found.deep_view(),
                ),
            decreases prefabs.len() - i,
        {
            proof {
                assert(all.take(i + 1).drop_last() == all.take(i as int));
                assert(all.take(i + 1).last() == prefabs[i as int]@);
            }
            match self.resolve_prefab(materials, &prefabs[i]) {
                Ok(None) => {},
                Ok(Some(m)) => {
                    let ghost before = found.deep_view();
                    let ghost mv = m@;
                    found.push(m);
                    assert(found.deep_view() == before.push(mv));
                },
                Err(e) => {
                    proof {
                        lemma_resolved_stays_failed(catalog, mats, all, i + 1);
                    }
                    return Err(e);
                },
            }
            i += 1;
        }
        assert(all.take(i as int) == all);
        Ok(found)
    }
}

/// Once the search has failed on the first `n` prefabs, it has failed on all.
proof fn lemma_resolved_stays_failed(
    catalog: Seq<AssetView>,
    materials: Seq<MaterialSourceView>,
    prefabs: Seq<PrefabSourceView>,
    n: int,
)
    requires
        0 <= n <= prefabs.len(),
        resolved(catalog, materials, prefabs.take(n)) is Err,
    ensures
        resolved(catalog, materials, prefabs) == resolved(catalog, materials, prefabs.take(n)),
    decreases prefabs.len() - n,
{
    if n == prefabs.len() {
        assert(prefabs.take(n) == prefabs);
    } else {
        assert(prefabs.take(n + 1).drop_last() == prefabs.take(n));
        lemma_resolved_stays_failed(catalog, materials, prefabs, n + 1);
    }
}

/// The catalog split by kind, each part in catalog order.
#[derive(Debug)]
pub struct Partition {
    pub models: Vec<Asset>,
    pub prefabs: Vec<Asset>,
    pub materials: Vec<Asset>,
}

pub open spec fn models_of(catalog: Seq<AssetView>) -> Seq<AssetView> {
    catalog.filter(|a: AssetView| a.asset_type is FbxModel)
}

pub open spec fn prefabs_of(catalog: Seq<AssetView>) -> Seq<AssetView> {
    catalog.filter(|a: AssetView| a.asset_type is Prefab)
}

pub open spec fn materials_of(catalog: Seq<AssetView>) -> Seq<AssetView> {
    catalog.filter(|a: AssetView| a.asset_type is Material)
}

/// One container that is to point at a texture.
#[derive(Debug, PartialEq, Eq)]
pub struct Rebinding {
    pub found: Match,
    /// The path of the converted model: that of the model, with `glb` for its
    /// extension.
    pub container: String,
}

pub struct RebindingView {
    pub found: MatchView,
    pub container: Seq<char>,
}

impl View for Rebinding {
    type V = RebindingView;

    open spec fn view(&self) -> RebindingView {
        RebindingView { found: self.found@, container: self.container@ }
    }
}

impl DeepView for Rebinding {
    type V = RebindingView;

    open spec fn deep_view(&self) -> RebindingView {
        self@
    }
}

/// The container that belongs to a relationship, with its texture: the path of the
/// model with `glb` for its extension.
pub open spec fn rebinding_of(found: MatchView) -> RebindingView {
    RebindingView { found, container: with_extension_of(found.model.path, "glb"@) }
}

/// The containers that are to be rebound: one for every relationship found, in
/// their order, and none at all where no conversion tool is named.
pub open spec fn rebindings(
    convert: bool,
    catalog: Seq<AssetView>,
    materials: Seq<MaterialSourceView>,
    prefabs: Seq<PrefabSourceView>,
) -> Result<Seq<RebindingView>, Seq<char>> {
    if !convert {
        Ok(Seq::empty())
    } else {
        match resolved(catalog, materials, prefabs) {
            Ok(found) => Ok(Seq::new(found.len(), |i: int| rebinding_of(found[i]))),
            Err(guid) => Err(guid),
        }
    }
}

/// The extension under which an asset is looked up in the list of ignored ones:
/// that of its path, as it is written there, or the empty one.
pub open spec fn lookup_extension(asset: AssetView) -> Seq<char> {
    match extension_of(asset.path) {
        Some(ext) => ext,
        None => Seq::empty(),
    }
}

/// The assets among `candidates`, in order, whose extension is not ignored.
pub open spec fn catalog_of(candidates: Seq<Option<AssetView>>, ignored: Seq<Seq<char>>) -> Seq<
    AssetView,
>
    decreases candidates.len(),
{
    if candidates.len() == 0 {
        Seq::empty()
    } else {
        let before = catalog_of(candidates.drop_last(), ignored);
        match candidates.last() {
            Some(asset) => if ignored.contains(lookup_extension(asset)) {
                before
            } else {
                before.push(asset)
            },
            None => before,
        }
    }
}

/// What the entries stand for, entry by entry.
pub open spec fn candidates_of(entries: Seq<FolderEntryView>, output_dir: Seq<char>) -> Seq<
    Option<AssetView>,
> {
    Seq::new(entries.len(), |i: int| asset_of(entries[i], output_dir))
}

/// Whether `list` holds `item`.
pub fn holds(list: &Vec<String>, item: &String) -> (yes: bool)
    ensures
        yes == list.deep_view().contains(item@),
{
    let ghost all = list.deep_view();
    let mut i: usize = 0;
    while i < list.len()
        invariant
            i <= list.len(),
            all == list.deep_view(),
            forall|j: int| 0 <= j < i ==> all[j] != item@,
        decreases list.len() - i,
    {
        if list[i] == *item {
            assert(all[i as int] == item@);
            return true;
        }
        i += 1;
    }
    false
}

impl Unpacker {
    /// The extensions that this run leaves out.
    pub open spec fn ignored(&self) -> Seq<Seq<char>> {
        match self.args.ignore_extensions {
            Some(list) => list.deep_view(),
            None => Seq::empty(),
        }
    }

    /// Builds the catalog from the entries of the unpacked tree: every folder that
    /// stands for an asset gives one, unless the extension of its path, as it is
    /// written there, is among the ignored ones.
    pub fn extract(&mut self, entries: &Vec<FolderEntry>)
        ensures
            final(self).args == old(self).args,
            final(self).assets.deep_view() == catalog_of(
                candidates_of(entries.deep_view(), old(self).args.output@),
                old(self).ignored(),
            ),
    {
        let mut assets: Vec<Asset> = Vec::new();
        let ghost all = entries.deep_view();
        let ghost candidates = candidates_of(all, self.args.output@);
        let ghost ignored = self.ignored();
        let nothing: Vec<String> = Vec::new();
        assert(nothing.deep_view() =~= Seq::<Seq<char>>::empty());
        let ignore_list: &Vec<String> = match &self.args.ignore_extensions {
            Some(list) => list,
            None => &nothing,
        };
        assert(assets.deep_view() =~= Seq::<AssetView>::empty());
        let mut i: usize = 0;
        while i < entries.len()
            invariant
                i <= entries.len(),
                all == entries.deep_view(),
                ignored == ignore_list.deep_view(),
                candidates == candidates_of(all, self.args.output@),
                assets.deep_view() == catalog_of(candidates.take(i as int), ignored),
            decreases entries.len() - i,
        {
            let asset = Asset::from_path(&entries[i], self.args.output.as_str());
            proof {
                assert(candidates.take(i + 1).drop_last() == candidates.take(i as int));
                assert(candidates.take(i + 1).last() == asset.deep_view());
            }
            if let Some(asset) = asset {
                let extension = match paths::extension(asset.path.as_str()) {
                    Some(ext) => ext,
                    None => String::new(),
                };
                if !holds(ignore_list, &extension) {
                    let ghost before = assets.deep_view();
                    let ghost av = asset@;
                    assets.push(asset);
                    assert(assets.deep_view() == before.push(av));
                }
            }
            i += 1;
        }
        assert(candidates.take(i as int) == candidates);
        self.assets = assets;
    }

    /// Splits the catalog into its models, prefabs and materials.
    pub fn partition(&self) -> (parts: Partition)
        ensures
            parts.models.deep_view() == models_of(self.assets.deep_view()),
            parts.prefabs.deep_view() == prefabs_of(self.assets.deep_view()),
            parts.materials.deep_view() == materials_of(self.assets.deep_view()),
    {
        let mut models: Vec<Asset> = Vec::new();
        let mut prefabs: Vec<Asset> = Vec::new();
        let mut materials: Vec<Asset> = Vec::new();
        let ghost all = self.assets.deep_view();
        let ghost is_model = |a: AssetView| a.asset_type is FbxModel;
        let ghost is_prefab = |a: AssetView| a.asset_type is Prefab;
        let ghost is_material = |a: AssetView| a.asset_type is Material;
        let mut i: usize = 0;
        while i < self.assets.len()
            invariant
                i <= self.assets.len(),
                all == self.assets.deep_view(),
                is_model == |a: AssetView| a.asset_type is FbxModel,
                is_prefab == |a: AssetView| a.asset_type is Prefab,
                is_material == |a: AssetView| a.asset_type is Material,
                models.deep_view() == all.take(i as int).filter(is_model),
                prefabs.deep_view() == all.take(i as int).filter(is_prefab),
                materials.deep_view() == all.take(i as int).filter(is_material),
            decreases self.assets.len() - i,
        {
            let asset = &self.assets[i];
            proof {
                assert(all.take(i + 1).drop_last() == all.take(i as int));
                assert(all.take(i + 1).last() == asset@);
                reveal(Seq::filter);
            }
            if asset.asset_type.is_model() {
                let ghost before = models.deep_view();
                models.push(asset.clone());
                assert(models.deep_view() == before.push(asset@));
            } else if asset.asset_type.is_prefab() {
                let ghost before = prefabs.deep_view();
                prefabs.push(asset.clone());
                assert(prefabs.deep_view() == before.push(asset@));
            } else if asset.asset_type.is_material() {
                let ghost before = materials.deep_view();
                materials.push(asset.clone());
                assert(materials.deep_view() == before.push(asset@));
            }
            i += 1;
        }
        assert(all.take(i as int) == all);
        Partition { models, prefabs, materials }
    }

    /// Lists the containers that are to be rebound, with the texture for each, as
    /// [`rebindings`] describes.
    pub fn update_gltf_materials(
        &self,
        prefabs: &Vec<PrefabSource>,
        materials: &Vec<MaterialSource>,
    ) -> (outcome: Result<Vec<Rebinding>, DanglingReference>)
        ensures
            match outcome {
                Ok(jobs) => rebindings(
                    self.args.fbx_to_gltf is Some,
                    self.assets.deep_view(),
                    materials.deep_view(),
                    prefabs.deep_view(),
                ) == Ok::<Seq<RebindingView>, Seq<char>>(jobs.deep_view()),
                Err(e) => rebindings(
                    self.args.fbx_to_gltf is Some,
                    self.assets.deep_view(),
                    materials.deep_view(),
                    prefabs.deep_view(),
                ) == Err::<Seq<RebindingView>, Seq<char>>(e.guid@),
            },
    {
        let mut jobs: Vec<Rebinding> = Vec::new();
        if self.args.fbx_to_gltf.is_none() {
            assert(jobs.deep_view() =~= Seq::<RebindingView>::empty());
            return Ok(jobs);
        }
        let found = match self.resolve(prefabs, materials) {
            Ok(found) => found,
            Err(e) => {
                return Err(e);
            },
        };
        let ghost all = found.deep_view();
        let ghost wanted = Seq::new(all.len(), |i: int| rebinding_of(all[i]));
        assert(jobs.deep_view() =~= wanted.take(0));
        proof {
            lemma_known_extensions_are_plain();
        }
        let mut i: usize = 0;
        while i < found.len()
            invariant
                i <= found.len(),
                all == found.deep_view(),
                wanted == Seq::new(all.len(), |i: int| rebinding_of(all[i])),
                jobs.deep_view() == wanted.take(i as int),
                paths::is_plain_extension("glb"@),
            decreases found.len() - i,
        {
            let m = &found[i];
            let container = paths::with_extension(m.model.path.as_str(), "glb");
            let ghost before = jobs.deep_view();
            jobs.push(
                Rebinding {
                    found: Match {
                        prefab: m.prefab.clone(),
                        model: m.model.clone(),
                        material: m.material.clone(),
                        texture: m.texture.clone(),
                    },
                    container,
                },
            );
            assert(all[i as int] == m@);
            assert(jobs.deep_view() == before.push(rebinding_of(m@)));
            assert(wanted.take(i + 1) == wanted.take(i as int).push(rebinding_of(m@)));
            i += 1;
        }
        assert(wanted.take(i as int) == wanted);
        Ok(jobs)
    }
}

/// No two entries bear the same name, as it is within one directory.
pub open spec fn distinct_names(entries: Seq<FolderEntryView>) -> bool {
    forall|i: int, j: int|
        0 <= i < j < entries.len() ==> (#[trigger] entries[i]).name != (#[trigger] entries[j]).name
}

/// Some folder among `entries` that holds an asset bears the name `guid`.
pub open spec fn names_asset_folder(entries: Seq<FolderEntryView>, guid: Seq<char>) -> bool {
    exists|e: int|
        0 <= e < entries.len() && (#[trigger] entries[e]).holds_asset() && entries[e].name == guid
}

/// Every asset of a catalog was a candidate, and the catalog keeps the order of the
/// candidates: `origin[k]` is where the `k`-th asset stood among them.
proof fn lemma_catalog_origin(candidates: Seq<Option<AssetView>>, ignored: Seq<Seq<char>>) -> (origin:
    Seq<int>)
    ensures
        origin.len() == catalog_of(candidates, ignored).len(),
        forall|k: int|
            0 <= k < origin.len() ==> 0 <= #[trigger] origin[k] < candidates.len()
                && candidates[origin[k]] == Some(catalog_of(candidates, ignored)[k]),
        forall|k: int, l: int| 0 <= k < l < origin.len() ==> origin[k] < origin[l],
    decreases candidates.len(),
{
    if candidates.len() == 0 {
        Seq::empty()
    } else {
        let before = lemma_catalog_origin(candidates.drop_last(), ignored);
        if catalog_of(candidates, ignored).len() == before.len() {
            before
        } else {
            before.push(candidates.len() - 1)
        }
    }
}

/// The GUIDs of a catalog are pairwise different; each is the name of a folder that
/// holds both an `asset` and a `pathname` file; and a folder without an `asset`
/// file has no asset in the catalog.
pub proof fn lemma_catalog_guids_unique(
    entries: Seq<FolderEntryView>,
    output_dir: Seq<char>,
    ignored: Seq<Seq<char>>,
)
    requires
        distinct_names(entries),
    ensures
        forall|k: int, l: int|
            0 <= k < l < catalog_of(candidates_of(entries, output_dir), ignored).len() ==> (
            #[trigger] catalog_of(candidates_of(entries, output_dir), ignored)[k]).guid != (
            #[trigger] catalog_of(candidates_of(entries, output_dir), ignored)[l]).guid,
        forall|k: int|
            0 <= k < catalog_of(candidates_of(entries, output_dir), ignored).len()
                ==> names_asset_folder(
                entries,
                (#[trigger] catalog_of(candidates_of(entries, output_dir), ignored)[k]).guid,
            ),
        forall|e: int, k: int|
            0 <= e < entries.len() && 0 <= k < catalog_of(
                candidates_of(entries, output_dir),
                ignored,
            ).len() && !has_file((#[trigger] entries[e]).files, "asset"@) ==> (#[trigger] catalog_of(
                candidates_of(entries, output_dir),
                ignored,
            )[k]).guid != entries[e].name,
{
    let candidates = candidates_of(entries, output_dir);
    let catalog = catalog_of(candidates, ignored);
    let origin = lemma_catalog_origin(candidates, ignored);
    assert forall|k: int| 0 <= k < catalog.len() implies {
        &&& entries[origin[k]].holds_asset()
        &&& entries[origin[k]].name == (#[trigger] catalog[k]).guid
    } by {
        assert(candidates[origin[k]] == asset_of(entries[origin[k]], output_dir));
    }
    assert forall|k: int, l: int| 0 <= k < l < catalog.len() implies (#[trigger] catalog[k]).guid
        != (#[trigger] catalog[l]).guid by {
        assert(origin[k] < origin[l]);
        assert(entries[origin[k]].name != entries[origin[l]].name);
    }
    assert forall|k: int| 0 <= k < catalog.len() implies names_asset_folder(
        entries,
        (#[trigger] catalog[k]).guid,
    ) by {
        assert(entries[origin[k]].holds_asset());
    }
    assert forall|e: int, k: int|
        0 <= e < entries.len() && 0 <= k < catalog.len() && !has_file(
            (#[trigger] entries[e]).files,
            "asset"@,
        ) implies (#[trigger] catalog[k]).guid != entries[e].name by {
        let o = origin[k];
        assert(entries[o].holds_asset());
        if o < e {
            assert(entries[o].name != entries[e].name);
        } else if e < o {
            assert(entries[e].name != entries[o].name);
        }
    }
}

/// A prefab that mentions no model, several models, no material or several
/// materials establishes no relationship.
pub proof fn lemma_ambiguous_prefab_yields_none(
    catalog: Seq<AssetView>,
    materials: Seq<MaterialSourceView>,
    source: PrefabSourceView,
)
    requires
        mentioned_models(catalog, source.content).len() != 1 || mentioned_materials(
            materials,
            source.content,
        ).len() != 1,
    ensures
        resolution(catalog, materials, source) is Unmatched,
        resolved(catalog, materials, seq![source]) == Ok::<Seq<MatchView>, Seq<char>>(Seq::empty()),
{
    reveal(resolution);
    lemma_resolved_single(catalog, materials, source);
}

/// A prefab that mentions exactly one model and exactly one material establishes
/// exactly one relationship, between itself, that model, that material and the
/// material's texture, provided the material has a texture and the catalog holds it.
pub proof fn lemma_one_of_each_yields_one_match(
    catalog: Seq<AssetView>,
    materials: Seq<MaterialSourceView>,
    source: PrefabSourceView,
    texture: int,
)
    requires
        source.prefab.asset_type is Prefab,
        mentioned_models(catalog, source.content).len() == 1,
        mentioned_materials(materials, source.content).len() == 1,
        mentioned_materials(materials, source.content)[0].texture matches Some(guid)
            && first_with_guid(catalog, guid) == Some(texture),
    ensures
        resolved(catalog, materials, seq![source]) == Ok::<Seq<MatchView>, Seq<char>>(
            seq![
                MatchView {
                    prefab: source.prefab,
                    model: mentioned_models(catalog, source.content)[0],
                    material: mentioned_materials(materials, source.content)[0].material,
                    texture: catalog[texture],
                },
            ],
        ),
{
    reveal(resolution);
    lemma_resolved_single(catalog, materials, source);
}

/// The relationships that a search found; none where it failed.
pub open spec fn matches_of(
    catalog: Seq<AssetView>,
    materials: Seq<MaterialSourceView>,
    prefabs: Seq<PrefabSourceView>,
) -> Seq<MatchView> {
    match resolved(catalog, materials, prefabs) {
        Ok(found) => found,
        Err(_) => Seq::empty(),
    }
}

/// In a search that succeeds, whatever the prefabs, each prefab that establishes a
/// relationship has exactly one match, its own, and the others have none:
/// `origin[k]` is the prefab that the `k`-th match belongs to, the matches keep the
/// order of the prefabs, and no prefab with a relationship is left out.
pub proof fn lemma_one_match_per_prefab(
    catalog: Seq<AssetView>,
    materials: Seq<MaterialSourceView>,
    prefabs: Seq<PrefabSourceView>,
) -> (origin: Seq<int>)
    requires
        resolved(catalog, materials, prefabs) is Ok,
    ensures
        origin.len() == matches_of(catalog, materials, prefabs).len(),
        forall|k: int|
            0 <= k < origin.len() ==> 0 <= #[trigger] origin[k] < prefabs.len() && resolution(
                catalog,
                materials,
                prefabs[origin[k]],
            ) == Resolution::Matched(matches_of(catalog, materials, prefabs)[k]),
        forall|k: int, l: int| 0 <= k < l < origin.len() ==> origin[k] < origin[l],
        forall|i: int|
            0 <= i < prefabs.len() && resolution(catalog, materials, #[trigger] prefabs[i])
                is Matched ==> origin.contains(i),
    decreases prefabs.len(),
{
    if prefabs.len() == 0 {
        Seq::empty()
    } else {
        let before = lemma_one_match_per_prefab(catalog, materials, prefabs.drop_last());
        let last = prefabs.len() - 1;
        let origin = if resolution(catalog, materials, prefabs.last()) is Matched {
            before.push(last)
        } else {
            before
        };
        assert forall|i: int|
            0 <= i < prefabs.len() && resolution(catalog, materials, #[trigger] prefabs[i])
                is Matched implies origin.contains(i) by {
            if i < last {
                assert(prefabs.drop_last()[i] == prefabs[i]);
                assert(before.contains(i));
                let k = choose|k: int| 0 <= k < before.len() && before[k] == i;
                assert(origin[k] == i);
            } else {
                assert(origin[origin.len() - 1] == i);
            }
        }
        origin
    }
}

/// What the search gives for a single prefab.
proof fn lemma_resolved_single(
    catalog: Seq<AssetView>,
    materials: Seq<MaterialSourceView>,
    source: PrefabSourceView,
)
    ensures
        resolved(catalog, materials, seq![source]) == match resolution(catalog, materials, source) {
            Resolution::Unmatched => Ok::<Seq<MatchView>, Seq<char>>(Seq::empty()),
            Resolution::Dangling(guid) => Err(guid),
            Resolution::Matched(m) => Ok(seq![m]),
        },
{
    let one = seq![source];
    assert(one.drop_last() =~= Seq::<PrefabSourceView>::empty());
    assert(one.last() == source);
    reveal_with_fuel(resolved, 2);
    match resolution(catalog, materials, source) {
        Resolution::Matched(m) => {
            assert(Seq::<MatchView>::empty().push(m) =~= seq![m]);
        },
        _ => {},
    }
}

/// A metadata sidecar that is to be moved.
#[derive(Debug, PartialEq, Eq)]
pub struct MetaMove {
    pub source: String,
    pub target: String,
}

/// A model that is to be converted in place of being moved.
#[derive(Debug, PartialEq, Eq)]
pub struct Conversion {
    /// The path of the model without its extension.
    pub output: String,
    /// What the conversion tool is called with.
    pub arguments: Vec<String>,
}

/// What is to be done with the files of one asset.
#[derive(Debug, PartialEq, Eq)]
pub struct Placement {
    pub guid: String,
    /// The payload in the unpacked tree.
    pub source: String,
    /// Where the asset belongs.
    pub target: String,
    /// The sidecar, where it is to go along.
    pub meta: Option<MetaMove>,
    /// The conversion, where the payload is a model and models are converted.
    pub conversion: Option<Conversion>,
}

/// The placement of `asset`, whose folder stands under `tmp_dir`: its payload is
/// the file `asset` of its folder, and it goes to its path; its sidecar, the file
/// `asset.meta` of the folder, goes to that path with `.meta` appended, if there
/// is one and sidecars are wanted; and it is converted instead of moved exactly
/// when it is a model and models are converted. The output of the conversion is
/// the path without its extension, and the tool is told the payload as input,
/// binary output, and the output path.
pub open spec fn places(
    asset: AssetView,
    tmp_dir: Seq<char>,
    copy_meta: bool,
    convert: bool,
    p: Placement,
) -> bool {
    &&& p.guid@ == asset.guid
    &&& p.source@ == joined(joined(tmp_dir, asset.guid), "asset"@)
    &&& p.target@ == asset.path
    &&& p.meta is Some <==> copy_meta && asset.has_meta
    &&& p.meta matches Some(m) ==> {
        &&& m.source@ == joined(joined(tmp_dir, asset.guid), "asset.meta"@)
        &&& m.target@ == asset.path + ".meta"@
    }
    &&& p.conversion is Some <==> convert && asset.asset_type is FbxModel
    &&& p.conversion matches Some(c) ==> {
        &&& c.output@ == with_extension_of(asset.path, ""@)
        &&& c.arguments.deep_view() == seq!["--input"@, p.source@, "-b"@, "--output"@, c.output@]
    }
}

impl Unpacker {
    /// Plans the placement of one asset whose folder stands under `tmp_dir`.
    pub fn place(&self, asset: &Asset, tmp_dir: &str) -> (p: Placement)
        ensures
            places(asset@, tmp_dir@, self.args.copy_meta_files, self.args.fbx_to_gltf is Some, p),
    {
        let folder = paths::join(tmp_dir, asset.guid.as_str());
        let source = paths::join(folder.as_str(), "asset");
        let meta = if self.args.copy_meta_files && asset.has_meta {
            Some(
                MetaMove {
                    source: paths::join(folder.as_str(), "asset.meta"),
                    target: asset.path.clone().concat(".meta"),
                },
            )
        } else {
            None
        };
        let conversion = if self.args.fbx_to_gltf.is_some() && asset.asset_type.is_model() {
            proof {
                lemma_known_extensions_are_plain();
            }
            let output = paths::with_extension(asset.path.as_str(), "");
            let mut arguments: Vec<String> = Vec::new();
            arguments.push(String::from_str("--input"));
            arguments.push(source.clone());
            arguments.push(String::from_str("-b"));
            arguments.push(String::from_str("--output"));
            arguments.push(output.clone());
            assert(arguments.deep_view() =~= seq![
                "--input"@,
                source@,
                "-b"@,
                "--output"@,
                output@,
            ]);
            Some(Conversion { output, arguments })
        } else {
            None
        };
        Placement { guid: asset.guid.clone(), source, target: asset.path.clone(), meta, conversion }
    }

    /// Plans the placement of every asset of the catalog, in catalog order.
    pub fn process_data(&self, tmp_dir: &str) -> (plan: Vec<Placement>)
        ensures
            plan.len() == self.assets.len(),
            forall|i: int|
                0 <= i < plan.len() ==> places(
                    self.assets[i]@,
                    tmp_dir@,
                    self.args.copy_meta_files,
                    self.args.fbx_to_gltf is Some,
                    #[trigger] plan[i],
                ),
    {
        let mut plan: Vec<Placement> = Vec::new();
        let mut i: usize = 0;
        while i < self.assets.len()
            invariant
                i <= self.assets.len(),
                plan.len() == i,
                forall|j: int|
                    0 <= j < i ==> places(
                        self.assets[j]@,
                        tmp_dir@,
                        self.args.copy_meta_files,
                        self.args.fbx_to_gltf is Some,
                        #[trigger] plan[j],
                    ),
            decreases self.assets.len() - i,
        {
            plan.push(self.place(&self.assets[i], tmp_dir));
            i += 1;
        }
        plan
    }
}

} // verus!
