//! Gathering what a synchronization is planned from: local hardware, the assets that match it, and
//! the taxonomy that the inventory server has for it.

use vstd::prelude::*;

use crate::client::ErrorView;
use crate::client::SnipeItError;
use crate::discovery::MonitorInfo;
use crate::discovery::MonitorInfoView;
use crate::discovery::SystemInfo;
use crate::failure;
use crate::failure::Failure;
use crate::failure::FailureView;
use crate::model::Asset;
use crate::model::AssetModel;
use crate::model::Duplicate;
use crate::model::Manufacturer;
use crate::text;

verus! {

// ---------------------------------------------------------------------------------------------
// Taxonomy
// ---------------------------------------------------------------------------------------------

/// A name in the form in which names are compared: words separated by single spaces, in lower
/// case.
pub open spec fn normalized(name: Seq<char>) -> Seq<char> {
    text::lower_case(text::collapsed(name))
}

/// Brings a name into the form in which names are compared.
pub fn normalize(value: &str) -> (name: String)
    ensures
        name@ == normalized(value@),
{
    let collapsed = text::collapse_whitespace(value);
    text::to_lowercase(collapsed.as_str())
}

/// Spacing does not tell names apart: white space at either end, and how much of it stands between
/// two words, makes no difference.
pub proof fn spacing_does_not_matter(
    before: Seq<char>,
    space: Seq<char>,
    other: Seq<char>,
    after: Seq<char>,
)
    requires
        text::blank(space),
        text::blank(other),
        space.len() > 0,
        other.len() > 0,
    ensures
        normalized(before + space + after) == normalized(before + other + after),
        normalized(space + after) == normalized(after),
        normalized(before + space) == normalized(before),
{
    text::white_space_is_collapsed(before, space, other, after);
}

/// A normalized name is its own normal form, starts and ends with no white space, and holds none
/// but single spaces. This is said of names whose words are ASCII.
pub proof fn normalized_names_are_normal(name: Seq<char>)
    requires
        text::ascii(text::collapsed(name)),
    ensures
        normalized(name) == text::ascii_lowered(text::collapsed(name)),
        normalized(normalized(name)) == normalized(name),
        text::tidy(normalized(name)),
{
    let plain = text::collapsed(name);
    text::collapsed_texts_are_tidy(name);
    text::small_letters_keep_words(plain);
}

/// Case does not tell names apart that are ASCII but for their white space.
pub proof fn case_does_not_matter(name: Seq<char>, other: Seq<char>)
    requires
        text::ascii(text::collapsed(name)),
        text::ascii_lowered(name) == text::ascii_lowered(other),
    ensures
        normalized(name) == normalized(other),
{
    text::small_letters_keep_words(name);
    text::small_letters_keep_words(other);
    text::small_letters_keep_words(text::collapsed(name));
    text::small_letters_keep_words(text::collapsed(other));
}

/// What the inventory server has under a name.
#[derive(Clone, Copy, Debug, PartialEq, Eq, Structural)]
pub enum TaxonomyResolution {
    Missing,
    Resolved { id: u64 },
    Ambiguous,
}

impl DeepView for TaxonomyResolution {
    type V = TaxonomyResolution;

    open spec fn deep_view(&self) -> TaxonomyResolution {
        *self
    }
}

/// The first identifier that is not zero, or zero.
pub open spec fn first_nonzero(ids: Seq<u64>) -> u64
    decreases ids.len(),
{
    if ids.len() == 0 {
        0
    } else if first_nonzero(ids.drop_last()) != 0 {
        first_nonzero(ids.drop_last())
    } else {
        ids.last()
    }
}

/// Whether two identifiers differ that are not zero.
pub open spec fn conflicting(ids: Seq<u64>) -> bool {
    exists|i: int, j: int|
        0 <= i < ids.len() && 0 <= j < ids.len() && #[trigger] ids[i] != 0 && #[trigger] ids[j] != 0
            && ids[i] != ids[j]
}

/// What some identifiers resolve to: identifiers that are zero stand for nothing.
pub open spec fn resolution_of(ids: Seq<u64>) -> TaxonomyResolution {
    if first_nonzero(ids) == 0 {
        TaxonomyResolution::Missing
    } else if conflicting(ids) {
        TaxonomyResolution::Ambiguous
    } else {
        TaxonomyResolution::Resolved { id: first_nonzero(ids) }
    }
}

proof fn lemma_first_nonzero(ids: Seq<u64>)
    ensures
        first_nonzero(ids) == 0 ==> forall|i: int| 0 <= i < ids.len() ==> #[trigger] ids[i] == 0,
        first_nonzero(ids) != 0 ==> exists|i: int|
            0 <= i < ids.len() && #[trigger] ids[i] == first_nonzero(ids),
    decreases ids.len(),
{
    if ids.len() > 0 {
        let before = ids.drop_last();
        lemma_first_nonzero(before);
        if first_nonzero(ids) == 0 {
            assert forall|i: int| 0 <= i < ids.len() implies #[trigger] ids[i] == 0 by {
                if i < before.len() {
                    assert(before[i] == ids[i]);
                }
            }
        } else if first_nonzero(before) != 0 {
            let i = choose|i: int| 0 <= i < before.len() && before[i] == first_nonzero(before);
            assert(ids[i] == first_nonzero(ids));
        } else {
            assert(ids[ids.len() - 1] == first_nonzero(ids));
        }
    }
}

/// A resolution is missing only if nothing has a usable identifier, and resolved only if all
/// usable identifiers agree; the identifier is then theirs.
pub proof fn resolutions_are_strict(ids: Seq<u64>)
    ensures
        match resolution_of(ids) {
            TaxonomyResolution::Missing => forall|i: int|
                0 <= i < ids.len() ==> #[trigger] ids[i] == 0,
            TaxonomyResolution::Resolved { id } => {
                &&& id != 0
                &&& ids.contains(id)
                &&& forall|i: int| 0 <= i < ids.len() && #[trigger] ids[i] != 0 ==> ids[i] == id
            },
            TaxonomyResolution::Ambiguous => conflicting(ids),
        },
{
    lemma_first_nonzero(ids);
}

/// Resolves identifiers.
pub fn resolution_from_ids(ids: &Vec<u64>) -> (resolution: TaxonomyResolution)
    ensures
        resolution == resolution_of(ids@),
{
    let mut first: u64 = 0;
    let mut conflict = false;
    let mut index: usize = 0;
    proof {
        assert(ids@.take(0) =~= Seq::empty());
    }
    while index < ids.len()
        invariant
            index <= ids@.len(),
            first == first_nonzero(ids@.take(index as int)),
            conflict ==> conflicting(ids@),
            !conflict ==> forall|i: int|
                0 <= i < index && #[trigger] ids@[i] != 0 ==> ids@[i] == first,
        decreases ids.len() - index,
    {
        let id: u64 = ids[index];
        proof {
            let taken = ids@.take(index as int);
            assert(ids@.take(index as int + 1).drop_last() =~= taken);
            lemma_first_nonzero(taken);
            if first != 0 && id != 0 && id != first {
                let i = choose|i: int| 0 <= i < taken.len() && taken[i] == first;
                assert(ids@[i] == first);
                assert(ids@[index as int] == id);
                assert(conflicting(ids@));
            }
            if first == 0 {
                assert forall|i: int| 0 <= i < index implies #[trigger] ids@[i] == 0 by {
                    assert(taken[i] == ids@[i]);
                }
            }
        }
        if id != 0 {
            if first == 0 {
                first = id;
            } else if id != first {
                conflict = true;
            }
        }
        index += 1;
    }
    proof {
        assert(ids@.take(ids@.len() as int) =~= ids@);
        if !conflict {
            assert(!conflicting(ids@));
        }
    }
    if first == 0 {
        TaxonomyResolution::Missing
    } else if conflict {
        TaxonomyResolution::Ambiguous
    } else {
        TaxonomyResolution::Resolved { id: first }
    }
}

/// The identifiers of the manufacturers with a name, in order.
pub open spec fn named_ids(values: Seq<Manufacturer>, name: Seq<char>) -> Seq<u64>
    decreases values.len(),
{
    if values.len() == 0 {
        Seq::empty()
    } else {
        let before = named_ids(values.drop_last(), name);
        if normalized(values.last().name@) == name {
            before.push(values.last().id)
        } else {
            before
        }
    }
}

/// Resolves a name among manufacturers. The name is in the form in which names are compared.
pub fn resolve_named(values: &[Manufacturer], normalized_name: &str) -> (resolution:
    TaxonomyResolution)
    ensures
        resolution == resolution_of(named_ids(values@, normalized_name@)),
{
    let mut ids: Vec<u64> = Vec::new();
    let mut index: usize = 0;
    proof {
        assert(values@.take(0) =~= Seq::empty());
    }
    while index < values.len()
        invariant
            index <= values@.len(),
            ids@ == named_ids(values@.take(index as int), normalized_name@),
        decreases values.len() - index,
    {
        proof {
            assert(values@.take(index as int + 1).drop_last() =~= values@.take(index as int));
        }
        let name = normalize(values[index].name.as_str());
        if text::same_text(name.as_str(), normalized_name) {
            ids.push(values[index].id);
        }
        index += 1;
    }
    proof {
        assert(values@.take(values@.len() as int) =~= values@);
    }
    resolution_from_ids(&ids)
}

/// Whether a model has a name and, where a manufacturer is given, is by it.
pub open spec fn model_matches(
    model: AssetModel,
    name: Seq<char>,
    manufacturer_id: Option<u64>,
) -> bool {
    &&& normalized(model.name@) == name
    &&& match manufacturer_id {
        None => true,
        Some(id) => model.manufacturer is Some && model.manufacturer->0.id == id,
    }
}

/// The models that match, in order.
pub open spec fn matching(
    models: Seq<AssetModel>,
    name: Seq<char>,
    manufacturer_id: Option<u64>,
) -> Seq<AssetModel>
    decreases models.len(),
{
    if models.len() == 0 {
        Seq::empty()
    } else {
        let before = matching(models.drop_last(), name, manufacturer_id);
        if model_matches(models.last(), name, manufacturer_id) {
            before.push(models.last())
        } else {
            before
        }
    }
}

/// The values that references point to.
pub open spec fn pointed_to(models: Seq<&AssetModel>) -> Seq<AssetModel> {
    Seq::new(models.len(), |i: int| *models[i])
}

/// Finds the models that match. The name is in the form in which names are compared.
pub fn matching_models<'a>(
    models: &'a [AssetModel],
    normalized_name: &str,
    manufacturer_id: Option<u64>,
) -> (matches: Vec<&'a AssetModel>)
    ensures
        pointed_to(matches@) == matching(models@, normalized_name@, manufacturer_id),
{
    let mut matches: Vec<&'a AssetModel> = Vec::new();
    let mut index: usize = 0;
    proof {
        assert(models@.take(0) =~= Seq::empty());
        assert(pointed_to(matches@) =~= Seq::empty());
    }
    while index < models.len()
        invariant
            index <= models@.len(),
            pointed_to(matches@) == matching(
                models@.take(index as int),
                normalized_name@,
                manufacturer_id,
            ),
        decreases models.len() - index,
    {
        proof {
            assert(models@.take(index as int + 1).drop_last() =~= models@.take(index as int));
        }
        let model = &models[index];
        let name = normalize(model.name.as_str());
        let by_manufacturer = match manufacturer_id {
            None => true,
            Some(id) => match &model.manufacturer {
                Some(manufacturer) => manufacturer.id == id,
                None => false,
            },
        };
        let ghost before = pointed_to(matches@);
        if text::same_text(name.as_str(), normalized_name) && by_manufacturer {
            matches.push(model);
            proof {
                assert(pointed_to(matches@) =~= before.push(*model));
            }
        }
        index += 1;
    }
    proof {
        assert(models@.take(models@.len() as int) =~= models@);
    }
    matches
}

/// The identifier that a resolution gives.
pub open spec fn identifier_of(resolution: TaxonomyResolution) -> Option<u64> {
    match resolution {
        TaxonomyResolution::Resolved { id } => Some(id),
        _ => None,
    }
}

/// Gives the identifier of a resolution.
pub fn resolved_id(resolution: &TaxonomyResolution) -> (id: Option<u64>)
    ensures
        id == identifier_of(*resolution),
{
    match resolution {
        TaxonomyResolution::Resolved { id } => Some(*id),
        TaxonomyResolution::Missing => None,
        TaxonomyResolution::Ambiguous => None,
    }
}

/// What the inventory server has for a manufacturer and a model.
#[derive(Clone, Debug, PartialEq, Eq)]
pub struct ResolvedTaxonomy {
    pub manufacturer: TaxonomyResolution,
    pub category: TaxonomyResolution,
    pub model: TaxonomyResolution,
    pub normalized_manufacturer: String,
    pub normalized_model: String,
}

/// The deep view of a [`ResolvedTaxonomy`].
#[verifier::ext_equal]
pub struct TaxonomyView {
    pub manufacturer: TaxonomyResolution,
    pub category: TaxonomyResolution,
    pub model: TaxonomyResolution,
    pub normalized_manufacturer: Seq<char>,
    pub normalized_model: Seq<char>,
}

impl DeepView for ResolvedTaxonomy {
    type V = TaxonomyView;

    open spec fn deep_view(&self) -> TaxonomyView {
        TaxonomyView {
            manufacturer: self.manufacturer,
            category: self.category,
            model: self.model,
            normalized_manufacturer: self.normalized_manufacturer@,
            normalized_model: self.normalized_model@,
        }
    }
}

/// The identifiers of models, in order.
pub open spec fn model_ids(models: Seq<AssetModel>) -> Seq<u64> {
    Seq::new(models.len(), |i: int| models[i].id)
}

/// The identifiers of the categories that models have, in order.
pub open spec fn category_ids(models: Seq<AssetModel>) -> Seq<u64>
    decreases models.len(),
{
    if models.len() == 0 {
        Seq::empty()
    } else {
        let before = category_ids(models.drop_last());
        match models.last().category {
            Some(category) => before.push(category.id),
            None => before,
        }
    }
}

/// The taxonomy of a manufacturer and a model, given what the server lists under their names.
pub open spec fn taxonomy_of(
    manufacturer_name: Seq<char>,
    model_name: Seq<char>,
    manufacturers: Seq<Manufacturer>,
    models: Seq<AssetModel>,
) -> TaxonomyView {
    let manufacturer = resolution_of(named_ids(manufacturers, normalized(manufacturer_name)));
    let matches = matching(models, normalized(model_name), identifier_of(manufacturer));
    TaxonomyView {
        manufacturer,
        category: resolution_of(category_ids(matches)),
        model: resolution_of(model_ids(matches)),
        normalized_manufacturer: normalized(manufacturer_name),
        normalized_model: normalized(model_name),
    }
}

/// Resolves a manufacturer and a model among what the server lists under their names.
pub fn resolve_taxonomy(
    manufacturer_name: &str,
    model_name: &str,
    manufacturers: &Vec<Manufacturer>,
    models: &Vec<AssetModel>,
) -> (taxonomy: ResolvedTaxonomy)
    ensures
        taxonomy.deep_view() == taxonomy_of(
            manufacturer_name@,
            model_name@,
            manufacturers@,
            models@,
        ),
{
    let normalized_manufacturer = normalize(manufacturer_name);
    let normalized_model = normalize(model_name);
    let manufacturer = resolve_named(manufacturers.as_slice(), normalized_manufacturer.as_str());
    let matches = matching_models(
        models.as_slice(),
        normalized_model.as_str(),
        resolved_id(&manufacturer),
    );
    let ghost found = pointed_to(matches@);
    let mut ids: Vec<u64> = Vec::new();
    let mut categories: Vec<u64> = Vec::new();
    let mut index: usize = 0;
    proof {
        assert(found.take(0) =~= Seq::empty());
    }
    while index < matches.len()
        invariant
            index <= matches@.len(),
            found == pointed_to(matches@),
            ids@.len() == index,
            forall|i: int| 0 <= i < index ==> #[trigger] ids@[i] == found[i].id,
            categories@ == category_ids(found.take(index as int)),
        decreases matches.len() - index,
    {
        proof {
            assert(found.take(index as int + 1).drop_last() =~= found.take(index as int));
            assert(found[index as int] == *matches@[index as int]);
        }
        let model = matches[index];
        ids.push(model.id);
        match &model.category {
            Some(category) => categories.push(category.id),
            None => {},
        }
        index += 1;
    }
    proof {
        assert(found.take(found.len() as int) =~= found);
        assert(ids@ =~= model_ids(found));
    }
    let model = resolution_from_ids(&ids);
    let category = resolution_from_ids(&categories);
    ResolvedTaxonomy { manufacturer, category, model, normalized_manufacturer, normalized_model }
}

// ---------------------------------------------------------------------------------------------
// Assets
// ---------------------------------------------------------------------------------------------

/// The asset that a lookup gives: none if the server does not know it, or knows it without an
/// identifier. Every other failure is passed on, in context.
pub open spec fn usable_asset(result: Result<Option<Asset>, FailureView>) -> Result<
    Option<Asset>,
    FailureView,
> {
    match result {
        Ok(Some(asset)) => if asset.id != 0 {
            Ok(Some(asset))
        } else {
            Ok(None)
        },
        Ok(None) => Ok(None),
        Err(failure) => if failure.server == Some(ErrorView::NotFound) {
            Ok(None)
        } else {
            Err(failure::in_context(failure, "failed to resolve Snipe-IT asset"@))
        },
    }
}

/// A result of a lookup in terms of views.
pub open spec fn lookup_view(result: Result<Option<Asset>, Failure>) -> Result<
    Option<Asset>,
    FailureView,
> {
    match result {
        Ok(asset) => Ok(asset),
        Err(failure) => Err(failure.deep_view()),
    }
}

/// Takes the asset out of a lookup.
pub fn optional_asset(result: Result<Option<Asset>, Failure>) -> (asset: Result<
    Option<Asset>,
    Failure,
>)
    ensures
        lookup_view(asset) == usable_asset(lookup_view(result)),
{
    match result {
        Ok(Some(asset)) => if asset.id != 0 {
            Ok(Some(asset))
        } else {
            Ok(None)
        },
        Ok(None) => Ok(None),
        Err(failure) => {
            let missing = match &failure.server {
                Some(SnipeItError::NotFound) => true,
                _ => false,
            };
            if missing {
                Ok(None)
            } else {
                Err(failure.context("failed to resolve Snipe-IT asset"))
            }
        },
    }
}

// ---------------------------------------------------------------------------------------------
// Gathering
// ---------------------------------------------------------------------------------------------

/// A monitor with what the inventory server has for it.
#[derive(Clone, Debug, PartialEq, Eq)]
pub struct ResolvedMonitor {
    pub monitor: MonitorInfo,
    pub asset_id: Option<u64>,
    pub taxonomy: ResolvedTaxonomy,
}

/// The deep view of a [`ResolvedMonitor`].
#[verifier::ext_equal]
pub struct ResolvedMonitorView {
    pub monitor: MonitorInfoView,
    pub asset_id: Option<u64>,
    pub taxonomy: TaxonomyView,
}

impl DeepView for ResolvedMonitor {
    type V = ResolvedMonitorView;

    open spec fn deep_view(&self) -> ResolvedMonitorView {
        ResolvedMonitorView {
            monitor: self.monitor.deep_view(),
            asset_id: self.asset_id,
            taxonomy: self.taxonomy.deep_view(),
        }
    }
}

/// Everything that a synchronization is planned from.
#[derive(Debug, PartialEq, Eq)]
pub struct GatheredSync {
    pub system: SystemInfo,
    pub system_asset: Option<Asset>,
    pub system_taxonomy: ResolvedTaxonomy,
    pub monitors: Vec<ResolvedMonitor>,
    pub warnings: Vec<String>,
}

/// The warning for a monitor that the server does not know.
pub open spec fn monitor_warning(serial: Seq<char>) -> Seq<char> {
    "monitor "@ + serial + " has no matching Snipe-IT asset"@
}

/// The warning for a computer that the server does not know.
pub open spec fn computer_warning(serial: Seq<char>) -> Seq<char> {
    "computer "@ + serial + " has no matching Snipe-IT asset"@
}

/// The warnings for the monitors that the server does not know, in order.
pub open spec fn monitor_warnings(monitors: Seq<ResolvedMonitorView>) -> Seq<Seq<char>>
    decreases monitors.len(),
{
    if monitors.len() == 0 {
        Seq::empty()
    } else {
        let before = monitor_warnings(monitors.drop_last());
        if monitors.last().asset_id is None {
            before.push(monitor_warning(monitors.last().monitor.serial))
        } else {
            before
        }
    }
}

/// Where gathering stands.
#[derive(Clone, Copy, Debug, PartialEq, Eq, Structural)]
pub enum GatherPhase {
    /// The asset of the computer is to be found.
    SystemAsset,
    /// The taxonomy of the computer is to be resolved.
    SystemTaxonomy,
    /// The asset of the next monitor is to be found.
    MonitorAsset,
    /// The taxonomy of the next monitor is to be resolved; its asset has this identifier.
    MonitorTaxonomy { asset_id: Option<u64> },
}

/// Gathering in progress.
#[derive(Debug)]
pub struct Gathering {
    pub system: SystemInfo,
    pub infos: Vec<MonitorInfo>,
    pub phase: GatherPhase,
    pub system_asset: Option<Asset>,
    pub system_taxonomy: Option<ResolvedTaxonomy>,
    pub monitors: Vec<ResolvedMonitor>,
}

/// Whether gathering in progress is in order: the monitors are worked through in order, and those
/// that have been have an asset under an identifier that is not zero, or none.
pub open spec fn in_order(gathering: Gathering) -> bool {
    let infos = gathering.infos.deep_view();
    let monitors = gathering.monitors.deep_view();
    &&& gathering.system_asset is Some ==> gathering.system_asset->0.id != 0
    &&& match gathering.phase {
        GatherPhase::SystemAsset => gathering.system_taxonomy is None && monitors.len() == 0,
        GatherPhase::SystemTaxonomy => gathering.system_taxonomy is None && monitors.len() == 0,
        GatherPhase::MonitorAsset => gathering.system_taxonomy is Some && monitors.len()
            <= infos.len(),
        GatherPhase::MonitorTaxonomy { asset_id } => {
            &&& gathering.system_taxonomy is Some
            &&& monitors.len() < infos.len()
            &&& asset_id != Some(0u64)
        },
    }
    &&& forall|i: int|
        0 <= i < monitors.len() ==> (#[trigger] monitors[i]).monitor == infos[i]
            && monitors[i].asset_id != Some(0u64)
}

/// What gathering needs next.
#[derive(Debug, PartialEq, Eq)]
pub enum GatherQuery {
    /// The asset with a serial.
    FindAsset { serial: String },
    /// The taxonomy of a manufacturer and a model.
    Resolve { manufacturer: String, model: String },
    /// Nothing.
    Complete,
}

/// The deep view of a [`GatherQuery`].
#[verifier::ext_equal]
pub enum QueryView {
    FindAsset { serial: Seq<char> },
    Resolve { manufacturer: Seq<char>, model: Seq<char> },
    Complete,
}

impl DeepView for GatherQuery {
    type V = QueryView;

    open spec fn deep_view(&self) -> QueryView {
        match self {
            GatherQuery::FindAsset { serial } => QueryView::FindAsset { serial: serial@ },
            GatherQuery::Resolve { manufacturer, model } => QueryView::Resolve {
                manufacturer: manufacturer@,
                model: model@,
            },
            GatherQuery::Complete => QueryView::Complete,
        }
    }
}

/// What gathering needs next.
pub open spec fn query_of(gathering: Gathering) -> QueryView {
    let next = gathering.infos.deep_view()[gathering.monitors@.len() as int];
    match gathering.phase {
        GatherPhase::SystemAsset => QueryView::FindAsset { serial: gathering.system.serial@ },
        GatherPhase::SystemTaxonomy => QueryView::Resolve {
            manufacturer: gathering.system.manufacturer@,
            model: gathering.system.model@,
        },
        GatherPhase::MonitorAsset => if gathering.monitors@.len() < gathering.infos@.len() {
            QueryView::FindAsset { serial: next.serial }
        } else {
            QueryView::Complete
        },
        GatherPhase::MonitorTaxonomy { .. } => QueryView::Resolve {
            manufacturer: next.manufacturer_code,
            model: next.product_code,
        },
    }
}

/// The identifier of an asset that may be missing.
pub open spec fn asset_identifier(asset: Option<Asset>) -> Option<u64> {
    match asset {
        Some(asset) => Some(asset.id),
        None => None,
    }
}

/// Begins to gather for discovered hardware.
pub fn gather_sync(system: SystemInfo, infos: Vec<MonitorInfo>) -> (gathering: Gathering)
    ensures
        in_order(gathering),
        gathering.phase == GatherPhase::SystemAsset,
        gathering.system == system,
        gathering.infos == infos,
        gathering.system_asset is None,
        gathering.monitors@.len() == 0,
{
    Gathering {
        system,
        infos,
        phase: GatherPhase::SystemAsset,
        system_asset: None,
        system_taxonomy: None,
        monitors: Vec::new(),
    }
}

impl Gathering {
    /// Tells what is needed next.
    pub fn query(&self) -> (query: GatherQuery)
        requires
            in_order(*self),
        ensures
            query.deep_view() == query_of(*self),
    {
        match self.phase {
            GatherPhase::SystemAsset => GatherQuery::FindAsset {
                serial: self.system.serial.clone(),
            },
            GatherPhase::SystemTaxonomy => GatherQuery::Resolve {
                manufacturer: self.system.manufacturer.clone(),
                model: self.system.model.clone(),
            },
            GatherPhase::MonitorAsset => {
                let next: usize = self.monitors.len();
                if next < self.infos.len() {
                    GatherQuery::FindAsset { serial: self.infos[next].serial.clone() }
                } else {
                    GatherQuery::Complete
                }
            },
            GatherPhase::MonitorTaxonomy { .. } => {
                let next: usize = self.monitors.len();
                GatherQuery::Resolve {
                    manufacturer: self.infos[next].manufacturer_code.clone(),
                    model: self.infos[next].product_code.clone(),
                }
            },
        }
    }

    /// Takes the result of a lookup. A failure ends gathering.
    pub fn found(&mut self, result: Result<Option<Asset>, Failure>) -> (outcome: Result<
        (),
        Failure,
    >)
        requires
            in_order(*old(self)),
            query_of(*old(self)) is FindAsset,
        ensures
            in_order(*final(self)),
            final(self).system == old(self).system,
            final(self).infos == old(self).infos,
            final(self).system_taxonomy == old(self).system_taxonomy,
            final(self).monitors == old(self).monitors,
            match usable_asset(lookup_view(result)) {
                Err(failure) => {
                    &&& outcome is Err
                    &&& outcome->Err_0.deep_view() == failure
                    &&& *final(self) == *old(self)
                },
                Ok(asset) => {
                    &&& outcome is Ok
                    &&& if old(self).phase == GatherPhase::SystemAsset {
                        &&& final(self).phase == GatherPhase::SystemTaxonomy
                        &&& final(self).system_asset == asset
                    } else {
                        &&& final(self).phase == (GatherPhase::MonitorTaxonomy {
                            asset_id: asset_identifier(asset),
                        })
                        &&& final(self).system_asset == old(self).system_asset
                    }
                },
            },
    {
        let asset = match optional_asset(result) {
            Ok(asset) => asset,
            Err(failure) => {
                return Err(failure);
            },
        };
        match self.phase {
            GatherPhase::SystemAsset => {
                self.system_asset = asset;
                self.phase = GatherPhase::SystemTaxonomy;
            },
            _ => {
                let asset_id = match asset {
                    Some(asset) => Some(asset.id),
                    None => None,
                };
                self.phase = GatherPhase::MonitorTaxonomy { asset_id };
            },
        }
        Ok(())
    }

    /// Takes a taxonomy.
    pub fn resolved(&mut self, taxonomy: ResolvedTaxonomy)
        requires
            in_order(*old(self)),
            query_of(*old(self)) is Resolve,
        ensures
            in_order(*final(self)),
            final(self).phase == GatherPhase::MonitorAsset,
            final(self).system == old(self).system,
            final(self).infos == old(self).infos,
            final(self).system_asset == old(self).system_asset,
            match old(self).phase {
                GatherPhase::MonitorTaxonomy { asset_id } => {
                    &&& final(self).system_taxonomy == old(self).system_taxonomy
                    &&& final(self).monitors.deep_view() == old(self).monitors.deep_view().push(
                        ResolvedMonitorView {
                            monitor: old(
                                self,
                            ).infos.deep_view()[old(self).monitors@.len() as int],
                            asset_id,
                            taxonomy: taxonomy.deep_view(),
                        },
                    )
                },
                _ => {
                    &&& final(self).system_taxonomy == Some(taxonomy)
                    &&& final(self).monitors == old(self).monitors
                },
            },
    {
        match self.phase {
            GatherPhase::MonitorTaxonomy { asset_id } => {
                let next: usize = self.monitors.len();
                let ghost before = self.monitors.deep_view();
                let monitor = ResolvedMonitor {
                    monitor: self.infos[next].duplicate(),
                    asset_id,
                    taxonomy,
                };
                let ghost view = monitor.deep_view();
                self.monitors.push(monitor);
                proof {
                    assert(self.monitors.deep_view() =~= before.push(view));
                }
            },
            _ => {
                self.system_taxonomy = Some(taxonomy);
            },
        }
        self.phase = GatherPhase::MonitorAsset;
    }

    /// Ends gathering.
    pub fn finish(self) -> (gathered: GatheredSync)
        requires
            in_order(self),
            query_of(self) is Complete,
        ensures
            gathered.system == self.system,
            gathered.system_asset == self.system_asset,
            self.system_taxonomy == Some(gathered.system_taxonomy),
            gathered.monitors.deep_view() == self.monitors.deep_view(),
            gathered.warnings.deep_view() == monitor_warnings(self.monitors.deep_view())
                + if self.system_asset is None {
                seq![computer_warning(self.system.serial@)]
            } else {
                Seq::empty()
            },
    {
        let mut warnings: Vec<String> = Vec::new();
        let mut index: usize = 0;
        let ghost views = self.monitors.deep_view();
        proof {
            assert(warnings.deep_view() =~= Seq::empty());
            assert(views.take(0) =~= Seq::empty());
        }
        while index < self.monitors.len()
            invariant
                index <= self.monitors@.len(),
                views == self.monitors.deep_view(),
                warnings.deep_view() == monitor_warnings(views.take(index as int)),
            decreases self.monitors.len() - index,
        {
            let ghost before = warnings.deep_view();
            proof {
                assert(views.take(index as int + 1).drop_last() =~= views.take(index as int));
            }
            let monitor = &self.monitors[index];
            if monitor.asset_id.is_none() {
                let warning = text::join3(
                    "monitor ",
                    monitor.monitor.serial.as_str(),
                    " has no matching Snipe-IT asset",
                );
                let ghost view = warning@;
                warnings.push(warning);
                proof {
                    assert(warnings.deep_view() =~= before.push(view));
                }
            }
            index += 1;
        }
        let ghost before = warnings.deep_view();
        proof {
            assert(views.take(views.len() as int) =~= views);
        }
        if self.system_asset.is_none() {
            let warning = text::join3(
                "computer ",
                self.system.serial.as_str(),
                " has no matching Snipe-IT asset",
            );
            let ghost view = warning@;
            warnings.push(warning);
            proof {
                assert(warnings.deep_view() =~= before + seq![view]);
            }
        } else {
            proof {
                assert(warnings.deep_view() =~= before + Seq::empty());
            }
        }
        match self.system_taxonomy {
            Some(system_taxonomy) => GatheredSync {
                system: self.system,
                system_asset: self.system_asset,
                system_taxonomy,
                monitors: self.monitors,
                warnings,
            },
            None => vstd::pervasive::unreached(),
        }
    }
}

/// What is gathered covers the discovered hardware: there is one result for every monitor, in
/// order, a warning for every monitor that the server does not know, and none if it knows all.
pub proof fn gathering_covers_the_hardware(gathering: Gathering)
    requires
        in_order(gathering),
        query_of(gathering) is Complete,
    ensures
        ({
            let monitors = gathering.monitors.deep_view();
            let infos = gathering.infos.deep_view();
            &&& monitors.len() == infos.len()
            &&& forall|i: int|
                0 <= i < infos.len() ==> (#[trigger] monitors[i]).monitor == infos[i]
            &&& forall|i: int|
                0 <= i < monitors.len() && (#[trigger] monitors[i]).asset_id is None
                    ==> monitor_warnings(monitors).contains(
                    monitor_warning(monitors[i].monitor.serial),
                )
            &&& (forall|i: int|
                0 <= i < monitors.len() ==> (#[trigger] monitors[i]).asset_id is Some)
                ==> monitor_warnings(monitors).len() == 0
        }),
{
    let monitors = gathering.monitors.deep_view();
    assert forall|i: int|
        0 <= i < monitors.len() && (#[trigger] monitors[i]).asset_id is None implies monitor_warnings(
        monitors,
    ).contains(monitor_warning(monitors[i].monitor.serial)) by {
        lemma_unknown_monitor_is_warned_of(monitors, i);
    }
    if forall|i: int| 0 <= i < monitors.len() ==> (#[trigger] monitors[i]).asset_id is Some {
        lemma_known_monitors_are_not_warned_of(monitors);
    }
}

proof fn lemma_unknown_monitor_is_warned_of(monitors: Seq<ResolvedMonitorView>, index: int)
    requires
        0 <= index < monitors.len(),
        monitors[index].asset_id is None,
    ensures
        monitor_warnings(monitors).contains(monitor_warning(monitors[index].monitor.serial)),
    decreases monitors.len(),
{
    let warnings = monitor_warnings(monitors);
    let before = monitor_warnings(monitors.drop_last());
    let warning = monitor_warning(monitors[index].monitor.serial);
    if index == monitors.len() - 1 {
        assert(warnings[before.len() as int] == warning);
    } else {
        lemma_unknown_monitor_is_warned_of(monitors.drop_last(), index);
        let k = choose|k: int| 0 <= k < before.len() && before[k] == warning;
        assert(warnings[k] == warning);
    }
}

proof fn lemma_known_monitors_are_not_warned_of(monitors: Seq<ResolvedMonitorView>)
    requires
        forall|i: int| 0 <= i < monitors.len() ==> (#[trigger] monitors[i]).asset_id is Some,
    ensures
        monitor_warnings(monitors).len() == 0,
    decreases monitors.len(),
{
    if monitors.len() > 0 {
        let before = monitors.drop_last();
        assert forall|i: int| 0 <= i < before.len() implies (
        #[trigger] before[i]).asset_id is Some by {
            assert(before[i] == monitors[i]);
        }
        assert(monitors.last() == monitors[monitors.len() - 1]);
        lemma_known_monitors_are_not_warned_of(before);
    }
}

proof fn lemma_matching(models: Seq<AssetModel>, name: Seq<char>, manufacturer_id: Option<u64>)
    ensures
        forall|i: int|
            0 <= i < matching(models, name, manufacturer_id).len() ==> {
                let model = #[trigger] matching(models, name, manufacturer_id)[i];
                &&& models.contains(model)
                &&& normalized(model.name@) == name
                &&& manufacturer_id is Some ==> model.manufacturer is Some
                    && model.manufacturer->0.id == manufacturer_id->0
            },
        forall|i: int|
            0 <= i < models.len() && normalized((#[trigger] models[i]).name@) == name && (
            manufacturer_id is None || (models[i].manufacturer is Some
                && models[i].manufacturer->0.id == manufacturer_id->0)) ==> matching(
                models,
                name,
                manufacturer_id,
            ).contains(models[i]),
    decreases models.len(),
{
    if models.len() > 0 {
        let shorter = models.drop_last();
        let before = matching(shorter, name, manufacturer_id);
        let all = matching(models, name, manufacturer_id);
        lemma_matching(shorter, name, manufacturer_id);
        assert forall|i: int| 0 <= i < all.len() implies {
            let model = #[trigger] all[i];
            &&& models.contains(model)
            &&& normalized(model.name@) == name
            &&& manufacturer_id is Some ==> model.manufacturer is Some
                && model.manufacturer->0.id == manufacturer_id->0
        } by {
            if i < before.len() {
                assert(all[i] == before[i]);
                let k = choose|k: int| 0 <= k < shorter.len() && shorter[k] == before[i];
                assert(models[k] == all[i]);
            } else {
                assert(models[models.len() - 1] == all[i]);
            }
        }
        assert forall|i: int|
            0 <= i < models.len() && normalized((#[trigger] models[i]).name@) == name && (
            manufacturer_id is None || (models[i].manufacturer is Some
                && models[i].manufacturer->0.id == manufacturer_id->0)) implies all.contains(
            models[i],
        ) by {
            if i < shorter.len() {
                assert(shorter[i] == models[i]);
                let k = choose|k: int| 0 <= k < before.len() && before[k] == models[i];
                assert(all[k] == models[i]);
            } else {
                assert(all[before.len() as int] == models[i]);
            }
        }
    }
}

/// Models are matched by name and, once the manufacturer is known, by manufacturer: everything that
/// is matched has the name and is by that manufacturer, and everything listed that has both is
/// matched.
pub proof fn models_are_matched_by_name_and_manufacturer(
    models: Seq<AssetModel>,
    name: Seq<char>,
    manufacturer_id: Option<u64>,
    model: AssetModel,
)
    ensures
        matching(models, name, manufacturer_id).contains(model) <==> {
            &&& models.contains(model)
            &&& normalized(model.name@) == name
            &&& manufacturer_id is Some ==> model.manufacturer is Some
                && model.manufacturer->0.id == manufacturer_id->0
        },
{
    lemma_matching(models, name, manufacturer_id);
    let all = matching(models, name, manufacturer_id);
    if all.contains(model) {
        let k = choose|k: int| 0 <= k < all.len() && all[k] == model;
        assert(all[k] == model);
    }
    if models.contains(model) {
        let k = choose|k: int| 0 <= k < models.len() && models[k] == model;
        assert(models[k] == model);
    }
}

proof fn lemma_named_ids(values: Seq<Manufacturer>, name: Seq<char>, id: u64)
    ensures
        named_ids(values, name).contains(id) <==> exists|i: int|
            0 <= i < values.len() && (#[trigger] values[i]).id == id && normalized(values[i].name@)
                == name,
    decreases values.len(),
{
    if values.len() > 0 {
        let shorter = values.drop_last();
        let before = named_ids(shorter, name);
        let all = named_ids(values, name);
        lemma_named_ids(shorter, name, id);
        if all.contains(id) {
            let k = choose|k: int| 0 <= k < all.len() && all[k] == id;
            if k < before.len() {
                assert(before[k] == id);
                let i = choose|i: int|
                    0 <= i < shorter.len() && (#[trigger] shorter[i]).id == id && normalized(
                        shorter[i].name@,
                    ) == name;
                assert(values[i].id == id);
            } else {
                assert(values[values.len() - 1].id == id);
            }
        }
        if exists|i: int|
            0 <= i < values.len() && (#[trigger] values[i]).id == id && normalized(values[i].name@)
                == name {
            let i = choose|i: int|
                0 <= i < values.len() && (#[trigger] values[i]).id == id && normalized(
                    values[i].name@,
                ) == name;
            if i < shorter.len() {
                assert(shorter[i].id == id);
                let k = choose|k: int| 0 <= k < before.len() && before[k] == id;
                assert(all[k] == id);
            } else {
                assert(all[before.len() as int] == id);
            }
        }
    }
}

proof fn lemma_category_ids(models: Seq<AssetModel>, id: u64)
    ensures
        category_ids(models).contains(id) <==> exists|i: int|
            0 <= i < models.len() && (#[trigger] models[i]).category is Some
                && models[i].category->0.id == id,
    decreases models.len(),
{
    if models.len() > 0 {
        let shorter = models.drop_last();
        let before = category_ids(shorter);
        let all = category_ids(models);
        lemma_category_ids(shorter, id);
        if all.contains(id) {
            let k = choose|k: int| 0 <= k < all.len() && all[k] == id;
            if k < before.len() {
                assert(before[k] == id);
                let i = choose|i: int|
                    0 <= i < shorter.len() && (#[trigger] shorter[i]).category is Some
                        && shorter[i].category->0.id == id;
                assert(models[i].category is Some);
            } else {
                assert(models[models.len() - 1].category is Some);
            }
        }
        if exists|i: int|
            0 <= i < models.len() && (#[trigger] models[i]).category is Some
                && models[i].category->0.id == id {
            let i = choose|i: int|
                0 <= i < models.len() && (#[trigger] models[i]).category is Some
                    && models[i].category->0.id == id;
            if i < shorter.len() {
                assert(shorter[i].category is Some);
                let k = choose|k: int| 0 <= k < before.len() && before[k] == id;
                assert(all[k] == id);
            } else {
                assert(all[before.len() as int] == id);
            }
        }
    }
}

/// Whether a listed manufacturer goes by a name.
pub open spec fn listed_manufacturer(
    manufacturers: Seq<Manufacturer>,
    name: Seq<char>,
    id: u64,
) -> bool {
    exists|i: int|
        0 <= i < manufacturers.len() && (#[trigger] manufacturers[i]).id == id && normalized(
            manufacturers[i].name@,
        ) == normalized(name)
}

/// Whether a listed model goes by a name and is by a manufacturer, if that one is known.
pub open spec fn listed_model(
    models: Seq<AssetModel>,
    name: Seq<char>,
    manufacturer: TaxonomyResolution,
    model: AssetModel,
) -> bool {
    &&& models.contains(model)
    &&& normalized(model.name@) == normalized(name)
    &&& manufacturer is Resolved ==> model.manufacturer is Some && model.manufacturer->0.id
        == manufacturer->id
}

/// Whether some identifiers, of which those that are zero stand for nothing, resolve strictly: to
/// nothing if there is none, to the one that they agree on, and otherwise not at all.
pub open spec fn strictly(resolution: TaxonomyResolution, has: spec_fn(u64) -> bool) -> bool {
    match resolution {
        TaxonomyResolution::Missing => forall|id: u64| #[trigger] has(id) ==> id == 0,
        TaxonomyResolution::Resolved { id } => id != 0 && has(id) && forall|other: u64|
            #[trigger] has(other) && other != 0 ==> other == id,
        TaxonomyResolution::Ambiguous => exists|one: u64, other: u64|
            #[trigger] has(one) && #[trigger] has(other) && one != 0 && other != 0 && one != other,
    }
}

proof fn lemma_strictly(ids: Seq<u64>, has: spec_fn(u64) -> bool)
    requires
        forall|id: u64| #[trigger] has(id) <==> ids.contains(id),
    ensures
        strictly(resolution_of(ids), has),
{
    resolutions_are_strict(ids);
    match resolution_of(ids) {
        TaxonomyResolution::Missing => {
            assert forall|id: u64| #[trigger] has(id) implies id == 0 by {
                let k = choose|k: int| 0 <= k < ids.len() && ids[k] == id;
                assert(ids[k] == 0);
            }
        },
        TaxonomyResolution::Resolved { id } => {
            assert(has(id));
            assert forall|other: u64| #[trigger] has(other) && other != 0 implies other == id by {
                let k = choose|k: int| 0 <= k < ids.len() && ids[k] == other;
                assert(ids[k] != 0);
            }
        },
        TaxonomyResolution::Ambiguous => {
            let (i, j) = choose|i: int, j: int|
                0 <= i < ids.len() && 0 <= j < ids.len() && #[trigger] ids[i] != 0
                    && #[trigger] ids[j] != 0 && ids[i] != ids[j];
            assert(ids.contains(ids[i]));
            assert(ids.contains(ids[j]));
            assert(has(ids[i]) && has(ids[j]));
        },
    }
}

/// A taxonomy is resolved strictly among what the server lists: the manufacturer among those with
/// its name; the model among those with its name that are by the manufacturer, once that is
/// resolved; and the category among the categories of those models.
pub proof fn taxonomy_is_resolved_among_the_listed(
    manufacturer_name: Seq<char>,
    model_name: Seq<char>,
    manufacturers: Seq<Manufacturer>,
    models: Seq<AssetModel>,
)
    ensures
        ({
            let taxonomy = taxonomy_of(manufacturer_name, model_name, manufacturers, models);
            &&& strictly(
                taxonomy.manufacturer,
                |id: u64| listed_manufacturer(manufacturers, manufacturer_name, id),
            )
            &&& strictly(
                taxonomy.model,
                |id: u64|
                    exists|model: AssetModel| #[trigger]
                        listed_model(models, model_name, taxonomy.manufacturer, model) && model.id
                            == id,
            )
            &&& strictly(
                taxonomy.category,
                |id: u64|
                    exists|model: AssetModel| #[trigger]
                        listed_model(models, model_name, taxonomy.manufacturer, model)
                            && model.category is Some && model.category->0.id == id,
            )
            &&& taxonomy.normalized_manufacturer == normalized(manufacturer_name)
            &&& taxonomy.normalized_model == normalized(model_name)
        }),
{
    let taxonomy = taxonomy_of(manufacturer_name, model_name, manufacturers, models);
    let manufacturer = taxonomy.manufacturer;
    let named = named_ids(manufacturers, normalized(manufacturer_name));
    let has_manufacturer = |id: u64| listed_manufacturer(manufacturers, manufacturer_name, id);
    assert forall|id: u64| #[trigger] has_manufacturer(id) <==> named.contains(id) by {
        lemma_named_ids(manufacturers, normalized(manufacturer_name), id);
    }
    lemma_strictly(named, has_manufacturer);
    let known = identifier_of(manufacturer);
    let matches = matching(models, normalized(model_name), known);
    assert forall|model: AssetModel| #[trigger]
        listed_model(models, model_name, manufacturer, model) <==> matches.contains(model) by {
        models_are_matched_by_name_and_manufacturer(models, normalized(model_name), known, model);
    }
    let has_model = |id: u64|
        exists|model: AssetModel| #[trigger]
            listed_model(models, model_name, manufacturer, model) && model.id == id;
    assert forall|id: u64| #[trigger] has_model(id) <==> model_ids(matches).contains(id) by {
        if has_model(id) {
            let model = choose|model: AssetModel| #[trigger]
                listed_model(models, model_name, manufacturer, model) && model.id == id;
            let k = choose|k: int| 0 <= k < matches.len() && matches[k] == model;
            assert(model_ids(matches)[k] == id);
        }
        if model_ids(matches).contains(id) {
            let k = choose|k: int| 0 <= k < model_ids(matches).len() && model_ids(matches)[k] == id;
            assert(matches.contains(matches[k]));
            assert(listed_model(models, model_name, manufacturer, matches[k]));
        }
    }
    lemma_strictly(model_ids(matches), has_model);
    let has_category = |id: u64|
        exists|model: AssetModel| #[trigger]
            listed_model(models, model_name, manufacturer, model) && model.category is Some
                && model.category->0.id == id;
    assert forall|id: u64| #[trigger] has_category(id) <==> category_ids(matches).contains(id) by {
        lemma_category_ids(matches, id);
        if has_category(id) {
            let model = choose|model: AssetModel| #[trigger]
                listed_model(models, model_name, manufacturer, model) && model.category is Some
                    && model.category->0.id == id;
            let k = choose|k: int| 0 <= k < matches.len() && matches[k] == model;
            assert(matches[k].category is Some);
        }
        if category_ids(matches).contains(id) {
            let k = choose|k: int|
                0 <= k < matches.len() && (#[trigger] matches[k]).category is Some
                    && matches[k].category->0.id == id;
            assert(matches.contains(matches[k]));
            assert(listed_model(models, model_name, manufacturer, matches[k]));
        }
    }
    lemma_strictly(category_ids(matches), has_category);
}

/// An asset that the server does not have, or that has no identifier, is missing; an asset that it
/// has is used as it is; and any other failure ends the gathering, with its cause kept.
pub proof fn only_absent_assets_are_missing(result: Result<Option<Asset>, FailureView>)
    ensures
        match usable_asset(result) {
            Ok(Some(asset)) => result == Ok::<Option<Asset>, FailureView>(Some(asset)) && asset.id
                != 0,
            Ok(None) => match result {
                Ok(Some(asset)) => asset.id == 0,
                Ok(None) => true,
                Err(failure) => failure.server == Some(ErrorView::NotFound),
            },
            Err(failure) => {
                &&& result is Err
                &&& result->Err_0.server != Some(ErrorView::NotFound)
                &&& failure.server == result->Err_0.server
                &&& failure.causes.len() == result->Err_0.causes.len() + 1
                &&& failure.causes.drop_first() == result->Err_0.causes
            },
        },
{
    match result {
        Err(failure) => {
            assert((seq!["failed to resolve Snipe-IT asset"@] + failure.causes).drop_first()
                =~= failure.causes);
        },
        _ => {},
    }
}

/// Every question is about the hardware itself: the computer by its serial and then by its make,
/// each monitor in turn by its serial and then by its codes, and nothing after the last.
pub proof fn questions_are_about_the_hardware(gathering: Gathering)
    requires
        in_order(gathering),
    ensures
        ({
            let done = gathering.monitors@.len() as int;
            let infos = gathering.infos.deep_view();
            match query_of(gathering) {
                QueryView::FindAsset { serial } => gathering.phase is SystemAsset && serial
                    == gathering.system.serial@ || gathering.phase is MonitorAsset && done
                    < infos.len() && serial == infos[done].serial,
                QueryView::Resolve { manufacturer, model } => gathering.phase is SystemTaxonomy
                    && manufacturer == gathering.system.manufacturer@ && model
                    == gathering.system.model@ || gathering.phase is MonitorTaxonomy && manufacturer
                    == infos[done].manufacturer_code && model == infos[done].product_code,
                QueryView::Complete => gathering.phase is MonitorAsset && done == infos.len(),
            }
        }),
{
}

proof fn lemma_warnings(monitors: Seq<ResolvedMonitorView>, warning: Seq<char>)
    ensures
        monitor_warnings(monitors).contains(warning) ==> exists|i: int|
            0 <= i < monitors.len() && (#[trigger] monitors[i]).asset_id is None && warning
                == "monitor "@ + monitors[i].monitor.serial + " has no matching Snipe-IT asset"@,
        monitor_warnings(monitors).len() <= monitors.len(),
    decreases monitors.len(),
{
    if monitors.len() > 0 {
        let shorter = monitors.drop_last();
        let before = monitor_warnings(shorter);
        let all = monitor_warnings(monitors);
        lemma_warnings(shorter, warning);
        if all.contains(warning) {
            let k = choose|k: int| 0 <= k < all.len() && all[k] == warning;
            if k < before.len() {
                assert(before[k] == warning);
                let i = choose|i: int|
                    0 <= i < shorter.len() && (#[trigger] shorter[i]).asset_id is None && warning
                        == "monitor "@ + shorter[i].monitor.serial
                        + " has no matching Snipe-IT asset"@;
                assert(monitors[i] == shorter[i]);
            } else {
                assert(monitors[monitors.len() - 1].asset_id is None);
            }
        }
    }
}

/// A warning of gathering is about a monitor that has no asset, and names its serial.
pub proof fn warnings_are_about_monitors_without_assets(
    monitors: Seq<ResolvedMonitorView>,
    index: int,
)
    requires
        0 <= index < monitor_warnings(monitors).len(),
    ensures
        exists|i: int|
            0 <= i < monitors.len() && (#[trigger] monitors[i]).asset_id is None
                && monitor_warnings(monitors)[index] == "monitor "@ + monitors[i].monitor.serial
                + " has no matching Snipe-IT asset"@,
        monitor_warnings(monitors).len() <= monitors.len(),
{
    let warning = monitor_warnings(monitors)[index];
    assert(monitor_warnings(monitors).contains(warning));
    lemma_warnings(monitors, warning);
}

} // verus!
