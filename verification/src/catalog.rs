//! The canonical item/facility/recipe catalog, its opaque ids, and the builder that
//! is the only way to construct a self-consistent catalog.

use vstd::prelude::*;
use crate::key_index::KeyIndex;
use crate::load::regions::FacilityRegions;
use crate::text::concat_str;

verus! {

/// Base/core generation capacity (watts) used by the default flow.
pub const P_CORE_W: u32 = 200;

/// Core power generation capacity in watts (fixed game constant).
const CORE_POWER_W: u32 = 200;

/// Stable identifier for an item in a [`Catalog`].
///
/// Ids are opaque: outside callers cannot construct one from a raw number. They are
/// minted densely, in insertion order, by [`CatalogBuilder::add_item`], and are only
/// meaningful relative to the catalog they came from.
#[derive(Debug, Clone, Copy, PartialEq, Eq, Structural, Hash, PartialOrd, Ord)]
pub struct ItemId(u32);

impl View for ItemId {
    type V = nat;

    closed spec fn view(&self) -> nat {
        self.0 as nat
    }
}

/// Two item ids are equal exactly when their numbers are.
pub broadcast proof fn lemma_item_id_view(a: ItemId, b: ItemId)
    ensures
        #![trigger a@, b@]
        (a@ == b@) == (a == b),
        a@ <= u32::MAX,
{
}

impl ItemId {
    /// Returns the underlying number: the item's position in insertion order.
    pub fn as_u32(self) -> (r: u32)
        ensures
            r == self@,
    {
        self.0
    }

    pub(crate) fn from_index(index: usize) -> (r: Self)
        requires
            index <= u32::MAX,
        ensures
            r@ == index,
    {
        ItemId(index as u32)
    }

    pub(crate) fn index(self) -> (r: usize)
        ensures
            r == self@,
    {
        self.0 as usize
    }
}

/// Stable identifier for a facility in a [`Catalog`].
///
/// Like [`ItemId`], minted densely in insertion order by the builder.
#[derive(Debug, Clone, Copy, PartialEq, Eq, Structural, Hash, PartialOrd, Ord)]
pub struct FacilityId(u32);

impl View for FacilityId {
    type V = nat;

    closed spec fn view(&self) -> nat {
        self.0 as nat
    }
}

/// Two facility ids are equal exactly when their numbers are.
pub broadcast proof fn lemma_facility_id_view(a: FacilityId, b: FacilityId)
    ensures
        #![trigger a@, b@]
        (a@ == b@) == (a == b),
        a@ <= u32::MAX,
{
}

impl FacilityId {
    /// Returns the underlying number: the facility's position in insertion order.
    pub fn as_u32(self) -> (r: u32)
        ensures
            r == self@,
    {
        self.0
    }

    pub(crate) fn from_index(index: usize) -> (r: Self)
        requires
            index <= u32::MAX,
        ensures
            r@ == index,
    {
        FacilityId(index as u32)
    }

    pub(crate) fn index(self) -> (r: usize)
        ensures
            r == self@,
    {
        self.0 as usize
    }
}

/// Facility category used by the optimizer and report layers.
#[derive(Debug, Clone, Copy, PartialEq, Eq, Structural, Hash)]
pub enum FacilityKind {
    Machine,
    ThermalBank,
}

/// Item metadata and display texts.
#[derive(Debug, Clone)]
pub struct ItemDef {
    pub key: String,
    pub en: String,
    pub zh: String,
    /// Liquids and gases: they cannot be stored or sold.
    pub is_fluid: bool,
}

/// Facility metadata and display texts.
#[derive(Debug, Clone)]
pub struct FacilityDef {
    pub key: String,
    pub kind: FacilityKind,
    pub power_w: Option<u32>,
    pub en: String,
    pub zh: String,
    /// The regions the facility is available in.
    pub regions: FacilityRegions,
}

/// `(item, count)` pair used in recipes.
#[derive(Debug, Clone, Copy)]
pub struct Stack {
    pub item: ItemId,
    pub count: u32,
}

/// Production recipe definition.
#[derive(Debug, Clone)]
pub struct Recipe {
    pub facility: FacilityId,
    pub time_s: u32,
    pub ingredients: Vec<Stack>,
    pub products: Vec<Stack>,
}

/// Thermal-bank power recipe definition.
#[derive(Debug, Clone, Copy)]
pub struct PowerRecipe {
    pub ingredient: Stack,
    pub power_w: u32,
    pub time_s: u32,
}

/// Errors returned when building a [`Catalog`].
#[derive(Debug)]
pub enum CatalogBuildError {
    DuplicateItemKey(String),
    DuplicateFacilityKey(String),
    MissingThermalBank,
    MultipleThermalBanks,
}

/// The human-readable text of a [`CatalogBuildError`].
pub open spec fn catalog_build_error_text(e: CatalogBuildError) -> Seq<char> {
    match e {
        CatalogBuildError::DuplicateItemKey(k) => "duplicate item key: "@ + k@,
        CatalogBuildError::DuplicateFacilityKey(k) => "duplicate facility key: "@ + k@,
        CatalogBuildError::MissingThermalBank => "missing thermal bank facility"@,
        CatalogBuildError::MultipleThermalBanks => "multiple thermal banks are not allowed"@,
    }
}

impl CatalogBuildError {
    /// The human-readable text of this error.
    pub fn message(&self) -> (r: String)
        ensures
            r@ == catalog_build_error_text(*self),
    {
        match self {
            CatalogBuildError::DuplicateItemKey(k) => concat_str("duplicate item key: ", k.as_str()),
            CatalogBuildError::DuplicateFacilityKey(k) => concat_str(
                "duplicate facility key: ",
                k.as_str(),
            ),
            CatalogBuildError::MissingThermalBank => String::from_str("missing thermal bank facility"),
            CatalogBuildError::MultipleThermalBanks => String::from_str(
                "multiple thermal banks are not allowed",
            ),
        }
    }
}


/// Abstract contents of a [`CatalogBuilder`]: the definitions added so far, the
/// key-to-id indices, and the thermal bank, if one was added.
pub struct BuilderModel {
    pub items: Seq<ItemDef>,
    pub facilities: Seq<FacilityDef>,
    pub recipes: Seq<Recipe>,
    pub power_recipes: Seq<PowerRecipe>,
    pub item_index: Map<Seq<char>, ItemId>,
    pub facility_index: Map<Seq<char>, FacilityId>,
    pub thermal_bank: Option<FacilityId>,
}

/// The item index resolves exactly the keys of `items`, each to its position.
pub open spec fn item_index_matches(items: Seq<ItemDef>, index: Map<Seq<char>, ItemId>) -> bool {
    &&& forall|i: int|
        0 <= i < items.len() ==> #[trigger] index.contains_key(items[i].key@) && index[items[i].key@]@
            == i
    &&& forall|k: Seq<char>|
        #[trigger] index.contains_key(k) ==> index[k]@ < items.len() && items[index[k]@ as int].key@
            == k
}

/// The facility index resolves exactly the keys of `facilities`, each to its position.
pub open spec fn facility_index_matches(
    facilities: Seq<FacilityDef>,
    index: Map<Seq<char>, FacilityId>,
) -> bool {
    &&& forall|i: int|
        0 <= i < facilities.len() ==> #[trigger] index.contains_key(facilities[i].key@)
            && index[facilities[i].key@]@ == i
    &&& forall|k: Seq<char>|
        #[trigger] index.contains_key(k) ==> index[k]@ < facilities.len()
            && facilities[index[k]@ as int].key@ == k
}

/// `thermal_bank` names the one facility of kind `ThermalBank`, if there is one.
pub open spec fn thermal_bank_matches(facilities: Seq<FacilityDef>, thermal_bank: Option<FacilityId>) -> bool {
    &&& forall|t: FacilityId|
        thermal_bank == Some(t) ==> t@ < facilities.len() && facilities[t@ as int].kind
            == FacilityKind::ThermalBank
    &&& forall|i: int|
        0 <= i < facilities.len() && #[trigger] facilities[i].kind == FacilityKind::ThermalBank
            ==> (thermal_bank matches Some(t) && t@ == i)
}

impl BuilderModel {
    /// The builder's bookkeeping agrees with its definitions.
    pub open spec fn consistent(self) -> bool {
        &&& item_index_matches(self.items, self.item_index)
        &&& facility_index_matches(self.facilities, self.facility_index)
        &&& thermal_bank_matches(self.facilities, self.thermal_bank)
    }
}

/// Builder for [`Catalog`].
///
/// This is the only supported way to construct a catalog, because it mints opaque ids
/// in a consistent order, maintains the key-to-id indices, and enforces catalog-level
/// invariants.
#[derive(Debug)]
pub struct CatalogBuilder {
    items: Vec<ItemDef>,
    facilities: Vec<FacilityDef>,
    recipes: Vec<Recipe>,
    power_recipes: Vec<PowerRecipe>,
    item_index: KeyIndex,
    facility_index: KeyIndex,
    thermal_bank: Option<FacilityId>,
}

impl View for CatalogBuilder {
    type V = BuilderModel;

    closed spec fn view(&self) -> BuilderModel {
        BuilderModel {
            items: self.items@,
            facilities: self.facilities@,
            recipes: self.recipes@,
            power_recipes: self.power_recipes@,
            item_index: self.item_index@.map_values(|v: u32| ItemId(v)),
            facility_index: self.facility_index@.map_values(|v: u32| FacilityId(v)),
            thermal_bank: self.thermal_bank,
        }
    }
}

/// What [`CatalogBuilder::add_item`] does: a duplicate key is refused and changes
/// nothing; otherwise the item gets the next id and its key resolves to it.
pub open spec fn item_added(
    old: BuilderModel,
    new: BuilderModel,
    def: ItemDef,
    r: Result<ItemId, CatalogBuildError>,
) -> bool {
    if old.item_index.contains_key(def.key@) {
        &&& r == Err::<ItemId, CatalogBuildError>(CatalogBuildError::DuplicateItemKey(def.key))
        &&& new == old
    } else {
        &&& r matches Ok(id)
        &&& id@ == old.items.len()
        &&& new == BuilderModel {
            items: old.items.push(def),
            item_index: old.item_index.insert(def.key@, id),
            ..old
        }
    }
}

/// What [`CatalogBuilder::add_facility`] does. A duplicate key is refused first, then
/// a second thermal bank; either refusal changes nothing. Otherwise the facility gets
/// the next id, its key resolves to it, and a thermal bank is remembered.
pub open spec fn facility_added(
    old: BuilderModel,
    new: BuilderModel,
    def: FacilityDef,
    r: Result<FacilityId, CatalogBuildError>,
) -> bool {
    if old.facility_index.contains_key(def.key@) {
        &&& r == Err::<FacilityId, CatalogBuildError>(
            CatalogBuildError::DuplicateFacilityKey(def.key),
        )
        &&& new == old
    } else if def.kind == FacilityKind::ThermalBank && old.thermal_bank is Some {
        &&& r == Err::<FacilityId, CatalogBuildError>(CatalogBuildError::MultipleThermalBanks)
        &&& new == old
    } else {
        &&& r matches Ok(id)
        &&& id@ == old.facilities.len()
        &&& new == BuilderModel {
            facilities: old.facilities.push(def),
            facility_index: old.facility_index.insert(def.key@, id),
            thermal_bank: if def.kind == FacilityKind::ThermalBank {
                Some(id)
            } else {
                old.thermal_bank
            },
            ..old
        }
    }
}

impl Default for CatalogBuilder {
    /// An empty builder.
    fn default() -> (r: Self)
        ensures
            r.wf(),
            r@ == empty_builder_model(),
            r@.items.len() == 0,
            r@.facilities.len() == 0,
            r@.recipes.len() == 0,
            r@.power_recipes.len() == 0,
            r@.item_index == Map::<Seq<char>, ItemId>::empty(),
            r@.facility_index == Map::<Seq<char>, FacilityId>::empty(),
            (r@.thermal_bank is None),
    {
        CatalogBuilder::new()
    }
}

impl CatalogBuilder {
    /// The builder's indices are well formed and agree with its definitions.
    pub closed spec fn wf(&self) -> bool {
        &&& self.item_index.wf()
        &&& self.facility_index.wf()
        &&& self@.consistent()
    }

    /// Creates an empty builder.
    pub fn new() -> (r: Self)
        ensures
            r.wf(),
            r@ == empty_builder_model(),
            r@.items.len() == 0,
            r@.facilities.len() == 0,
            r@.recipes.len() == 0,
            r@.power_recipes.len() == 0,
            r@.item_index == Map::<Seq<char>, ItemId>::empty(),
            r@.facility_index == Map::<Seq<char>, FacilityId>::empty(),
            (r@.thermal_bank is None),
    {
        let r = CatalogBuilder {
            items: Vec::new(),
            facilities: Vec::new(),
            recipes: Vec::new(),
            power_recipes: Vec::new(),
            item_index: KeyIndex::new(),
            facility_index: KeyIndex::new(),
            thermal_bank: None,
        };
        assert(r@.item_index =~= Map::<Seq<char>, ItemId>::empty());
        assert(r@.facility_index =~= Map::<Seq<char>, FacilityId>::empty());
        assert(r@.items =~= Seq::<ItemDef>::empty());
        assert(r@.facilities =~= Seq::<FacilityDef>::empty());
        assert(r@.recipes =~= Seq::<Recipe>::empty());
        assert(r@.power_recipes =~= Seq::<PowerRecipe>::empty());
        r
    }

    /// Adds an item definition and returns its newly assigned [`ItemId`].
    ///
    /// Item keys must be unique.
    pub fn add_item(&mut self, def: ItemDef) -> (r: Result<ItemId, CatalogBuildError>)
        requires
            old(self).wf(),
            old(self)@.items.len() <= u32::MAX,
        ensures
            final(self).wf(),
            item_added(old(self)@, final(self)@, def, r),
    {
        if self.item_index.get(def.key.as_str()).is_some() {
            assert(self@ == old(self)@);
            return Err(CatalogBuildError::DuplicateItemKey(def.key));
        }
        let id = ItemId::from_index(self.items.len());
        let ghost old_model = self@;
        let key = def.key.clone();
        self.item_index.insert(key, id.0);
        self.items.push(def);
        proof {
            let m = self@;
            assert(m.item_index =~= old_model.item_index.insert(def.key@, id));
            assert(m.facility_index =~= old_model.facility_index);
            assert(m.items =~= old_model.items.push(def));
            assert forall|i: int| 0 <= i < m.items.len() implies #[trigger] m.item_index.contains_key(m.items[i].key@)
                && m.item_index[m.items[i].key@]@ == i by {
                if i < old_model.items.len() {
                    assert(m.items[i] == old_model.items[i]);
                }
            }
            assert(self@.consistent());
        }
        Ok(id)
    }

    /// Adds a facility definition and returns its newly assigned [`FacilityId`].
    ///
    /// Facility keys must be unique. Exactly one facility of kind
    /// [`FacilityKind::ThermalBank`] is required to build a [`Catalog`].
    pub fn add_facility(&mut self, def: FacilityDef) -> (r: Result<FacilityId, CatalogBuildError>)
        requires
            old(self).wf(),
            old(self)@.facilities.len() <= u32::MAX,
        ensures
            final(self).wf(),
            facility_added(old(self)@, final(self)@, def, r),
    {
        if self.facility_index.get(def.key.as_str()).is_some() {
            assert(self@ == old(self)@);
            return Err(CatalogBuildError::DuplicateFacilityKey(def.key));
        }
        let is_thermal_bank = def.kind == FacilityKind::ThermalBank;
        if is_thermal_bank && self.thermal_bank.is_some() {
            assert(self@ == old(self)@);
            return Err(CatalogBuildError::MultipleThermalBanks);
        }
        let id = FacilityId::from_index(self.facilities.len());
        let ghost old_model = self@;
        let key = def.key.clone();
        self.facility_index.insert(key, id.0);
        if is_thermal_bank {
            self.thermal_bank = Some(id);
        }
        self.facilities.push(def);
        proof {
            let m = self@;
            assert(m.facility_index =~= old_model.facility_index.insert(def.key@, id));
            assert(m.item_index =~= old_model.item_index);
            assert(m.facilities =~= old_model.facilities.push(def));
            assert forall|i: int| 0 <= i < m.facilities.len() implies #[trigger] m.facility_index.contains_key(m.facilities[i].key@)
                && m.facility_index[m.facilities[i].key@]@ == i by {
                if i < old_model.facilities.len() {
                    assert(m.facilities[i] == old_model.facilities[i]);
                    assert(old_model.facility_index.contains_key(old_model.facilities[i].key@));
                    assert(m.facilities[i].key@ != def.key@);
                }
            }
            assert forall|i: int|
                0 <= i < m.facilities.len() && #[trigger] m.facilities[i].kind == FacilityKind::ThermalBank
                implies (m.thermal_bank matches Some(t) && t@ == i) by {
                if i < old_model.facilities.len() {
                    assert(m.facilities[i] == old_model.facilities[i]);
                }
            }
            assert(self@.consistent());
        }
        Ok(id)
    }

    /// Appends a production recipe.
    ///
    /// This does not validate cross-references; callers resolve ids through
    /// [`CatalogBuilder::item_id`] / [`CatalogBuilder::facility_id`] first.
    pub fn push_recipe(&mut self, recipe: Recipe)
        requires
            old(self).wf(),
        ensures
            final(self).wf(),
            final(self)@ == (BuilderModel { recipes: old(self)@.recipes.push(recipe), ..old(self)@ }),
    {
        self.recipes.push(recipe);
        assert(self@.item_index =~= old(self)@.item_index);
        assert(self@.facility_index =~= old(self)@.facility_index);
    }

    /// Appends a thermal-bank power recipe.
    pub fn push_power_recipe(&mut self, recipe: PowerRecipe)
        requires
            old(self).wf(),
        ensures
            final(self).wf(),
            final(self)@ == (BuilderModel {
                power_recipes: old(self)@.power_recipes.push(recipe),
                ..old(self)@
            }),
    {
        self.power_recipes.push(recipe);
        assert(self@.item_index =~= old(self)@.item_index);
        assert(self@.facility_index =~= old(self)@.facility_index);
    }

    /// Resolves an item key into an [`ItemId`] using the current builder state.
    pub fn item_id(&self, key: &str) -> (r: Option<ItemId>)
        requires
            self.wf(),
        ensures
            r == self@.item_index.get(key@),
    {
        match self.item_index.get(key) {
            Some(v) => Some(ItemId(v)),
            None => None,
        }
    }

    /// Resolves a facility key into a [`FacilityId`] using the current builder state.
    pub fn facility_id(&self, key: &str) -> (r: Option<FacilityId>)
        requires
            self.wf(),
        ensures
            r == self@.facility_index.get(key@),
    {
        match self.facility_index.get(key) {
            Some(v) => Some(FacilityId(v)),
            None => None,
        }
    }

    /// Returns the thermal bank id if it has already been added.
    pub fn thermal_bank(&self) -> (r: Option<FacilityId>)
        ensures
            r == self@.thermal_bank,
    {
        self.thermal_bank
    }

    /// Finalizes the builder and returns a self-consistent [`Catalog`].
    ///
    /// Fails exactly when no thermal bank was added.
    pub fn build(self) -> (r: Result<Catalog, CatalogBuildError>)
        requires
            self.wf(),
        ensures
            self@.thermal_bank is None ==> r == Err::<Catalog, CatalogBuildError>(
                CatalogBuildError::MissingThermalBank,
            ),
            self@.thermal_bank matches Some(t) ==> (r matches Ok(c) && c.wf() && c@ == CatalogModel {
                items: self@.items,
                facilities: self@.facilities,
                recipes: self@.recipes,
                power_recipes: self@.power_recipes,
                item_index: self@.item_index,
                facility_index: self@.facility_index,
                thermal_bank: t,
            }),
    {
        let thermal_bank = match self.thermal_bank {
            Some(t) => t,
            None => return Err(CatalogBuildError::MissingThermalBank),
        };
        Ok(Catalog {
            items: self.items,
            facilities: self.facilities,
            recipes: self.recipes,
            power_recipes: self.power_recipes,
            item_index: self.item_index,
            facility_index: self.facility_index,
            thermal_bank,
        })
    }
}

/// A well-formed builder is consistent.
pub proof fn lemma_builder_consistent(b: &CatalogBuilder)
    requires
        b.wf(),
    ensures
        b@.consistent(),
{
}

/// Abstract contents of a [`Catalog`].
pub struct CatalogModel {
    pub items: Seq<ItemDef>,
    pub facilities: Seq<FacilityDef>,
    pub recipes: Seq<Recipe>,
    pub power_recipes: Seq<PowerRecipe>,
    pub item_index: Map<Seq<char>, ItemId>,
    pub facility_index: Map<Seq<char>, FacilityId>,
    pub thermal_bank: FacilityId,
}

impl CatalogModel {
    /// The catalog's indices agree with its definitions, and `thermal_bank` is its one
    /// thermal bank facility.
    pub open spec fn consistent(self) -> bool {
        &&& item_index_matches(self.items, self.item_index)
        &&& facility_index_matches(self.facilities, self.facility_index)
        &&& thermal_bank_matches(self.facilities, Some(self.thermal_bank))
    }

    /// Every recipe's facility id names a facility of the catalog.
    pub open spec fn recipes_reference_facilities(self) -> bool {
        forall|i: int| 0 <= i < self.recipes.len() ==> #[trigger] self.recipes[i].facility@ < self.facilities.len()
    }
}

/// Two recipes agree field by field.
pub open spec fn same_recipe(a: Recipe, b: Recipe) -> bool {
    &&& a.facility == b.facility
    &&& a.time_s == b.time_s
    &&& a.ingredients@ == b.ingredients@
    &&& a.products@ == b.products@
}

/// Two catalogs hold the same definitions, indices and thermal bank, and their recipes
/// agree field by field.
pub open spec fn same_catalog(a: CatalogModel, b: CatalogModel) -> bool {
    &&& a.items == b.items
    &&& a.facilities == b.facilities
    &&& a.power_recipes == b.power_recipes
    &&& a.item_index == b.item_index
    &&& a.facility_index == b.facility_index
    &&& a.thermal_bank == b.thermal_bank
    &&& a.recipes.len() == b.recipes.len()
    &&& forall|i: int| 0 <= i < a.recipes.len() ==> #[trigger] same_recipe(a.recipes[i], b.recipes[i])
}

fn copy_item_defs(v: &Vec<ItemDef>) -> (r: Vec<ItemDef>)
    ensures
        r@ == v@,
{
    let mut r: Vec<ItemDef> = Vec::with_capacity(v.len());
    let mut i: usize = 0;
    while i < v.len()
        invariant
            i <= v@.len(),
            r@ == v@.take(i as int),
        decreases v@.len() - i,
    {
        let d = &v[i];
        r.push(ItemDef { key: d.key.clone(), en: d.en.clone(), zh: d.zh.clone(), is_fluid: d.is_fluid });
        assert(r@ =~= v@.take(i + 1));
        i = i + 1;
    }
    assert(r@ =~= v@);
    r
}

fn copy_facility_defs(v: &Vec<FacilityDef>) -> (r: Vec<FacilityDef>)
    ensures
        r@ == v@,
{
    let mut r: Vec<FacilityDef> = Vec::with_capacity(v.len());
    let mut i: usize = 0;
    while i < v.len()
        invariant
            i <= v@.len(),
            r@ == v@.take(i as int),
        decreases v@.len() - i,
    {
        let d = &v[i];
        r.push(FacilityDef {
            key: d.key.clone(),
            kind: d.kind,
            power_w: d.power_w,
            en: d.en.clone(),
            zh: d.zh.clone(),
            regions: d.regions,
        });
        assert(r@ =~= v@.take(i + 1));
        i = i + 1;
    }
    assert(r@ =~= v@);
    r
}

fn copy_stacks(v: &Vec<Stack>) -> (r: Vec<Stack>)
    ensures
        r@ == v@,
{
    let mut r: Vec<Stack> = Vec::with_capacity(v.len());
    let mut i: usize = 0;
    while i < v.len()
        invariant
            i <= v@.len(),
            r@ == v@.take(i as int),
        decreases v@.len() - i,
    {
        r.push(v[i]);
        assert(r@ =~= v@.take(i + 1));
        i = i + 1;
    }
    assert(r@ =~= v@);
    r
}

fn copy_recipes(v: &Vec<Recipe>) -> (r: Vec<Recipe>)
    ensures
        r@.len() == v@.len(),
        forall|i: int| 0 <= i < v@.len() ==> #[trigger] same_recipe(r@[i], v@[i]),
{
    let mut r: Vec<Recipe> = Vec::with_capacity(v.len());
    let mut i: usize = 0;
    while i < v.len()
        invariant
            i <= v@.len(),
            r@.len() == i,
            forall|j: int| 0 <= j < i ==> #[trigger] same_recipe(r@[j], v@[j]),
        decreases v@.len() - i,
    {
        let d = &v[i];
        r.push(Recipe {
            facility: d.facility,
            time_s: d.time_s,
            ingredients: copy_stacks(&d.ingredients),
            products: copy_stacks(&d.products),
        });
        i = i + 1;
    }
    r
}

fn copy_power_recipes(v: &Vec<PowerRecipe>) -> (r: Vec<PowerRecipe>)
    ensures
        r@ == v@,
{
    let mut r: Vec<PowerRecipe> = Vec::with_capacity(v.len());
    let mut i: usize = 0;
    while i < v.len()
        invariant
            i <= v@.len(),
            r@ == v@.take(i as int),
        decreases v@.len() - i,
    {
        r.push(v[i]);
        assert(r@ =~= v@.take(i + 1));
        i = i + 1;
    }
    assert(r@ =~= v@);
    r
}

/// Canonical in-memory model of items, facilities and recipes.
///
/// The fields are private so that the key-to-id indices and the thermal bank id cannot
/// drift from the definitions. Construct one with [`Catalog::builder`] and
/// [`CatalogBuilder::build`].
#[derive(Debug)]
pub struct Catalog {
    items: Vec<ItemDef>,
    facilities: Vec<FacilityDef>,
    recipes: Vec<Recipe>,
    power_recipes: Vec<PowerRecipe>,
    item_index: KeyIndex,
    facility_index: KeyIndex,
    thermal_bank: FacilityId,
}

impl Clone for Catalog {
    /// A copy with the same definitions, indices and thermal bank.
    fn clone(&self) -> (r: Self)
        ensures
            same_catalog(r@, self@),
    {
        proof {
            use_type_invariant(self);
        }
        Catalog {
            items: copy_item_defs(&self.items),
            facilities: copy_facility_defs(&self.facilities),
            recipes: copy_recipes(&self.recipes),
            power_recipes: copy_power_recipes(&self.power_recipes),
            item_index: self.item_index.copy(),
            facility_index: self.facility_index.copy(),
            thermal_bank: self.thermal_bank,
        }
    }
}

impl View for Catalog {
    type V = CatalogModel;

    closed spec fn view(&self) -> CatalogModel {
        CatalogModel {
            items: self.items@,
            facilities: self.facilities@,
            recipes: self.recipes@,
            power_recipes: self.power_recipes@,
            item_index: self.item_index@.map_values(|v: u32| ItemId(v)),
            facility_index: self.facility_index@.map_values(|v: u32| FacilityId(v)),
            thermal_bank: self.thermal_bank,
        }
    }
}

impl Catalog {
    /// The catalog's indices are well formed and agree with its definitions.
    pub closed spec fn wf(&self) -> bool {
        &&& self.item_index.wf()
        &&& self.facility_index.wf()
        &&& self@.consistent()
    }

    /// Every catalog is well formed: only the builder makes one.
    #[verifier::type_invariant]
    spec fn always_wf(self) -> bool {
        self.wf()
    }

    /// Starts building a self-consistent [`Catalog`].
    pub fn builder() -> (r: CatalogBuilder)
        ensures
            r.wf(),
            r@ == empty_builder_model(),
            r@.items.len() == 0,
            r@.facilities.len() == 0,
            r@.recipes.len() == 0,
            r@.power_recipes.len() == 0,
            r@.item_index == Map::<Seq<char>, ItemId>::empty(),
            r@.facility_index == Map::<Seq<char>, FacilityId>::empty(),
            (r@.thermal_bank is None),
    {
        CatalogBuilder::new()
    }

    /// Returns the core generation capacity in watts (fixed at 200 W).
    pub fn core_power_w(&self) -> (r: u32)
        ensures
            r == 200,
    {
        CORE_POWER_W
    }

    /// Returns item metadata by id.
    pub fn item(&self, id: ItemId) -> (r: Option<&ItemDef>)
        ensures
            r == (if id@ < self@.items.len() { Some(&self@.items[id@ as int]) } else { None::<&ItemDef> }),
    {
        if id.index() < self.items.len() {
            Some(&self.items[id.index()])
        } else {
            None
        }
    }

    /// Returns facility metadata by id.
    pub fn facility(&self, id: FacilityId) -> (r: Option<&FacilityDef>)
        ensures
            r == (if id@ < self@.facilities.len() {
                Some(&self@.facilities[id@ as int])
            } else {
                None::<&FacilityDef>
            }),
    {
        if id.index() < self.facilities.len() {
            Some(&self.facilities[id.index()])
        } else {
            None
        }
    }

    /// Returns a recipe by its index in [`Catalog::recipes`].
    pub fn recipe(&self, index: usize) -> (r: Option<&Recipe>)
        ensures
            r == (if index < self@.recipes.len() {
                Some(&self@.recipes[index as int])
            } else {
                None::<&Recipe>
            }),
    {
        if index < self.recipes.len() {
            Some(&self.recipes[index])
        } else {
            None
        }
    }

    /// Returns a power recipe by its index in [`Catalog::power_recipes`].
    pub fn power_recipe(&self, index: usize) -> (r: Option<&PowerRecipe>)
        ensures
            r == (if index < self@.power_recipes.len() {
                Some(&self@.power_recipes[index as int])
            } else {
                None::<&PowerRecipe>
            }),
    {
        if index < self.power_recipes.len() {
            Some(&self.power_recipes[index])
        } else {
            None
        }
    }

    /// Returns the facility id of the unique thermal bank facility.
    pub fn thermal_bank(&self) -> (r: FacilityId)
        ensures
            r == self@.thermal_bank,
    {
        self.thermal_bank
    }

    /// Returns all items in id order.
    pub fn items(&self) -> (r: &[ItemDef])
        ensures
            r@ == self@.items,
    {
        self.items.as_slice()
    }

    /// Returns all facilities in id order.
    pub fn facilities(&self) -> (r: &[FacilityDef])
        ensures
            r@ == self@.facilities,
    {
        self.facilities.as_slice()
    }

    /// Returns all production recipes.
    pub fn recipes(&self) -> (r: &[Recipe])
        ensures
            r@ == self@.recipes,
    {
        self.recipes.as_slice()
    }

    /// Returns all thermal-bank power recipes.
    pub fn power_recipes(&self) -> (r: &[PowerRecipe])
        ensures
            r@ == self@.power_recipes,
    {
        self.power_recipes.as_slice()
    }

    /// Returns all production recipes paired with their indices.
    pub fn recipes_with_id(&self) -> (r: Vec<(usize, &Recipe)>)
        ensures
            r@.len() == self@.recipes.len(),
            forall|i: int| 0 <= i < r@.len() ==> #[trigger] r@[i] == (i as usize, &self@.recipes[i]),
    {
        let mut r: Vec<(usize, &Recipe)> = Vec::new();
        let mut i: usize = 0;
        while i < self.recipes.len()
            invariant
                i <= self@.recipes.len(),
                r@.len() == i,
                forall|j: int| 0 <= j < i ==> #[trigger] r@[j] == (j as usize, &self@.recipes[j]),
            decreases self@.recipes.len() - i,
        {
            r.push((i, &self.recipes[i]));
            i = i + 1;
        }
        r
    }

    /// Returns all production recipes paired with their indices and facility metadata.
    pub fn recipes_with_id_and_facility(&self) -> (r: Vec<(usize, &Recipe, &FacilityDef)>)
        requires
            self@.recipes_reference_facilities(),
        ensures
            r@.len() == self@.recipes.len(),
            forall|i: int|
                0 <= i < r@.len() ==> #[trigger] r@[i] == (
                    i as usize,
                    &self@.recipes[i],
                    &self@.facilities[self@.recipes[i].facility@ as int],
                ),
    {
        let mut r: Vec<(usize, &Recipe, &FacilityDef)> = Vec::new();
        let mut i: usize = 0;
        while i < self.recipes.len()
            invariant
                self@.recipes_reference_facilities(),
                i <= self@.recipes.len(),
                r@.len() == i,
                forall|j: int|
                    0 <= j < i ==> #[trigger] r@[j] == (
                        j as usize,
                        &self@.recipes[j],
                        &self@.facilities[self@.recipes[j].facility@ as int],
                    ),
            decreases self@.recipes.len() - i,
        {
            let recipe = &self.recipes[i];
            assert(self@.recipes[i as int].facility@ < self@.facilities.len());
            let facility = &self.facilities[recipe.facility.index()];
            r.push((i, recipe, facility));
            i = i + 1;
        }
        r
    }

    /// Returns all power recipes paired with their indices.
    pub fn power_recipes_with_id(&self) -> (r: Vec<(usize, &PowerRecipe)>)
        ensures
            r@.len() == self@.power_recipes.len(),
            forall|i: int| 0 <= i < r@.len() ==> #[trigger] r@[i] == (i as usize, &self@.power_recipes[i]),
    {
        let mut r: Vec<(usize, &PowerRecipe)> = Vec::new();
        let mut i: usize = 0;
        while i < self.power_recipes.len()
            invariant
                i <= self@.power_recipes.len(),
                r@.len() == i,
                forall|j: int| 0 <= j < i ==> #[trigger] r@[j] == (j as usize, &self@.power_recipes[j]),
            decreases self@.power_recipes.len() - i,
        {
            r.push((i, &self.power_recipes[i]));
            i = i + 1;
        }
        r
    }

    /// Resolves an item key into an [`ItemId`].
    pub fn item_id(&self, key: &str) -> (r: Option<ItemId>)
        ensures
            r == self@.item_index.get(key@),
    {
        proof {
            use_type_invariant(self);
        }
        match self.item_index.get(key) {
            Some(v) => Some(ItemId(v)),
            None => None,
        }
    }

    /// Resolves a facility key into a [`FacilityId`].
    pub fn facility_id(&self, key: &str) -> (r: Option<FacilityId>)
        ensures
            r == self@.facility_index.get(key@),
    {
        proof {
            use_type_invariant(self);
        }
        match self.facility_index.get(key) {
            Some(v) => Some(FacilityId(v)),
            None => None,
        }
    }
}

/// A well-formed catalog is consistent.
pub proof fn lemma_catalog_consistent(c: &Catalog)
    requires
        c.wf(),
    ensures
        c@.consistent(),
{
}

/// Read after write: once `add_item` has accepted `def` under id `id`, the builder
/// resolves `def.key` to `id`, holds `def` at that id, still resolves every key it
/// resolved before to the same id, and stays consistent.
pub proof fn law_added_item_resolves(old: BuilderModel, new: BuilderModel, def: ItemDef, id: ItemId)
    requires
        old.consistent(),
        item_added(old, new, def, Ok(id)),
    ensures
        new.item_index.get(def.key@) == Some(id),
        new.items[id@ as int] == def,
        forall|k: Seq<char>| #[trigger] old.item_index.contains_key(k) ==> new.item_index.get(k) == old.item_index.get(k),
        new.consistent(),
{
    assert forall|i: int| 0 <= i < new.items.len() implies #[trigger] new.item_index.contains_key(new.items[i].key@)
        && new.item_index[new.items[i].key@]@ == i by {
        if i < old.items.len() {
            assert(new.items[i] == old.items[i]);
        }
    }
}

/// An item key is accepted at most once: after `add_item` accepted a definition, a
/// second definition with the same key is refused with `DuplicateItemKey` and leaves
/// the builder as it was.
pub proof fn law_item_key_added_once(
    b0: BuilderModel,
    b1: BuilderModel,
    b2: BuilderModel,
    first: ItemDef,
    second: ItemDef,
    id: ItemId,
    r: Result<ItemId, CatalogBuildError>,
)
    requires
        b0.consistent(),
        item_added(b0, b1, first, Ok(id)),
        item_added(b1, b2, second, r),
        second.key@ == first.key@,
    ensures
        r == Err::<ItemId, CatalogBuildError>(CatalogBuildError::DuplicateItemKey(second.key)),
        b2 == b1,
{
    assert(b1.item_index.contains_key(first.key@));
}

/// Read after write for facilities: once `add_facility` has accepted `def` under id
/// `id`, the builder resolves `def.key` to `id`, holds `def` at that id, keeps every
/// earlier key's id, and stays consistent.
pub proof fn law_added_facility_resolves(
    old: BuilderModel,
    new: BuilderModel,
    def: FacilityDef,
    id: FacilityId,
)
    requires
        old.consistent(),
        facility_added(old, new, def, Ok(id)),
    ensures
        new.facility_index.get(def.key@) == Some(id),
        new.facilities[id@ as int] == def,
        forall|k: Seq<char>| #[trigger] old.facility_index.contains_key(k) ==> new.facility_index.get(k) == old.facility_index.get(k),
        new.consistent(),
{
    assert forall|i: int| 0 <= i < new.facilities.len() implies #[trigger] new.facility_index.contains_key(new.facilities[i].key@)
        && new.facility_index[new.facilities[i].key@]@ == i by {
        if i < old.facilities.len() {
            assert(new.facilities[i] == old.facilities[i]);
            assert(old.facility_index.contains_key(old.facilities[i].key@));
        }
    }
    assert forall|i: int|
        0 <= i < new.facilities.len() && #[trigger] new.facilities[i].kind == FacilityKind::ThermalBank
        implies (new.thermal_bank matches Some(t) && t@ == i) by {
        if i < old.facilities.len() {
            assert(new.facilities[i] == old.facilities[i]);
        }
    }
}

/// A facility key is accepted at most once: after `add_facility` accepted a
/// definition, a second definition with the same key is refused with
/// `DuplicateFacilityKey` and leaves the builder as it was.
pub proof fn law_facility_key_added_once(
    b0: BuilderModel,
    b1: BuilderModel,
    b2: BuilderModel,
    first: FacilityDef,
    second: FacilityDef,
    id: FacilityId,
    r: Result<FacilityId, CatalogBuildError>,
)
    requires
        b0.consistent(),
        facility_added(b0, b1, first, Ok(id)),
        facility_added(b1, b2, second, r),
        second.key@ == first.key@,
    ensures
        r == Err::<FacilityId, CatalogBuildError>(CatalogBuildError::DuplicateFacilityKey(second.key)),
        b2 == b1,
{
    assert(b1.facility_index.contains_key(first.key@));
}

/// At most one thermal bank: once a thermal bank was accepted, any later thermal bank
/// under a fresh key is refused with `MultipleThermalBanks`, and the builder stays as
/// it was: its key does not resolve.
pub proof fn law_second_thermal_bank_refused(
    b0: BuilderModel,
    b1: BuilderModel,
    b2: BuilderModel,
    first: FacilityDef,
    second: FacilityDef,
    r: Result<FacilityId, CatalogBuildError>,
)
    requires
        b0.consistent(),
        facility_added(b0, b1, first, r),
        b1.thermal_bank is Some,
        facility_added(b1, b2, second, r),
        second.kind == FacilityKind::ThermalBank,
        !b1.facility_index.contains_key(second.key@),
    ensures
        r == Err::<FacilityId, CatalogBuildError>(CatalogBuildError::MultipleThermalBanks),
        b2 == b1,
        !b2.facility_index.contains_key(second.key@),
{
}

/// A catalog has exactly one thermal bank: the facility that `thermal_bank` names is
/// of kind `ThermalBank`, and no other facility is.
pub proof fn law_catalog_has_one_thermal_bank(c: CatalogModel)
    requires
        c.consistent(),
    ensures
        c.thermal_bank@ < c.facilities.len(),
        c.facilities[c.thermal_bank@ as int].kind == FacilityKind::ThermalBank,
        forall|i: int|
            0 <= i < c.facilities.len() && #[trigger] c.facilities[i].kind == FacilityKind::ThermalBank
                ==> i == c.thermal_bank@,
{
}

/// Keys and ids agree both ways in a catalog: each item key resolves to the item's
/// position, and each resolvable key belongs to the item at the id it resolves to.
pub proof fn law_catalog_item_keys_roundtrip(c: CatalogModel, i: int, k: Seq<char>)
    requires
        c.consistent(),
    ensures
        0 <= i < c.items.len() ==> (c.item_index.get(c.items[i].key@) matches Some(id) && id@ == i),
        c.item_index.get(k) matches Some(id) ==> (id@ < c.items.len() && c.items[id@ as int].key@ == k),
        c.item_index.contains_key(k) <==> exists|j: int| 0 <= j < c.items.len() && #[trigger] c.items[j].key@ == k,
{
    if 0 <= i < c.items.len() {
        assert(c.item_index.contains_key(c.items[i].key@));
    }
    if c.item_index.contains_key(k) {
        assert(c.items[c.item_index[k]@ as int].key@ == k);
    }
}

/// Keys and ids agree both ways for facilities: a key resolves exactly when a facility
/// of the catalog has it, and then to that facility's position.
pub proof fn law_catalog_facility_keys_roundtrip(c: CatalogModel, i: int, k: Seq<char>)
    requires
        c.consistent(),
    ensures
        0 <= i < c.facilities.len() ==> (c.facility_index.get(c.facilities[i].key@) matches Some(id) && id@ == i),
        c.facility_index.get(k) matches Some(id) ==> (id@ < c.facilities.len() && c.facilities[id@ as int].key@ == k),
        c.facility_index.contains_key(k) <==> exists|j: int| 0 <= j < c.facilities.len() && #[trigger] c.facilities[j].key@ == k,
{
    if 0 <= i < c.facilities.len() {
        assert(c.facility_index.contains_key(c.facilities[i].key@));
    }
    if c.facility_index.contains_key(k) {
        assert(c.facilities[c.facility_index[k]@ as int].key@ == k);
    }
}

/// One call made on a [`CatalogBuilder`], with what it returned.
pub enum BuilderCall {
    AddItem { def: ItemDef, result: Result<ItemId, CatalogBuildError> },
    AddFacility { def: FacilityDef, result: Result<FacilityId, CatalogBuildError> },
    PushRecipe { recipe: Recipe },
    PushPowerRecipe { recipe: PowerRecipe },
}

/// The model of a builder that nothing was added to yet.
pub open spec fn empty_builder_model() -> BuilderModel {
    BuilderModel {
        items: Seq::empty(),
        facilities: Seq::empty(),
        recipes: Seq::empty(),
        power_recipes: Seq::empty(),
        item_index: Map::empty(),
        facility_index: Map::empty(),
        thermal_bank: None,
    }
}

/// What one call does to the builder's model, as the method's `ensures` states it.
pub open spec fn call_step(old: BuilderModel, new: BuilderModel, c: BuilderCall) -> bool {
    match c {
        BuilderCall::AddItem { def, result } => item_added(old, new, def, result),
        BuilderCall::AddFacility { def, result } => facility_added(old, new, def, result),
        BuilderCall::PushRecipe { recipe } => new == BuilderModel { recipes: old.recipes.push(recipe), ..old },
        BuilderCall::PushPowerRecipe { recipe } => new == BuilderModel {
            power_recipes: old.power_recipes.push(recipe),
            ..old
        },
    }
}

/// `models` are the builder's states from a fresh builder through `calls`, one call
/// between each two.
pub open spec fn builder_trace(models: Seq<BuilderModel>, calls: Seq<BuilderCall>) -> bool {
    &&& models.len() == calls.len() + 1
    &&& models[0] == empty_builder_model()
    &&& forall|t: int| 0 <= t < calls.len() ==> #[trigger] call_step(models[t], models[t + 1], calls[t])
}

/// The item definitions that `add_item` accepted among `calls`, with the ids returned.
pub open spec fn accepted_items(calls: Seq<BuilderCall>) -> Seq<(ItemDef, ItemId)>
    decreases calls.len(),
{
    if calls.len() == 0 {
        Seq::empty()
    } else {
        let p = accepted_items(calls.drop_last());
        match calls.last() {
            BuilderCall::AddItem { def, result: Ok(id) } => p.push((def, id)),
            _ => p,
        }
    }
}

/// The facility definitions that `add_facility` accepted among `calls`, with the ids
/// returned.
pub open spec fn accepted_facilities(calls: Seq<BuilderCall>) -> Seq<(FacilityDef, FacilityId)>
    decreases calls.len(),
{
    if calls.len() == 0 {
        Seq::empty()
    } else {
        let p = accepted_facilities(calls.drop_last());
        match calls.last() {
            BuilderCall::AddFacility { def, result: Ok(id) } => p.push((def, id)),
            _ => p,
        }
    }
}

/// The ids that `add_facility` returned for accepted thermal banks among `calls`.
pub open spec fn accepted_thermal_banks(calls: Seq<BuilderCall>) -> Seq<FacilityId>
    decreases calls.len(),
{
    if calls.len() == 0 {
        Seq::empty()
    } else {
        let p = accepted_thermal_banks(calls.drop_last());
        match calls.last() {
            BuilderCall::AddFacility { def, result: Ok(id) } => if def.kind == FacilityKind::ThermalBank {
                p.push(id)
            } else {
                p
            },
            _ => p,
        }
    }
}

proof fn lemma_trace_prefix(models: Seq<BuilderModel>, calls: Seq<BuilderCall>)
    requires
        builder_trace(models, calls),
        calls.len() > 0,
    ensures
        builder_trace(models.drop_last(), calls.drop_last()),
        call_step(models[calls.len() - 1], models[calls.len() as int], calls.last()),
{
    let m2 = models.drop_last();
    let c2 = calls.drop_last();
    assert forall|t: int| 0 <= t < c2.len() implies #[trigger] call_step(m2[t], m2[t + 1], c2[t]) by {
        assert(call_step(models[t], models[t + 1], calls[t]));
    }
    assert(call_step(models[calls.len() - 1], models[calls.len() - 1 + 1], calls[calls.len() - 1]));
}

/// What holds of a builder after any calls: it is consistent, its items are the
/// accepted definitions in order, numbered from zero, and its thermal bank is the one
/// accepted thermal bank, if any.
#[verifier::spinoff_prover]
proof fn lemma_trace(models: Seq<BuilderModel>, calls: Seq<BuilderCall>)
    requires
        builder_trace(models, calls),
    ensures
        models.last().consistent(),
        models.last().items.len() == accepted_items(calls).len(),
        forall|n: int|
            0 <= n < accepted_items(calls).len() ==> #[trigger] accepted_items(calls)[n].0 == models.last().items[n]
                && accepted_items(calls)[n].1@ == n,
        accepted_thermal_banks(calls).len() <= 1,
        models.last().thermal_bank is None <==> accepted_thermal_banks(calls).len() == 0,
        models.last().thermal_bank matches Some(id) ==> accepted_thermal_banks(calls) == seq![id],
    decreases calls.len(),
{
    broadcast use {lemma_item_id_view, lemma_facility_id_view};
    if calls.len() == 0 {
        assert(models.last() == empty_builder_model());
        assert(empty_builder_model().item_index =~= Map::<Seq<char>, ItemId>::empty());
    } else {
        let n = calls.len() as int;
        lemma_trace_prefix(models, calls);
        lemma_trace(models.drop_last(), calls.drop_last());
        let old = models[n - 1];
        let new = models[n];
        assert(models.drop_last().last() == old);
        assert(models.last() == new);
        let pa = accepted_items(calls.drop_last());
        let pf = accepted_facilities(calls.drop_last());
        let pt = accepted_thermal_banks(calls.drop_last());
        match calls.last() {
            BuilderCall::AddItem { def, result } => {
                if let Ok(id) = result {
                    law_added_item_resolves(old, new, def, id);
                    assert(accepted_items(calls) == pa.push((def, id)));
                    assert forall|q: int| 0 <= q < accepted_items(calls).len() implies #[trigger] accepted_items(calls)[q].0
                        == new.items[q] && accepted_items(calls)[q].1@ == q by {
                        if q < pa.len() {
                            assert(accepted_items(calls)[q] == pa[q]);
                        }
                    }
                } else {
                    assert(accepted_items(calls) == pa);
                    assert(new == old);
                }
                assert(accepted_thermal_banks(calls) == pt);
                assert(accepted_facilities(calls) == pf);
                assert(new.facilities == old.facilities);
            },
            BuilderCall::AddFacility { def, result } => {
                assert(accepted_items(calls) == pa);
                assert(new.items == old.items);
                if let Ok(id) = result {
                    law_added_facility_resolves(old, new, def, id);
                    if def.kind == FacilityKind::ThermalBank {
                        assert(accepted_thermal_banks(calls) == pt.push(id));
                        assert(old.thermal_bank is None);
                        assert(pt.len() == 0);
                        assert(accepted_thermal_banks(calls) =~= seq![id]);
                    } else {
                        assert(accepted_thermal_banks(calls) == pt);
                    }
                } else {
                    assert(accepted_thermal_banks(calls) == pt);
                    assert(accepted_facilities(calls) == pf);
                    assert(new == old);
                }
            },
            BuilderCall::PushRecipe { recipe } => {
                assert(accepted_items(calls) == pa);
                assert(new.items == old.items);
                assert(accepted_facilities(calls) == pf);
                assert(new.facilities == old.facilities);
                assert(accepted_thermal_banks(calls) == pt);
            },
            BuilderCall::PushPowerRecipe { recipe } => {
                assert(accepted_items(calls) == pa);
                assert(new.items == old.items);
                assert(accepted_facilities(calls) == pf);
                assert(new.facilities == old.facilities);
                assert(accepted_thermal_banks(calls) == pt);
            },
        }
    }
}

/// After any calls on a fresh builder, its facilities are the accepted facility
/// definitions in order, numbered from zero.
#[verifier::spinoff_prover]
proof fn lemma_trace_facilities(models: Seq<BuilderModel>, calls: Seq<BuilderCall>)
    requires
        builder_trace(models, calls),
    ensures
        models.last().facilities.len() == accepted_facilities(calls).len(),
        forall|n: int|
            0 <= n < accepted_facilities(calls).len() ==> #[trigger] accepted_facilities(calls)[n].0
                == models.last().facilities[n] && accepted_facilities(calls)[n].1@ == n,
    decreases calls.len(),
{
    broadcast use {lemma_item_id_view, lemma_facility_id_view};
    if calls.len() == 0 {
        assert(models.last() == empty_builder_model());
        assert(accepted_facilities(calls).len() == 0);
    } else {
        let k = calls.len() as int;
        lemma_trace_prefix(models, calls);
        lemma_trace_facilities(models.drop_last(), calls.drop_last());
        lemma_trace(models.drop_last(), calls.drop_last());
        let old = models[k - 1];
        let new = models[k];
        assert(models.drop_last().last() == old);
        assert(models.last() == new);
        let pf = accepted_facilities(calls.drop_last());
        let acc = accepted_facilities(calls);
        let c = calls.last();
        assert(call_step(old, new, c));
        if c is AddFacility && c->AddFacility_result is Ok {
            let def = c->AddFacility_def;
            let id = c->AddFacility_result->Ok_0;
            law_added_facility_resolves(old, new, def, id);
            assert(acc == pf.push((def, id)));
            assert(new.facilities == old.facilities.push(def));
            assert forall|q: int| 0 <= q < acc.len() implies #[trigger] acc[q].0 == new.facilities[q]
                && acc[q].1@ == q by {
                if q < pf.len() {
                    assert(acc[q] == pf[q]);
                    assert(pf[q].0 == models.drop_last().last().facilities[q]);
                }
            }
        } else {
            assert(acc == pf);
            assert(new.facilities == old.facilities);
            assert forall|q: int| 0 <= q < acc.len() implies #[trigger] acc[q].0 == new.facilities[q]
                && acc[q].1@ == q by {
                assert(acc[q] == pf[q]);
                assert(pf[q].0 == models.drop_last().last().facilities[q]);
            }
        }
    }
}

/// After any calls on a fresh builder, its items are exactly the definitions that
/// `add_item` accepted, in call order, and the ids returned were 0, 1, 2, ... in
/// that order.
pub proof fn law_builder_items_are_accepted_defs(models: Seq<BuilderModel>, calls: Seq<BuilderCall>)
    requires
        builder_trace(models, calls),
    ensures
        models.last().items.len() == accepted_items(calls).len(),
        forall|n: int|
            0 <= n < accepted_items(calls).len() ==> #[trigger] accepted_items(calls)[n].0 == models.last().items[n]
                && accepted_items(calls)[n].1@ == n,
{
    lemma_trace(models, calls);
}

/// After any calls on a fresh builder, a key resolves to an id exactly when
/// `add_item` accepted a definition with that key and returned that id.
pub proof fn law_builder_item_keys_resolve_exactly(
    models: Seq<BuilderModel>,
    calls: Seq<BuilderCall>,
    k: Seq<char>,
    id: ItemId,
)
    requires
        builder_trace(models, calls),
    ensures
        models.last().item_index.get(k) == Some(id) <==> exists|n: int|
            0 <= n < accepted_items(calls).len() && #[trigger] accepted_items(calls)[n] == (
            accepted_items(calls)[n].0,
            id,
        ) && accepted_items(calls)[n].0.key@ == k,
        models.last().item_index.get(k) is None <==> forall|n: int|
            0 <= n < accepted_items(calls).len() ==> #[trigger] accepted_items(calls)[n].0.key@ != k,
{
    broadcast use lemma_item_id_view;
    lemma_trace(models, calls);
    let b = models.last();
    let acc = accepted_items(calls);
    if b.item_index.contains_key(k) {
        let p = b.item_index[k]@ as int;
        assert(b.items[p].key@ == k);
        assert(acc[p].0 == b.items[p]);
        if b.item_index.get(k) == Some(id) {
            assert(acc[p] == (acc[p].0, id));
        }
    }
    assert forall|n: int| 0 <= n < acc.len() && #[trigger] acc[n].0.key@ == k implies b.item_index.get(k) == Some(acc[n].1) by {
        assert(acc[n].0 == b.items[n]);
        assert(b.item_index.contains_key(b.items[n].key@));
    }
}

/// An item accepted by `add_item` keeps resolving to the id returned, whatever calls
/// follow.
pub proof fn law_added_item_keeps_resolving(models: Seq<BuilderModel>, calls: Seq<BuilderCall>, t: int)
    requires
        builder_trace(models, calls),
        0 <= t < calls.len(),
        calls[t] is AddItem,
        calls[t]->AddItem_result is Ok,
    ensures
        models.last().item_index.get(calls[t]->AddItem_def.key@) == Some(calls[t]->AddItem_result->Ok_0),
    decreases calls.len(),
{
    lemma_accepted_item_listed(calls, t);
    let acc = accepted_items(calls);
    let n = choose|n: int| 0 <= n < acc.len() && #[trigger] acc[n] == (calls[t]->AddItem_def, calls[t]->AddItem_result->Ok_0);
    law_builder_item_keys_resolve_exactly(models, calls, calls[t]->AddItem_def.key@, calls[t]->AddItem_result->Ok_0);
    assert(acc[n] == (acc[n].0, calls[t]->AddItem_result->Ok_0));
}

proof fn lemma_accepted_item_listed(calls: Seq<BuilderCall>, t: int)
    requires
        0 <= t < calls.len(),
        calls[t] is AddItem,
        calls[t]->AddItem_result is Ok,
    ensures
        exists|n: int|
            0 <= n < accepted_items(calls).len() && #[trigger] accepted_items(calls)[n] == (
            calls[t]->AddItem_def,
            calls[t]->AddItem_result->Ok_0,
        ),
    decreases calls.len(),
{
    let p = accepted_items(calls.drop_last());
    if t == calls.len() - 1 {
        assert(accepted_items(calls)[p.len() as int] == (calls[t]->AddItem_def, calls[t]->AddItem_result->Ok_0));
    } else {
        assert(calls.drop_last()[t] == calls[t]);
        lemma_accepted_item_listed(calls.drop_last(), t);
        let n = choose|n: int| 0 <= n < p.len() && #[trigger] p[n] == (calls[t]->AddItem_def, calls[t]->AddItem_result->Ok_0);
        assert(accepted_items(calls)[n] == p[n]);
    }
}

/// After any calls on a fresh builder, its facilities are exactly the definitions
/// that `add_facility` accepted, in call order, with ids 0, 1, 2, ...; and a key
/// resolves to an id exactly when an accepted facility has that key and that id.
pub proof fn law_builder_facilities_are_accepted_defs(
    models: Seq<BuilderModel>,
    calls: Seq<BuilderCall>,
    k: Seq<char>,
    id: FacilityId,
)
    requires
        builder_trace(models, calls),
    ensures
        models.last().facilities.len() == accepted_facilities(calls).len(),
        forall|n: int|
            0 <= n < accepted_facilities(calls).len() ==> #[trigger] accepted_facilities(calls)[n].0
                == models.last().facilities[n] && accepted_facilities(calls)[n].1@ == n,
        models.last().facility_index.get(k) == Some(id) <==> exists|n: int|
            0 <= n < accepted_facilities(calls).len() && #[trigger] accepted_facilities(calls)[n] == (
            accepted_facilities(calls)[n].0,
            id,
        ) && accepted_facilities(calls)[n].0.key@ == k,
{
    broadcast use lemma_facility_id_view;
    lemma_trace(models, calls);
    lemma_trace_facilities(models, calls);
    let b = models.last();
    let acc = accepted_facilities(calls);
    if b.facility_index.get(k) == Some(id) {
        let p = b.facility_index[k]@ as int;
        assert(b.facilities[p].key@ == k);
        assert(acc[p].0 == b.facilities[p]);
        assert(acc[p] == (acc[p].0, id));
    }
    assert forall|n: int| 0 <= n < acc.len() && #[trigger] acc[n].0.key@ == k implies b.facility_index.get(k) == Some(acc[n].1) by {
        assert(acc[n].0 == b.facilities[n]);
        assert(b.facility_index.contains_key(b.facilities[n].key@));
    }
}

/// At most one thermal bank is ever accepted: after any calls on a fresh builder,
/// `add_facility` returned `Ok` for at most one thermal bank, and the builder's
/// thermal bank is that one, or none if there was none.
pub proof fn law_at_most_one_thermal_bank(models: Seq<BuilderModel>, calls: Seq<BuilderCall>)
    requires
        builder_trace(models, calls),
    ensures
        accepted_thermal_banks(calls).len() <= 1,
        models.last().thermal_bank is None <==> accepted_thermal_banks(calls).len() == 0,
        models.last().thermal_bank matches Some(id) ==> accepted_thermal_banks(calls) == seq![id],
{
    lemma_trace(models, calls);
}

} // verus!
