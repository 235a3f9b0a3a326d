use vstd::prelude::*;

use crate::numbers::Decimal;

pub mod sale_types;

pub use sale_types::SaleType;

verus! {

/// The price listed as cents.
pub type CentPrice = u32;

/// The identifier of a product within one provider.
pub type ProductId = String;

/// The identifier of a sale sub-list within one provider.
pub type SublistId = String;

// ** Providers **

/// The grocery stores this library knows.
#[derive(Copy, Clone, Debug, PartialEq, Eq, Structural, Hash)]
pub enum Provider {
    Picnic,
    Jumbo,
}

/// When resolving a multi-product sale (`1 + 1 free`, `2nd half off`) the strategy determines how products are grouped.
#[derive(Copy, Clone, Debug, PartialEq, Eq, Structural, Hash)]
pub enum SaleResolutionStrategy {
    /// The provider ensures the largest savings for the customer.
    Opportunistic,
    /// The provider ensures the smallest savings for the customer.
    Pessimistic,
}

#[derive(Clone, Debug, PartialEq, Eq, Hash)]
pub struct ProviderInfo {
    /// The grocery store which provided this item.
    pub provider: Provider,
    /// The SVG logo of the grocery store
    pub logo_url: String,
}

#[derive(Clone, Debug, PartialEq, Eq, Hash)]
pub struct ProviderMetadata {
    /// The SVG logo of the grocery store
    pub logo_url: String,
    /// The strategy for multi-product sale resolution.
    pub sale_strategy: SaleResolutionStrategy,
    /// Whether the provider supports managing cart contents to whatever backend it uses.
    pub supports_cart: bool,
}

pub open spec fn picnic_logo() -> Seq<char> {
    "https://upload.wikimedia.org/wikipedia/commons/0/01/Picnic_logo.svg"@
}

pub open spec fn jumbo_logo() -> Seq<char> {
    "https://upload.wikimedia.org/wikipedia/commons/8/8d/Jumbo_Logo.svg"@
}

/// The static metadata of each provider.
pub open spec fn spec_metadata(provider: Provider) -> (Seq<char>, SaleResolutionStrategy, bool) {
    match provider {
        Provider::Picnic => (picnic_logo(), SaleResolutionStrategy::Opportunistic, false),
        Provider::Jumbo => (jumbo_logo(), SaleResolutionStrategy::Pessimistic, false),
    }
}

/// The metadata of Picnic.
pub fn picnic_metadata() -> (res: ProviderMetadata)
    ensures
        (res.logo_url@, res.sale_strategy, res.supports_cart) == spec_metadata(Provider::Picnic),
{
    ProviderMetadata {
        logo_url: String::from_str("https://upload.wikimedia.org/wikipedia/commons/0/01/Picnic_logo.svg"),
        // Technically Picnic sale resolution depends on the order of addition to the cart, but the user can
        // manually make this opportunistic in that case.
        sale_strategy: SaleResolutionStrategy::Opportunistic,
        supports_cart: false,
    }
}

/// The metadata of Jumbo.
pub fn jumbo_metadata() -> (res: ProviderMetadata)
    ensures
        (res.logo_url@, res.sale_strategy, res.supports_cart) == spec_metadata(Provider::Jumbo),
{
    ProviderMetadata {
        logo_url: String::from_str("https://upload.wikimedia.org/wikipedia/commons/8/8d/Jumbo_Logo.svg"),
        sale_strategy: SaleResolutionStrategy::Pessimistic,
        supports_cart: false,
    }
}

/// The name a provider goes by in requests.
pub open spec fn spec_provider_name(provider: Provider) -> Seq<char> {
    match provider {
        Provider::Picnic => "PICNIC"@,
        Provider::Jumbo => "JUMBO"@,
    }
}

impl Provider {
    /// Get all relevant metadata for this provider
    pub fn get_metadata(&self) -> (res: ProviderMetadata)
        ensures
            (res.logo_url@, res.sale_strategy, res.supports_cart) == spec_metadata(*self),
    {
        match self {
            Provider::Picnic => picnic_metadata(),
            Provider::Jumbo => jumbo_metadata(),
        }
    }

    /// Retrieve a ProviderInfo object which contains the logo url for the current provider.
    pub fn as_provider_info(&self) -> (res: ProviderInfo)
        ensures
            res.provider == *self,
            res.logo_url@ == spec_metadata(*self).0,
    {
        ProviderInfo { provider: *self, logo_url: self.get_metadata().logo_url }
    }

    /// Read a provider from its name: `PICNIC` or `JUMBO`.
    pub fn from_name(s: &str) -> (res: Result<Provider, String>)
        ensures
            res matches Ok(p) ==> spec_provider_name(p) == s@,
            res is Err ==> s@ != spec_provider_name(Provider::Picnic) && s@ != spec_provider_name(
                Provider::Jumbo,
            ),
            res matches Err(m) ==> m@ == "Failed to parse provider "@ + s@,
    {
        let v = crate::text::chars_of(s);
        let picnic = crate::text::chars_of("PICNIC");
        let jumbo = crate::text::chars_of("JUMBO");
        if crate::text::chars_eq(&v, &picnic) {
            Ok(Provider::Picnic)
        } else if crate::text::chars_eq(&v, &jumbo) {
            Ok(Provider::Jumbo)
        } else {
            let mut msg = String::from_str("Failed to parse provider ");
            msg.append(s);
            Err(msg)
        }
    }
}

impl std::str::FromStr for Provider {
    type Err = String;

    /// Read a provider from its name, see [Provider::from_name].
    fn from_str(s: &str) -> (res: Result<Provider, String>)
        ensures
            res matches Ok(p) ==> spec_provider_name(p) == s@,
            res is Err ==> s@ != spec_provider_name(Provider::Picnic) && s@ != spec_provider_name(
                Provider::Jumbo,
            ),
            res matches Err(m) ==> m@ == "Failed to parse provider "@ + s@,
    {
        Provider::from_name(s)
    }
}

/// Grocery store information for the given provider.
pub fn provider_info(provider: Provider) -> (res: ProviderInfo)
    ensures
        res.provider == provider,
        res.logo_url@ == spec_metadata(provider).0,
{
    ProviderInfo { provider, logo_url: provider.get_metadata().logo_url }
}

// ** Products **

#[derive(Clone, Debug, PartialEq, Eq, PartialOrd, Ord)]
pub struct WggAutocomplete {
    pub name: String,
}

#[derive(Copy, Clone, Debug, PartialEq, Eq, Structural, Hash)]
pub enum Unit {
    Piece,
    Liter,
    MilliLiter,
    KiloGram,
    Gram,
}

#[derive(Copy, Clone, Debug, PartialEq, Eq, Structural)]
pub struct UnitPrice {
    pub unit: Unit,
    pub price: CentPrice,
}

/// The amount of weight/liters/pieces a product represents.
#[derive(Copy, Clone, Debug, PartialEq, Eq, Structural)]
pub struct UnitQuantity {
    pub unit: Unit,
    pub amount: Decimal,
}

impl UnitQuantity {
    /// One piece: what is assumed when nothing better is known.
    pub open spec fn spec_default() -> UnitQuantity {
        UnitQuantity { unit: Unit::Piece, amount: Decimal::spec_whole(1) }
    }
}

impl Default for UnitQuantity {
    fn default() -> (res: UnitQuantity)
        ensures
            res == UnitQuantity::spec_default(),
    {
        UnitQuantity { unit: Unit::Piece, amount: Decimal::whole(1) }
    }
}

#[derive(Copy, Clone, Debug, PartialEq, Eq, Structural)]
pub struct FreshLabel {
    pub days_fresh: u32,
}

/// Describes the type of sale that applies to the attached object.
///
/// Think of "1 + 1 Free", or "50% off".
#[derive(Clone, Debug, PartialEq, Eq)]
pub struct SaleLabel {
    pub text: String,
}

/// From when until when (inclusive) the attached sale is valid, in seconds since the Unix epoch (UTC).
#[derive(Copy, Clone, Debug, PartialEq, Eq, Structural)]
pub struct SaleValidity {
    pub valid_from: i64,
    pub valid_until: i64,
}

/// A subtitle for a particular sale.
#[derive(Clone, Debug, PartialEq, Eq)]
pub struct SaleDescription {
    pub text: String,
}

/// If the item is unavailable
#[derive(Debug, PartialEq, Eq)]
pub struct UnavailableItem {
    pub reason: UnavailableReason,
    pub explanation_short: Option<String>,
    pub explanation_long: Option<String>,
    /// Lists replacements if the store has suggested any.
    pub replacements: Vec<WggSearchProduct>,
}

#[derive(Copy, Clone, Debug, PartialEq, Eq, Structural)]
pub struct PrepTime {
    pub time_minutes: u32,
}

#[derive(Copy, Clone, Debug, PartialEq, Eq, Structural)]
pub struct NumberOfServings {
    pub amount: u32,
}

#[derive(Clone, Debug, PartialEq, Eq)]
pub struct MoreButton {
    pub images: Vec<String>,
}

#[derive(Copy, Clone, Debug, PartialEq, Eq, Structural)]
pub enum UnavailableReason {
    OutOfAssortment,
    OutOfSeason,
    TemporarilyUnavailable,
    Unknown,
}

#[derive(Debug, PartialEq, Eq)]
pub enum WggDecorator {
    FreshLabel(FreshLabel),
    SaleLabel(SaleLabel),
    SaleValidity(SaleValidity),
    SaleDescription(SaleDescription),
    Unavailable(UnavailableItem),
    PrepTime(PrepTime),
    NumberOfServings(NumberOfServings),
    MoreButton(MoreButton),
}

#[derive(Copy, Clone, Debug, PartialEq, Eq, Structural)]
pub struct PriceInfo {
    /// The present display price (taking into account active sales).
    pub display_price: CentPrice,
    /// The full price of an article, ignoring any sales
    pub original_price: CentPrice,
    pub unit_price: Option<UnitPrice>,
}

#[derive(Clone, Debug, PartialEq, Eq)]
pub struct IngredientInfo {
    pub name: String,
}

#[derive(Clone, Debug, PartialEq, Eq)]
pub struct NutritionalInfo {
    /// For what unit (e.g, `per 100g`) these items are valid.
    pub info_unit: String,
    pub items: Vec<NutritionalItem>,
}

#[derive(Clone, Debug, PartialEq, Eq)]
pub struct NutritionalItem {
    pub name: String,
    pub value: String,
    pub sub_values: Vec<SubNutritionalItem>,
}

#[derive(Clone, Debug, PartialEq, Eq)]
pub struct SubNutritionalItem {
    pub name: String,
    pub value: String,
}

#[derive(Clone, Debug, PartialEq, Eq)]
pub struct AllergyTags {
    pub name: String,
    pub contains: AllergyType,
}

#[derive(Copy, Clone, Debug, PartialEq, Eq, Structural)]
pub enum AllergyType {
    Contains,
    MayContain,
}

/// Contains additional information relevant for an item, such as preparation instructions.
#[derive(Clone, Debug, PartialEq, Eq)]
pub struct ItemInfo {
    pub item_type: ItemType,
    pub text: String,
    pub text_type: TextType,
}

#[derive(Copy, Clone, Debug, PartialEq, Eq, Structural)]
pub enum TextType {
    PlainText,
    Markdown,
}

#[derive(Copy, Clone, Debug, PartialEq, Eq, Structural)]
pub enum ItemType {
    PreparationAdvice,
    AdditionalInfo,
    StorageAdvice,
    CountryOfOrigin,
    SafetyWarning,
}

#[derive(Clone, Debug, PartialEq, Eq)]
pub struct Description {
    pub text: String,
    pub text_type: TextType,
}

/// A full product.
#[derive(Debug, PartialEq, Eq)]
pub struct WggProduct {
    /// This service's ID for the current product. Not transferable between providers.
    pub id: String,
    pub name: String,
    pub description: Description,
    pub price_info: PriceInfo,
    pub unit_quantity: UnitQuantity,
    /// If this product is currently unavailable this will contain details explaining why.
    pub unavailable_details: Option<UnavailableItem>,
    pub image_urls: Vec<String>,
    pub ingredients: Vec<IngredientInfo>,
    pub nutritional: Option<NutritionalInfo>,
    pub allergy_info: Vec<AllergyTags>,
    pub additional_items: Vec<ItemInfo>,
    pub decorators: Vec<WggDecorator>,
    pub sale_information: Option<SaleInformation>,
    pub provider: Provider,
}

/// A product as it appears in search results.
#[derive(Debug, PartialEq, Eq)]
pub struct WggSearchProduct {
    pub id: String,
    pub name: String,
    pub price_info: PriceInfo,
    pub unit_quantity: UnitQuantity,
    pub unavailable_details: Option<UnavailableItem>,
    pub image_url: Option<String>,
    pub decorators: Vec<WggDecorator>,
    pub sale_information: Option<SaleInformation>,
    pub provider: Provider,
}

impl WggSearchProduct {
    /// The search form of a full product: every shared field, and the first image.
    pub fn from_product(product: WggProduct) -> (res: WggSearchProduct)
        ensures
            res.id == product.id,
            res.name == product.name,
            res.price_info == product.price_info,
            res.unit_quantity == product.unit_quantity,
            res.unavailable_details == product.unavailable_details,
            res.image_url == (if product.image_urls@.len() > 0 {
                Some(product.image_urls@[0])
            } else {
                None
            }),
            res.decorators == product.decorators,
            res.sale_information == product.sale_information,
            res.provider == product.provider,
    {
        let mut images = product.image_urls;
        let image_url = if images.len() > 0 {
            Some(images.remove(0))
        } else {
            None
        };
        WggSearchProduct {
            id: product.id,
            name: product.name,
            price_info: product.price_info,
            unit_quantity: product.unit_quantity,
            unavailable_details: product.unavailable_details,
            image_url,
            decorators: product.decorators,
            sale_information: product.sale_information,
            provider: product.provider,
        }
    }
}

// ** Copies of products **
//
// A product's decorators may hold an unavailable item whose replacements are products again, so the copies
// of these types recurse through one another; they are written out here and give the `Clone` of each.

/// A copy of a decorator.
pub fn copy_decorator(d: &WggDecorator) -> (res: WggDecorator)
    ensures
        res is Unavailable <==> d is Unavailable,
    decreases d, 2nat,
{
    match d {
        WggDecorator::FreshLabel(x) => WggDecorator::FreshLabel(x.clone()),
        WggDecorator::SaleLabel(x) => WggDecorator::SaleLabel(x.clone()),
        WggDecorator::SaleValidity(x) => WggDecorator::SaleValidity(x.clone()),
        WggDecorator::SaleDescription(x) => WggDecorator::SaleDescription(x.clone()),
        WggDecorator::Unavailable(u) => WggDecorator::Unavailable(copy_unavailable(u)),
        WggDecorator::PrepTime(x) => WggDecorator::PrepTime(x.clone()),
        WggDecorator::NumberOfServings(x) => WggDecorator::NumberOfServings(x.clone()),
        WggDecorator::MoreButton(x) => WggDecorator::MoreButton(x.clone()),
    }
}

/// A copy of an unavailable item: same reason and explanations, copies of the replacements.
pub fn copy_unavailable(u: &UnavailableItem) -> (res: UnavailableItem)
    ensures
        res.reason == u.reason,
        res.explanation_short == u.explanation_short,
        res.explanation_long == u.explanation_long,
        res.replacements@.len() == u.replacements@.len(),
    decreases u, 1nat,
{
    proof {
        assert(decreases_to!(u => u.replacements));
    }
    UnavailableItem {
        reason: u.reason,
        explanation_short: u.explanation_short.clone(),
        explanation_long: u.explanation_long.clone(),
        replacements: copy_search_products(&u.replacements),
    }
}

/// Copies of search products, in order.
pub fn copy_search_products(ps: &Vec<WggSearchProduct>) -> (res: Vec<WggSearchProduct>)
    ensures
        res@.len() == ps@.len(),
        forall|i: int| 0 <= i < ps@.len() ==> (#[trigger] res@[i]).id == ps@[i].id,
    decreases ps, 0nat,
{
    let mut res: Vec<WggSearchProduct> = Vec::new();
    let mut i: usize = 0;
    while i < ps.len()
        invariant
            i <= ps.len(),
            res@.len() == i,
            forall|j: int| 0 <= j < i ==> (#[trigger] res@[j]).id == ps@[j].id,
        decreases ps.len() - i,
    {
        proof {
            assert(decreases_to!(ps => ps@));
            assert(decreases_to!(ps@ => ps@[i as int]));
        }
        res.push(copy_search_product(&ps[i]));
        i = i + 1;
    }
    res
}

/// Copies of decorators, in order.
pub fn copy_decorators(ds: &Vec<WggDecorator>) -> (res: Vec<WggDecorator>)
    ensures
        res@.len() == ds@.len(),
    decreases ds, 4nat,
{
    let mut res: Vec<WggDecorator> = Vec::new();
    let mut i: usize = 0;
    while i < ds.len()
        invariant
            i <= ds.len(),
            res@.len() == i,
        decreases ds.len() - i,
    {
        proof {
            assert(decreases_to!(ds => ds@));
            assert(decreases_to!(ds@ => ds@[i as int]));
        }
        res.push(copy_decorator(&ds[i]));
        i = i + 1;
    }
    res
}

/// A copy of a search product: same id, name and prices, copies of everything else.
pub fn copy_search_product(p: &WggSearchProduct) -> (res: WggSearchProduct)
    ensures
        res.id == p.id,
        res.name == p.name,
        res.price_info == p.price_info,
        res.provider == p.provider,
        res.decorators@.len() == p.decorators@.len(),
    decreases p, 5nat,
{
    proof {
        assert(decreases_to!(p => p.decorators));
        assert(decreases_to!(p => p.unavailable_details));
    }
    let unavailable_details = match &p.unavailable_details {
        Some(u) => {
            proof {
                assert(decreases_to!(p.unavailable_details => u));
            }
            Some(copy_unavailable(u))
        },
        None => None,
    };
    WggSearchProduct {
        id: p.id.clone(),
        name: p.name.clone(),
        price_info: p.price_info,
        unit_quantity: p.unit_quantity.clone(),
        unavailable_details,
        image_url: p.image_url.clone(),
        decorators: copy_decorators(&p.decorators),
        sale_information: p.sale_information.clone(),
        provider: p.provider,
    }
}

impl Clone for WggDecorator {
    fn clone(&self) -> (res: Self) {
        copy_decorator(self)
    }
}

impl Clone for UnavailableItem {
    fn clone(&self) -> (res: Self) {
        copy_unavailable(self)
    }
}

impl Clone for WggSearchProduct {
    fn clone(&self) -> (res: Self) {
        copy_search_product(self)
    }
}

impl Clone for WggProduct {
    fn clone(&self) -> (res: Self) {
        let unavailable_details = match &self.unavailable_details {
            Some(u) => Some(copy_unavailable(u)),
            None => None,
        };
        WggProduct {
            id: self.id.clone(),
            name: self.name.clone(),
            description: self.description.clone(),
            price_info: self.price_info,
            unit_quantity: self.unit_quantity.clone(),
            unavailable_details,
            image_urls: self.image_urls.clone(),
            ingredients: self.ingredients.clone(),
            nutritional: self.nutritional.clone(),
            allergy_info: self.allergy_info.clone(),
            additional_items: self.additional_items.clone(),
            decorators: copy_decorators(&self.decorators),
            sale_information: self.sale_information.clone(),
            provider: self.provider,
        }
    }
}

impl Clone for WggSaleItem {
    fn clone(&self) -> (res: Self) {
        match self {
            WggSaleItem::Product(p) => WggSaleItem::Product(copy_search_product(p)),
            WggSaleItem::Group(g) => WggSaleItem::Group(g.clone()),
        }
    }
}

impl Clone for WggSaleCategory {
    fn clone(&self) -> (res: Self) {
        WggSaleCategory {
            id: self.id.clone(),
            name: self.name.clone(),
            items: self.items.clone(),
            image_urls: self.image_urls.clone(),
            complete: self.complete,
            provider: self.provider,
        }
    }
}

impl Clone for WggSaleGroupComplete {
    fn clone(&self) -> (res: Self) {
        WggSaleGroupComplete {
            id: self.id.clone(),
            name: self.name.clone(),
            image_urls: self.image_urls.clone(),
            items: copy_search_products(&self.items),
            sale_info: self.sale_info.clone(),
            sale_description: self.sale_description.clone(),
            provider: self.provider,
        }
    }
}

// ** Promotions **

/// A category of sales as a provider lists them.
#[derive(Debug, PartialEq, Eq)]
pub struct WggSaleCategory {
    /// If present, more items can be requested through the sublist function.
    pub id: Option<SublistId>,
    pub name: String,
    pub items: Vec<WggSaleItem>,
    pub image_urls: Vec<String>,
    /// Whether this category already holds all of its items.
    pub complete: bool,
    pub provider: Provider,
}

#[derive(Debug, PartialEq, Eq)]
pub enum WggSaleItem {
    Product(WggSearchProduct),
    Group(WggSaleGroupLimited),
}

#[derive(Clone, Debug, PartialEq, Eq)]
pub struct WggSaleGroupLimited {
    pub id: SublistId,
    pub name: String,
    pub image_urls: Vec<String>,
    /// A list of only product Ids.
    pub items: Vec<ProductIdT>,
    pub sale_info: SaleInformation,
    pub sale_description: Option<String>,
    pub provider: Provider,
}

#[derive(Debug, PartialEq, Eq)]
pub struct WggSaleGroupComplete {
    pub id: SublistId,
    pub name: String,
    pub image_urls: Vec<String>,
    /// All items that are part of this promotion.
    pub items: Vec<WggSearchProduct>,
    pub sale_info: SaleInformation,
    pub sale_description: Option<String>,
    pub provider: Provider,
}

#[derive(Clone, Debug, PartialEq, Eq)]
pub struct ProductIdT {
    pub id: String,
}

#[derive(Clone, Debug, PartialEq, Eq)]
pub struct SaleInformation {
    /// A label for a sale like `1 + 1 GRATIS` or `2 voor 2.50`.
    pub label: String,
    /// Additional labels relevant for this particular item such as `Only online`.
    pub additional_label: Vec<String>,
    /// From and to when this sale is valid; some providers make a best guess.
    pub sale_validity: SaleValidity,
    /// The derived sale type, `None` if it could not be derived.
    pub sale_type: Option<SaleType>,
}

} // verus!
