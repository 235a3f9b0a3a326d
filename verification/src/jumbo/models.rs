use vstd::prelude::*;

use crate::jumbo::ids::{ProductId, PromotionId, RuntimeId, TabId};

verus! {

// ** Promotions **

#[derive(Clone, Debug, PartialEq, Eq)]
pub struct PromotionTabs {
    pub tabs: Vec<Tab>,
}

#[derive(Clone, Debug, PartialEq, Eq)]
pub struct Tab {
    pub id: TabId,
    pub title: String,
    pub short_title: String,
    pub runtimes: Vec<Runtime>,
}

/// A runtime of a promotion tab; `start` and `end` are seconds since the Unix epoch.
#[derive(Clone, Debug, PartialEq, Eq)]
pub struct Runtime {
    pub id: RuntimeId,
    pub title: String,
    pub short_title: String,
    pub start: i64,
    pub end: i64,
}

#[derive(Copy, Clone, Debug, PartialEq, Eq, Structural)]
pub enum SortedByQuery {
    Date,
    Product,
}

#[derive(Clone, Debug, PartialEq, Eq)]
pub struct PromotionGroup {
    pub categories: Vec<PromotionCategory>,
}

#[derive(Clone, Debug, PartialEq, Eq)]
pub struct PromotionCategory {
    pub title: String,
    pub promotions: Vec<Promotion>,
}

/// A promotion; `start_date` and `end_date` are seconds since the Unix epoch.
#[derive(Clone, Debug, PartialEq, Eq)]
pub struct Promotion {
    pub id: PromotionId,
    pub title: String,
    pub description: String,
    pub primary_badges: Vec<PromotionBadge>,
    pub secondary_badges: Vec<PromotionBadge>,
    pub tags: Vec<String>,
    pub subtitle: Option<String>,
    pub image: PromotionImage,
    pub start_date: i64,
    pub end_date: i64,
    pub products: Vec<ProductId>,
    pub disclaimer: Option<String>,
    pub offline_text: Option<String>,
}

#[derive(Clone, Debug, PartialEq, Eq)]
pub struct PromotionBadge {
    pub image: PromotionImage,
}

#[derive(Clone, Debug, PartialEq, Eq)]
pub struct PromotionImage {
    pub url: String,
    pub relative_path: String,
}

// ** Products **

#[derive(Debug, PartialEq, Eq)]
pub struct ProductList {
    pub products: ProductsPage,
}

#[derive(Debug, PartialEq, Eq)]
pub struct ProductsPage {
    pub data: Vec<PartialProduct>,
    pub total: u32,
    pub offset: u32,
}

#[derive(Debug, PartialEq, Eq)]
pub struct PartialProduct {
    pub id: ProductId,
    pub title: String,
    pub quantity_options: Vec<QuantityOption>,
    pub prices: Prices,
    pub available: bool,
    pub product_type: ProductType,
    pub image_info: ImageInfo,
    pub top_level_category: String,
    pub top_level_category_id: String,
    pub sample: bool,
    pub availability: Availability,
    pub quantity: Option<String>,
    /// Will only show up if `product_type == ProductType::RetailSet`.
    pub retail_set_products: Option<Vec<PartialProduct>>,
    pub sticker_badges: Vec<String>,
    pub badge_description: Option<String>,
    pub promotion: Option<ProductPromotion>,
}

#[derive(Copy, Clone, Debug, PartialEq, Eq, Structural)]
pub enum ProductType {
    Product,
    RetailSet,
    Other,
}

#[derive(Copy, Clone, Debug, PartialEq, Eq, Structural)]
pub struct QuantityOption {
    pub default_amount: u32,
    pub minimum_amount: u32,
    pub amount_step: u32,
    pub unit: Unit,
    pub maximum_amount: u32,
}

#[derive(Copy, Clone, Debug, PartialEq, Eq, Structural)]
pub enum Unit {
    Kg,
    Liter,
    Piece,
    Pieces,
    Other,
}

#[derive(Clone, Debug, PartialEq, Eq)]
pub struct Prices {
    pub price: Price,
    pub promotional_price: Option<Price>,
    pub unit_price: Option<UnitPrice>,
}

/// An amount of money; `amount` is in cents.
#[derive(Clone, Debug, PartialEq, Eq)]
pub struct Price {
    pub currency: String,
    pub amount: u32,
}

#[derive(Clone, Debug, PartialEq, Eq)]
pub struct UnitPrice {
    pub unit: String,
    pub price: Price,
}

#[derive(Clone, Debug, PartialEq, Eq)]
pub struct ImageInfo {
    pub primary_view: Vec<ProductImage>,
}

#[derive(Clone, Debug, PartialEq, Eq)]
pub struct ProductImage {
    pub url: String,
    pub width: u32,
    pub height: u32,
}

#[derive(Copy, Clone, Debug, PartialEq, Eq, Structural)]
pub enum AvailabilityType {
    Available,
    TemporarilyUnavailable,
    Unavailable,
    Other,
}

#[derive(Clone, Debug, PartialEq, Eq)]
pub struct Availability {
    pub sku: Option<String>,
    pub availability: AvailabilityType,
    pub reason: Option<String>,
    pub label: Option<String>,
}

// ** Full Product **

#[derive(Debug, PartialEq, Eq)]
pub struct FullProductResponse {
    pub product: ProductInfo,
}

#[derive(Debug, PartialEq, Eq)]
pub struct ProductInfo {
    pub data: Product,
}

#[derive(Debug, PartialEq, Eq)]
pub struct Product {
    pub id: ProductId,
    pub title: String,
    pub quantity_options: Vec<QuantityOption>,
    pub prices: Prices,
    pub available: bool,
    pub product_type: String,
    pub quantity: Option<String>,
    pub image_info: ImageInfo,
    pub top_level_category: String,
    pub top_level_category_id: String,
    pub sample: bool,
    pub availability: Availability,
    pub has_related_products: bool,
    pub nutritional_information: Vec<NutritionalInformation>,
    pub number_of_servings: Option<String>,
    pub regulated_title: Option<String>,
    pub details_text: Option<String>,
    pub ingredient_info: Vec<IngredientInfo>,
    pub allergy_text: Option<String>,
    pub allergy_info: Option<AllergyInfo>,
    pub usage_and_safety_info: Option<UsageAndSafetyInfo>,
    pub origin_info: Option<OriginInfo>,
    pub brand_info: BrandInfo,
    pub promotion: Option<ProductPromotion>,
    pub sticker_badges: Vec<String>,
    pub badge_description: Option<String>,
}

#[derive(Clone, Debug, PartialEq, Eq)]
pub struct NutritionalInformation {
    pub product_title: String,
    pub nutritional_guidelines: ProductNutritionalGuidelines,
    pub nutritional_data: NutritionalData,
}

#[derive(Clone, Debug, PartialEq, Eq)]
pub struct ProductNutritionalGuidelines {
    pub entries: Vec<ProductNutritionalGuideline>,
}

#[derive(Clone, Debug, PartialEq, Eq)]
pub struct ProductNutritionalGuideline {
    pub name: String,
    pub percentage: Option<String>,
    pub quantity: String,
}

#[derive(Clone, Debug, PartialEq, Eq)]
pub struct NutritionalData {
    pub entries: Vec<ProductNutrition>,
    pub portion_size: Option<String>,
}

#[derive(Clone, Debug, PartialEq, Eq)]
pub struct ProductNutrition {
    pub name: String,
    pub value_per100g: String,
    pub value_per_portion: String,
}

#[derive(Clone, Debug, PartialEq, Eq)]
pub struct IngredientInfo {
    pub product_title: String,
    pub ingredients: Vec<Ingredient>,
}

#[derive(Clone, Debug, PartialEq, Eq)]
pub struct Ingredient {
    pub name: String,
    pub contains_allergens: bool,
    pub highlights: Vec<HighlightRange>,
}

#[derive(Copy, Clone, Debug, PartialEq, Eq, Structural)]
pub struct HighlightRange {
    pub length: i64,
    pub offset: i64,
}

#[derive(Clone, Debug, PartialEq, Eq)]
pub struct AllergyInfo {
    pub allergy_text: String,
}

#[derive(Clone, Debug, PartialEq, Eq)]
pub struct UsageAndSafetyInfo {
    pub preparation_and_usage: Option<String>,
    pub storage_type: Option<String>,
    pub safety_warning: Option<String>,
}

#[derive(Clone, Debug, PartialEq, Eq)]
pub struct OriginInfo {
    pub fishing_area: Option<String>,
    pub country_of_origin: Option<String>,
}

#[derive(Clone, Debug, PartialEq, Eq)]
pub struct BrandInfo {
    pub manufacturer_address: String,
    pub web_address: String,
}

/// The promotion of a product; `from_date` and `to_date` are seconds since the Unix epoch.
#[derive(Clone, Debug, PartialEq, Eq)]
pub struct ProductPromotion {
    pub id: String,
    pub name: String,
    pub label: String,
    pub image_url: String,
    pub validity_period: String,
    pub summary: String,
    pub offline: bool,
    pub tags: Vec<Tag>,
    pub from_date: i64,
    pub to_date: i64,
}

#[derive(Clone, Debug, PartialEq, Eq)]
pub struct Tag {
    pub text: String,
}

// ** Autocomplete and users **

#[derive(Clone, Debug, PartialEq, Eq)]
pub struct AutoCompleteResponse {
    pub autocomplete: AutoCompleteData,
}

#[derive(Clone, Debug, PartialEq, Eq)]
pub struct AutoCompleteData {
    pub data: Vec<String>,
}

#[derive(Clone, Debug, PartialEq, Eq)]
pub struct LoginRequest {
    pub username: String,
    pub password: String,
}

} // verus!
