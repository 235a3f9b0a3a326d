use vstd::prelude::*;

verus! {

// ** LOGIN **

/// What is sent to log in: the secret is the lowercase hex MD5 digest of the password.
#[derive(Clone, Debug, PartialEq, Eq)]
pub struct LoginRequest {
    pub key: String,
    pub secret: String,
    pub client_id: String,
    pub client_version: Option<String>,
    pub device_id: Option<String>,
}

#[derive(Clone, Debug, PartialEq, Eq)]
pub struct LoginResponse {
    pub user_id: String,
    pub second_factor_authentication_required: bool,
    pub show_second_factor_authentication_intro: bool,
}

// ** USER INFO **

#[derive(Clone, Debug, PartialEq, Eq)]
pub struct UserInfo {
    pub user_id: String,
    pub firstname: String,
    pub lastname: String,
    pub address: Address,
    pub phone: String,
    pub contact_email: String,
    pub feature_toggles: Vec<String>,
    pub push_subscriptions: Vec<Subscriptions>,
    pub subscriptions: Vec<Subscriptions>,
    pub customer_type: String,
    pub household_details: HouseholdDetails,
    pub check_general_consent: bool,
    pub placed_order: bool,
    pub received_delivery: bool,
    pub total_deliveries: i64,
    pub completed_deliveries: i64,
    pub consent_decisions: ConsentDecisions,
}

#[derive(Copy, Clone, Debug, PartialEq, Eq, Structural)]
pub struct ConsentDecisions {
    pub misc_commercial_ads: bool,
    pub misc_commercial_emails: bool,
    pub misc_commercial_messages: bool,
    pub misc_read_advertising_id: bool,
    pub personalized_ranking_consent: bool,
    pub purchases_category_consent: bool,
    pub weekly_commercial_emails: bool,
}

#[derive(Clone, Debug, PartialEq, Eq)]
pub struct HouseholdDetails {
    pub adults: i64,
    pub children: i64,
    pub cats: i64,
    pub dogs: i64,
    pub author: String,
    pub last_edit_ts: i64,
}

#[derive(Clone, Debug, PartialEq, Eq)]
pub struct Subscriptions {
    pub list_id: String,
    pub subscribed: bool,
    pub name: String,
}

#[derive(Clone, Debug, PartialEq, Eq)]
pub struct Address {
    pub house_number: i64,
    pub house_number_ext: String,
    pub postcode: String,
    pub street: String,
    pub city: String,
}

// ** SEARCH **

#[derive(Debug, PartialEq, Eq)]
pub struct SearchResult {
    pub type_field: String,
    pub id: String,
    pub links: Vec<Link>,
    pub name: String,
    pub items: Vec<SearchItem>,
    pub level: i64,
    pub is_included_in_category_tree: bool,
    pub hidden: bool,
}

#[derive(Clone, Debug, PartialEq, Eq)]
pub struct Link {
    pub type_field: String,
    pub href: String,
}

#[derive(Debug, PartialEq, Eq)]
pub enum SearchItem {
    SingleArticle(SingleArticle),
    ItemSuggestionDialog,
    Other,
}

#[derive(Debug, PartialEq, Eq)]
pub struct SingleArticle {
    pub id: String,
    pub decorators: Vec<Decorator>,
    pub name: String,
    pub display_price: u32,
    pub price: Option<u32>,
    pub image_id: String,
    pub max_count: u32,
    pub unit_quantity: String,
    pub unit_quantity_sub: Option<String>,
}

/// A calendar date (proleptic Gregorian).
#[derive(Copy, Clone, Debug, PartialEq, Eq, Structural)]
pub struct CalendarDate {
    pub year: i32,
    pub month: u32,
    pub day: u32,
}

// ** Decorator **

#[derive(Debug, PartialEq, Eq)]
pub enum Decorator {
    BasePrice { base_price_text: String },
    FreshLabel { period: String },
    Promo { text: String },
    Price { display_price: u32 },
    BackgroundImage { image_ids: Vec<String>, height_percent: i32 },
    Banners { height_percentage: i32, banners: Vec<Banner> },
    UnitQuantity { unit_quantity_text: String },
    ValidityLabel { valid_until: CalendarDate },
    TitleStyle { styles: Vec<Style> },
    MoreButton { link: Link, images: Vec<String>, sellable_item_count: i32 },
    Unavailable { reason: UnavailableReason, replacements: Vec<SingleArticle>, explanation: Explanation },
    ArticleDeliveryIssues { issues: Vec<Issue> },
    Quantity { quantity: i64 },
    Other,
}

#[derive(Clone, Debug, PartialEq, Eq)]
pub struct Banner {
    pub banner_id: String,
    pub image_id: String,
    pub display_time: String,
    pub description: String,
    pub position: String,
    pub reference: Option<Reference>,
}

#[derive(Clone, Debug, PartialEq, Eq)]
pub struct Reference {
    pub target: String,
}

#[derive(Clone, Debug, PartialEq, Eq)]
pub struct Style {
    pub position: Position,
    pub color: String,
    pub style: String,
    pub priority: i64,
}

#[derive(Copy, Clone, Debug, PartialEq, Eq, Structural)]
pub struct Position {
    pub start_index: i64,
    pub length: i64,
}

#[derive(Copy, Clone, Debug, PartialEq, Eq, Structural)]
pub enum UnavailableReason {
    Available,
    OutOfAssortment,
    OutOfSeason,
    TemporarilyUnavailable,
    Unknown,
    Other,
}

#[derive(Clone, Debug, PartialEq, Eq)]
pub struct Explanation {
    pub short_explanation: String,
    pub long_explanation: String,
}

#[derive(Debug, PartialEq, Eq)]
pub struct Issue {
    pub article_id: String,
    pub price: i64,
    pub quantity: i64,
    pub reason: ArticleIssueReasonType,
    pub resolution: IssueResolution,
}

#[derive(Debug, PartialEq, Eq)]
pub enum IssueResolution {
    NoResolution,
    FreeInBasket,
    Refund,
    Substituted { substitutions: Vec<OrderArticle>, refunded: bool },
    Unsupported,
    Other,
}

#[derive(Copy, Clone, Debug, PartialEq, Eq, Structural)]
pub enum ArticleIssueReasonType {
    ProductNotShipped,
    ProductDamaged,
    ProductNotRequested,
    ProductLowQuality,
    ProductAgeRequirementNotMet,
    ProductAbsent,
    ProductPricePromiseBroken,
    ProductSubstituted,
    ProductNotProcessed,
    Unsupported,
}

// ** Suggestions **

#[derive(Clone, Debug, PartialEq, Eq)]
pub struct Suggestion {
    pub type_field: String,
    pub id: String,
    pub links: Vec<Link>,
    pub suggestion: String,
}

// ** Product Info **

#[derive(Debug, PartialEq, Eq)]
pub struct ProductArticle {
    pub id: String,
    pub name: String,
    pub decorators: Vec<Decorator>,
    pub description: Option<Description>,
    pub price_info: PriceInfo,
    pub labels: Labels,
    pub images: Vec<Image>,
    pub max_order_quantity: i32,
    /// Contains the quantity of product, aka `625 grams` or `4-6 pers | 30 mins`
    pub unit_quantity: String,
    pub category_link: Option<String>,
    pub allergies: Allergies,
    /// Contains unstructured info tid-bits like `Na bezorging minimaal 3 dagen vers`
    pub highlights: Vec<Highlight>,
    /// Inserted prior to the description as a single image.
    pub mood_gallery: Vec<MoodGallery>,
    pub misc: Vec<Misc>,
}

#[derive(Clone, Debug, PartialEq, Eq)]
pub struct Description {
    /// Primary text for a description
    pub main: String,
    /// Optional extension for the reader.
    pub extension: Option<String>,
}

#[derive(Clone, Debug, PartialEq, Eq)]
pub struct Image {
    pub image_id: String,
}

#[derive(Clone, Debug, PartialEq, Eq)]
pub struct Labels {
    /// Contains flavour text like `XL` for apples
    pub size: Option<SizeInfo>,
    /// Contains promo text like `1 + 1 gratis` or `20% korting`
    pub promo: Option<PromoText>,
}

#[derive(Clone, Debug, PartialEq, Eq)]
pub struct PromoText {
    pub text: String,
}

#[derive(Clone, Debug, PartialEq, Eq)]
pub struct SizeInfo {
    pub size: String,
    pub text: String,
}

#[derive(Clone, Debug, PartialEq, Eq)]
pub struct PriceInfo {
    pub price: u32,
    pub price_color: Option<String>,
    /// Original price in case the item has a sale, `None` otherwise.
    pub original_price: Option<u32>,
    pub deposit: Option<u32>,
    /// Contains information like `€3.99/kg`
    pub base_price_text: Option<String>,
}

#[derive(Clone, Debug, PartialEq, Eq)]
pub struct Allergies {
    pub allergy_contains: Vec<AllergyContain>,
    pub allergy_may_contain: Vec<String>,
    pub allergy_text: Option<String>,
}

#[derive(Clone, Debug, PartialEq, Eq)]
pub struct AllergyContain {
    pub name: String,
    pub color: Option<String>,
}

#[derive(Clone, Debug, PartialEq, Eq)]
pub struct Highlight {
    pub icon: String,
    pub text: String,
    pub action: Option<String>,
}

#[derive(Clone, Debug, PartialEq, Eq)]
pub struct MoodGallery {
    pub type_field: String,
    pub image_id: Option<String>,
}

#[derive(Debug, PartialEq, Eq)]
pub struct Misc {
    pub header: Header,
    pub body: Body,
}

#[derive(Clone, Debug, PartialEq, Eq)]
pub struct Header {
    pub icon: String,
    pub text: String,
}

#[derive(Debug, PartialEq, Eq)]
pub enum Body {
    Pml { pml_content: PmlContent },
    NutritionalTable { nutritional_table: NutritionalTable },
    Other,
}

#[derive(Debug, PartialEq, Eq)]
pub struct PmlContent {
    pub pml_version: String,
    pub component: PmlComponent,
}

#[derive(Debug, PartialEq, Eq)]
pub enum PmlComponent {
    Stack(PmlStack),
    RichText(PmlChildren),
    Other,
}

/// Tends to contain additional info such as country of origin, company.
#[derive(Clone, Debug, PartialEq, Eq)]
pub struct PmlStack {
    pub axis: String,
    pub spacing: String,
    pub children: Vec<PmlChildren>,
}

#[derive(Clone, Debug, PartialEq, Eq)]
pub struct PmlChildren {
    pub text_type: String,
    pub text_alignment: String,
    pub markdown: String,
}

#[derive(Debug, PartialEq, Eq)]
pub struct NutritionalTable {
    pub default_unit: String,
    pub values: Vec<NutritionalValue>,
}

#[derive(Debug, PartialEq, Eq)]
pub struct NutritionalValue {
    pub name: String,
    pub value: String,
    pub sub_values: Vec<NutritionalSubValue>,
}

#[derive(Debug, PartialEq, Eq)]
pub struct NutritionalSubValue {
    pub name: String,
    pub value: String,
    pub sub_values: Vec<NutritionalSubValue>,
}

// ** Images **

#[derive(Copy, Clone, Debug, PartialEq, Eq, Structural)]
pub enum ImageSize {
    Tiny,
    Small,
    Medium,
    Large,
    ExtraLarge,
}

/// The name of an image size in image urls.
pub open spec fn spec_image_size_name(size: ImageSize) -> Seq<char> {
    match size {
        ImageSize::Tiny => "tiny"@,
        ImageSize::Small => "small"@,
        ImageSize::Medium => "medium"@,
        ImageSize::Large => "large"@,
        ImageSize::ExtraLarge => "extra-large"@,
    }
}

impl ImageSize {
    /// The name of this size in image urls: `tiny`, `small`, `medium`, `large` or `extra-large`.
    pub fn as_str(&self) -> (res: &'static str)
        ensures
            res@ == spec_image_size_name(*self),
    {
        match self {
            ImageSize::Tiny => "tiny",
            ImageSize::Small => "small",
            ImageSize::Medium => "medium",
            ImageSize::Large => "large",
            ImageSize::ExtraLarge => "extra-large",
        }
    }
}

// ** Shopping Cart **

#[derive(Clone, Debug, PartialEq, Eq)]
pub struct SelectedSlot {
    pub slot_id: String,
    pub state: String,
}

#[derive(Clone, Debug, PartialEq, Eq)]
pub struct DepositBreakdown {
    pub type_field: String,
    pub value: i64,
    pub count: i64,
}

#[derive(Copy, Clone, Debug, PartialEq, Eq, Structural)]
pub struct OrderStatus {
    pub checkout_status: CheckoutStatus,
}

#[derive(Copy, Clone, Debug, PartialEq, Eq, Structural)]
pub enum CheckoutStatus {
    Abandoned,
    Failed,
    Finished,
    Ongoing,
    Unknown,
    Unsupported,
}

#[derive(Clone, Debug, PartialEq, Eq)]
pub struct PromoProgress {
    /// The amount of items needed to complete this
    pub total: u32,
    pub completed_savings: Option<u32>,
    /// For example "2e halve prijs" or "1+1 gratis"
    pub label: String,
    pub description: Option<String>,
    pub product_ids: Vec<String>,
    pub promotion_id: String,
}

#[derive(Debug, PartialEq, Eq)]
pub struct OrderArticle {
    pub type_field: String,
    pub id: String,
    pub name: String,
    pub image_ids: Vec<String>,
    pub unit_quantity: String,
    pub unit_quantity_sub: Option<String>,
    pub price: i64,
    pub max_count: i64,
    pub perishable: bool,
    pub decorators: Vec<Decorator>,
}

// ** Deliveries **

#[derive(Clone, Debug, PartialEq, Eq)]
pub struct ReturnedContainer {
    pub type_field: String,
    pub localized_name: String,
    pub quantity: i64,
    pub price: i64,
}

#[derive(Copy, Clone, Debug, PartialEq, Eq, Structural)]
pub enum DeliveryStatus {
    Current,
    Completed,
    Cancelled,
    Other,
}

/// The name of a delivery status in requests.
pub open spec fn spec_delivery_status_name(status: DeliveryStatus) -> Seq<char> {
    match status {
        DeliveryStatus::Current => "CURRENT"@,
        DeliveryStatus::Completed => "COMPLETED"@,
        DeliveryStatus::Cancelled => "CANCELLED"@,
        DeliveryStatus::Other => "OTHER"@,
    }
}

impl DeliveryStatus {
    /// The name of this status in requests: `CURRENT`, `COMPLETED`, `CANCELLED` or `OTHER`.
    pub fn as_str(&self) -> (res: &'static str)
        ensures
            res@ == spec_delivery_status_name(*self),
    {
        match self {
            DeliveryStatus::Current => "CURRENT",
            DeliveryStatus::Completed => "COMPLETED",
            DeliveryStatus::Cancelled => "CANCELLED",
            DeliveryStatus::Other => "OTHER",
        }
    }
}

} // verus!
