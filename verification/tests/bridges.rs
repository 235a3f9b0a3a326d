use wgg::numbers::Decimal;
use wgg::providers::common_bridge::{derive_unit_price, parse_quantity, parse_sale_label};
use wgg::providers::jumbo_bridge::{parse_allergy_info, parse_badge_description};
use wgg::providers::models::sale_types::{
    NumEuroOff, NumForPrice, NumPercentOff, NumPlusNumFree, NumthPercentOff,
};
use wgg::providers::models::{
    AllergyTags, AllergyType, FreshLabel, IngredientInfo, SaleType, Unit, UnitPrice, UnitQuantity,
};
use wgg::providers::picnic_bridge::{
    parse_days_fresh, parse_euro_price, parse_picnic_ingredient_blob, parse_prep_time, parse_unit_price,
};

fn derive_from_text(quantity: &str, price: u32) -> Option<UnitPrice> {
    derive_unit_price(&parse_quantity(quantity).unwrap_or_default(), price)
}

#[test]
fn picnic_bridge_test_parse_price() {
    let prices = vec!["€16.57", "€19.22", "€19", "2.32"];

    assert_eq!(
        prices.into_iter().flat_map(parse_euro_price).collect::<Vec<_>>(),
        vec![1657, 1922, 1900, 232]
    );
}

#[test]
fn picnic_bridge_test_parse_unit_price() {
    let unit_prices = vec!["€13.08/kg", "€1.64/l", "€0.20/stuk"];
    let expected = vec![
        UnitPrice { unit: Unit::KiloGram, price: 1308 },
        UnitPrice { unit: Unit::Liter, price: 164 },
        UnitPrice { unit: Unit::Piece, price: 20 },
    ];

    assert_eq!(unit_prices.into_iter().flat_map(parse_unit_price).collect::<Vec<_>>(), expected);
}

#[test]
fn picnic_bridge_test_derive_unit_price() {
    let unit_prices = vec![("250 gram", 242), ("10 stuks M/L", 379), ("1.5 liter", 150)];
    let expected = vec![
        UnitPrice { unit: Unit::KiloGram, price: 968 },
        UnitPrice { unit: Unit::Piece, price: 38 },
        UnitPrice { unit: Unit::Liter, price: 100 },
    ];

    assert_eq!(
        unit_prices
            .into_iter()
            .flat_map(|(quantity, price)| derive_from_text(quantity, price))
            .collect::<Vec<_>>(),
        expected
    );
}

#[test]
fn picnic_bridge_test_parse_days_fresh() {
    let periods = vec!["P5D", "P7D"];

    assert_eq!(periods.into_iter().flat_map(parse_days_fresh).collect::<Vec<_>>(), vec![5, 7]);
}

#[test]
fn picnic_bridge_test_parse_prep_time() {
    let periods = vec!["4-6 pers | 30 min", "4 pers |  25 min", "3-4 pers | 40 min"];

    assert_eq!(periods.into_iter().flat_map(parse_prep_time).collect::<Vec<_>>(), vec![30, 25, 40]);
}

fn ingredient_blob() -> &'static str {
    "71% tomaat, ui, wortel, 6,6% tomatenpuree (tomatenpuree, zout), \
    groentebouillonblokje (gejodeerd zout (zout, kaliumjodaat), gedroogde glucosestroop, suiker, \
    groenten (wortel, SELDERIJ, ui, knoflook), zonnebloemolie, gistextract (gistextract, zout), \
    aroma's (SELDERIJ), gedroogde SELDERIJ, water, GERSTEMOUTEXTRACT, kurkuma), \
    knoflook, tijm."
}

fn expected_ingredients() -> Vec<IngredientInfo> {
    vec![
        IngredientInfo { name: "71% tomaat".to_string() },
        IngredientInfo { name: "ui".to_string() },
        IngredientInfo { name: "wortel".to_string() },
        IngredientInfo { name: "6,6% tomatenpuree (tomatenpuree, zout)".to_string() },
        IngredientInfo { name: "groentebouillonblokje (gejodeerd zout (zout, kaliumjodaat), gedroogde glucosestroop, suiker, groenten (wortel, SELDERIJ, ui, knoflook), zonnebloemolie, gistextract (gistextract, zout), aroma's (SELDERIJ), gedroogde SELDERIJ, water, GERSTEMOUTEXTRACT, kurkuma)".to_string() },
        IngredientInfo { name: "knoflook".to_string() },
        IngredientInfo { name: "tijm".to_string() },
    ]
}

#[test]
fn picnic_bridge_test_parse_ingredients() {
    let output = parse_picnic_ingredient_blob(ingredient_blob()).unwrap();

    assert_eq!(output, expected_ingredients());
}

#[test]
fn mod_test_parse_price() {
    let prices = vec!["€16.57", "€19.22", "€19", "2.32"];

    assert_eq!(
        prices.into_iter().flat_map(parse_euro_price).collect::<Vec<_>>(),
        vec![1657, 1922, 1900, 232]
    );
}

#[test]
fn mod_test_parse_unit_price() {
    let unit_prices = vec!["€13.08/kg", "€1.64/l", "€0.20/stuk"];
    let expected = vec![
        UnitPrice { unit: Unit::KiloGram, price: 1308 },
        UnitPrice { unit: Unit::Liter, price: 164 },
        UnitPrice { unit: Unit::Piece, price: 20 },
    ];

    assert_eq!(unit_prices.into_iter().flat_map(parse_unit_price).collect::<Vec<_>>(), expected);
}

#[test]
fn mod_test_parse_days_fresh() {
    let periods = vec!["P5D", "P7D"];

    assert_eq!(periods.into_iter().flat_map(parse_days_fresh).collect::<Vec<_>>(), vec![5, 7]);
}

#[test]
fn mod_test_parse_prep_time() {
    let periods = vec!["4-6 pers | 30 min", "4 pers |  25 min", "3-4 pers | 40 min"];

    assert_eq!(periods.into_iter().flat_map(parse_prep_time).collect::<Vec<_>>(), vec![30, 25, 40]);
}

#[test]
fn mod_test_parse_ingredients() {
    let output = parse_picnic_ingredient_blob(ingredient_blob()).unwrap();

    assert_eq!(output, expected_ingredients());
}

#[test]
fn test_sale_parser() {
    let test_cases = [
        "1 + 1 gratis",
        "3 + 4 GRATIS",
        "3e gratis",
        "50% korting",
        "2e halve prijs",
        "3 voor €4,50",
        "4 voor 4.50",
        "2 voor € 2,75",
        "2 voor €3",
        "15 euro korting",
        "1.50 euro korting",
        "€ 1,00 korting",
    ];
    let expected = [
        SaleType::NumPlusNumFree(NumPlusNumFree { required: 1, free: 1 }),
        SaleType::NumPlusNumFree(NumPlusNumFree { required: 3, free: 4 }),
        SaleType::NumPlusNumFree(NumPlusNumFree { required: 2, free: 1 }),
        SaleType::NumPercentOff(NumPercentOff::new(50).unwrap()),
        SaleType::NumthPercentOff(NumthPercentOff { required: 2, last_percent_off: 50 }),
        SaleType::NumForPrice(NumForPrice { required: 3, price: 450 }),
        SaleType::NumForPrice(NumForPrice { required: 4, price: 450 }),
        SaleType::NumForPrice(NumForPrice { required: 2, price: 275 }),
        SaleType::NumForPrice(NumForPrice { required: 2, price: 300 }),
        SaleType::NumEuroOff(NumEuroOff { price_off: 1500 }),
        SaleType::NumEuroOff(NumEuroOff { price_off: 150 }),
        SaleType::NumEuroOff(NumEuroOff { price_off: 100 }),
    ];

    for (to_parse, expected) in test_cases.iter().zip(expected.iter()) {
        assert_eq!(
            parse_sale_label(to_parse).unwrap_or_else(|| panic!("Failed to parse example: {to_parse}")),
            *expected
        );
    }
}

#[test]
fn test_parse_quantity() {
    let quantities = ["300 g", "380 g", "10 x 55 g", "1,36 kg"];
    let expected = [
        UnitQuantity { unit: Unit::Gram, amount: Decimal::whole(300) },
        UnitQuantity { unit: Unit::Gram, amount: Decimal::whole(380) },
        UnitQuantity { unit: Unit::Gram, amount: Decimal::whole(550) },
        UnitQuantity { unit: Unit::KiloGram, amount: Decimal::new(136, 2).unwrap() },
    ];

    assert_eq!(quantities.into_iter().flat_map(parse_quantity).collect::<Vec<_>>(), expected)
}

#[test]
fn common_bridge_test_derive_unit_price() {
    let unit_prices = vec![("250 gram", 242), ("10 stuks M/L", 379), ("1.5 liter", 150)];
    let expected = vec![
        UnitPrice { unit: Unit::KiloGram, price: 968 },
        UnitPrice { unit: Unit::Piece, price: 38 },
        UnitPrice { unit: Unit::Liter, price: 100 },
    ];

    assert_eq!(
        unit_prices
            .into_iter()
            .flat_map(|(quantity, price)| derive_from_text(quantity, price))
            .collect::<Vec<_>>(),
        expected
    );
}

#[test]
fn test_parse_badge_description() {
    let examples = vec!["7+ dagen vers", "2+ dagen vers", "20+ dagen vers"];
    let expected = vec![
        FreshLabel { days_fresh: 7 },
        FreshLabel { days_fresh: 2 },
        FreshLabel { days_fresh: 20 },
    ];

    assert_eq!(examples.into_iter().flat_map(parse_badge_description).collect::<Vec<_>>(), expected);
}

#[test]
fn test_allergy_text() {
    let example = "Bevat Selderij,\
    Kan het volgende bevatten Eieren,\
    Kan het volgende bevatten Melk,\
    Kan het volgende bevatten Mosterd,\
    Kan het volgende bevatten Tarwe,\
    Kan het volgende bevatten Gluten,\
    Kan het volgende bevatten Soja";

    let expected = vec![
        AllergyTags { name: "Selderij".to_string(), contains: AllergyType::Contains },
        AllergyTags { name: "Eieren".to_string(), contains: AllergyType::MayContain },
        AllergyTags { name: "Melk".to_string(), contains: AllergyType::MayContain },
        AllergyTags { name: "Mosterd".to_string(), contains: AllergyType::MayContain },
        AllergyTags { name: "Tarwe".to_string(), contains: AllergyType::MayContain },
        AllergyTags { name: "Gluten".to_string(), contains: AllergyType::MayContain },
        AllergyTags { name: "Soja".to_string(), contains: AllergyType::MayContain },
    ];

    assert_eq!(parse_allergy_info(example), expected);
}
