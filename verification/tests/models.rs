use recipe_ingest::error::DecodingError;
use recipe_ingest::models::{IngredientUnit, RecipeIngredient, Steps};
use recipe_ingest::number::parse_u32;
use recipe_ingest::text::{chars_of, same_text};

#[test]
fn reads_an_ingredient_line() {
    assert_eq!(
        RecipeIngredient::try_from("tomato,500,Grams".to_string()),
        Ok(RecipeIngredient {
            ingredient_name: "tomato".to_string(),
            quantity: 500,
            unit: IngredientUnit::Grams,
        })
    );
    assert_eq!(
        RecipeIngredient::try_from("free range egg,+3,Units".to_string()),
        Ok(RecipeIngredient {
            ingredient_name: "free range egg".to_string(),
            quantity: 3,
            unit: IngredientUnit::Units,
        })
    );
}

#[test]
fn the_name_of_a_line_may_be_empty() {
    assert_eq!(
        RecipeIngredient::try_from(",1,Units".to_string()),
        Ok(RecipeIngredient {
            ingredient_name: String::new(),
            quantity: 1,
            unit: IngredientUnit::Units,
        })
    );
}

#[test]
fn turns_down_lines_of_another_form() {
    for line in [
        "",
        "tomato",
        "tomato,500",
        "tomato;500;Grams",
        "tomato,500,Grams,",
        "tomato,,Grams",
        "tomato,500,",
        "tomato,0,Units",
        "tomato,00,Units",
        "tomato,1.5,Units",
        "tomato,１,Units",
        "tomato,1,units",
        "tomato,1,GRAMS",
        "tomato,1,Gram",
        "tomato,1,Gramss",
    ] {
        assert_eq!(
            RecipeIngredient::try_from(line.to_string()),
            Err(DecodingError::InvalidIngredientLine),
            "{line:?}"
        );
    }
}

#[test]
fn the_largest_quantity_is_read() {
    let line = RecipeIngredient::try_from("rice,4294967295,Grams".to_string()).unwrap();
    assert_eq!(line.quantity, u32::MAX);
    assert_eq!(
        RecipeIngredient::try_from("rice,4294967296,Grams".to_string()),
        Err(DecodingError::InvalidIngredientLine)
    );
}

#[test]
fn units_are_named_grams_and_units() {
    assert_eq!(IngredientUnit::from_name("Grams"), Some(IngredientUnit::Grams));
    assert_eq!(IngredientUnit::from_name("Units"), Some(IngredientUnit::Units));
    for name in ["grams", "units", "", "Gram", "Grams ", "Unit"] {
        assert_eq!(IngredientUnit::from_name(name), None, "{name:?}");
    }
    for unit in [IngredientUnit::Grams, IngredientUnit::Units] {
        assert_eq!(IngredientUnit::from_name(&unit.name()), Some(unit));
    }
    assert_eq!(IngredientUnit::Grams.name(), "Grams");
    assert_eq!(IngredientUnit::Units.name(), "Units");
}

#[test]
fn parses_unsigned_numbers() {
    assert_eq!(parse_u32("0"), Some(0));
    assert_eq!(parse_u32("42"), Some(42));
    assert_eq!(parse_u32("+42"), Some(42));
    assert_eq!(parse_u32("0042"), Some(42));
    assert_eq!(parse_u32("4294967295"), Some(u32::MAX));
    assert_eq!(parse_u32("4294967296"), None);
    assert_eq!(parse_u32("99999999999999999999999"), None);
    for text in ["", "+", "-", "-0", "++1", "1+", "4 2", "٤٢", "1_000", "12a"] {
        assert_eq!(parse_u32(text), None, "{text:?}");
    }
}

#[test]
fn parse_agrees_with_the_standard_parser() {
    for text in ["0", "1", "+1", "-1", "", "+", " 1", "1 ", "00", "4294967295", "4294967296", "١"] {
        assert_eq!(parse_u32(text), text.parse::<u32>().ok(), "{text:?}");
    }
}

#[test]
fn text_helpers_work_on_characters() {
    assert_eq!(chars_of("añ🍅"), vec!['a', 'ñ', '🍅']);
    assert_eq!(chars_of(""), Vec::<char>::new());
    assert!(same_text("Text", "Text"));
    assert!(!same_text("Text", "text"));
    assert!(!same_text("Text", "Text "));
}

#[test]
fn default_steps_are_an_empty_text() {
    assert_eq!(Steps::default(), Steps::Text(String::new()));
}
