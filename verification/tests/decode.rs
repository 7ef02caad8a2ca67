use recipe_ingest::error::{DecodingError, MissingFields};
use recipe_ingest::extract::{
    field_of, get_extension, Decoder, Field, Part, PartShape, RecipeCreationRequest,
    RecipeIngredientPart, StepsPart,
};
use recipe_ingest::models::IngredientUnit;
use recipe_ingest::templates::StepsPartial;

fn text(name: &str, value: &str) -> Part {
    Part::Text { name: name.to_string(), value: value.to_string() }
}

fn binary(name: &str, content_type: Option<&str>, bytes: &[u8]) -> Part {
    Part::Binary {
        name: name.to_string(),
        content_type: content_type.map(|s| s.to_string()),
        bytes: bytes.to_vec(),
    }
}

fn steps_part(kind: StepsPartial) -> Part {
    match kind {
        StepsPartial::Text => text("Text", "Boil and blend."),
        StepsPartial::Url => text("URL", "https://example.com/soup"),
        StepsPartial::Image => binary("Image", Some("image/jpeg"), &[0xff, 0xd8, 0xff]),
    }
}

fn base() -> Vec<Part> {
    vec![text("name", "Tomato Soup"), text("rations", "4")]
}

fn decode(parts: Vec<Part>) -> Result<RecipeCreationRequest, DecodingError> {
    RecipeCreationRequest::from_request(parts)
}

#[test]
fn decodes_a_text_recipe() {
    let mut parts = base();
    parts.push(text("ingredients[]", "tomato,500,Grams"));
    parts.push(text("Text", "Boil and blend."));
    let request = decode(parts).unwrap();
    assert_eq!(
        request,
        RecipeCreationRequest {
            name: "Tomato Soup".to_string(),
            rations: 4,
            thumbnail: None,
            ingredients: vec![RecipeIngredientPart {
                selected: "tomato".to_string(),
                quantity: 500,
                unit: IngredientUnit::Grams,
            }],
            steps: StepsPart::Text("Boil and blend.".to_string()),
        }
    );
}

#[test]
fn one_steps_field_sets_the_matching_kind() {
    for kind in [StepsPartial::Text, StepsPartial::Url, StepsPartial::Image] {
        let mut parts = base();
        parts.push(steps_part(kind));
        let request = decode(parts).unwrap();
        assert_eq!(request.steps.kind(), kind);
    }
}

#[test]
fn steps_may_come_before_the_other_fields() {
    let parts = vec![
        text("Text", "Stir."),
        text("rations", "2"),
        text("name", "Porridge"),
    ];
    let request = decode(parts).unwrap();
    assert_eq!(request.steps, StepsPart::Text("Stir.".to_string()));
    assert_eq!(request.name, "Porridge");
    assert_eq!(request.rations, 2);
}

#[test]
fn a_link_is_stored_as_the_parser_writes_it() {
    let mut parts = base();
    parts.push(text("URL", "HTTPS://Example.COM"));
    let request = decode(parts).unwrap();
    assert_eq!(request.steps, StepsPart::Url("https://example.com/".to_string()));
}

#[test]
fn an_image_keeps_its_bytes_and_gets_the_jpeg_extension() {
    let mut parts = base();
    parts.push(binary("Image", Some("image/jpeg"), &[1, 2, 3]));
    let request = decode(parts).unwrap();
    assert_eq!(request.steps, StepsPart::Image(vec![1, 2, 3], "jpeg".to_string()));
}

#[test]
fn a_thumbnail_is_optional_and_kept() {
    let mut parts = base();
    parts.push(binary("thumbnail", Some("image/jpeg"), &[9, 8]));
    parts.push(text("Text", "x"));
    let request = decode(parts).unwrap();
    assert_eq!(request.thumbnail, Some((vec![9, 8], "jpeg".to_string())));
}

#[test]
fn two_steps_fields_conflict_in_every_pair_and_order() {
    let kinds = [StepsPartial::Text, StepsPartial::Url, StepsPartial::Image];
    for first in kinds {
        for second in kinds {
            let mut parts = base();
            parts.push(steps_part(first));
            parts.push(steps_part(second));
            assert_eq!(decode(parts), Err(DecodingError::ConflictingStepsVariant));
        }
    }
}

#[test]
fn three_steps_fields_conflict() {
    let mut parts = base();
    parts.push(steps_part(StepsPartial::Image));
    parts.push(steps_part(StepsPartial::Text));
    parts.push(steps_part(StepsPartial::Url));
    assert_eq!(decode(parts), Err(DecodingError::ConflictingStepsVariant));
}

#[test]
fn a_second_steps_field_that_is_not_in_order_fails_for_its_own_reason() {
    let mut parts = base();
    parts.push(steps_part(StepsPartial::Text));
    parts.push(binary("Image", Some("image/png"), &[1]));
    assert_eq!(decode(parts), Err(DecodingError::UnsupportedContentType));

    let mut parts = base();
    parts.push(steps_part(StepsPartial::Text));
    parts.push(text("URL", "no link"));
    assert_eq!(decode(parts), Err(DecodingError::InvalidUrl));
}

#[test]
fn no_steps_field_is_incomplete() {
    let parts = base();
    assert_eq!(
        decode(parts),
        Err(DecodingError::IncompleteSubmission(MissingFields {
            name: false,
            rations: false,
            steps: true,
        }))
    );
}

#[test]
fn missing_fields_are_named() {
    assert_eq!(
        decode(vec![]),
        Err(DecodingError::IncompleteSubmission(MissingFields {
            name: true,
            rations: true,
            steps: true,
        }))
    );
    assert_eq!(
        decode(vec![text("rations", "1"), text("Text", "x")]),
        Err(DecodingError::IncompleteSubmission(MissingFields {
            name: true,
            rations: false,
            steps: false,
        }))
    );
    assert_eq!(
        decode(vec![text("name", "Soup"), text("Text", "x")]),
        Err(DecodingError::IncompleteSubmission(MissingFields {
            name: false,
            rations: true,
            steps: false,
        }))
    );
}

#[test]
fn an_empty_name_counts_as_missing() {
    let parts = vec![text("name", ""), text("rations", "1"), text("Text", "x")];
    assert_eq!(
        decode(parts),
        Err(DecodingError::IncompleteSubmission(MissingFields {
            name: true,
            rations: false,
            steps: false,
        }))
    );
}

#[test]
fn the_last_name_and_rations_count() {
    let parts = vec![
        text("name", "First"),
        text("rations", "1"),
        text("name", "Second"),
        text("rations", "7"),
        text("Text", "x"),
    ];
    let request = decode(parts).unwrap();
    assert_eq!(request.name, "Second");
    assert_eq!(request.rations, 7);
}

#[test]
fn rejects_an_unknown_field() {
    let mut parts = base();
    parts.push(text("colour", "red"));
    parts.push(text("Text", "x"));
    assert_eq!(decode(parts), Err(DecodingError::UnknownField));
}

#[test]
fn field_names_are_matched_letter_for_letter() {
    for name in ["Name", "text", "Url", "url", "image", "ingredients", "ingredients[] ", ""] {
        assert_eq!(decode(vec![text(name, "x")]), Err(DecodingError::UnknownField), "{name}");
    }
}

#[test]
fn bytes_under_a_text_field_fill_no_field() {
    for name in ["name", "rations", "ingredients[]", "Text", "URL"] {
        let parts = vec![binary(name, Some("image/jpeg"), &[1])];
        assert_eq!(decode(parts), Err(DecodingError::UnknownField), "{name}");
    }
}

#[test]
fn rations_must_be_a_number() {
    for value in ["four", "", "-1", "4.5", " 4", "4 ", "+", "4294967296", "1e3", "0x10"] {
        let parts = vec![text("name", "Soup"), text("rations", value), text("Text", "x")];
        assert_eq!(decode(parts), Err(DecodingError::InvalidNumber), "{value:?}");
    }
}

#[test]
fn rations_are_read_as_decimal_numbers() {
    for (value, expected) in
        [("0", 0u32), ("4", 4), ("+12", 12), ("007", 7), ("4294967295", u32::MAX)]
    {
        let parts = vec![text("name", "Soup"), text("rations", value), text("Text", "x")];
        assert_eq!(decode(parts).unwrap().rations, expected, "{value:?}");
    }
}

#[test]
fn a_malformed_ingredient_line_rejects_the_whole_submission() {
    for line in [
        "tomato",
        "tomato,500",
        "tomato,500,Grams,extra",
        "tomato,0,Grams",
        "tomato,-5,Grams",
        "tomato,five,Grams",
        "tomato,500,grams",
        "tomato,500,Kilos",
        "tomato,500, Grams",
        "tomato, 500,Grams",
        "tomato,4294967296,Units",
        "",
        ",,",
    ] {
        let mut parts = base();
        parts.push(text("ingredients[]", "onion,1,Units"));
        parts.push(text("ingredients[]", line));
        parts.push(text("Text", "x"));
        assert_eq!(decode(parts), Err(DecodingError::InvalidIngredientLine), "{line:?}");
    }
}

#[test]
fn ingredients_keep_their_order() {
    let mut parts = vec![text("ingredients[]", "tomato,500,Grams")];
    parts.extend(base());
    parts.push(Part::Ingredient(RecipeIngredientPart {
        selected: "salt, fine".to_string(),
        quantity: 2,
        unit: IngredientUnit::Grams,
    }));
    parts.push(text("Text", "x"));
    parts.push(text("ingredients[]", "onion,+1,Units"));
    let request = decode(parts).unwrap();
    let got: Vec<(String, u32, IngredientUnit)> =
        request.ingredients.into_iter().map(|i| (i.selected, i.quantity, i.unit)).collect();
    assert_eq!(
        got,
        vec![
            ("tomato".to_string(), 500, IngredientUnit::Grams),
            ("salt, fine".to_string(), 2, IngredientUnit::Grams),
            ("onion".to_string(), 1, IngredientUnit::Units),
        ]
    );
}

#[test]
fn a_recipe_may_have_no_ingredients() {
    let mut parts = base();
    parts.push(text("Text", "x"));
    assert_eq!(decode(parts).unwrap().ingredients, vec![]);
}

#[test]
fn a_structured_ingredient_needs_a_positive_quantity() {
    let mut parts = base();
    parts.push(Part::Ingredient(RecipeIngredientPart {
        selected: "salt".to_string(),
        quantity: 0,
        unit: IngredientUnit::Grams,
    }));
    parts.push(text("Text", "x"));
    assert_eq!(decode(parts), Err(DecodingError::InvalidIngredientLine));
}

#[test]
fn only_jpeg_images_are_supported() {
    for name in ["thumbnail", "Image"] {
        for declared in ["image/png", "image/jpg", "IMAGE/JPEG", "image/jpeg; q=1", "text/plain", ""] {
            let mut parts = base();
            parts.push(binary(name, Some(declared), &[1]));
            assert_eq!(
                decode(parts),
                Err(DecodingError::UnsupportedContentType),
                "{name} {declared:?}"
            );
        }
    }
}

#[test]
fn an_image_needs_a_content_type() {
    for name in ["thumbnail", "Image"] {
        let mut parts = base();
        parts.push(binary(name, None, &[1]));
        assert_eq!(decode(parts), Err(DecodingError::MissingContentType), "{name}");

        let mut parts = base();
        parts.push(text(name, "not bytes"));
        assert_eq!(decode(parts), Err(DecodingError::MissingContentType), "{name}");
    }
}

#[test]
fn a_link_must_be_an_absolute_url() {
    for value in ["", "not a url", "/relative/path", "example.com/soup", "//example.com"] {
        let mut parts = base();
        parts.push(text("URL", value));
        assert_eq!(decode(parts), Err(DecodingError::InvalidUrl), "{value:?}");
    }
}

#[test]
fn the_first_part_that_is_turned_down_decides() {
    let parts = vec![
        text("rations", "many"),
        text("colour", "red"),
        text("ingredients[]", "bad"),
    ];
    assert_eq!(decode(parts), Err(DecodingError::InvalidNumber));
}

#[test]
fn rejection_repeats() {
    let make = || {
        let mut parts = base();
        parts.push(binary("Image", Some("image/png"), &[1, 2]));
        parts
    };
    let first = decode(make());
    let second = decode(make());
    assert_eq!(first, Err(DecodingError::UnsupportedContentType));
    assert_eq!(first, second);
}

#[test]
fn a_png_image_is_turned_down_before_anything_is_planned() {
    let parts = vec![
        text("name", "Tomato Soup"),
        text("rations", "4"),
        binary("Image", Some("image/png"), &[0x89, 0x50, 0x4e, 0x47]),
    ];
    assert_eq!(decode(parts), Err(DecodingError::UnsupportedContentType));
}

#[test]
fn a_part_that_is_turned_down_leaves_the_decoder_as_it_was() {
    let mut decoder = Decoder::new();
    assert_eq!(decoder.accept(text("name", "Soup")), Ok(()));
    assert_eq!(decoder.accept(text("rations", "x")), Err(DecodingError::InvalidNumber));
    assert_eq!(decoder.accept(text("Text", "Stir.")), Ok(()));
    assert_eq!(
        decoder.accept(text("URL", "https://example.com")),
        Err(DecodingError::ConflictingStepsVariant)
    );
    assert_eq!(decoder.accept(text("rations", "3")), Ok(()));
    let request = decoder.finish().unwrap();
    assert_eq!(request.name, "Soup");
    assert_eq!(request.rations, 3);
    assert_eq!(request.steps, StepsPart::Text("Stir.".to_string()));
}

#[test]
fn accept_link_takes_the_outcome_of_parsing() {
    let mut decoder = Decoder::new();
    assert_eq!(decoder.accept_link(None), Err(DecodingError::InvalidUrl));
    assert_eq!(decoder.accept_link(Some("https://example.com/".to_string())), Ok(()));
    assert_eq!(
        decoder.accept_link(Some("https://example.org/".to_string())),
        Err(DecodingError::ConflictingStepsVariant)
    );
    assert_eq!(decoder.accept_link(None), Err(DecodingError::InvalidUrl));
    assert_eq!(decoder.accept(text("name", "Soup")), Ok(()));
    assert_eq!(decoder.accept(text("rations", "1")), Ok(()));
    assert_eq!(
        decoder.finish().unwrap().steps,
        StepsPart::Url("https://example.com/".to_string())
    );
}

#[test]
fn extensions_follow_the_content_type() {
    assert_eq!(get_extension(&Some("image/jpeg".to_string())), Ok("jpeg".to_string()));
    assert_eq!(get_extension(&Some("image/png".to_string())), Err(DecodingError::UnsupportedContentType));
    assert_eq!(get_extension(&None), Err(DecodingError::MissingContentType));
}

#[test]
fn every_field_has_its_name_and_shape() {
    let expected = [
        ("name", Field::Name, PartShape::Text),
        ("rations", Field::Rations, PartShape::Text),
        ("thumbnail", Field::Thumbnail, PartShape::Binary),
        ("ingredients[]", Field::Ingredient, PartShape::IngredientLine),
        ("Text", Field::Text, PartShape::Text),
        ("URL", Field::Url, PartShape::Text),
        ("Image", Field::Image, PartShape::Binary),
    ];
    for (name, field, shape) in expected {
        assert_eq!(field_of(name), Some(field));
        assert_eq!(field.shape(), shape);
    }
    assert_eq!(field_of("steps"), None);
}

#[test]
fn steps_kinds_name_their_fields() {
    assert_eq!(StepsPartial::default(), StepsPartial::Text);
    for kind in [StepsPartial::Text, StepsPartial::Url, StepsPartial::Image] {
        let field = field_of(&kind.field_name()).unwrap();
        let expected = match kind {
            StepsPartial::Text => Field::Text,
            StepsPartial::Url => Field::Url,
            StepsPartial::Image => Field::Image,
        };
        assert_eq!(field, expected);
    }
}

#[test]
fn names_may_hold_any_characters() {
    let parts = vec![
        text("name", "Crème brûlée 🍮"),
        text("rations", "2"),
        text("ingredients[]", "crème fraîche,200,Grams"),
        text("Text", "Brûler."),
    ];
    let request = decode(parts).unwrap();
    assert_eq!(request.name, "Crème brûlée 🍮");
    assert_eq!(request.ingredients[0].selected, "crème fraîche");
}
