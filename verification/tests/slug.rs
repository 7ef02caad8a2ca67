use recipe_ingest::slug::slug_of;

#[test]
fn slugs_are_lower_case_words_joined_by_hyphens() {
    assert_eq!(slug_of("Tomato Soup"), "tomato-soup");
    assert_eq!(slug_of("Foo Bar"), "foo-bar");
    assert_eq!(slug_of("fooBar"), "foo-bar");
    assert_eq!(slug_of("__FOO_BAR__"), "foo-bar");
}

#[test]
fn case_and_whitespace_do_not_change_the_slug() {
    let slug = slug_of("Tomato Soup");
    for name in ["tomato soup", "TOMATO SOUP", "  Tomato   Soup ", "Tomato\tSoup", "tomato_soup"] {
        assert_eq!(slug_of(name), slug, "{name:?}");
    }
}

#[test]
fn the_same_name_gives_the_same_slug() {
    assert_eq!(slug_of("Crème Brûlée"), slug_of("Crème Brûlée"));
}

#[test]
fn a_capital_after_a_small_letter_starts_a_word() {
    assert_eq!(slug_of("TomatoSoup"), "tomato-soup");
    assert_eq!(slug_of("tomatosoup"), "tomatosoup");
}

#[test]
fn punctuation_is_dropped_after_the_words_are_joined() {
    assert_eq!(slug_of("Fish'n'Chips!"), "fishnchips");
    assert_eq!(slug_of("Mac & Cheese"), "mac--cheese");
    assert_eq!(slug_of("!!!"), "");
}
