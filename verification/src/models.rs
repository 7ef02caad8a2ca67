use vstd::prelude::*;

use crate::error::DecodingError;
use crate::number::{is_digit, parse_u32_in, u32_of, unsigned_digits};
use crate::text::{chars_of, spells};
use crate::values::{ok_view, text_of, views};

verus! {

/// The steps of a stored recipe: a text, a link, or the name of the file that
/// holds an image of them.
#[derive(Debug, Clone, PartialEq, Eq)]
pub enum Steps {
    Text(String),
    Url(String),
    Image(String),
}

/// The steps of a stored recipe as a mathematical value.
pub enum StoredSteps {
    Text(Seq<char>),
    Url(Seq<char>),
    Image(Seq<char>),
}

impl View for Steps {
    type V = StoredSteps;

    open spec fn view(&self) -> StoredSteps {
        match self {
            Steps::Text(body) => StoredSteps::Text(body@),
            Steps::Url(link) => StoredSteps::Url(link@),
            Steps::Image(filename) => StoredSteps::Image(filename@),
        }
    }
}

impl Default for Steps {
    fn default() -> (steps: Steps)
        ensures
            steps@ == StoredSteps::Text(Seq::empty()),
    {
        Steps::Text(String::new())
    }
}

/// A stored recipe: its slug, the name of its thumbnail file if it has one,
/// its rations, its ingredients and its steps.
#[derive(Debug, Clone, PartialEq, Eq)]
pub struct Recipe {
    pub name: String,
    pub thumbnail: Option<String>,
    pub rations: u32,
    pub ingredients: Vec<RecipeIngredient>,
    pub steps: Steps,
}

/// A stored recipe as a mathematical value.
pub struct StoredRecipe {
    pub name: Seq<char>,
    pub thumbnail: Option<Seq<char>>,
    pub rations: u32,
    pub ingredients: Seq<IngredientLine>,
    pub steps: StoredSteps,
}

impl View for Recipe {
    type V = StoredRecipe;

    open spec fn view(&self) -> StoredRecipe {
        StoredRecipe {
            name: self.name@,
            thumbnail: text_of(self.thumbnail),
            rations: self.rations,
            ingredients: views(self.ingredients@),
            steps: self.steps@,
        }
    }
}

/// The unit in which an ingredient is measured.
#[derive(Clone, Copy, Debug, PartialEq, Eq, Structural)]
pub enum IngredientUnit {
    Grams,
    Units,
}

impl IngredientUnit {
    /// The unit that `name` spells: `Grams` or `Units`, letter for letter.
    pub open spec fn named(name: Seq<char>) -> Option<IngredientUnit> {
        if name == "Grams"@ {
            Some(IngredientUnit::Grams)
        } else if name == "Units"@ {
            Some(IngredientUnit::Units)
        } else {
            None
        }
    }

    /// The word that spells this unit.
    pub open spec fn name_text(self) -> Seq<char> {
        match self {
            IngredientUnit::Grams => "Grams"@,
            IngredientUnit::Units => "Units"@,
        }
    }

    /// The unit that `name` spells, if it spells one.
    pub fn from_name(name: &str) -> (unit: Option<IngredientUnit>)
        ensures
            unit == Self::named(name@),
    {
        let chars = chars_of(name);
        assert(chars@.subrange(0, chars@.len() as int) =~= chars@);
        unit_in(&chars, 0, chars.len())
    }

    /// The word that spells this unit.
    pub fn name(&self) -> (text: String)
        ensures
            text@ == self.name_text(),
            Self::named(text@) == Some(*self),
    {
        proof {
            lemma_unit_names_differ();
        }
        match self {
            IngredientUnit::Grams => "Grams".to_owned(),
            IngredientUnit::Units => "Units".to_owned(),
        }
    }
}

/// The two unit names are different words, and neither holds a comma.
pub proof fn lemma_unit_names_differ()
    ensures
        "Grams"@ != "Units"@,
        !"Grams"@.contains(','),
        !"Units"@.contains(','),
{
    reveal_strlit("Grams");
    reveal_strlit("Units");
    assert("Grams"@[0] == 'G');
    assert("Units"@[0] == 'U');
}

/// The unit spelled by the characters of `chars` from `from` up to `to`.
fn unit_in(chars: &Vec<char>, from: usize, to: usize) -> (unit: Option<IngredientUnit>)
    requires
        from <= to <= chars.len(),
    ensures
        unit == IngredientUnit::named(chars@.subrange(from as int, to as int)),
{
    if spells(chars, from, to, "Grams") {
        Some(IngredientUnit::Grams)
    } else if spells(chars, from, to, "Units") {
        Some(IngredientUnit::Units)
    } else {
        None
    }
}

/// One ingredient of a recipe as a mathematical value: which ingredient, how
/// much of it, and in which unit.
pub struct IngredientLine {
    pub name: Seq<char>,
    pub quantity: u32,
    pub unit: IngredientUnit,
}

/// The position of the first comma in `s`, or the length of `s` if it has none.
pub open spec fn first_comma(s: Seq<char>) -> int
    decreases s.len(),
{
    if s.len() == 0 || s[0] == ',' {
        0
    } else {
        1 + first_comma(s.drop_first())
    }
}

/// What an ingredient line says, read from left to right: the name up to the
/// first comma, the quantity up to the second, the unit after it. A line with
/// fewer than two commas, with a quantity that is no positive 32-bit number, or
/// with a unit other than `Grams` and `Units`, says nothing.
pub open spec fn line_of(text: Seq<char>) -> Option<IngredientLine> {
    let a = first_comma(text);
    let rest = text.skip(a + 1);
    let b = first_comma(rest);
    if a >= text.len() || b >= rest.len() {
        None
    } else {
        match (u32_of(rest.take(b)), IngredientUnit::named(rest.skip(b + 1))) {
            (Some(quantity), Some(unit)) => if quantity > 0 {
                Some(IngredientLine { name: text.take(a), quantity, unit })
            } else {
                None
            },
            _ => None,
        }
    }
}

/// `first_comma` is within the sequence's bounds, no comma stands before it,
/// and a comma stands at it unless it is the length.
pub proof fn lemma_first_comma(s: Seq<char>)
    ensures
        0 <= first_comma(s) <= s.len(),
        forall|k: int| 0 <= k < first_comma(s) ==> s[k] != ',',
        first_comma(s) < s.len() ==> s[first_comma(s)] == ',',
    decreases s.len(),
{
    if s.len() == 0 || s[0] == ',' {
    } else {
        let t = s.drop_first();
        lemma_first_comma(t);
        assert forall|k: int| 0 <= k < first_comma(s) implies s[k] != ',' by {
            if k > 0 {
                assert(s[k] == t[k - 1]);
            }
        }
        if first_comma(s) < s.len() {
            assert(s[first_comma(s)] == t[first_comma(t)]);
        }
    }
}

/// The position `n` is the first comma of `s` when no comma stands before it
/// and either a comma stands at it or `s` ends there.
pub proof fn lemma_first_comma_is(s: Seq<char>, n: int)
    requires
        0 <= n <= s.len(),
        forall|k: int| 0 <= k < n ==> s[k] != ',',
        n < s.len() ==> s[n] == ',',
    ensures
        first_comma(s) == n,
    decreases s.len(),
{
    if s.len() == 0 || s[0] == ',' {
    } else {
        let t = s.drop_first();
        assert forall|k: int| 0 <= k < n - 1 implies t[k] != ',' by {
            assert(t[k] == s[k + 1]);
        }
        lemma_first_comma_is(t, n - 1);
    }
}

/// The line that gives `name`, `quantity` and `unit` with commas between them.
pub open spec fn joined(name: Seq<char>, quantity: Seq<char>, unit: Seq<char>) -> Seq<char> {
    name + seq![','] + quantity + seq![','] + unit
}

/// Whether `text` is a line of the form name, comma, quantity, comma, unit
/// that says `line`: the name holds no comma, the quantity is a positive
/// 32-bit number, and the unit is `Grams` or `Units`.
pub open spec fn says(text: Seq<char>, line: IngredientLine) -> bool {
    exists|quantity: Seq<char>, unit: Seq<char>|
        {
            &&& #[trigger] joined(line.name, quantity, unit) == text
            &&& !line.name.contains(',')
            &&& u32_of(quantity) == Some(line.quantity)
            &&& line.quantity > 0
            &&& IngredientUnit::named(unit) == Some(line.unit)
        }
}

/// A text that denotes a number holds no comma.
pub proof fn lemma_number_has_no_comma(text: Seq<char>)
    requires
        u32_of(text) is Some,
    ensures
        !text.contains(','),
{
    let digits = unsigned_digits(text);
    assert forall|i: int| 0 <= i < text.len() implies text[i] != ',' by {
        if text[0] == '+' {
            if i > 0 {
                assert(is_digit(digits[i - 1]));
            }
        } else {
            assert(is_digit(digits[i]));
        }
    }
}

/// Reading a line from left to right finds exactly what the line says: a text
/// is read as `line` if and only if it is the name of `line` without a comma
/// in it, a comma, a text that denotes its positive quantity, a comma, and the
/// name of its unit.
pub proof fn lemma_line_format(text: Seq<char>, line: IngredientLine)
    ensures
        line_of(text) == Some(line) <==> says(text, line),
{
    lemma_unit_names_differ();
    let a = first_comma(text);
    let rest = text.skip(a + 1);
    let b = first_comma(rest);
    lemma_first_comma(text);
    if line_of(text) == Some(line) {
        lemma_first_comma(rest);
        let quantity = rest.take(b);
        let unit = rest.skip(b + 1);
        assert(joined(line.name, quantity, unit) =~= text);
        assert(!line.name.contains(','));
    }
    if says(text, line) {
        let (quantity, unit) = choose|quantity: Seq<char>, unit: Seq<char>|
            {
                &&& #[trigger] joined(line.name, quantity, unit) == text
                &&& !line.name.contains(',')
                &&& u32_of(quantity) == Some(line.quantity)
                &&& line.quantity > 0
                &&& IngredientUnit::named(unit) == Some(line.unit)
            };
        let n = line.name.len() as int;
        assert(text[n] == ',');
        assert forall|k: int| 0 <= k < n implies text[k] != ',' by {
            assert(text[k] == line.name[k]);
            assert(line.name.contains(line.name[k]));
        }
        lemma_first_comma_is(text, n);
        assert(text.take(n) =~= line.name);
        assert(rest =~= quantity + seq![','] + unit);
        lemma_number_has_no_comma(quantity);
        let m = quantity.len() as int;
        assert(rest[m] == ',');
        assert forall|k: int| 0 <= k < m implies rest[k] != ',' by {
            assert(rest[k] == quantity[k]);
            assert(quantity.contains(quantity[k]));
        }
        lemma_first_comma_is(rest, m);
        assert(rest.take(m) =~= quantity);
        assert(rest.skip(m + 1) =~= unit);
    }
}

/// An ingredient of a recipe: which ingredient, how much of it, in which unit.
#[derive(Debug, Clone, PartialEq, Eq)]
pub struct RecipeIngredient {
    pub ingredient_name: String,
    pub quantity: u32,
    pub unit: IngredientUnit,
}

impl View for RecipeIngredient {
    type V = IngredientLine;

    open spec fn view(&self) -> IngredientLine {
        IngredientLine { name: self.ingredient_name@, quantity: self.quantity, unit: self.unit }
    }
}

/// The first comma of `chars` at or after `from`, or the length of `chars`.
fn find_comma(chars: &Vec<char>, from: usize) -> (at: usize)
    requires
        from <= chars.len(),
    ensures
        from <= at <= chars.len(),
        at - from == first_comma(chars@.skip(from as int)),
{
    let mut i: usize = from;
    while i < chars.len() && chars[i] != ','
        invariant
            from <= i <= chars.len(),
            forall|k: int| from <= k < i ==> chars@[k] != ',',
        decreases chars.len() - i,
    {
        i += 1;
    }
    proof {
        lemma_first_comma_is(chars@.skip(from as int), i - from);
    }
    i
}

impl RecipeIngredient {
    /// Reads an ingredient line of the form `name,quantity,unit`: a name
    /// without a comma, a positive quantity and one of the two units, with
    /// nothing around them. Any other line is turned down.
    pub fn try_from(s: String) -> (r: Result<RecipeIngredient, DecodingError>)
        ensures
            ok_view(r) == match line_of(s@) {
                Some(line) => Ok(line),
                None => Err(DecodingError::InvalidIngredientLine),
            },
    {
        let chars = chars_of(s.as_str());
        let n = chars.len();
        let a = find_comma(&chars, 0);
        assert(chars@.skip(0) =~= chars@);
        if a >= n {
            return Err(DecodingError::InvalidIngredientLine);
        }
        let b = find_comma(&chars, a + 1);
        let ghost rest = s@.skip(a + 1);
        if b >= n {
            return Err(DecodingError::InvalidIngredientLine);
        }
        assert(rest.take(b - (a + 1)) =~= chars@.subrange(a + 1, b as int));
        assert(rest.skip(b - (a + 1) + 1) =~= chars@.subrange(b + 1, n as int));
        let quantity = parse_u32_in(&chars, a + 1, b);
        let unit = unit_in(&chars, b + 1, n);
        match (quantity, unit) {
            (Some(quantity), Some(unit)) => {
                if quantity > 0 {
                    let ingredient_name = s.as_str().substring_char(0, a).to_owned();
                    assert(s@.subrange(0, a as int) =~= s@.take(a as int));
                    Ok(RecipeIngredient { ingredient_name, quantity, unit })
                } else {
                    Err(DecodingError::InvalidIngredientLine)
                }
            },
            _ => Err(DecodingError::InvalidIngredientLine),
        }
    }
}

} // verus!
